//! The packets exchanged over the control socket, their binary form and the
//! reply that each one gets.

use vstd::prelude::*;
use vstd::slice::slice_subrange;

use crate::ids::ServiceId;
use crate::service::{ServiceConf, ServiceConfView, opt_chars};
use crate::wire::{
    WireError, after, bool_field, bytes_field, lemma_bool_field_roundtrip,
    lemma_bytes_field_roundtrip, lemma_opt_str_field_roundtrip, lemma_parse_varint_len,
    lemma_str_field_roundtrip, lemma_varint_roundtrip, opt_str_field, opt_text_fits,
    parse_bool_field, parse_bytes_field, parse_opt_str_field, parse_str_field, parse_varint,
    read_bool_field, read_bytes_field, read_opt_str_field, read_str_field, read_u32, str_field,
    text_fits, varint, write_bool_field, write_bytes_field, write_opt_str_field, write_str_field,
    write_u32,
};

verus! {

/// A message of the control protocol.
#[derive(Debug)]
pub enum SalarymanPacket {
    Ping,
    Pong,
    Okay,
    Create(ServiceConf),
    Delete(ServiceId),
    Start(ServiceId),
    Stop(ServiceId),
    Restart(ServiceId),
    Quit,
    Invalid,
}

/// Mathematical model of a [`SalarymanPacket`].
pub enum PacketView {
    Ping,
    Pong,
    Okay,
    Create(ServiceConfView),
    Delete(Seq<u8>),
    Start(Seq<u8>),
    Stop(Seq<u8>),
    Restart(Seq<u8>),
    Quit,
    Invalid,
}

impl View for SalarymanPacket {
    type V = PacketView;

    open spec fn view(&self) -> PacketView {
        match self {
            SalarymanPacket::Ping => PacketView::Ping,
            SalarymanPacket::Pong => PacketView::Pong,
            SalarymanPacket::Okay => PacketView::Okay,
            SalarymanPacket::Create(c) => PacketView::Create(c@),
            SalarymanPacket::Delete(u) => PacketView::Delete(u@),
            SalarymanPacket::Start(u) => PacketView::Start(u@),
            SalarymanPacket::Stop(u) => PacketView::Stop(u@),
            SalarymanPacket::Restart(u) => PacketView::Restart(u@),
            SalarymanPacket::Quit => PacketView::Quit,
            SalarymanPacket::Invalid => PacketView::Invalid,
        }
    }
}

/// The position of the packet's kind in the declaration, which the wire
/// carries first.
pub open spec fn kind_index(p: PacketView) -> nat {
    match p {
        PacketView::Ping => 0,
        PacketView::Pong => 1,
        PacketView::Okay => 2,
        PacketView::Create(_) => 3,
        PacketView::Delete(_) => 4,
        PacketView::Start(_) => 5,
        PacketView::Stop(_) => 6,
        PacketView::Restart(_) => 7,
        PacketView::Quit => 8,
        PacketView::Invalid => 9,
    }
}

/// A configuration on the wire: its fields in declaration order.
pub open spec fn conf_bytes(c: ServiceConfView) -> Seq<u8> {
    bytes_field(c.uuid) + str_field(c.name) + str_field(c.command) + opt_str_field(c.args)
        + opt_str_field(c.directory) + bool_field(c.autostart)
}

/// A packet on the wire: its kind, then its content.
pub open spec fn packet_bytes(p: PacketView) -> Seq<u8> {
    varint(kind_index(p)) + match p {
        PacketView::Create(c) => conf_bytes(c),
        PacketView::Delete(u) => bytes_field(u),
        PacketView::Start(u) => bytes_field(u),
        PacketView::Stop(u) => bytes_field(u),
        PacketView::Restart(u) => bytes_field(u),
        _ => Seq::empty(),
    }
}

/// Reads an identifier: a byte string of 16 bytes.
pub open spec fn parse_uuid_field(b: Seq<u8>) -> Option<(Seq<u8>, nat)> {
    match parse_bytes_field(b) {
        Some((u, n)) => if u.len() == 16 {
            Some((u, n))
        } else {
            None
        },
        None => None,
    }
}

/// Reads a configuration from the front of `b`: the value and its size.
pub open spec fn parse_conf(b: Seq<u8>) -> Option<(ServiceConfView, nat)> {
    match parse_uuid_field(b) {
        None => None,
        Some((uuid, n1)) => match parse_str_field(after(b, n1)) {
            None => None,
            Some((name, n2)) => match parse_str_field(after(b, n1 + n2)) {
                None => None,
                Some((command, n3)) => match parse_opt_str_field(after(b, n1 + n2 + n3)) {
                    None => None,
                    Some((args, n4)) => match parse_opt_str_field(after(b, n1 + n2 + n3 + n4)) {
                        None => None,
                        Some((directory, n5)) => match parse_bool_field(
                            after(b, n1 + n2 + n3 + n4 + n5),
                        ) {
                            None => None,
                            Some((autostart, n6)) => Some(
                                (
                                    ServiceConfView {
                                        uuid,
                                        name,
                                        command,
                                        args,
                                        directory,
                                        autostart,
                                    },
                                    n1 + n2 + n3 + n4 + n5 + n6,
                                ),
                            ),
                        },
                    },
                },
            },
        },
    }
}

/// Reads a packet from the front of `b`; bytes after it are ignored.
pub open spec fn parse_packet(b: Seq<u8>) -> Option<PacketView> {
    match parse_varint(b, 252) {
        None => None,
        Some((kind, n)) => {
            let rest = after(b, n);
            if kind == 0 {
                Some(PacketView::Ping)
            } else if kind == 1 {
                Some(PacketView::Pong)
            } else if kind == 2 {
                Some(PacketView::Okay)
            } else if kind == 3 {
                match parse_conf(rest) {
                    Some((c, _)) => Some(PacketView::Create(c)),
                    None => None,
                }
            } else if 4 <= kind <= 7 {
                match parse_uuid_field(rest) {
                    Some((u, _)) => Some(
                        if kind == 4 {
                            PacketView::Delete(u)
                        } else if kind == 5 {
                            PacketView::Start(u)
                        } else if kind == 6 {
                            PacketView::Stop(u)
                        } else {
                            PacketView::Restart(u)
                        },
                    ),
                    None => None,
                }
            } else if kind == 8 {
                Some(PacketView::Quit)
            } else if kind == 9 {
                Some(PacketView::Invalid)
            } else {
                None
            }
        },
    }
}

/// The reply owed to a packet: `Pong` to a ping, `Okay` to a request,
/// `Invalid` to anything else.
pub open spec fn response_of(p: PacketView) -> PacketView {
    match p {
        PacketView::Ping => PacketView::Pong,
        PacketView::Create(_) => PacketView::Okay,
        PacketView::Delete(_) => PacketView::Okay,
        PacketView::Start(_) => PacketView::Okay,
        PacketView::Stop(_) => PacketView::Okay,
        PacketView::Restart(_) => PacketView::Okay,
        PacketView::Quit => PacketView::Okay,
        _ => PacketView::Invalid,
    }
}

/// A configuration whose identifier has 16 bytes and whose texts fit a
/// 64-bit length, as every configuration in memory does.
pub open spec fn conf_fits(c: ServiceConfView) -> bool {
    &&& c.uuid.len() == 16
    &&& text_fits(c.name)
    &&& text_fits(c.command)
    &&& opt_text_fits(c.args)
    &&& opt_text_fits(c.directory)
}

/// A packet whose identifier and configuration fit, as every packet in memory does.
pub open spec fn packet_fits(p: PacketView) -> bool {
    match p {
        PacketView::Create(c) => conf_fits(c),
        PacketView::Delete(u) => u.len() == 16,
        PacketView::Start(u) => u.len() == 16,
        PacketView::Stop(u) => u.len() == 16,
        PacketView::Restart(u) => u.len() == 16,
        _ => true,
    }
}

/// The reply to each packet: `Pong` to a ping; `Okay` to a creation,
/// deletion, start, stop, restart or quit; `Invalid` to a reply (`Pong`,
/// `Okay`, `Invalid`).
pub proof fn lemma_replies(c: ServiceConfView, u: Seq<u8>)
    ensures
        response_of(PacketView::Ping) == PacketView::Pong,
        response_of(PacketView::Create(c)) == PacketView::Okay,
        response_of(PacketView::Delete(u)) == PacketView::Okay,
        response_of(PacketView::Start(u)) == PacketView::Okay,
        response_of(PacketView::Stop(u)) == PacketView::Okay,
        response_of(PacketView::Restart(u)) == PacketView::Okay,
        response_of(PacketView::Quit) == PacketView::Okay,
        response_of(PacketView::Pong) == PacketView::Invalid,
        response_of(PacketView::Okay) == PacketView::Invalid,
        response_of(PacketView::Invalid) == PacketView::Invalid,
{
}

/// A configuration reads back as the one written, whatever follows it.
pub proof fn lemma_conf_roundtrip(c: ServiceConfView, rest: Seq<u8>)
    requires
        conf_fits(c),
    ensures
        parse_conf(conf_bytes(c) + rest) == Some((c, conf_bytes(c).len())),
{
    let f1 = bytes_field(c.uuid);
    let f2 = str_field(c.name);
    let f3 = str_field(c.command);
    let f4 = opt_str_field(c.args);
    let f5 = opt_str_field(c.directory);
    let f6 = bool_field(c.autostart);
    let b = conf_bytes(c) + rest;
    assert(b =~= f1 + (f2 + f3 + f4 + f5 + f6 + rest));
    lemma_bytes_field_roundtrip(c.uuid, f2 + f3 + f4 + f5 + f6 + rest);
    let n1 = f1.len();
    assert(after(b, n1) =~= f2 + (f3 + f4 + f5 + f6 + rest));
    lemma_str_field_roundtrip(c.name, f3 + f4 + f5 + f6 + rest);
    let n2 = f2.len();
    assert(after(b, n1 + n2) =~= f3 + (f4 + f5 + f6 + rest));
    lemma_str_field_roundtrip(c.command, f4 + f5 + f6 + rest);
    let n3 = f3.len();
    assert(after(b, n1 + n2 + n3) =~= f4 + (f5 + f6 + rest));
    lemma_opt_str_field_roundtrip(c.args, f5 + f6 + rest);
    let n4 = f4.len();
    assert(after(b, n1 + n2 + n3 + n4) =~= f5 + (f6 + rest));
    lemma_opt_str_field_roundtrip(c.directory, f6 + rest);
    let n5 = f5.len();
    assert(after(b, n1 + n2 + n3 + n4 + n5) =~= f6 + rest);
    lemma_bool_field_roundtrip(c.autostart, rest);
}

/// Decoding the encoding of a packet gives the packet back, whatever follows it.
pub proof fn lemma_packet_roundtrip(p: PacketView, rest: Seq<u8>)
    requires
        packet_fits(p),
    ensures
        parse_packet(packet_bytes(p) + rest) == Some(p),
{
    let body = match p {
        PacketView::Create(c) => conf_bytes(c),
        PacketView::Delete(u) => bytes_field(u),
        PacketView::Start(u) => bytes_field(u),
        PacketView::Stop(u) => bytes_field(u),
        PacketView::Restart(u) => bytes_field(u),
        _ => Seq::empty(),
    };
    let b = packet_bytes(p) + rest;
    let k = varint(kind_index(p));
    assert(b =~= k + (body + rest));
    lemma_varint_roundtrip(kind_index(p), body + rest, 252);
    assert(after(b, k.len()) =~= body + rest);
    match p {
        PacketView::Create(c) => {
            lemma_conf_roundtrip(c, rest);
        },
        PacketView::Delete(u) => {
            lemma_bytes_field_roundtrip(u, rest);
        },
        PacketView::Start(u) => {
            lemma_bytes_field_roundtrip(u, rest);
        },
        PacketView::Stop(u) => {
            lemma_bytes_field_roundtrip(u, rest);
        },
        PacketView::Restart(u) => {
            lemma_bytes_field_roundtrip(u, rest);
        },
        _ => {},
    }
}

/// The bytes of each packet: its position in the declaration as a single byte
/// (Ping 0, Pong 1, Okay 2, Create 3, Delete 4, Start 5, Stop 6, Restart 7,
/// Quit 8, Invalid 9), then its content: the configuration's fields in
/// declaration order, or the identifier as a byte string.
pub proof fn lemma_packet_layout(c: ServiceConfView, u: Seq<u8>)
    ensures
        packet_bytes(PacketView::Ping) == seq![0u8],
        packet_bytes(PacketView::Pong) == seq![1u8],
        packet_bytes(PacketView::Okay) == seq![2u8],
        packet_bytes(PacketView::Create(c)) == seq![3u8] + bytes_field(c.uuid) + str_field(c.name)
            + str_field(c.command) + opt_str_field(c.args) + opt_str_field(c.directory) + bool_field(
            c.autostart,
        ),
        packet_bytes(PacketView::Delete(u)) == seq![4u8] + bytes_field(u),
        packet_bytes(PacketView::Start(u)) == seq![5u8] + bytes_field(u),
        packet_bytes(PacketView::Stop(u)) == seq![6u8] + bytes_field(u),
        packet_bytes(PacketView::Restart(u)) == seq![7u8] + bytes_field(u),
        packet_bytes(PacketView::Quit) == seq![8u8],
        packet_bytes(PacketView::Invalid) == seq![9u8],
{
    assert(packet_bytes(PacketView::Ping) =~= seq![0u8]);
    assert(packet_bytes(PacketView::Pong) =~= seq![1u8]);
    assert(packet_bytes(PacketView::Okay) =~= seq![2u8]);
    assert(packet_bytes(PacketView::Quit) =~= seq![8u8]);
    assert(packet_bytes(PacketView::Invalid) =~= seq![9u8]);
    assert(packet_bytes(PacketView::Create(c)) =~= seq![3u8] + bytes_field(c.uuid) + str_field(c.name)
        + str_field(c.command) + opt_str_field(c.args) + opt_str_field(c.directory) + bool_field(
        c.autostart,
    ));
}

/// A kind byte of 0 to 250 reads as that kind and takes one byte.
proof fn lemma_small_kind(k: u8, rest: Seq<u8>)
    requires
        k <= 250,
    ensures
        parse_varint(seq![k] + rest, 252) == Some((k as nat, 1nat)),
        after(seq![k] + rest, 1) == rest,
{
    reveal(parse_varint);
    assert(after(seq![k] + rest, 1) =~= rest);
}

/// What bytes decode as, by their first byte: 0, 1, 2, 8 and 9 are the packets
/// without content, whatever follows; 3 followed by a configuration's fields
/// is that configuration's creation; 4, 5, 6 and 7 followed by a 16-byte
/// identifier are its deletion, start, stop and restart; 10 to 250 are no packet.
pub proof fn lemma_packet_decoding(c: ServiceConfView, u: Seq<u8>, rest: Seq<u8>)
    requires
        conf_fits(c),
        u.len() == 16,
    ensures
        parse_packet(seq![0u8] + rest) == Some(PacketView::Ping),
        parse_packet(seq![1u8] + rest) == Some(PacketView::Pong),
        parse_packet(seq![2u8] + rest) == Some(PacketView::Okay),
        parse_packet(seq![8u8] + rest) == Some(PacketView::Quit),
        parse_packet(seq![9u8] + rest) == Some(PacketView::Invalid),
        parse_packet(
            seq![3u8] + (bytes_field(c.uuid) + str_field(c.name) + str_field(c.command) + opt_str_field(
                c.args,
            ) + opt_str_field(c.directory) + bool_field(c.autostart) + rest),
        ) == Some(PacketView::Create(c)),
        parse_packet(seq![4u8] + (bytes_field(u) + rest)) == Some(PacketView::Delete(u)),
        parse_packet(seq![5u8] + (bytes_field(u) + rest)) == Some(PacketView::Start(u)),
        parse_packet(seq![6u8] + (bytes_field(u) + rest)) == Some(PacketView::Stop(u)),
        parse_packet(seq![7u8] + (bytes_field(u) + rest)) == Some(PacketView::Restart(u)),
        forall|k: u8| 10 <= k <= 250 ==> parse_packet(#[trigger] (seq![k] + rest)) is None,
{
    lemma_small_kind(0, rest);
    lemma_small_kind(1, rest);
    lemma_small_kind(2, rest);
    lemma_small_kind(8, rest);
    lemma_small_kind(9, rest);
    let body = bytes_field(c.uuid) + str_field(c.name) + str_field(c.command) + opt_str_field(c.args)
        + opt_str_field(c.directory) + bool_field(c.autostart) + rest;
    lemma_small_kind(3, body);
    assert(body =~= conf_bytes(c) + rest);
    lemma_conf_roundtrip(c, rest);
    let ub = bytes_field(u) + rest;
    lemma_bytes_field_roundtrip(u, rest);
    lemma_small_kind(4, ub);
    lemma_small_kind(5, ub);
    lemma_small_kind(6, ub);
    lemma_small_kind(7, ub);
    assert forall|k: u8| 10 <= k <= 250 implies parse_packet(#[trigger] (seq![k] + rest)) is None by {
        lemma_small_kind(k, rest);
    }
}

/// The reply to any packet is `Pong`, `Okay` or `Invalid`, and a reply to a
/// reply is always `Invalid`.
pub proof fn lemma_response_is_reply(p: PacketView)
    ensures
        response_of(p) is Pong || response_of(p) is Okay || response_of(p) is Invalid,
        response_of(response_of(p)) == PacketView::Invalid,
{
}

/// Appends the encoding of a configuration.
fn write_conf(out: &mut Vec<u8>, c: &ServiceConf)
    ensures
        final(out)@ == old(out)@ + conf_bytes(c@),
{
    let ghost start = out@;
    let id = c.get_uuid();
    write_bytes_field(out, id.bytes.as_slice());
    write_str_field(out, c.get_name());
    write_str_field(out, c.get_command());
    write_opt_str_field(out, c.get_args());
    write_opt_str_field(out, c.get_work_dir());
    write_bool_field(out, c.get_autostart());
    assert(out@ =~= start + conf_bytes(c@));
}

/// Reads an identifier from the front of `b`: the value and its size.
fn read_uuid_field(b: &[u8]) -> (r: Result<(ServiceId, usize), WireError>)
    ensures
        r is Ok <==> parse_uuid_field(b@) is Some,
        r matches Ok((u, n)) ==> parse_uuid_field(b@) == Some((u@, n as nat)),
        r matches Ok((_, n)) ==> n <= b@.len(),
{
    let (bytes, n) = read_bytes_field(b)?;
    match ServiceId::from_slice(bytes.as_slice()) {
        Some(id) => Ok((id, n)),
        None => Err(WireError::BadIdentifier),
    }
}

/// Reads a configuration from the front of `b`: the value and its size.
fn read_conf(b: &[u8]) -> (r: Result<(ServiceConf, usize), WireError>)
    ensures
        r is Ok <==> parse_conf(b@) is Some,
        r matches Ok((c, n)) ==> parse_conf(b@) == Some((c@, n as nat)),
        r matches Ok((_, n)) ==> n <= b@.len(),
{
    let (uuid, n1) = read_uuid_field(b)?;
    let s1 = slice_subrange(b, n1, b.len());
    assert(s1@ =~= after(b@, n1 as nat));
    let (name, n2) = read_str_field(s1)?;
    let s2 = slice_subrange(s1, n2, s1.len());
    assert(s2@ =~= after(b@, (n1 + n2) as nat));
    let (command, n3) = read_str_field(s2)?;
    let s3 = slice_subrange(s2, n3, s2.len());
    assert(s3@ =~= after(b@, (n1 + n2 + n3) as nat));
    let (args, n4) = read_opt_str_field(s3)?;
    let s4 = slice_subrange(s3, n4, s3.len());
    assert(s4@ =~= after(b@, (n1 + n2 + n3 + n4) as nat));
    let (directory, n5) = read_opt_str_field(s4)?;
    let s5 = slice_subrange(s4, n5, s4.len());
    assert(s5@ =~= after(b@, (n1 + n2 + n3 + n4 + n5) as nat));
    let (autostart, n6) = read_bool_field(s5)?;
    let conf = ServiceConf::from_parts(uuid, name, command, args, directory, autostart);
    Ok((conf, n1 + n2 + n3 + n4 + n5 + n6))
}

/// The UTF-8 bytes of a text in memory fit a 64-bit length.
fn check_text_fits(s: &str)
    ensures
        text_fits(s@),
{
    let n = s.as_bytes().len();
    assert(n as int <= u64::MAX);
}

/// An optional text in memory fits a 64-bit length.
fn check_opt_text_fits(o: &Option<String>)
    ensures
        opt_text_fits(opt_chars(*o)),
{
    if let Some(s) = o {
        check_text_fits(s.as_str());
    }
}

impl SalarymanPacket {
    /// Encodes the packet for transmission. A packet in memory always fits
    /// ([`packet_fits`]), so by [`lemma_packet_roundtrip`] decoding the bytes
    /// gives the packet back.
    pub fn serialize(&self) -> (r: Result<Vec<u8>, bincode::error::EncodeError>)
        ensures
            r is Ok,
            r matches Ok(b) ==> b@ == packet_bytes(self@),
            packet_fits(self@),
    {
        if let SalarymanPacket::Create(c) = self {
            check_text_fits(c.get_name());
            check_text_fits(c.get_command());
            check_opt_text_fits(c.get_args());
            check_opt_text_fits(c.get_work_dir());
            let id = c.get_uuid();
            assert(id.bytes@.len() == 16);
        }
        let mut out: Vec<u8> = Vec::new();
        match self {
            SalarymanPacket::Ping => write_u32(&mut out, 0),
            SalarymanPacket::Pong => write_u32(&mut out, 1),
            SalarymanPacket::Okay => write_u32(&mut out, 2),
            SalarymanPacket::Create(c) => {
                write_u32(&mut out, 3);
                write_conf(&mut out, c);
            },
            SalarymanPacket::Delete(u) => {
                write_u32(&mut out, 4);
                write_bytes_field(&mut out, u.bytes.as_slice());
            },
            SalarymanPacket::Start(u) => {
                write_u32(&mut out, 5);
                write_bytes_field(&mut out, u.bytes.as_slice());
            },
            SalarymanPacket::Stop(u) => {
                write_u32(&mut out, 6);
                write_bytes_field(&mut out, u.bytes.as_slice());
            },
            SalarymanPacket::Restart(u) => {
                write_u32(&mut out, 7);
                write_bytes_field(&mut out, u.bytes.as_slice());
            },
            SalarymanPacket::Quit => write_u32(&mut out, 8),
            SalarymanPacket::Invalid => write_u32(&mut out, 9),
        }
        assert(out@ =~= packet_bytes(self@));
        Ok(out)
    }

    /// Decodes a packet from the front of `data`; what follows it is ignored.
    pub fn deserialize(data: &[u8]) -> (r: Result<SalarymanPacket, WireError>)
        ensures
            r is Ok <==> parse_packet(data@) is Some,
            r matches Ok(p) ==> parse_packet(data@) == Some(p@),
    {
        let (kind, n) = read_u32(data)?;
        proof {
            lemma_parse_varint_len(data@, 252);
        }
        let rest = slice_subrange(data, n, data.len());
        assert(rest@ =~= after(data@, n as nat));
        if kind == 0 {
            Ok(SalarymanPacket::Ping)
        } else if kind == 1 {
            Ok(SalarymanPacket::Pong)
        } else if kind == 2 {
            Ok(SalarymanPacket::Okay)
        } else if kind == 3 {
            let (c, _) = read_conf(rest)?;
            Ok(SalarymanPacket::Create(c))
        } else if 4 <= kind && kind <= 7 {
            let (u, _) = read_uuid_field(rest)?;
            if kind == 4 {
                Ok(SalarymanPacket::Delete(u))
            } else if kind == 5 {
                Ok(SalarymanPacket::Start(u))
            } else if kind == 6 {
                Ok(SalarymanPacket::Stop(u))
            } else {
                Ok(SalarymanPacket::Restart(u))
            }
        } else if kind == 8 {
            Ok(SalarymanPacket::Quit)
        } else if kind == 9 {
            Ok(SalarymanPacket::Invalid)
        } else {
            Err(WireError::UnknownKind)
        }
    }

    /// The reply to this packet: `Pong` to a ping, `Okay` to a request,
    /// `Invalid` to anything else.
    pub fn response(&self) -> (r: SalarymanPacket)
        ensures
            r@ == response_of(self@),
    {
        match self {
            SalarymanPacket::Ping => SalarymanPacket::Pong,
            SalarymanPacket::Create(_) => SalarymanPacket::Okay,
            SalarymanPacket::Delete(_) => SalarymanPacket::Okay,
            SalarymanPacket::Start(_) => SalarymanPacket::Okay,
            SalarymanPacket::Stop(_) => SalarymanPacket::Okay,
            SalarymanPacket::Restart(_) => SalarymanPacket::Okay,
            SalarymanPacket::Quit => SalarymanPacket::Okay,
            _ => SalarymanPacket::Invalid,
        }
    }
}

} // verus!
