//! The field encodings of the control protocol: bincode's standard
//! configuration (little-endian, variable-length integers, no size limit).
//!
//! Each field is written and read by bincode itself; this module states the
//! bytes it produces and accepts, and reads fields from a byte slice without
//! letting a length prefix ask for more bytes than the slice holds.

use vstd::prelude::*;
use vstd::slice::slice_subrange;
use vstd::utf8::{decode_utf8, encode_utf8, encode_utf8_decode_utf8, encode_utf8_valid_utf8, valid_utf8};

verus! {

#[verifier::external_type_specification]
#[verifier::external_body]
pub struct ExEncodeError(bincode::error::EncodeError);

#[verifier::external_type_specification]
#[verifier::external_body]
pub struct ExDecodeError(bincode::error::DecodeError);

/// `256^n`.
pub open spec fn pow256(n: nat) -> nat
    decreases n,
{
    if n == 0 {
        1
    } else {
        256 * pow256((n - 1) as nat)
    }
}

/// The `n` low bytes of `v`, least significant first.
pub open spec fn le_bytes(v: nat, n: nat) -> Seq<u8>
    decreases n,
{
    if n == 0 {
        Seq::empty()
    } else {
        seq![(v % 256) as u8] + le_bytes(v / 256, (n - 1) as nat)
    }
}

/// The number whose bytes, least significant first, are `b`.
pub open spec fn le_value(b: Seq<u8>) -> nat
    decreases b.len(),
{
    if b.len() == 0 {
        0
    } else {
        b[0] as nat + 256 * le_value(b.drop_first())
    }
}

/// Variable-length encoding of an unsigned integer below 2^64: one byte up to
/// 250; otherwise a marker (251, 252, 253) and the value in 2, 4 or 8
/// little-endian bytes.
pub open spec fn varint(v: nat) -> Seq<u8> {
    if v <= 250 {
        seq![v as u8]
    } else if v <= 0xffff {
        seq![251u8] + le_bytes(v, 2)
    } else if v <= 0xffff_ffff {
        seq![252u8] + le_bytes(v, 4)
    } else {
        seq![253u8] + le_bytes(v, 8)
    }
}

/// Reads a variable-length integer from the front of `b`: its value and the
/// number of bytes it takes. `widest` is the widest marker the target type
/// accepts: 252 for `u32`, 253 for `u64`.
#[verifier::opaque]
pub open spec fn parse_varint(b: Seq<u8>, widest: u8) -> Option<(nat, nat)> {
    if b.len() == 0 {
        None
    } else if b[0] <= 250 {
        Some((b[0] as nat, 1))
    } else if b[0] == 251 {
        if b.len() >= 3 {
            Some((le_value(b.subrange(1, 3)), 3))
        } else {
            None
        }
    } else if b[0] == 252 && widest >= 252 {
        if b.len() >= 5 {
            Some((le_value(b.subrange(1, 5)), 5))
        } else {
            None
        }
    } else if b[0] == 253 && widest >= 253 {
        if b.len() >= 9 {
            Some((le_value(b.subrange(1, 9)), 9))
        } else {
            None
        }
    } else {
        None
    }
}

/// A byte string: its length, then its bytes.
pub open spec fn bytes_field(b: Seq<u8>) -> Seq<u8> {
    varint(b.len()) + b
}

/// A text: its UTF-8 bytes as a byte string.
pub open spec fn str_field(s: Seq<char>) -> Seq<u8> {
    bytes_field(encode_utf8(s))
}

/// An optional text: 0, or 1 and the text.
pub open spec fn opt_str_field(o: Option<Seq<char>>) -> Seq<u8> {
    match o {
        None => seq![0u8],
        Some(s) => seq![1u8] + str_field(s),
    }
}

/// A boolean: one byte, 0 or 1.
pub open spec fn bool_field(b: bool) -> Seq<u8> {
    seq![if b { 1u8 } else { 0u8 }]
}

/// What follows the first `n` bytes of `b`.
pub open spec fn after(b: Seq<u8>, n: nat) -> Seq<u8> {
    b.subrange(n as int, b.len() as int)
}

/// Reads a byte string from the front of `b`.
#[verifier::opaque]
pub open spec fn parse_bytes_field(b: Seq<u8>) -> Option<(Seq<u8>, nat)> {
    match parse_varint(b, 253) {
        None => None,
        Some((len, k)) => if k + len <= b.len() {
            Some((b.subrange(k as int, (k + len) as int), k + len))
        } else {
            None
        },
    }
}

/// Reads a text from the front of `b`: a byte string that is valid UTF-8.
#[verifier::opaque]
pub open spec fn parse_str_field(b: Seq<u8>) -> Option<(Seq<char>, nat)> {
    match parse_bytes_field(b) {
        None => None,
        Some((bytes, n)) => if valid_utf8(bytes) {
            Some((decode_utf8(bytes), n))
        } else {
            None
        },
    }
}

/// Reads an optional text from the front of `b`.
#[verifier::opaque]
pub open spec fn parse_opt_str_field(b: Seq<u8>) -> Option<(Option<Seq<char>>, nat)> {
    if b.len() == 0 {
        None
    } else if b[0] == 0 {
        Some((None, 1))
    } else if b[0] == 1 {
        match parse_str_field(b.drop_first()) {
            None => None,
            Some((s, n)) => Some((Some(s), n + 1)),
        }
    } else {
        None
    }
}

/// Reads a boolean from the front of `b`.
#[verifier::opaque]
pub open spec fn parse_bool_field(b: Seq<u8>) -> Option<(bool, nat)> {
    if b.len() == 0 {
        None
    } else if b[0] == 0 {
        Some((false, 1))
    } else if b[0] == 1 {
        Some((true, 1))
    } else {
        None
    }
}

/// The length prefix at the front of `b`, if it reads, asks for no more bytes
/// than follow it.
pub open spec fn length_prefix_fits(b: Seq<u8>) -> bool {
    parse_varint(b, 253) matches Some((len, k)) ==> k + len <= b.len()
}

// ---------------------------------------------------------------------------
// bincode calls
// ---------------------------------------------------------------------------

/// Calls `bincode::encode_to_vec` on a `u32` with the standard configuration.
/// Its source writes the variable-length integer into a growing vector, which
/// cannot fail.
#[verifier::external_body]
fn encode_u32(v: u32) -> (r: Result<Vec<u8>, bincode::error::EncodeError>)
    ensures
        r is Ok,
        r matches Ok(b) ==> b@ == varint(v as nat),
{
    bincode::encode_to_vec(v, bincode::config::standard())
}

/// Calls `bincode::encode_to_vec` on a byte slice with the standard
/// configuration: the length as a `u64`, then the bytes; it cannot fail.
#[verifier::external_body]
fn encode_byte_slice(b: &[u8]) -> (r: Result<Vec<u8>, bincode::error::EncodeError>)
    ensures
        r is Ok,
        r matches Ok(e) ==> e@ == bytes_field(b@),
{
    bincode::encode_to_vec(b, bincode::config::standard())
}

/// Calls `bincode::encode_to_vec` on a `str` with the standard configuration:
/// its UTF-8 bytes as a byte slice; it cannot fail.
#[verifier::external_body]
fn encode_str(s: &str) -> (r: Result<Vec<u8>, bincode::error::EncodeError>)
    ensures
        r is Ok,
        r matches Ok(e) ==> e@ == str_field(s@),
{
    bincode::encode_to_vec(s, bincode::config::standard())
}

/// Calls `bincode::encode_to_vec` on an `Option<String>` with the standard
/// configuration: the byte 0, or the byte 1 and the text; it cannot fail.
#[verifier::external_body]
fn encode_opt_string(o: &Option<String>) -> (r: Result<Vec<u8>, bincode::error::EncodeError>)
    ensures
        r is Ok,
        r matches Ok(e) ==> e@ == opt_str_field(crate::service::opt_chars(*o)),
{
    bincode::encode_to_vec(o, bincode::config::standard())
}

/// Calls `bincode::encode_to_vec` on a `bool` with the standard configuration:
/// the byte 0 or 1; it cannot fail.
#[verifier::external_body]
fn encode_bool(v: bool) -> (r: Result<Vec<u8>, bincode::error::EncodeError>)
    ensures
        r is Ok,
        r matches Ok(e) ==> e@ == bool_field(v),
{
    bincode::encode_to_vec(v, bincode::config::standard())
}

/// Calls `bincode::decode_from_slice::<u32>` with the standard configuration:
/// the value and the number of bytes read, or an error.
#[verifier::external_body]
fn decode_u32(b: &[u8]) -> (r: Result<(u32, usize), bincode::error::DecodeError>)
    ensures
        r is Ok <==> parse_varint(b@, 252) is Some,
        r matches Ok((v, n)) ==> parse_varint(b@, 252) == Some((v as nat, n as nat)),
{
    bincode::decode_from_slice::<u32, _>(b, bincode::config::standard())
}

/// Calls `bincode::decode_from_slice::<u64>` with the standard configuration.
#[verifier::external_body]
fn decode_u64(b: &[u8]) -> (r: Result<(u64, usize), bincode::error::DecodeError>)
    ensures
        r is Ok <==> parse_varint(b@, 253) is Some,
        r matches Ok((v, n)) ==> parse_varint(b@, 253) == Some((v as nat, n as nat)),
{
    bincode::decode_from_slice::<u64, _>(b, bincode::config::standard())
}

/// Calls `bincode::decode_from_slice::<Vec<u8>>` with the standard
/// configuration. Its source allocates the announced length before reading,
/// so the announced length must fit in the slice.
#[verifier::external_body]
fn decode_byte_vec(b: &[u8]) -> (r: Result<(Vec<u8>, usize), bincode::error::DecodeError>)
    requires
        length_prefix_fits(b@),
    ensures
        r is Ok <==> parse_bytes_field(b@) is Some,
        r matches Ok((v, n)) ==> parse_bytes_field(b@) == Some((v@, n as nat)),
{
    bincode::decode_from_slice::<Vec<u8>, _>(b, bincode::config::standard())
}

/// Calls `bincode::decode_from_slice::<String>` with the standard
/// configuration: a byte string, then `String::from_utf8` on it.
#[verifier::external_body]
fn decode_string(b: &[u8]) -> (r: Result<(String, usize), bincode::error::DecodeError>)
    requires
        length_prefix_fits(b@),
    ensures
        r is Ok <==> parse_str_field(b@) is Some,
        r matches Ok((s, n)) ==> parse_str_field(b@) == Some((s@, n as nat)),
{
    bincode::decode_from_slice::<String, _>(b, bincode::config::standard())
}

/// Calls `bincode::decode_from_slice::<Option<String>>` with the standard
/// configuration: the byte 0, or the byte 1 and a text.
#[verifier::external_body]
fn decode_opt_string(b: &[u8]) -> (r: Result<(Option<String>, usize), bincode::error::DecodeError>)
    requires
        b@.len() > 0 && b@[0] == 1 ==> length_prefix_fits(b@.drop_first()),
    ensures
        r is Ok <==> parse_opt_str_field(b@) is Some,
        r matches Ok((o, n)) ==> parse_opt_str_field(b@) == Some((crate::service::opt_chars(o), n as nat)),
{
    bincode::decode_from_slice::<Option<String>, _>(b, bincode::config::standard())
}

/// Calls `bincode::decode_from_slice::<bool>` with the standard configuration.
#[verifier::external_body]
fn decode_bool(b: &[u8]) -> (r: Result<(bool, usize), bincode::error::DecodeError>)
    ensures
        r is Ok <==> parse_bool_field(b@) is Some,
        r matches Ok((v, n)) ==> parse_bool_field(b@) == Some((v, n as nat)),
{
    bincode::decode_from_slice::<bool, _>(b, bincode::config::standard())
}

// ---------------------------------------------------------------------------
// Facts about the encodings
// ---------------------------------------------------------------------------

proof fn lemma_pow256_values()
    ensures
        pow256(2) == 0x1_0000,
        pow256(4) == 0x1_0000_0000,
        pow256(8) == 0x1_0000_0000_0000_0000,
{
    reveal_with_fuel(pow256, 9);
}

/// Reading back `n` little-endian bytes gives the value written.
proof fn lemma_le_roundtrip(v: nat, n: nat)
    requires
        v < pow256(n),
    ensures
        le_bytes(v, n).len() == n,
        le_value(le_bytes(v, n)) == v,
    decreases n,
{
    if n > 0 {
        let m = (n - 1) as nat;
        let q = v / 256;
        let p = pow256(m);
        assert(q < p) by (nonlinear_arith)
            requires
                v < 256 * p,
                q == v / 256,
        ;
        lemma_le_roundtrip(q, m);
        let b = le_bytes(v, n);
        assert(b.drop_first() =~= le_bytes(q, m));
        assert(((v % 256) as u8) as nat == v % 256);
        assert(v == v % 256 + 256 * q) by (nonlinear_arith)
            requires
                q == v / 256,
        ;
    }
}

/// A variable-length integer reads back as the value written, whatever follows it.
pub proof fn lemma_varint_roundtrip(v: nat, rest: Seq<u8>, widest: u8)
    requires
        widest == 252 && v <= u32::MAX || widest == 253 && v <= u64::MAX,
    ensures
        parse_varint(varint(v) + rest, widest) == Some((v, varint(v).len())),
        1 <= varint(v).len() <= 9,
{
    reveal(parse_varint);
    lemma_pow256_values();
    let b = varint(v) + rest;
    if v <= 250 {
    } else if v <= 0xffff {
        lemma_le_roundtrip(v, 2);
        assert(b.subrange(1, 3) =~= le_bytes(v, 2));
    } else if v <= 0xffff_ffff {
        lemma_le_roundtrip(v, 4);
        assert(b.subrange(1, 5) =~= le_bytes(v, 4));
    } else {
        lemma_le_roundtrip(v, 8);
        assert(b.subrange(1, 9) =~= le_bytes(v, 8));
    }
}

/// A byte string reads back as the bytes written, whatever follows it.
pub proof fn lemma_bytes_field_roundtrip(x: Seq<u8>, rest: Seq<u8>)
    requires
        x.len() <= u64::MAX,
    ensures
        parse_bytes_field(bytes_field(x) + rest) == Some((x, bytes_field(x).len())),
{
    reveal(parse_bytes_field);
    let b = bytes_field(x) + rest;
    lemma_varint_roundtrip(x.len(), x + rest, 253);
    assert(b =~= varint(x.len()) + (x + rest));
    let k = varint(x.len()).len();
    assert(b.subrange(k as int, (k + x.len()) as int) =~= x);
}

/// A text reads back as the text written, whatever follows it.
pub proof fn lemma_str_field_roundtrip(s: Seq<char>, rest: Seq<u8>)
    requires
        encode_utf8(s).len() <= u64::MAX,
    ensures
        parse_str_field(str_field(s) + rest) == Some((s, str_field(s).len())),
{
    reveal(parse_str_field);
    lemma_bytes_field_roundtrip(encode_utf8(s), rest);
    encode_utf8_valid_utf8(s);
    encode_utf8_decode_utf8(s);
}

/// The UTF-8 bytes of a text fit a 64-bit length.
pub open spec fn text_fits(s: Seq<char>) -> bool {
    encode_utf8(s).len() <= u64::MAX
}

/// Every text of an optional text fits a 64-bit length.
pub open spec fn opt_text_fits(o: Option<Seq<char>>) -> bool {
    o matches Some(s) ==> text_fits(s)
}

/// An optional text reads back as the one written, whatever follows it.
pub proof fn lemma_opt_str_field_roundtrip(o: Option<Seq<char>>, rest: Seq<u8>)
    requires
        opt_text_fits(o),
    ensures
        parse_opt_str_field(opt_str_field(o) + rest) == Some((o, opt_str_field(o).len())),
{
    reveal(parse_opt_str_field);
    let b = opt_str_field(o) + rest;
    if let Some(s) = o {
        lemma_str_field_roundtrip(s, rest);
        assert(b.drop_first() =~= str_field(s) + rest);
    }
}

/// A boolean reads back as the one written, whatever follows it.
pub proof fn lemma_bool_field_roundtrip(v: bool, rest: Seq<u8>)
    ensures
        parse_bool_field(bool_field(v) + rest) == Some((v, 1nat)),
{
    reveal(parse_bool_field);
}

/// A read never claims more bytes than it was given.
pub proof fn lemma_parse_varint_len(b: Seq<u8>, widest: u8)
    ensures
        parse_varint(b, widest) matches Some((v, n)) ==> 1 <= n <= b.len(),
{
    reveal(parse_varint);
}

/// Every field read takes no more bytes than it was given.
pub proof fn lemma_field_sizes(b: Seq<u8>)
    ensures
        parse_varint(b, 252) matches Some((v, n)) ==> 1 <= n <= b.len(),
        parse_varint(b, 253) matches Some((v, n)) ==> 1 <= n <= b.len(),
        parse_bytes_field(b) matches Some((v, n)) ==> n <= b.len(),
        parse_str_field(b) matches Some((v, n)) ==> n <= b.len(),
        parse_opt_str_field(b) matches Some((v, n)) ==> n <= b.len(),
        parse_bool_field(b) matches Some((v, n)) ==> n <= b.len(),
        parse_str_field(b) is Some ==> parse_bytes_field(b) is Some,
{
    reveal(parse_varint);
    reveal(parse_bytes_field);
    reveal(parse_str_field);
    reveal(parse_opt_str_field);
    reveal(parse_bool_field);
}

// ---------------------------------------------------------------------------
// Reading and writing fields
// ---------------------------------------------------------------------------

/// Why bytes do not read as a message.
#[derive(PartialEq, Eq, Structural, Clone, Copy, Debug)]
pub enum WireError {
    /// The bytes break the encoding.
    Malformed,
    /// A length prefix asks for more bytes than follow it.
    Truncated,
    /// The message kind is none of the known ones.
    UnknownKind,
    /// An identifier does not have 16 bytes.
    BadIdentifier,
}

/// Reads a `u32` from the front of `b`: its value and its size.
pub fn read_u32(b: &[u8]) -> (r: Result<(u32, usize), WireError>)
    ensures
        r is Ok <==> parse_varint(b@, 252) is Some,
        r matches Ok((v, n)) ==> parse_varint(b@, 252) == Some((v as nat, n as nat)),
        r matches Ok((_, n)) ==> n <= b@.len(),
{
    proof {
        lemma_field_sizes(b@);
    }
    match decode_u32(b) {
        Ok(p) => Ok(p),
        Err(_) => Err(WireError::Malformed),
    }
}

/// Checks that the length prefix at the front of `b` reads and fits in `b`.
fn check_length_prefix(b: &[u8]) -> (r: Result<(), WireError>)
    ensures
        r is Ok ==> length_prefix_fits(b@) && parse_varint(b@, 253) is Some,
        r is Err ==> parse_bytes_field(b@) is None,
{
    reveal(parse_bytes_field);
    match decode_u64(b) {
        Err(_) => Err(WireError::Malformed),
        Ok((len, k)) => {
            proof {
                lemma_parse_varint_len(b@, 253);
            }
            if len > (b.len() - k) as u64 {
                Err(WireError::Truncated)
            } else {
                Ok(())
            }
        },
    }
}

/// Reads a byte string from the front of `b`: its bytes and its size.
pub fn read_bytes_field(b: &[u8]) -> (r: Result<(Vec<u8>, usize), WireError>)
    ensures
        r is Ok <==> parse_bytes_field(b@) is Some,
        r matches Ok((v, n)) ==> parse_bytes_field(b@) == Some((v@, n as nat)),
        r matches Ok((_, n)) ==> n <= b@.len(),
{
    proof {
        lemma_field_sizes(b@);
    }
    check_length_prefix(b)?;
    match decode_byte_vec(b) {
        Ok(p) => Ok(p),
        Err(_) => Err(WireError::Malformed),
    }
}

/// Reads a text from the front of `b`: the text and its size.
pub fn read_str_field(b: &[u8]) -> (r: Result<(String, usize), WireError>)
    ensures
        r is Ok <==> parse_str_field(b@) is Some,
        r matches Ok((s, n)) ==> parse_str_field(b@) == Some((s@, n as nat)),
        r matches Ok((_, n)) ==> n <= b@.len(),
{
    proof {
        lemma_field_sizes(b@);
    }
    check_length_prefix(b)?;
    match decode_string(b) {
        Ok(p) => Ok(p),
        Err(_) => Err(WireError::Malformed),
    }
}

/// Reads an optional text from the front of `b`: the value and its size.
pub fn read_opt_str_field(b: &[u8]) -> (r: Result<(Option<String>, usize), WireError>)
    ensures
        r is Ok <==> parse_opt_str_field(b@) is Some,
        r matches Ok((o, n)) ==> parse_opt_str_field(b@) == Some((crate::service::opt_chars(o), n as nat)),
        r matches Ok((_, n)) ==> n <= b@.len(),
{
    proof {
        lemma_field_sizes(b@);
    }
    if b.len() > 0 && b[0] == 1 {
        let rest = slice_subrange(b, 1, b.len());
        assert(rest@ =~= b@.drop_first());
        proof {
            lemma_field_sizes(rest@);
            reveal(parse_opt_str_field);
        }
        check_length_prefix(rest)?;
    }
    match decode_opt_string(b) {
        Ok(p) => Ok(p),
        Err(_) => Err(WireError::Malformed),
    }
}

/// Reads a boolean from the front of `b`: the value and its size.
pub fn read_bool_field(b: &[u8]) -> (r: Result<(bool, usize), WireError>)
    ensures
        r is Ok <==> parse_bool_field(b@) is Some,
        r matches Ok((v, n)) ==> parse_bool_field(b@) == Some((v, n as nat)),
        r matches Ok((_, n)) ==> n <= b@.len(),
{
    proof {
        lemma_field_sizes(b@);
    }
    match decode_bool(b) {
        Ok(p) => Ok(p),
        Err(_) => Err(WireError::Malformed),
    }
}

/// Appends the encoding of a `u32`.
pub fn write_u32(out: &mut Vec<u8>, v: u32)
    ensures
        final(out)@ == old(out)@ + varint(v as nat),
{
    if let Ok(mut e) = encode_u32(v) {
        out.append(&mut e);
    }
}

/// Appends the encoding of a byte string.
pub fn write_bytes_field(out: &mut Vec<u8>, b: &[u8])
    ensures
        final(out)@ == old(out)@ + bytes_field(b@),
{
    if let Ok(mut e) = encode_byte_slice(b) {
        out.append(&mut e);
    }
}

/// Appends the encoding of a text.
pub fn write_str_field(out: &mut Vec<u8>, s: &str)
    ensures
        final(out)@ == old(out)@ + str_field(s@),
{
    if let Ok(mut e) = encode_str(s) {
        out.append(&mut e);
    }
}

/// Appends the encoding of an optional text.
pub fn write_opt_str_field(out: &mut Vec<u8>, o: &Option<String>)
    ensures
        final(out)@ == old(out)@ + opt_str_field(crate::service::opt_chars(*o)),
{
    if let Ok(mut e) = encode_opt_string(o) {
        out.append(&mut e);
    }
}

/// Appends the encoding of a boolean.
pub fn write_bool_field(out: &mut Vec<u8>, v: bool)
    ensures
        final(out)@ == old(out)@ + bool_field(v),
{
    if let Ok(mut e) = encode_bool(v) {
        out.append(&mut e);
    }
}

} // verus!
