use salaryman::ids::ServiceId;
use salaryman::protocol::SalarymanPacket;
use salaryman::service::ServiceConf;
use salaryman::wire::WireError;

fn id(start: u8) -> ServiceId {
    let mut b = [0u8; 16];
    for i in 0..16 {
        b[i] = start + i as u8;
    }
    ServiceId::from_bytes(b)
}

fn sample_conf() -> ServiceConf {
    ServiceConf::from_parts(
        id(0),
        "a".to_string(),
        "ls".to_string(),
        Some("-l".to_string()),
        None,
        true,
    )
}

fn kind(p: &SalarymanPacket) -> &'static str {
    match p {
        SalarymanPacket::Ping => "ping",
        SalarymanPacket::Pong => "pong",
        SalarymanPacket::Okay => "okay",
        SalarymanPacket::Create(_) => "create",
        SalarymanPacket::Delete(_) => "delete",
        SalarymanPacket::Start(_) => "start",
        SalarymanPacket::Stop(_) => "stop",
        SalarymanPacket::Restart(_) => "restart",
        SalarymanPacket::Quit => "quit",
        SalarymanPacket::Invalid => "invalid",
    }
}

#[test]
fn unit_packets_encode_as_their_position() {
    assert_eq!(SalarymanPacket::Ping.serialize().unwrap(), vec![0]);
    assert_eq!(SalarymanPacket::Pong.serialize().unwrap(), vec![1]);
    assert_eq!(SalarymanPacket::Okay.serialize().unwrap(), vec![2]);
    assert_eq!(SalarymanPacket::Quit.serialize().unwrap(), vec![8]);
    assert_eq!(SalarymanPacket::Invalid.serialize().unwrap(), vec![9]);
}

#[test]
fn identifier_packets_carry_sixteen_bytes() {
    let bytes = SalarymanPacket::Delete(id(0)).serialize().unwrap();
    let mut expected = vec![4u8, 16];
    expected.extend(0u8..16);
    assert_eq!(bytes, expected);
    assert_eq!(SalarymanPacket::Restart(id(0)).serialize().unwrap()[0], 7);
}

#[test]
fn create_packet_layout() {
    let bytes = SalarymanPacket::Create(sample_conf()).serialize().unwrap();
    let mut expected = vec![3u8, 16];
    expected.extend(0u8..16);
    expected.extend([1, b'a', 2, b'l', b's', 1, 2, b'-', b'l', 0, 1]);
    assert_eq!(bytes, expected);
}

#[test]
fn create_packet_matches_bincode_tuple_encoding() {
    let conf = sample_conf();
    let bytes = SalarymanPacket::Create(conf).serialize().unwrap();
    let uuid: Vec<u8> = (0u8..16).collect();
    let reference = bincode::encode_to_vec(
        (3u32, uuid, "a".to_string(), "ls".to_string(), Some("-l".to_string()), None::<String>, true),
        bincode::config::standard(),
    )
    .unwrap();
    assert_eq!(bytes, reference);
}

#[test]
fn long_text_gets_a_two_byte_length() {
    let name = "x".repeat(300);
    let conf = ServiceConf::from_parts(id(0), name.clone(), String::new(), None, None, false);
    let bytes = SalarymanPacket::Create(conf).serialize().unwrap();
    assert_eq!(&bytes[18..21], &[251, 44, 1]);
    match SalarymanPacket::deserialize(&bytes).unwrap() {
        SalarymanPacket::Create(c) => assert_eq!(c.get_name(), name),
        other => panic!("unexpected {}", kind(&other)),
    }
}

#[test]
fn every_packet_round_trips() {
    let packets = vec![
        SalarymanPacket::Ping,
        SalarymanPacket::Pong,
        SalarymanPacket::Okay,
        SalarymanPacket::Create(sample_conf()),
        SalarymanPacket::Delete(id(1)),
        SalarymanPacket::Start(id(2)),
        SalarymanPacket::Stop(id(3)),
        SalarymanPacket::Restart(id(4)),
        SalarymanPacket::Quit,
        SalarymanPacket::Invalid,
    ];
    for p in packets {
        let bytes = p.serialize().unwrap();
        let back = SalarymanPacket::deserialize(&bytes).unwrap();
        assert_eq!(kind(&back), kind(&p));
        assert_eq!(back.serialize().unwrap(), bytes);
    }
}

#[test]
fn create_round_trip_keeps_every_field() {
    let conf = ServiceConf::from_parts(
        id(9),
        "wéb".to_string(),
        "/usr/bin/server".to_string(),
        None,
        Some("/srv/app".to_string()),
        false,
    );
    let bytes = SalarymanPacket::Create(conf).serialize().unwrap();
    match SalarymanPacket::deserialize(&bytes).unwrap() {
        SalarymanPacket::Create(c) => {
            assert_eq!(c.get_uuid().to_bytes(), id(9).to_bytes());
            assert_eq!(c.get_name(), "wéb");
            assert_eq!(c.get_command(), "/usr/bin/server");
            assert_eq!(c.get_args(), &None);
            assert_eq!(c.get_work_dir(), &Some("/srv/app".to_string()));
            assert!(!c.get_autostart());
        }
        other => panic!("unexpected {}", kind(&other)),
    }
}

#[test]
fn trailing_bytes_are_ignored() {
    let mut bytes = SalarymanPacket::Start(id(5)).serialize().unwrap();
    bytes.extend([7, 7, 7]);
    match SalarymanPacket::deserialize(&bytes).unwrap() {
        SalarymanPacket::Start(u) => assert_eq!(u.to_bytes(), id(5).to_bytes()),
        other => panic!("unexpected {}", kind(&other)),
    }
}

#[test]
fn malformed_packets_are_refused() {
    assert_eq!(SalarymanPacket::deserialize(&[]).unwrap_err(), WireError::Malformed);
    assert_eq!(SalarymanPacket::deserialize(&[10]).unwrap_err(), WireError::UnknownKind);
    assert_eq!(SalarymanPacket::deserialize(&[255]).unwrap_err(), WireError::Malformed);
    let mut short_id = vec![4u8, 15];
    short_id.extend(0u8..15);
    assert_eq!(SalarymanPacket::deserialize(&short_id).unwrap_err(), WireError::BadIdentifier);
    assert_eq!(SalarymanPacket::deserialize(&[4, 200, 1, 2]).unwrap_err(), WireError::Truncated);
    let mut bad_text = vec![3u8, 16];
    bad_text.extend(0u8..16);
    bad_text.extend([1, 0xff]);
    assert_eq!(SalarymanPacket::deserialize(&bad_text).unwrap_err(), WireError::Malformed);
    let mut bad_bool = SalarymanPacket::Create(sample_conf()).serialize().unwrap();
    let last = bad_bool.len() - 1;
    bad_bool[last] = 2;
    assert_eq!(SalarymanPacket::deserialize(&bad_bool).unwrap_err(), WireError::Malformed);
}

#[test]
fn responses() {
    assert_eq!(kind(&SalarymanPacket::Ping.response()), "pong");
    assert_eq!(kind(&SalarymanPacket::Create(sample_conf()).response()), "okay");
    assert_eq!(kind(&SalarymanPacket::Delete(id(0)).response()), "okay");
    assert_eq!(kind(&SalarymanPacket::Start(id(0)).response()), "okay");
    assert_eq!(kind(&SalarymanPacket::Stop(id(0)).response()), "okay");
    assert_eq!(kind(&SalarymanPacket::Restart(id(0)).response()), "okay");
    assert_eq!(kind(&SalarymanPacket::Quit.response()), "okay");
    assert_eq!(kind(&SalarymanPacket::Pong.response()), "invalid");
    assert_eq!(kind(&SalarymanPacket::Okay.response()), "invalid");
    assert_eq!(kind(&SalarymanPacket::Invalid.response()), "invalid");
}

#[test]
fn reply_to_a_reply_is_invalid() {
    let all = vec![
        SalarymanPacket::Ping,
        SalarymanPacket::Quit,
        SalarymanPacket::Start(id(0)),
        SalarymanPacket::Okay,
    ];
    for p in all {
        assert_eq!(kind(&p.response().response()), "invalid");
    }
}
