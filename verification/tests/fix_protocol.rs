use exchange_api::fix::message::{build_message, compute_checksum, validate_checksum, Message};
use exchange_api::fix::session::{Session, SessionConfig, SessionEvent, SessionState};
use exchange_api::fix::tags;
use exchange_api::fix::types::{MsgType, Side};

#[test]
fn parse_and_encode_roundtrip() {
    let raw = "8=FIX.4.4\x019=45\x0135=A\x0149=EXECUTOR\x0156=CLIENT1\x0134=1\x0152=20240101-00:00:00\x0198=0\x01108=30\x0110=000\x01";
    let msg = Message::parse(raw).unwrap();
    assert_eq!(msg.msg_type(), Some(MsgType::Logon));
    assert_eq!(msg.seq_num(), Some(1));
    assert_eq!(msg.sender(), Some("EXECUTOR"));
    assert_eq!(msg.target(), Some("CLIENT1"));
}

#[test]
fn checksum_validation() {
    let body = "8=FIX.4.4\x019=12\x0135=0";
    let expected_cs = compute_checksum(body.as_bytes());
    let raw = format!("{body}\x0110={expected_cs:03}\x01");
    assert!(validate_checksum(&raw).unwrap(), "checksum should be {expected_cs}");
}

#[test]
fn checksum_is_byte_sum_mod_256() {
    assert_eq!(compute_checksum(b""), 0);
    assert_eq!(compute_checksum(b"A"), 65);
    assert_eq!(compute_checksum(&[200, 100]), 44);
}

#[test]
fn wrong_checksum_is_reported_false() {
    let body = "8=FIX.4.4\x019=12\x0135=0";
    let cs = (compute_checksum(body.as_bytes()) + 1) % 256;
    let raw = format!("{body}\x0110={cs:03}\x01");
    assert!(!validate_checksum(&raw).unwrap());
}

#[test]
fn checksum_field_must_be_numeric() {
    let raw = "8=FIX.4.4\x019=12\x0135=0\x0110=abc\x01";
    assert!(validate_checksum(raw).is_err());
}

#[test]
fn get_returns_last_value_of_a_repeated_tag() {
    let msg = Message::parse("35=0\x0158=first\x0158=second\x01").unwrap();
    assert_eq!(msg.get(58), Some("second"));
    assert_eq!(msg.get(999), None);
}

#[test]
fn parse_rejects_field_without_equals() {
    assert!(Message::parse("35=0\x01garbage\x01").is_err());
}

#[test]
fn parse_rejects_non_numeric_tag() {
    assert!(Message::parse("x=0\x01").is_err());
}

#[test]
fn built_message_encodes_with_length_and_checksum_and_parses_back() {
    let msg = build_message(vec![
        (tags::BEGIN_STRING, "FIX.4.4".to_string()),
        (tags::BODY_LENGTH, "0".to_string()),
        (tags::MSG_TYPE, "0".to_string()),
        (tags::SENDER_COMP_ID, "A".to_string()),
    ]);
    let encoded = msg.encode();
    let head = "8=FIX.4.4\x019=10\x0135=0\x0149=A\x01";
    let cs = compute_checksum(head.as_bytes());
    assert_eq!(encoded, format!("{head}10={cs:03}\x01"));
    let parsed = Message::parse(&encoded).unwrap();
    assert_eq!(parsed.msg_type(), Some(MsgType::Heartbeat));
    assert_eq!(parsed.sender(), Some("A"));
    assert_eq!(parsed.begin_string(), Some("FIX.4.4"));
}

#[test]
fn body_length_counts_the_bytes_after_it() {
    let m = build_message(vec![
        (8, "FIX.4.4".to_string()),
        (9, "0".to_string()),
        (35, "0".to_string()),
    ]);
    assert_eq!(m.encode(), "8=FIX.4.4\x019=5\x0135=0\x0110=163\x01");
    let m = build_message(vec![(35, "0".to_string()), (9, "0".to_string()), (49, "AB".to_string()), (10, "999".to_string())]);
    let head = "35=0\x019=6\x0149=AB\x01";
    let cs = compute_checksum(head.as_bytes());
    assert_eq!(m.encode(), format!("{head}10={cs:03}\x01"));
}

#[test]
fn encode_without_body_length_field_writes_none() {
    let msg = build_message(vec![(tags::MSG_TYPE, "0".to_string())]);
    let cs = compute_checksum(b"35=0\x01");
    assert_eq!(msg.encode(), format!("35=0\x0110={cs:03}\x01"));
}

#[test]
fn side_codes_round_trip() {
    assert_eq!(Side::from_fix('1'), Some(Side::Buy));
    assert_eq!(Side::from_fix('2'), Some(Side::Sell));
    assert_eq!(Side::from_fix('9'), None);
    assert_eq!(Side::Buy.to_fix(), '1');
    assert_eq!(Side::Sell.to_fix(), '2');
}

#[test]
fn msg_type_codes_round_trip() {
    assert_eq!(MsgType::from_fix("A"), MsgType::Logon);
    assert_eq!(MsgType::Logon.to_fix(), "A");
    assert_eq!(MsgType::from_fix("W"), MsgType::MarketDataSnapshot);
    assert_eq!(MsgType::from_fix("ZZ"), MsgType::Unknown("ZZ".to_string()));
    assert_eq!(MsgType::Unknown("ZZ".to_string()).to_fix(), "ZZ");
}

fn config() -> SessionConfig {
    SessionConfig {
        begin_string: "FIX.4.4".to_string(),
        sender_comp_id: "CLIENT1".to_string(),
        target_comp_id: "EXECUTOR".to_string(),
        heart_bt_int: 30,
        default_appl_ver_id: "9".to_string(),
    }
}

#[test]
fn session_builds_numbered_messages() {
    let mut s = Session::new(config(), true);
    assert_eq!(s.state, SessionState::Disconnected);
    let logon = s.build_logon_at("20240101-00:00:00");
    assert_eq!(s.state, SessionState::LogonSent);
    assert_eq!(logon.msg_type(), Some(MsgType::Logon));
    assert_eq!(logon.seq_num(), Some(1));
    assert_eq!(logon.sender(), Some("CLIENT1"));
    assert_eq!(logon.target(), Some("EXECUTOR"));
    assert_eq!(logon.get(tags::HEART_BT_INT), Some("30"));
    let hb = s.build_heartbeat_at("20240101-00:00:01");
    assert_eq!(hb.seq_num(), Some(2));
    let tr = s.build_test_request_at("T1", "20240101-00:00:02");
    assert_eq!(tr.get(tags::TEST_REQ_ID), Some("T1"));
    assert_eq!(tr.seq_num(), Some(3));
    let lo = s.build_logout_at("20240101-00:00:03");
    assert_eq!(lo.msg_type(), Some(MsgType::Logout));
    assert_eq!(s.state, SessionState::LogoutSent);
    assert_eq!(s.outgoing_seq, 5);
}

#[test]
fn session_receive_transitions() {
    let mut s = Session::new(config(), true);
    let logon = Message::parse("35=A\x0134=1\x01").unwrap();
    assert!(matches!(s.receive(&logon).unwrap(), SessionEvent::LogonReceived));
    assert_eq!(s.state, SessionState::Active);
    assert_eq!(s.incoming_seq, 2);
    let tr = Message::parse("35=1\x01").unwrap();
    assert!(matches!(s.receive(&tr).unwrap(), SessionEvent::RespondHeartbeat));
    let reset = Message::parse("35=4\x01369=41\x01").unwrap();
    assert!(matches!(s.receive(&reset).unwrap(), SessionEvent::SequenceReset));
    assert_eq!(s.incoming_seq, 42);
    let app = Message::parse("35=D\x0111=ORD1\x01").unwrap();
    match s.receive(&app).unwrap() {
        SessionEvent::ApplicationMessage(m) => assert_eq!(m.get(11), Some("ORD1")),
        other => panic!("unexpected {other:?}"),
    }
    let logout = Message::parse("35=5\x01").unwrap();
    assert!(matches!(s.receive(&logout).unwrap(), SessionEvent::LogoutReceived));
    assert_eq!(s.state, SessionState::LogoutReceived);
}

#[test]
fn logout_answering_ours_disconnects() {
    let mut s = Session::new(config(), true);
    s.build_logon_at("20240101-00:00:00");
    let logon = Message::parse("35=A\x01").unwrap();
    s.receive(&logon).unwrap();
    assert_eq!(s.state, SessionState::Active);
    s.build_logout_at("20240101-00:00:01");
    assert_eq!(s.state, SessionState::LogoutSent);
    let logout = Message::parse("35=5\x01").unwrap();
    assert!(matches!(s.receive(&logout).unwrap(), SessionEvent::LogoutReceived));
    assert_eq!(s.state, SessionState::Disconnected);
}

fn assert_sending_time_shape(t: &str) {
    let c: Vec<char> = t.chars().collect();
    assert_eq!(c.len(), 17, "{t}");
    for (i, ch) in c.iter().enumerate() {
        match i {
            8 => assert_eq!(*ch, '-', "{t}"),
            11 | 14 => assert_eq!(*ch, ':', "{t}"),
            _ => assert!(ch.is_ascii_digit(), "{t}"),
        }
    }
}

#[test]
fn clock_stamped_messages_carry_sending_time() {
    let mut s = Session::new(config(), true);
    let logon = s.build_logon();
    assert_sending_time_shape(logon.get(tags::SENDING_TIME).unwrap());
    let hb = s.build_heartbeat();
    assert_sending_time_shape(hb.get(tags::SENDING_TIME).unwrap());
    let tr = s.build_test_request("T9");
    assert_sending_time_shape(tr.get(tags::SENDING_TIME).unwrap());
    assert_eq!(tr.get(tags::TEST_REQ_ID), Some("T9"));
    let lo = s.build_logout();
    assert_sending_time_shape(lo.get(tags::SENDING_TIME).unwrap());
    assert_eq!(s.outgoing_seq, 5);
}
