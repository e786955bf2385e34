use base64::engine::general_purpose::STANDARD;
use base64::Engine;
use bsync::ticket::{Ticket, TicketError, TICKET_VERSION};

fn decoded(json: &str) -> Result<Ticket, TicketError> {
    Ticket::decode(&STANDARD.encode(json))
}

#[test]
fn ticket_roundtrip() {
    let ticket = Ticket::new("test-addr".into(), "my-room".into());
    let encoded = ticket.encode();
    let decoded = Ticket::decode(&encoded).unwrap();
    assert_eq!(decoded.endpoint_addr, "test-addr");
    assert_eq!(decoded.room, "my-room");
    assert_eq!(decoded.v, 1);
}

#[test]
fn ticket_rejects_invalid_version() {
    let ticket = Ticket {
        v: 99,
        endpoint_addr: "addr".into(),
        room: "room".into(),
    };
    let encoded = ticket.encode();
    let result = Ticket::decode(&encoded);
    assert!(result.is_err());
}

#[test]
fn ticket_text_is_base64_of_json() {
    assert_eq!(TICKET_VERSION, 1);
    let ticket = Ticket::new("test-addr".into(), "my-room".into());
    let json = r#"{"v":1,"endpoint_addr":"test-addr","room":"my-room"}"#;
    assert_eq!(ticket.encode(), STANDARD.encode(json));
}

#[test]
fn ticket_escapes_survive() {
    let room = "a \"quoted\" \\ room\nwith \u{1F4CB} and \u{7f}\u{1}";
    let ticket = Ticket::new("\u{e9}\t".into(), room.into());
    let back = Ticket::decode(&ticket.encode()).unwrap();
    assert_eq!(back.endpoint_addr, "\u{e9}\t");
    assert_eq!(back.room, room);
}

#[test]
fn ticket_version_is_named() {
    let ticket = Ticket { v: 99, endpoint_addr: "addr".into(), room: "room".into() };
    match Ticket::decode(&ticket.encode()) {
        Err(error) => {
            assert_eq!(error, TicketError::UnsupportedVersion(99));
            assert_eq!(error.message(), "unsupported ticket version 99");
        }
        Ok(_) => panic!("expected an error"),
    }
}

#[test]
fn ticket_rejects_bad_encoding() {
    for text in ["%", "e30", "e30==", " e30="] {
        match Ticket::decode(text) {
            Err(error) => {
                assert_eq!(error, TicketError::InvalidEncoding);
                assert_eq!(error.message(), "invalid base64 encoding");
            }
            Ok(_) => panic!("expected an error"),
        }
    }
}

#[test]
fn ticket_rejects_bad_json() {
    let cases = [
        "",
        "{}",
        "null",
        "[]",
        r#"{"v":1,"endpoint_addr":"a"}"#,
        r#"{"v":256,"endpoint_addr":"a","room":"r"}"#,
        r#"{"v":"1","endpoint_addr":"a","room":"r"}"#,
        r#"{"v":1,"endpoint_addr":"a","room":"r","room":"r"}"#,
        r#"{"v":1,"endpoint_addr":"a","room":"r"} x"#,
        r#"{"v":1,"endpoint_addr":"a","room":"r",}"#,
        r#"{"v":1,"endpoint_addr":"a","room":null}"#,
        r#"{"v":1,"endpoint_addr":"a","room":"r""#,
        r#"[1,"a"]"#,
        r#"[1,"a","r",2]"#,
    ];
    for json in cases {
        match decoded(json) {
            Err(error) => {
                assert_eq!(error, TicketError::InvalidJson, "{}", json);
                assert_eq!(error.message(), "invalid ticket JSON");
            }
            Ok(_) => panic!("expected an error for {}", json),
        }
    }
}

#[test]
fn ticket_reads_other_layouts_of_the_json() {
    let cases = [
        " { \"room\" : \"r\" , \"v\" : 1 , \"endpoint_addr\" : \"a\" } \n",
        r#"{"v":1,"extra":[{"a":1.5e3},null,true],"endpoint_addr":"a","room":"r"}"#,
        r#"{"v":1,"endpoint_addr":"a","room":"r"}"#,
        r#"[1,"a","r"]"#,
    ];
    for json in cases {
        let ticket = match decoded(json) {
            Ok(ticket) => ticket,
            Err(_) => panic!("expected a ticket for {}", json),
        };
        assert_eq!(ticket.v, 1);
        assert_eq!(ticket.endpoint_addr, "a");
        assert_eq!(ticket.room, "r");
    }
}

#[test]
fn ticket_checks_the_version_of_any_json() {
    match Ticket::from_json(br#"{"v":0,"endpoint_addr":"a","room":"r"}"#) {
        Err(error) => assert_eq!(error, TicketError::UnsupportedVersion(0)),
        Ok(_) => panic!("expected an error"),
    }
    let ticket = Ticket { v: 1, endpoint_addr: "a".into(), room: "r".into() };
    assert!(ticket.clone().checked().is_ok());
    assert_eq!(ticket.clone().room, "r");
}

#[test]
fn ticket_texts_of_every_padding() {
    let text = |room: &str| Ticket::new("p".into(), room.into()).encode();
    assert_eq!(text("a"), "eyJ2IjoxLCJlbmRwb2ludF9hZGRyIjoicCIsInJvb20iOiJhIn0=");
    assert_eq!(text("ab"), "eyJ2IjoxLCJlbmRwb2ludF9hZGRyIjoicCIsInJvb20iOiJhYiJ9");
    assert_eq!(text("abc"), "eyJ2IjoxLCJlbmRwb2ludF9hZGRyIjoicCIsInJvb20iOiJhYmMifQ==");
    for room in ["", "a", "ab", "abc", "\u{1f4cb}"] {
        let json = STANDARD.decode(text(room)).unwrap();
        assert_eq!(text(room).len(), 4 * ((json.len() + 2) / 3));
    }
}

#[test]
fn ticket_escapes_are_written() {
    let room = "\"\\/\u{8}\t\n\u{c}\r\u{0}\u{b}\u{1f} \u{7f}\u{e9}";
    let json = STANDARD.decode(Ticket::new("p".into(), room.into()).encode()).unwrap();
    let expected = concat_json(r#"\"\\/\b\t\n\f\r\u0000\u000b\u001f "#, "\u{7f}\u{e9}");
    assert_eq!(String::from_utf8(json).unwrap(), expected);
}

fn concat_json(escaped: &str, plain: &str) -> String {
    format!("{{\"v\":1,\"endpoint_addr\":\"p\",\"room\":\"{escaped}{plain}\"}}")
}
