use bsync::message::{ClipboardContent, GossipMessage, MAX_MESSAGE_SIZE};

fn text(origin: &str, content: &str) -> GossipMessage {
    GossipMessage::ClipboardText { origin: origin.into(), content: content.into() }
}

#[test]
fn text_message_json() {
    let json = text("p1", "say \"hi\"\n").to_json();
    let expected = r#"{"ClipboardText":{"origin":"p1","content":"say \"hi\"\n"}}"#;
    assert_eq!(json, expected.as_bytes());
}

#[test]
fn image_message_json() {
    let mut hash = [0u8; 32];
    hash[0] = 7;
    hash[31] = 255;
    let message = GossipMessage::ClipboardImage { origin: "p1".into(), hash };
    let mut numbers = vec!["7".to_string()];
    for _ in 0..30 {
        numbers.push("0".to_string());
    }
    numbers.push("255".to_string());
    let expected = format!(
        r#"{{"ClipboardImage":{{"origin":"p1","hash":[{}]}}}}"#,
        numbers.join(",")
    );
    let json = message.to_json();
    assert_eq!(json, expected.as_bytes());
    match GossipMessage::from_json(&json) {
        Some(GossipMessage::ClipboardImage { origin, hash: back }) => {
            assert_eq!(origin, "p1");
            assert_eq!(back, hash);
        }
        _ => panic!("expected an image message"),
    }
}

#[test]
fn text_message_roundtrip() {
    let content = "tab\t nul\u{0} \u{1F4CB} </script> \\";
    match GossipMessage::from_json(&text("\u{e9}", content).to_json()) {
        Some(GossipMessage::ClipboardText { origin, content: back }) => {
            assert_eq!(origin, "\u{e9}");
            assert_eq!(back, content);
        }
        _ => panic!("expected a text message"),
    }
}

#[test]
fn other_layouts_of_a_message_are_read() {
    let cases = [
        " { \"ClipboardText\" : { \"content\" : \"c\" , \"origin\" : \"o\" , \"x\" : [] } } ",
        r#"{"ClipboardText":["o","c"]}"#,
        r#"{"ClipboardText":{"origin":"o","content":"c"}}"#,
    ];
    for json in cases {
        match GossipMessage::from_json(json.as_bytes()) {
            Some(GossipMessage::ClipboardText { origin, content }) => {
                assert_eq!(origin, "o");
                assert_eq!(content, "c");
            }
            _ => panic!("expected a text message for {}", json),
        }
    }
}

#[test]
fn what_is_no_message_is_refused() {
    let cases: [&[u8]; 10] = [
        b"",
        b"{}",
        b"\"ClipboardText\"",
        br#"{"ClipboardText":{"origin":"o"}}"#,
        br#"{"ClipboardFile":{"origin":"o","content":"c"}}"#,
        br#"{"ClipboardText":{"origin":"o","content":"c"},"x":1}"#,
        br#"{"ClipboardText":{"origin":"o","content":"c"}} x"#,
        br#"{"ClipboardText":{"origin":"o","content":"c","content":"d"}}"#,
        br#"{"ClipboardImage":{"origin":"o","hash":[1,2,3]}}"#,
        b"\xff\xfe",
    ];
    for json in cases {
        assert!(GossipMessage::from_json(json).is_none());
    }
}

#[test]
fn payload_is_limited() {
    // {"ClipboardText":{"origin":"p1","content":""}}
    let around = text("p1", "").to_json().len();
    assert_eq!(around, 46);
    let fits = text("p1", &"x".repeat(MAX_MESSAGE_SIZE - around));
    match fits.payload() {
        Ok(bytes) => assert_eq!(bytes.len(), MAX_MESSAGE_SIZE),
        Err(_) => panic!("expected a payload"),
    }
    let large = text("p1", &"x".repeat(MAX_MESSAGE_SIZE - around + 1));
    assert_eq!(large.payload(), Err(MAX_MESSAGE_SIZE + 1));
}

#[test]
fn content_is_cloned() {
    match ClipboardContent::Image(vec![1, 2, 3]).clone() {
        ClipboardContent::Image(png_data) => assert_eq!(png_data, vec![1, 2, 3]),
        ClipboardContent::Text(_) => panic!("expected an image"),
    }
    match text("o", "c").clone() {
        GossipMessage::ClipboardText { origin, content } => {
            assert_eq!((origin.as_str(), content.as_str()), ("o", "c"));
        }
        GossipMessage::ClipboardImage { .. } => panic!("expected text"),
    }
}
