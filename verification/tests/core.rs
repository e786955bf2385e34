use bsync::engine::{BsyncCore, Config};
use bsync::message::{ClipboardContent, GossipMessage};
use bsync::state::{BsyncEffect, BsyncEvent, RoomEvent};
use bsync::ticket::Ticket;
use std::time::{Duration, SystemTime};

fn text(content: &str) -> ClipboardContent {
    ClipboardContent::Text(content.into())
}

fn test_core() -> BsyncCore {
    BsyncCore::new(Config {
        peer_id: "test-peer-1".into(),
        room: "test-room".into(),
        auto_accept: false,
    })
}

/// Connects and approves a peer so that its messages pass the approval gate.
fn connect_peer(core: &mut BsyncCore, id: &str) {
    core.process_event(BsyncEvent::PeerConnected { id: id.into() });
    core.process_event(BsyncEvent::PeerApproved { id: id.into() });
}

fn copied(core: &mut BsyncCore, content: &str, now: u128) -> Vec<BsyncEffect> {
    core.process_event_at(
        BsyncEvent::LocalClipboardChanged { content: text(content) },
        now,
        SystemTime::UNIX_EPOCH,
    )
}

fn received(core: &mut BsyncCore, from: &str, content: &str) -> Vec<BsyncEffect> {
    core.process_event(BsyncEvent::RemoteMessageReceived {
        from: from.into(),
        content: text(content),
    })
}

fn printed(effects: &[BsyncEffect]) -> String {
    assert_eq!(effects.len(), 1);
    match &effects[0] {
        BsyncEffect::PrintStatus { message } => message.clone(),
        _ => panic!("expected PrintStatus"),
    }
}

#[test]
fn start_produces_ticket() {
    let mut core = test_core();
    let effects = core.process_event(BsyncEvent::StartEndpoint);
    assert_eq!(effects.len(), 1);
    match &effects[0] {
        BsyncEffect::PrintStatus { message } => {
            assert!(message.contains("Ticket:"));
            assert!(message.contains("Room:"));
        }
        _ => panic!("expected PrintStatus"),
    }
}

#[test]
fn echo_guard_suppresses_own_write() {
    let mut core = test_core();

    // Connect peer first (approval gate requires it)
    connect_peer(&mut core, "peer-2");

    // Simulate remote message: WriteClipboard sets the pending write hash
    let effects = core.process_event(BsyncEvent::RemoteMessageReceived {
        from: "peer-2".into(),
        content: text("hello"),
    });
    assert_eq!(effects.len(), 1); // One WriteClipboard

    // Local change with same content should be suppressed
    let effects = core.process_event(BsyncEvent::LocalClipboardChanged {
        content: text("hello"),
    });
    assert!(effects.is_empty(), "echo guard should suppress own write");
}

#[test]
fn local_change_after_echo_guard_clear_broadcasts() {
    let mut core = test_core();
    connect_peer(&mut core, "peer-2");

    // Write from remote sets the pending write hash
    core.process_event(BsyncEvent::RemoteMessageReceived {
        from: "peer-2".into(),
        content: text("hello"),
    });

    // Echo guard clears on first local detection
    core.process_event(BsyncEvent::LocalClipboardChanged {
        content: text("hello"),
    });

    // Different content should broadcast normally
    let effects = core.process_event(BsyncEvent::LocalClipboardChanged {
        content: text("world"),
    });
    assert_eq!(effects.len(), 1);
    match &effects[0] {
        BsyncEffect::BroadcastMessage {
            message: GossipMessage::ClipboardText { origin, content },
            ..
        } => {
            assert_eq!(origin, "test-peer-1");
            assert_eq!(content, "world");
        }
        _ => panic!("expected BroadcastMessage"),
    }
}

#[test]
fn remote_dedup_skips_identical_content() {
    let mut core = test_core();
    connect_peer(&mut core, "peer-2");

    let effects1 = core.process_event(BsyncEvent::RemoteMessageReceived {
        from: "peer-2".into(),
        content: text("dup"),
    });
    assert_eq!(effects1.len(), 1);

    let effects2 = core.process_event(BsyncEvent::RemoteMessageReceived {
        from: "peer-2".into(),
        content: text("dup"),
    });
    assert!(effects2.is_empty(), "dedup should skip identical content");
}

#[test]
fn peer_approval_flow() {
    let mut core = test_core();

    // Peer connects: prompt
    let effects = core.process_event(BsyncEvent::PeerConnected { id: "p2".into() });
    assert_eq!(effects.len(), 1);
    assert!(matches!(effects[0], BsyncEffect::PromptApproval { .. }));

    // User approves: peer moves to connected
    let effects = core.process_event(BsyncEvent::PeerApproved { id: "p2".into() });
    assert_eq!(effects.len(), 1);

    let view = core.view();
    assert!(view.connected_peers.contains(&"p2".to_string()));
    assert!(view.pending_peers.is_empty());
}

#[test]
fn peer_rejected_does_not_connect() {
    let mut core = test_core();

    core.process_event(BsyncEvent::PeerConnected { id: "p2".into() });
    core.process_event(BsyncEvent::PeerRejected { id: "p2".into() });

    let view = core.view();
    assert!(view.connected_peers.is_empty());
    assert!(view.pending_peers.is_empty());
}

#[test]
fn auto_accept_skips_prompt() {
    let mut core = BsyncCore::new(Config {
        peer_id: "p1".into(),
        room: "r".into(),
        auto_accept: true,
    });

    let effects = core.process_event(BsyncEvent::PeerConnected { id: "p2".into() });
    assert_eq!(effects.len(), 1);
    assert!(matches!(effects[0], BsyncEffect::PrintStatus { .. }));

    let view = core.view();
    assert!(view.connected_peers.contains(&"p2".to_string()));
}

#[test]
fn unapproved_peer_messages_are_dropped() {
    let mut core = test_core();

    // Peer connects but is NOT approved
    core.process_event(BsyncEvent::PeerConnected { id: "p2".into() });

    // Message from pending peer should be dropped
    let effects = core.process_event(BsyncEvent::RemoteMessageReceived {
        from: "p2".into(),
        content: text("secret"),
    });
    assert!(
        effects.is_empty(),
        "messages from unapproved peers must be dropped"
    );

    // Reject the peer
    core.process_event(BsyncEvent::PeerRejected { id: "p2".into() });

    // Message from rejected peer still dropped
    let effects = core.process_event(BsyncEvent::RemoteMessageReceived {
        from: "p2".into(),
        content: text("secret"),
    });
    assert!(
        effects.is_empty(),
        "messages from rejected peers must be dropped"
    );
}

#[test]
fn history_records_local_and_remote() {
    let mut core = test_core();
    connect_peer(&mut core, "peer-2");

    // Local copy
    core.process_event(BsyncEvent::LocalClipboardChanged {
        content: text("local text"),
    });

    // Remote receive
    core.process_event(BsyncEvent::RemoteMessageReceived {
        from: "peer-2".into(),
        content: text("remote text"),
    });

    let view = core.view();
    assert_eq!(view.history.len(), 2);

    // Newest first
    assert_eq!(view.history[0].preview, "remote text");
    assert!(!view.history[0].is_local);
    assert_eq!(view.history[0].origin, "peer-2");

    assert_eq!(view.history[1].preview, "local text");
    assert!(view.history[1].is_local);
    assert_eq!(view.history[1].origin, "test-peer-1");
}

#[test]
fn history_truncates_long_content() {
    let mut core = test_core();
    let long = "x".repeat(200);
    core.process_event(BsyncEvent::LocalClipboardChanged { content: ClipboardContent::Text(long) });

    let view = core.view();
    assert_eq!(view.history.len(), 1);
    assert!(view.history[0].preview.ends_with('\u{2026}'));
    assert!(view.history[0].preview.chars().count() <= 101); // 100 + ellipsis
}

#[test]
fn history_caps_at_max_entries() {
    let mut core = test_core();
    for i in 0..60 {
        core.process_event(BsyncEvent::LocalClipboardChanged {
            content: ClipboardContent::Text(format!("item {i}")),
        });
    }
    let view = core.view();
    assert_eq!(view.history.len(), 50);
}

#[test]
fn view_includes_room() {
    let core = test_core();
    let view = core.view();
    assert_eq!(view.room, "test-room");
    assert!(!view.ticket.is_empty());
}

// What the core tells and remembers

#[test]
fn start_prints_ticket_and_room() {
    let mut core = test_core();
    let ticket = core.view().ticket;
    let message = printed(&core.process_event(BsyncEvent::StartEndpoint));
    assert_eq!(
        message,
        format!("Peer ID: test-peer-1\nTicket:  {ticket}\nRoom:    test-room\n")
    );
    assert_eq!(core.view().status, "waiting for connections...");
}

#[test]
fn write_hash_is_blake3() {
    let mut core = test_core();
    connect_peer(&mut core, "peer-2");
    let effects = received(&mut core, "peer-2", "hello");
    match &effects[0] {
        BsyncEffect::WriteClipboard { content, write_hash } => {
            assert!(matches!(content, ClipboardContent::Text(text) if text == "hello"));
            assert_eq!(write_hash, blake3::hash(b"hello").as_bytes());
        }
        _ => panic!("expected WriteClipboard"),
    }
}

#[test]
fn connect_leads_to_the_owner_of_the_ticket() {
    let mut core = test_core();
    let other = BsyncCore::new(Config {
        peer_id: "somewhere".into(),
        room: "r".into(),
        auto_accept: false,
    });
    let effects = core.process_event(BsyncEvent::ConnectToPeer { ticket: other.view().ticket });
    assert_eq!(effects.len(), 1);
    match &effects[0] {
        BsyncEffect::ConnectToEndpoint { endpoint_addr } => assert_eq!(endpoint_addr, "somewhere"),
        _ => panic!("expected ConnectToEndpoint"),
    }
    assert_eq!(core.view().status, "connecting to somewhere...");
}

#[test]
fn bad_tickets_are_reported() {
    let mut core = test_core();
    core.process_event(BsyncEvent::StartEndpoint);
    let cases = [
        ("%", "Invalid ticket: invalid base64 encoding"),
        ("e30=", "Invalid ticket: invalid ticket JSON"),
        (
            "eyJ2Ijo5OSwiZW5kcG9pbnRfYWRkciI6ImFkZHIiLCJyb29tIjoicm9vbSJ9",
            "Invalid ticket: unsupported ticket version 99",
        ),
    ];
    for (ticket, expected) in cases {
        let effects = core.process_event(BsyncEvent::ConnectToPeer { ticket: ticket.into() });
        assert_eq!(printed(&effects), expected);
        assert_eq!(core.view().status, "waiting for connections...");
    }
}

#[test]
fn rate_limit_holds_back_the_fifth_copy() {
    let mut core = test_core();
    for i in 0..4u128 {
        assert_eq!(copied(&mut core, &format!("copy {i}"), i * 100_000_000).len(), 1);
    }
    assert!(copied(&mut core, "copy 4", 999_999_999).is_empty());
    assert_eq!(core.view().history.len(), 5);
    assert_eq!(core.view().history[0].preview, "copy 4");
    // A second after the first, one may follow.
    assert_eq!(copied(&mut core, "copy 5", 1_000_000_000).len(), 1);
    assert!(copied(&mut core, "copy 6", 1_000_000_001).is_empty());
    assert_eq!(copied(&mut core, "copy 7", 1_100_000_000).len(), 1);
    assert_eq!(core.view().status, "syncing...");
}

#[test]
fn guard_suppresses_one_echo_only() {
    let mut core = test_core();
    connect_peer(&mut core, "peer-2");
    received(&mut core, "peer-2", "hello");
    // Other content does not use up the guard.
    assert_eq!(copied(&mut core, "other", 0).len(), 1);
    assert!(copied(&mut core, "hello", 1).is_empty());
    assert_eq!(copied(&mut core, "hello", 2).len(), 1);
    assert_eq!(core.view().history.len(), 3);
}

#[test]
fn dedup_remembers_the_last_message_only() {
    let mut core = test_core();
    connect_peer(&mut core, "peer-2");
    connect_peer(&mut core, "peer-3");
    assert_eq!(received(&mut core, "peer-2", "a").len(), 1);
    assert!(received(&mut core, "peer-3", "a").is_empty());
    assert_eq!(received(&mut core, "peer-3", "b").len(), 1);
    assert_eq!(received(&mut core, "peer-2", "a").len(), 1);
}

#[test]
fn peers_are_listed_once() {
    let mut core = test_core();
    core.process_event(BsyncEvent::PeerConnected { id: "p2".into() });
    assert!(core.process_event(BsyncEvent::PeerConnected { id: "p2".into() }).is_empty());
    assert_eq!(core.view().pending_peers, vec!["p2".to_string()]);
    let effects = core.process_event(BsyncEvent::PeerApproved { id: "p2".into() });
    assert_eq!(printed(&effects), "Peer approved: p2");
    assert_eq!(core.view().status, "connected to p2");
    assert!(core.process_event(BsyncEvent::PeerConnected { id: "p2".into() }).is_empty());
    assert!(core.process_event(BsyncEvent::PeerApproved { id: "p2".into() }).is_empty());
    assert_eq!(core.view().connected_peers, vec!["p2".to_string()]);
}

#[test]
fn rejection_and_disconnection_are_told() {
    let mut core = test_core();
    let effects = core.process_event(BsyncEvent::PeerRejected { id: "p9".into() });
    assert_eq!(printed(&effects), "Peer rejected: p9");
    connect_peer(&mut core, "p2");
    connect_peer(&mut core, "p3");
    core.process_event(BsyncEvent::PeerConnected { id: "p4".into() });
    let effects = core.process_event(BsyncEvent::PeerDisconnected { id: "p2".into() });
    assert_eq!(printed(&effects), "Peer disconnected: p2");
    let view = core.view();
    assert_eq!(view.status, "peer p2 disconnected");
    assert_eq!(view.connected_peers, vec!["p3".to_string()]);
    assert_eq!(view.pending_peers, vec!["p4".to_string()]);
    assert!(received(&mut core, "p2", "late").is_empty());
}

#[test]
fn auto_accepted_peer_is_announced() {
    let mut core = BsyncCore::new(Config {
        peer_id: "p1".into(),
        room: "r".into(),
        auto_accept: true,
    });
    let effects = core.process_event(BsyncEvent::PeerConnected { id: "p2".into() });
    assert_eq!(printed(&effects), "Peer connected: p2 (auto-accepted)");
    assert_eq!(core.view().status, "connected to p2");
}

#[test]
fn shutdown_is_passed_on() {
    let mut core = test_core();
    let effects = core.process_event(BsyncEvent::Shutdown);
    assert_eq!(effects.len(), 1);
    assert!(matches!(effects[0], BsyncEffect::Shutdown));
    assert_eq!(core.view().status, "shutting down...");
}

#[test]
fn preview_counts_characters() {
    let mut core = test_core();
    copied(&mut core, &"\u{e9}".repeat(100), 0);
    copied(&mut core, &"\u{e9}".repeat(101), 1);
    let view = core.view();
    assert_eq!(view.history[0].preview, format!("{}\u{2026}", "\u{e9}".repeat(100)));
    assert_eq!(view.history[1].preview, "\u{e9}".repeat(100));
    match &view.history[0].content {
        ClipboardContent::Text(text) => assert_eq!(text, &"\u{e9}".repeat(101)),
        ClipboardContent::Image(_) => panic!("expected text"),
    }
}

#[test]
fn history_keeps_the_newest() {
    let mut core = test_core();
    for i in 0..60u64 {
        core.process_event_at(
            BsyncEvent::LocalClipboardChanged { content: ClipboardContent::Text(format!("item {i}")) },
            0,
            SystemTime::UNIX_EPOCH + Duration::from_secs(i),
        );
    }
    let view = core.view();
    assert_eq!(view.history[0].preview, "item 59");
    assert_eq!(view.history[49].preview, "item 10");
    assert_eq!(view.history[49].timestamp, SystemTime::UNIX_EPOCH + Duration::from_secs(10));
}

#[test]
fn view_shows_the_one_room() {
    let mut core = test_core();
    connect_peer(&mut core, "p2");
    core.process_event(BsyncEvent::PeerConnected { id: "p3".into() });
    let view = core.view();
    assert_eq!(view.peer_id, "test-peer-1");
    assert_eq!(view.rooms.len(), 1);
    assert_eq!(view.rooms[0].name, "test-room");
    assert!(view.rooms[0].is_local);
    assert_eq!(view.rooms[0].ticket.as_ref(), Some(&view.ticket));
    assert_eq!(view.rooms[0].connected_peers, view.connected_peers);
    assert_eq!(view.rooms[0].pending_peers, vec!["p3".to_string()]);
    let ticket = Ticket::decode(&view.ticket).unwrap();
    assert_eq!(ticket.endpoint_addr, "test-peer-1");
    assert_eq!(ticket.room, "test-room");
}

#[test]
fn clocks_are_read() {
    let mut core = test_core();
    let before = SystemTime::now();
    let mut sent = 0;
    for i in 0..5 {
        let content = ClipboardContent::Text(format!("copy {i}"));
        sent += core.process_event(BsyncEvent::LocalClipboardChanged { content }).len();
    }
    let after = SystemTime::now();
    assert_eq!(sent, 4);
    for entry in core.view().history {
        assert!(before <= entry.timestamp && entry.timestamp <= after);
    }
}

// Images

fn image(bytes: &[u8]) -> ClipboardContent {
    ClipboardContent::Image(bytes.to_vec())
}

#[test]
fn copied_image_is_broadcast() {
    let mut core = test_core();
    let effects = core.process_event(BsyncEvent::LocalClipboardChanged { content: image(&[1, 2]) });
    assert_eq!(effects.len(), 1);
    match &effects[0] {
        BsyncEffect::BroadcastImage { room, origin, png_data } => {
            assert_eq!(room, "test-room");
            assert_eq!(origin, "test-peer-1");
            assert_eq!(png_data, &vec![1, 2]);
        }
        _ => panic!("expected BroadcastImage"),
    }
    let view = core.view();
    assert_eq!(view.history[0].preview, "[image]");
    assert!(matches!(&view.history[0].content, ClipboardContent::Image(p) if p == &vec![1, 2]));
}

#[test]
fn received_image_is_written_once() {
    let mut core = test_core();
    connect_peer(&mut core, "peer-2");
    let received = || BsyncEvent::RemoteMessageReceived {
        from: "peer-2".into(),
        content: image(b"png"),
    };
    match &core.process_event(received())[0] {
        BsyncEffect::WriteClipboard { content: ClipboardContent::Image(png), write_hash } => {
            assert_eq!(png, b"png");
            assert_eq!(write_hash, blake3::hash(b"png").as_bytes());
        }
        _ => panic!("expected WriteClipboard"),
    }
    assert!(core.process_event(received()).is_empty());
    let echo = BsyncEvent::LocalClipboardChanged { content: image(b"png") };
    assert!(core.process_event(echo).is_empty());
}

// Rooms

fn in_room(core: &mut BsyncCore, room: &str, event: RoomEvent) -> Vec<BsyncEffect> {
    core.process_event(BsyncEvent::InRoom { room: room.into(), event })
}

#[test]
fn room_is_created_once() {
    let mut core = test_core();
    for _ in 0..2 {
        let effects = core.process_event(BsyncEvent::CreateRoom { room: "work".into() });
        assert_eq!(effects.len(), 1);
        match &effects[0] {
            BsyncEffect::SetupRoom { room, ticket: Some(ticket) } => {
                assert_eq!(room, "work");
                let ticket = Ticket::decode(ticket).unwrap();
                assert_eq!((ticket.endpoint_addr.as_str(), ticket.room.as_str()), ("test-peer-1", "work"));
            }
            _ => panic!("expected SetupRoom"),
        }
    }
    let rooms = core.view().rooms;
    let names: Vec<&str> = rooms.iter().map(|r| r.name.as_str()).collect();
    assert_eq!(names, vec!["test-room", "work"]);
    assert!(rooms[1].is_local && rooms[1].ticket.is_some());
}

#[test]
fn room_is_joined_by_its_ticket() {
    let mut core = test_core();
    let ticket = Ticket::new("somewhere".into(), "theirs".into()).encode();
    let effects = core.process_event(BsyncEvent::JoinRoom { ticket });
    assert_eq!(effects.len(), 2);
    assert!(matches!(&effects[0], BsyncEffect::SetupRoom { room, ticket: None } if room == "theirs"));
    match &effects[1] {
        BsyncEffect::AddPeer { room, endpoint_addr } => {
            assert_eq!((room.as_str(), endpoint_addr.as_str()), ("theirs", "somewhere"));
        }
        _ => panic!("expected AddPeer"),
    }
    assert_eq!(core.view().status, "connecting to somewhere...");
    let joined = &core.view().rooms[1];
    assert!(!joined.is_local && joined.ticket.is_none());

    let effects = core.process_event(BsyncEvent::JoinRoom { ticket: "%".into() });
    assert_eq!(printed(&effects), "Invalid ticket: invalid base64 encoding");
}

#[test]
fn rooms_are_isolated() {
    let mut core = test_core();
    core.process_event(BsyncEvent::CreateRoom { room: "work".into() });
    let effects = in_room(&mut core, "work", RoomEvent::PeerConnected { id: "p2".into() });
    match &effects[0] {
        BsyncEffect::PromptApproval { room, peer_id } => {
            assert_eq!((room.as_str(), peer_id.as_str()), ("work", "p2"));
        }
        _ => panic!("expected PromptApproval"),
    }
    in_room(&mut core, "work", RoomEvent::PeerApproved { id: "p2".into() });
    assert!(core.view().connected_peers.is_empty());
    assert_eq!(core.view().rooms[1].connected_peers, vec!["p2".to_string()]);
    assert!(received(&mut core, "p2", "hello").is_empty());
    let message = |c: &str| RoomEvent::MessageReceived { from: "p2".into(), content: text(c) };
    assert_eq!(in_room(&mut core, "work", message("hello")).len(), 1);
    assert!(in_room(&mut core, "nowhere", message("world")).is_empty());
    let gone = RoomEvent::PeerDisconnected { id: "p2".into() };
    assert_eq!(printed(&in_room(&mut core, "work", gone)), "Peer disconnected: p2");
    assert!(in_room(&mut core, "work", message("world")).is_empty());
    let rejected = RoomEvent::PeerRejected { id: "p2".into() };
    assert!(in_room(&mut core, "nowhere", rejected).is_empty());
}

#[test]
fn copies_go_to_every_room() {
    let mut core = test_core();
    core.process_event(BsyncEvent::CreateRoom { room: "work".into() });
    let effects = copied(&mut core, "hello", 0);
    let rooms: Vec<&str> = effects
        .iter()
        .map(|e| match e {
            BsyncEffect::BroadcastMessage { room, .. } => room.as_str(),
            _ => panic!("expected BroadcastMessage"),
        })
        .collect();
    assert_eq!(rooms, vec!["test-room", "work"]);
    // One copy counts once, however many rooms there are.
    for i in 1..4 {
        assert_eq!(copied(&mut core, &format!("copy {i}"), i).len(), 2);
    }
    assert!(copied(&mut core, "copy 4", 4).is_empty());
}

#[test]
fn left_rooms_are_gone() {
    let mut core = test_core();
    connect_peer(&mut core, "p2");
    let effects = core.process_event(BsyncEvent::LeaveRoom { room: "test-room".into() });
    assert!(matches!(&effects[0], BsyncEffect::ShutdownRoom { room } if room == "test-room"));
    assert!(core.process_event(BsyncEvent::LeaveRoom { room: "test-room".into() }).is_empty());
    assert!(core.view().rooms.is_empty());
    assert!(received(&mut core, "p2", "hello").is_empty());
    assert!(core.process_event(BsyncEvent::PeerConnected { id: "p3".into() }).is_empty());
    assert!(copied(&mut core, "alone", 0).is_empty());
    assert_eq!(core.view().history.len(), 1);
}

#[test]
fn auto_accept_never_asks() {
    let mut core = BsyncCore::new(Config {
        peer_id: "p1".into(),
        room: "r".into(),
        auto_accept: true,
    });
    core.process_event(BsyncEvent::CreateRoom { room: "work".into() });
    for room in ["r", "work"] {
        let effects = in_room(&mut core, room, RoomEvent::PeerConnected { id: "p2".into() });
        assert_eq!(printed(&effects), "Peer connected: p2 (auto-accepted)");
    }
    assert!(core.view().rooms.iter().all(|r| r.pending_peers.is_empty()));
}

#[test]
fn shown_identity_is_fixed() {
    let mut core = test_core();
    connect_peer(&mut core, "p2");
    copied(&mut core, "hello", 0);
    core.process_event(BsyncEvent::CreateRoom { room: "work".into() });
    core.process_event(BsyncEvent::LeaveRoom { room: "test-room".into() });
    core.process_event(BsyncEvent::Shutdown);
    let view = core.view();
    assert_eq!((view.peer_id.as_str(), view.room.as_str()), ("test-peer-1", "test-room"));
    assert!(!view.ticket.is_empty());
    let ticket = Ticket::decode(&view.ticket).unwrap();
    assert_eq!(ticket.v, 1);
    assert_eq!((ticket.endpoint_addr, ticket.room), (view.peer_id, view.room));
}

#[test]
fn held_back_copies_are_recorded() {
    let mut core = test_core();
    let copy = |core: &mut BsyncCore, content: &str, now: u128| {
        core.handle_local_change(text(content), now, SystemTime::UNIX_EPOCH).len()
    };
    for i in 0..4 {
        assert_eq!(copy(&mut core, &format!("copy {i}"), i), 1);
    }
    connect_peer(&mut core, "p2");
    assert_eq!(copy(&mut core, "held back", 999_999_999), 0);
    let view = core.view();
    assert_eq!(view.status, "connected to p2");
    assert_eq!(view.history[0].preview, "held back");
    assert!(view.history[0].is_local);
    assert_eq!(view.history[0].origin, "test-peer-1");
    assert_eq!(copy(&mut core, "in time", 1_000_000_000), 1);
    assert_eq!(copy(&mut core, "too soon", 1_000_000_000), 0);
}
