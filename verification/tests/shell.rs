use bsync::engine::{BsyncCore, Config};
use bsync::message::{ClipboardContent, GossipMessage};
use bsync::network::{
    blob_step, gossip_step, image_message, outgoing, GossipInput, GossipStep, NetworkEvent,
    Outgoing,
};
use bsync::shell::{
    approves, at_deadline, clipboard_failure, dispatch_effect, handle_gossip_event,
    handle_network_event, shell_step, start_shell, still_waits, timeout_message, waits_at_start,
    ShellAction, ShellInput, STARTUP_WARNING,
};
use bsync::state::BsyncEffect;
use bsync::ticket::Ticket;

const PEER: &str = "d75a980182b10ab7d54bfed3c964073a0ee172f3daa62325af021a68f707511a";

fn shell_core() -> BsyncCore {
    BsyncCore::new(Config { peer_id: "me".into(), room: "default".into(), auto_accept: false })
}

fn with_peer() -> BsyncCore {
    let mut core = shell_core();
    handle_network_event(&mut core, NetworkEvent::PeerConnected { id: "p2".into() }, true);
    shell_step(&mut core, ShellInput::Approval { peer_id: "p2".into(), approved: true }, true);
    core
}

fn text_from(from: &str, text: &str) -> NetworkEvent {
    NetworkEvent::MessageReceived {
        from: from.into(),
        content: ClipboardContent::Text(text.into()),
    }
}

fn warned(actions: &[ShellAction]) -> String {
    assert_eq!(actions.len(), 1);
    match &actions[0] {
        ShellAction::Warn { line } => line.clone(),
        _ => panic!("expected a warning"),
    }
}

fn shown(action: &ShellAction) -> String {
    match action {
        ShellAction::Print { line } => line.clone(),
        _ => panic!("expected a line"),
    }
}

#[test]
fn warning_has_three_lines() {
    let lines: Vec<&str> = STARTUP_WARNING.lines().collect();
    assert_eq!(
        lines,
        vec![
            "\u{26a0}\u{fe0f}  bsync sends your clipboard contents to ALL connected peers.",
            "    Only connect to peers you trust completely.",
            "    Connected peers can see: passwords, 2FA codes, API keys, private text.",
        ]
    );
}

#[test]
fn startup_without_a_ticket() {
    let mut core = shell_core();
    let startup = start_shell(&mut core, None);
    assert_eq!(startup.actions.len(), 1);
    assert!(shown(&startup.actions[0]).starts_with("Peer ID: me\nTicket:  "));
    assert!(startup.bootstrap.is_empty());
    assert_eq!(core.view().status, "waiting for connections...");
}

#[test]
fn startup_enters_by_the_ticket() {
    let mut core = shell_core();
    let ticket = Ticket::new(PEER.into(), "default".into()).encode();
    let startup = start_shell(&mut core, Some(ticket));
    assert_eq!(startup.actions.len(), 1);
    assert_eq!(startup.bootstrap.len(), 1);
    assert_eq!(startup.bootstrap[0][0], 0xd7);
    assert_eq!(core.view().status, format!("connecting to {PEER}..."));
}

#[test]
fn startup_reports_bad_tickets() {
    let mut core = shell_core();
    let startup = start_shell(&mut core, Some("%".into()));
    assert_eq!(
        warned(&startup.actions[1..]),
        "Invalid ticket: invalid base64 encoding"
    );
    assert!(startup.bootstrap.is_empty());

    let mut core = shell_core();
    let ticket = Ticket::new("nowhere".into(), "default".into()).encode();
    let startup = start_shell(&mut core, Some(ticket));
    assert_eq!(
        warned(&startup.actions[1..]),
        "Invalid endpoint address in ticket: invalid endpoint address in ticket"
    );
    assert!(startup.bootstrap.is_empty());
    assert_eq!(core.view().status, "connecting to nowhere...");
}

#[test]
fn a_copy_is_broadcast() {
    let mut core = shell_core();
    let content = ClipboardContent::Text("hello".into());
    let step = shell_step(&mut core, ShellInput::Clipboard { content }, true);
    assert!(!step.stop);
    assert_eq!(step.actions.len(), 1);
    match &step.actions[0] {
        ShellAction::Broadcast { content: ClipboardContent::Text(text), origin } => {
            assert_eq!(text, "hello");
            assert_eq!(origin, "me");
        }
        _ => panic!("expected a broadcast"),
    }
}

#[test]
fn images_are_synced() {
    let mut core = with_peer();
    let content = ClipboardContent::Image(vec![1]);
    let step = shell_step(&mut core, ShellInput::Clipboard { content }, true);
    match &step.actions[0] {
        ShellAction::Broadcast { content: ClipboardContent::Image(png_data), origin } => {
            assert_eq!((png_data, origin.as_str()), (&vec![1], "me"));
        }
        _ => panic!("expected a broadcast"),
    }
    let event = NetworkEvent::MessageReceived {
        from: "p2".into(),
        content: ClipboardContent::Image(vec![2]),
    };
    let step = shell_step(&mut core, ShellInput::Network { event }, true);
    match &step.actions[0] {
        ShellAction::Write { content: ClipboardContent::Image(png_data) } => {
            assert_eq!(png_data, &vec![2]);
        }
        _ => panic!("expected a write"),
    }
}

#[test]
fn received_text_is_written_if_there_is_a_clipboard() {
    let mut core = with_peer();
    let step = handle_network_event(&mut core, text_from("p2", "hello"), true);
    assert_eq!(step.actions.len(), 1);
    match &step.actions[0] {
        ShellAction::Write { content: ClipboardContent::Text(text) } => assert_eq!(text, "hello"),
        _ => panic!("expected a write"),
    }
    let step = handle_network_event(&mut core, text_from("p2", "world"), false);
    assert!(step.actions.is_empty());
    assert_eq!(core.view().history.len(), 2);
}

#[test]
fn peers_are_asked_about() {
    let mut core = shell_core();
    let event = NetworkEvent::PeerConnected { id: "p2".into() };
    let step = shell_step(&mut core, ShellInput::Network { event }, true);
    match &step.actions[0] {
        ShellAction::Ask { peer_id, prompt } => {
            assert_eq!(peer_id, "p2");
            assert_eq!(prompt, "Peer p2 wants to connect. Allow? [y/N]: ");
        }
        _ => panic!("expected a question"),
    }
    let refused = ShellInput::Approval { peer_id: "p2".into(), approved: false };
    let step = shell_step(&mut core, refused, true);
    assert_eq!(shown(&step.actions[0]), "Peer rejected: p2");
    let event = NetworkEvent::PeerDisconnected { id: "p2".into() };
    let step = shell_step(&mut core, ShellInput::Network { event }, true);
    assert_eq!(shown(&step.actions[0]), "Peer disconnected: p2");
}

#[test]
fn lost_messages_and_the_end_are_told() {
    let mut core = shell_core();
    let step = shell_step(&mut core, ShellInput::Network { event: NetworkEvent::Lagged }, true);
    assert!(!step.stop);
    assert_eq!(
        warned(&step.actions),
        "Warning: gossip stream lagged \u{2014} some clipboard updates were dropped"
    );
    let step = shell_step(&mut core, ShellInput::NetworkEnded, true);
    assert!(step.stop);
    assert_eq!(warned(&step.actions), "Network stream ended");
}

#[test]
fn interrupt_shuts_down() {
    let mut core = shell_core();
    let step = shell_step(&mut core, ShellInput::Interrupt, true);
    assert!(step.stop);
    assert_eq!(step.actions.len(), 1);
    assert_eq!(shown(&step.actions[0]), "\nShutting down...");
    assert_eq!(core.view().status, "shutting down...");
}

#[test]
fn gossip_is_read_by_the_shell_itself() {
    let mut core = with_peer();
    let message = GossipMessage::ClipboardText { origin: "p2".into(), content: "hello".into() };
    let input = GossipInput::Received { content: message.to_json() };
    let step = handle_gossip_event(&mut core, input, "", true);
    assert!(matches!(step.actions[0], ShellAction::Write { .. }));

    let image = GossipMessage::ClipboardImage { origin: "p2".into(), hash: [0; 32] };
    for content in [image.to_json(), b"x".to_vec()] {
        let step = handle_gossip_event(&mut core, GossipInput::Received { content }, "bad", true);
        assert_eq!(warned(&step.actions), "Failed to deserialize gossip message: bad");
    }

    let input = GossipInput::NeighborUp { id: "p3".into() };
    let step = shell_step(&mut core, ShellInput::Gossip { input, cause: String::new() }, true);
    assert!(matches!(step.actions[0], ShellAction::Ask { .. }));
    let step = handle_gossip_event(&mut core, GossipInput::NeighborDown { id: "p3".into() }, "", true);
    assert_eq!(shown(&step.actions[0]), "Peer disconnected: p3");
    let step = handle_gossip_event(&mut core, GossipInput::Lagged, "", true);
    assert!(warned(&step.actions).starts_with("Warning: gossip stream lagged"));
    let failed = GossipInput::Failed { reason: "gone".into() };
    let step = handle_gossip_event(&mut core, failed, "", true);
    assert!(!step.stop);
    assert_eq!(warned(&step.actions), "Gossip error: gone");
    let step = handle_gossip_event(&mut core, GossipInput::Ended, "", true);
    assert!(step.stop);
    assert_eq!(warned(&step.actions), "Gossip stream ended");
}

#[test]
fn effects_become_actions() {
    let image = GossipMessage::ClipboardImage { origin: "me".into(), hash: [0; 32] };
    let effect = BsyncEffect::BroadcastMessage { room: "r".into(), message: image };
    match dispatch_effect(&effect, true) {
        Some(ShellAction::Warn { line }) => assert_eq!(
            line,
            "Warning: unexpected BroadcastMessage with image \u{2014} skipping"
        ),
        _ => panic!("expected a warning"),
    }
    let effect = BsyncEffect::BroadcastImage {
        room: "r".into(),
        origin: "me".into(),
        png_data: vec![1, 2],
    };
    match dispatch_effect(&effect, true) {
        Some(ShellAction::Broadcast { content: ClipboardContent::Image(png_data), origin }) => {
            assert_eq!(png_data, vec![1, 2]);
            assert_eq!(origin, "me");
        }
        _ => panic!("expected a broadcast"),
    }
    let effect = BsyncEffect::ConnectToEndpoint { endpoint_addr: PEER.into() };
    assert!(dispatch_effect(&effect, true).is_none());
    assert!(dispatch_effect(&BsyncEffect::Shutdown, true).is_none());
    let effect = BsyncEffect::ShutdownRoom { room: "r".into() };
    assert!(dispatch_effect(&effect, true).is_none());
}

#[test]
fn only_y_approves() {
    for line in ["y", "Y", " y\n", "\tY\r\n", "\u{3000}y\u{a0}"] {
        assert!(approves(Some(line.into())));
    }
    for line in ["", "\n", "n", "yes", "y y", "\u{178}"] {
        assert!(!approves(Some(line.into())));
    }
    assert!(!approves(None));
}

#[test]
fn what_is_copied_here_is_written_there() {
    let mut here = shell_core();
    let mut there = BsyncCore::new(Config {
        peer_id: "you".into(),
        room: "default".into(),
        auto_accept: true,
    });
    handle_network_event(&mut there, NetworkEvent::PeerConnected { id: "me".into() }, true);
    let content = ClipboardContent::Text("hello".into());
    let step = shell_step(&mut here, ShellInput::Clipboard { content }, true);
    let (text, origin) = match &step.actions[0] {
        ShellAction::Broadcast { content: ClipboardContent::Text(text), origin } => (text, origin),
        _ => panic!("expected a broadcast"),
    };
    let step = handle_network_event(&mut there, text_from(origin, text), true);
    assert!(matches!(step.actions[0], ShellAction::Write { .. }));
    let content = ClipboardContent::Text("hello".into());
    let step = shell_step(&mut there, ShellInput::Clipboard { content }, true);
    assert!(step.actions.is_empty());
}

#[test]
fn strangers_are_ignored() {
    let mut core = with_peer();
    let before = core.view();
    let step = handle_network_event(&mut core, text_from("p9", "hello"), true);
    assert!(step.actions.is_empty() && !step.stop);
    assert!(core.view().history.is_empty());
    assert_eq!(core.view().status, before.status);
}

#[test]
fn the_first_peer_ends_the_wait() {
    let arrived = ShellInput::Network { event: NetworkEvent::PeerConnected { id: "p2".into() } };
    let other = ShellInput::Network { event: NetworkEvent::Lagged };
    let input = GossipInput::NeighborUp { id: "p2".into() };
    let neighbor = ShellInput::Gossip { input, cause: String::new() };
    assert!(still_waits(true, &other));
    assert!(still_waits(true, &ShellInput::Interrupt));
    assert!(!still_waits(true, &arrived));
    assert!(!still_waits(true, &neighbor));
    assert!(!still_waits(false, &other));
    assert_eq!(timeout_message(), "Connection timed out after 30 seconds.");
}

#[test]
fn clipboard_failure_gives_guidance() {
    let message = clipboard_failure("no display");
    let lines: Vec<&str> = message.lines().collect();
    assert_eq!(
        lines,
        vec![
            "Failed to open clipboard: no display",
            "Wayland: ensure compositor supports wlr-data-control or ext-data-control-v1.",
            "Use --no-clipboard to run without clipboard sync.",
        ]
    );
}

#[test]
fn only_a_waiting_shell_runs_out_of_time() {
    let message = "Connection timed out after 30 seconds.".to_string();
    assert_eq!(at_deadline(true), Some(message));
    assert_eq!(at_deadline(false), None);
    assert!(!waits_at_start(&start_shell(&mut shell_core(), None)));
    assert!(!waits_at_start(&start_shell(&mut shell_core(), Some("%".into()))));
    let addr = "d75a980182b10ab7d54bfed3c964073a0ee172f3daa62325af021a68f707511a";
    let ticket = Ticket::new(addr.into(), "r".into()).encode();
    assert!(waits_at_start(&start_shell(&mut shell_core(), Some(ticket))));
}

#[test]
fn an_image_copied_here_is_written_there() {
    let addr = "d75a980182b10ab7d54bfed3c964073a0ee172f3daa62325af021a68f707511a";
    let core = |peer_id: &str| {
        BsyncCore::new(Config {
            peer_id: peer_id.into(),
            room: "r".into(),
            auto_accept: true,
        })
    };
    let (mut here, mut there) = (core(addr), core("other"));
    handle_network_event(&mut there, NetworkEvent::PeerConnected { id: addr.into() }, true);

    let image = || ClipboardContent::Image(vec![1, 2, 3]);
    let step = shell_step(&mut here, ShellInput::Clipboard { content: image() }, true);
    let (content, origin) = match &step.actions[0] {
        ShellAction::Broadcast { content, origin } => (content, origin),
        _ => panic!("expected a broadcast"),
    };
    let blob = match outgoing(content, origin) {
        Outgoing::Upload { png_data } => png_data,
        Outgoing::Ready { .. } => panic!("expected an upload"),
    };
    let content = image_message(origin, [9; 32]).payload().unwrap();
    let author = match gossip_step(GossipInput::Received { content }) {
        GossipStep::Fetch { origin, hash, .. } => {
            assert_eq!(hash, [9; 32]);
            origin
        }
        _ => panic!("expected a download"),
    };
    let event = match blob_step(author, Some(blob)) {
        GossipStep::Emit { event } => event,
        _ => panic!("expected an event"),
    };
    let step = shell_step(&mut there, ShellInput::Network { event }, true);
    match &step.actions[..] {
        [ShellAction::Write { content: ClipboardContent::Image(png_data) }] => {
            assert_eq!(png_data, &vec![1, 2, 3]);
        }
        _ => panic!("expected a write"),
    }
    let echo = shell_step(&mut there, ShellInput::Clipboard { content: image() }, true);
    assert!(echo.actions.is_empty());
}
