use bsync::engine::{BsyncCore, Config, RoomInfo};
use bsync::keys::{Key, TuiAction, TuiInput};
use bsync::message::{ClipboardContent, GossipMessage};
use bsync::network::NetworkEvent;
use bsync::state::BsyncEffect;
use bsync::ticket::Ticket;
use bsync::tui::{copy_ticket, copy_ticket_of, find_pending, App, Dialog, Tab};

fn new_app() -> App {
    App::new(BsyncCore::new(Config {
        peer_id: "me".into(),
        room: "home".into(),
        auto_accept: false,
    }))
}

fn press(app: &mut App, key: Key) -> Vec<TuiAction> {
    assert!(app.can_handle(key, true));
    app.handle_tui_key(key, false, true)
}

fn type_text(app: &mut App, text: &str) {
    for c in text.chars() {
        assert!(press(app, Key::Char(c)).is_empty());
    }
}

fn copy(app: &mut App, text: &str) -> Vec<TuiAction> {
    app.tui_step(
        TuiInput::Clipboard { content: ClipboardContent::Text(text.into()) },
        true,
    )
}

fn connect(app: &mut App, room: &str, id: &str) -> Vec<TuiAction> {
    app.handle_network_event_tui(room.into(), NetworkEvent::PeerConnected { id: id.into() }, true)
}

fn info(app: &App) -> String {
    match &app.dialog {
        Some(Dialog::Info { message }) => message.clone(),
        _ => panic!("expected an info dialog"),
    }
}

fn error(app: &App) -> String {
    match &app.dialog {
        Some(Dialog::Error { message }) => message.clone(),
        _ => panic!("expected an error dialog"),
    }
}

fn room(name: &str, is_local: bool, ticket: Option<&str>, pending: &[&str]) -> RoomInfo {
    RoomInfo {
        name: name.into(),
        is_local,
        ticket: ticket.map(|t| t.to_string()),
        connected_peers: vec![],
        pending_peers: pending.iter().map(|p| p.to_string()).collect(),
    }
}

#[test]
fn tabs_go_round() {
    let mut tab = Tab::Status;
    let mut titles = vec![];
    for expected in Tab::all() {
        assert_eq!(tab, expected);
        assert_eq!(tab.next().prev(), tab);
        assert_eq!(tab.prev().next(), tab);
        titles.push(tab.title());
        tab = tab.next();
    }
    assert_eq!(tab, Tab::Status);
    assert_eq!(Tab::Status.prev(), Tab::Help);
    assert_eq!(titles, vec!["Status", "Peers", "Rooms", "History", "Help"]);
    assert_eq!(Tab::History.index(), 3);
}

#[test]
fn app_starts_on_the_status_tab() {
    let app = new_app();
    assert_eq!(app.tab, Tab::Status);
    assert!(app.dialog.is_none() && app.notification.is_none());
    assert!(!app.should_quit && app.clipboard_enabled);
    assert_eq!((app.history_scroll, app.rooms_scroll), (0, 0));
    assert_eq!(app.view().room, "home");
}

#[test]
fn keys_switch_tabs() {
    let mut app = new_app();
    for (c, tab) in [
        ('2', Tab::Peers),
        ('3', Tab::Rooms),
        ('4', Tab::History),
        ('5', Tab::Help),
        ('1', Tab::Status),
    ] {
        press(&mut app, Key::Char(c));
        assert_eq!(app.tab, tab);
    }
    app.history_scroll = 3;
    press(&mut app, Key::Tab);
    assert_eq!((app.tab, app.history_scroll), (Tab::Peers, 0));
    app.history_scroll = 3;
    press(&mut app, Key::BackTab);
    assert_eq!((app.tab, app.history_scroll), (Tab::Status, 0));
}

#[test]
fn keys_scroll() {
    let mut app = new_app();
    press(&mut app, Key::Char('4'));
    press(&mut app, Key::Down);
    press(&mut app, Key::Char('j'));
    press(&mut app, Key::Up);
    assert_eq!((app.history_scroll, app.rooms_scroll), (1, 0));
    press(&mut app, Key::Char('3'));
    press(&mut app, Key::Down);
    press(&mut app, Key::Char('k'));
    press(&mut app, Key::Up);
    assert_eq!((app.history_scroll, app.rooms_scroll), (1, 0));
    app.rooms_scroll = usize::MAX;
    app.scroll_rooms_down();
    assert_eq!(app.rooms_scroll, usize::MAX);
    app.history_scroll = usize::MAX;
    app.scroll_history_down();
    assert_eq!(app.history_scroll, usize::MAX);
    app.scroll_history_up();
    app.scroll_rooms_up();
    assert_eq!((app.history_scroll, app.rooms_scroll), (usize::MAX - 1, usize::MAX - 1));
}

#[test]
fn keys_quit() {
    for key in [Key::Char('q'), Key::Esc] {
        let mut app = new_app();
        press(&mut app, key);
        assert!(app.should_quit);
    }
    let mut app = new_app();
    for key in [Key::Other, Key::Backspace, Key::Char('x'), Key::Enter] {
        assert!(press(&mut app, key).is_empty());
    }
    assert!(!app.should_quit && app.dialog.is_none());
    app.tui_step(TuiInput::Interrupt, true);
    assert!(app.should_quit);
}

#[test]
fn own_ticket_is_copied() {
    let mut app = new_app();
    let actions = press(&mut app, Key::Char('t'));
    match &actions[0] {
        TuiAction::SetText { text } => assert_eq!(text, &app.view().ticket),
        _ => panic!("expected a text"),
    }
    assert_eq!(info(&app), "Ticket for room 'home' copied to clipboard.");

    let mut app = new_app();
    assert!(app.handle_tui_key(Key::Char('t'), false, false).is_empty());
    assert_eq!(error(&app), "Clipboard is disabled (--no-clipboard).");
    assert!(app.copy_ticket_to_clipboard(true).is_some());
}

#[test]
fn ticket_of_the_selected_room_is_copied() {
    let mut app = new_app();
    assert!(press(&mut app, Key::Char('T')).is_empty());
    assert!(app.dialog.is_none());
    press(&mut app, Key::Char('3'));
    let actions = press(&mut app, Key::Char('T'));
    assert!(matches!(actions[0], TuiAction::SetText { .. }));
    assert_eq!(info(&app), "Ticket for 'home' copied to clipboard.");

    let mut app = new_app();
    assert!(app.copy_room_ticket(&"work".to_string(), true).is_none());
    assert_eq!(error(&app), "Room 'work' not found.");
    assert!(app.copy_room_ticket(&"home".to_string(), false).is_none());
    assert_eq!(error(&app), "Clipboard is disabled (--no-clipboard).");
}

#[test]
fn tickets_among_many_rooms() {
    let rooms = vec![
        room("a", false, None, &[]),
        room("b", true, Some("TB"), &["p1", "p2"]),
        room("c", true, Some("TC"), &["p3"]),
    ];
    let (dialog, copied) = copy_ticket(&rooms, true);
    assert_eq!(copied, Some("TB".to_string()));
    assert!(matches!(dialog, Dialog::Info { .. }));
    let (_, copied) = copy_ticket_of(&rooms, &"c".to_string(), true);
    assert_eq!(copied, Some("TC".to_string()));
    match copy_ticket_of(&rooms, &"a".to_string(), true) {
        (Dialog::Error { message }, None) => assert_eq!(
            message,
            "Room 'a' is not a local room \u{2014} no ticket to copy."
        ),
        _ => panic!("expected an error"),
    }
    assert_eq!(find_pending(&rooms), Some(("b".to_string(), "p1".to_string())));

    let lost = vec![room("a", true, None, &[]), room("b", true, Some("TB"), &[])];
    match copy_ticket(&lost, true) {
        (Dialog::Error { message }, None) => assert_eq!(message, "No local rooms available."),
        _ => panic!("expected an error"),
    }
    assert_eq!(find_pending(&lost), None);
}

#[test]
fn history_is_copied_again() {
    let mut app = new_app();
    press(&mut app, Key::Char('4'));
    assert!(press(&mut app, Key::Enter).is_empty());
    assert!(app.dialog.is_none());
    copy(&mut app, "first");
    copy(&mut app, &"x".repeat(50));
    app.history_scroll = 9;
    let actions = press(&mut app, Key::Enter);
    match &actions[0] {
        TuiAction::Write { content: ClipboardContent::Text(text) } => assert_eq!(text, "first"),
        _ => panic!("expected a write"),
    }
    assert_eq!(info(&app), "Copied to clipboard: first");
    app.dialog = None;
    app.history_scroll = 0;
    press(&mut app, Key::Enter);
    assert_eq!(info(&app), format!("Copied to clipboard: {}", "x".repeat(40)));
    app.dialog = None;
    assert!(app.recopy_history_item(false).is_none());
    assert!(app.dialog.is_none());
}

#[test]
fn previews_are_cut_between_characters_only() {
    let mut app = new_app();
    copy(&mut app, &"\u{e9}".repeat(30));
    assert!(app.can_recopy(true));
    copy(&mut app, &format!("x{}", "\u{e9}".repeat(30)));
    assert!(!app.can_recopy(true));
    assert!(app.can_recopy(false));
    press(&mut app, Key::Char('4'));
    assert!(!app.can_handle(Key::Enter, true));
    assert!(app.can_handle(Key::Down, true));
    app.history_scroll = 1;
    assert!(app.recopy_history_item(true).is_some());
    assert_eq!(info(&app), format!("Copied to clipboard: {}", "\u{e9}".repeat(20)));
}

#[test]
fn new_peer_is_approved_in_the_dialog() {
    let mut app = new_app();
    assert!(connect(&mut app, "home", "p2").is_empty());
    match &app.dialog {
        Some(Dialog::Approval { room, peer_id }) => {
            assert_eq!((room.as_str(), peer_id.as_str()), ("home", "p2"));
        }
        _ => panic!("expected the approval dialog"),
    }
    press(&mut app, Key::Char('x'));
    assert!(matches!(app.dialog, Some(Dialog::Approval { .. })));
    press(&mut app, Key::Char('y'));
    assert!(app.dialog.is_none());
    assert_eq!(app.view().connected_peers, vec!["p2".to_string()]);
    assert_eq!(app.notification, Some("Peer approved: p2".to_string()));
    press(&mut app, Key::Other);
    assert!(app.notification.is_none());
}

#[test]
fn new_peer_is_rejected_or_left_waiting() {
    let mut app = new_app();
    connect(&mut app, "home", "p2");
    press(&mut app, Key::Char('n'));
    assert!(app.view().pending_peers.is_empty() && app.view().connected_peers.is_empty());
    assert_eq!(app.notification, Some("Peer rejected: p2".to_string()));
    connect(&mut app, "home", "p3");
    press(&mut app, Key::Esc);
    assert!(app.dialog.is_none() && !app.should_quit);
    assert_eq!(app.view().pending_peers, vec!["p3".to_string()]);
    press(&mut app, Key::Char('y'));
    assert_eq!(app.view().connected_peers, vec!["p3".to_string()]);
    connect(&mut app, "home", "p4");
    press(&mut app, Key::Esc);
    assert!(press(&mut app, Key::Char('N')).is_empty());
    assert_eq!(app.view().pending_peers, vec!["p4".to_string()]);
    press(&mut app, Key::Char('2'));
    press(&mut app, Key::Char('N'));
    assert!(app.view().pending_peers.is_empty());
    assert!(press(&mut app, Key::Char('y')).is_empty());
}

#[test]
fn peers_of_other_rooms_are_answered() {
    let mut app = new_app();
    assert!(connect(&mut app, "work", "p3").is_empty());
    assert!(app.dialog.is_none());
    press(&mut app, Key::Char('r'));
    type_text(&mut app, "work");
    press(&mut app, Key::Enter);
    connect(&mut app, "work", "p3");
    match &app.dialog {
        Some(Dialog::Approval { room, peer_id }) => {
            assert_eq!((room.as_str(), peer_id.as_str()), ("work", "p3"));
        }
        _ => panic!("expected the approval dialog"),
    }
    press(&mut app, Key::Enter);
    assert!(app.view().connected_peers.is_empty());
    assert_eq!(app.view().rooms[1].connected_peers, vec!["p3".to_string()]);
    let event = NetworkEvent::MessageReceived {
        from: "p3".into(),
        content: ClipboardContent::Image(vec![1]),
    };
    let actions = app.handle_network_event_tui("work".into(), event, true);
    assert!(matches!(
        actions[0],
        TuiAction::Write { content: ClipboardContent::Image(_) }
    ));
}

#[test]
fn n_rejects_a_waiting_peer() {
    let mut app = new_app();
    connect(&mut app, "home", "p2");
    press(&mut app, Key::Esc);
    press(&mut app, Key::Char('3'));
    press(&mut app, Key::Char('n'));
    assert!(matches!(app.dialog, Some(Dialog::RoomCreate { .. })));
    press(&mut app, Key::Esc);
    press(&mut app, Key::Char('2'));
    press(&mut app, Key::Char('n'));
    assert!(app.dialog.is_none());
    assert!(app.view().pending_peers.is_empty() && app.view().connected_peers.is_empty());
    assert_eq!(app.notification, Some("Peer rejected: p2".to_string()));
    press(&mut app, Key::Char('n'));
    assert!(matches!(app.dialog, Some(Dialog::RoomCreate { .. })));
}

#[test]
fn ticket_is_entered_and_pasted() {
    let mut app = new_app();
    press(&mut app, Key::Char('c'));
    press(&mut app, Key::Enter);
    assert_eq!(error(&app), "Ticket cannot be empty");
    press(&mut app, Key::Char(' '));
    assert!(app.dialog.is_none());

    press(&mut app, Key::Char('c'));
    type_text(&mut app, "qv");
    press(&mut app, Key::Backspace);
    press(&mut app, Key::Backspace);
    press(&mut app, Key::Backspace);
    press(&mut app, Key::Up);
    let actions = app.handle_tui_key(Key::Char('v'), true, true);
    assert!(matches!(actions[0], TuiAction::Paste));
    let ticket = Ticket::new("there".into(), "home".into()).encode();
    app.paste(&ticket);
    match &app.dialog {
        Some(Dialog::ConnectInput { input }) => assert_eq!(input, &ticket),
        _ => panic!("expected the input dialog"),
    }
    let actions = press(&mut app, Key::Enter);
    assert!(matches!(&actions[0], TuiAction::SetupRoom { room } if room == "home"));
    match &actions[1] {
        TuiAction::AddPeer { room, endpoint_addr } => {
            assert_eq!((room.as_str(), endpoint_addr.as_str()), ("home", "there"));
        }
        _ => panic!("expected a peer"),
    }
    assert!(app.dialog.is_none());
    assert_eq!(app.view().status, "connecting to there...");
}

#[test]
fn paste_goes_to_the_ticket_only() {
    let mut app = new_app();
    app.paste("x");
    assert!(app.dialog.is_none());
    app.open_room_create_dialog();
    app.paste("x");
    match &app.dialog {
        Some(Dialog::RoomCreate { input }) => assert_eq!(input, ""),
        _ => panic!("expected the room dialog"),
    }
    app.open_connect_dialog();
    assert!(app.handle_tui_key(Key::Char('v'), true, false).is_empty());
    assert!(matches!(app.dialog, Some(Dialog::ConnectInput { .. })));
}

#[test]
fn bad_ticket_is_notified() {
    let mut app = new_app();
    press(&mut app, Key::Char('c'));
    type_text(&mut app, "%");
    assert!(press(&mut app, Key::Enter).is_empty());
    assert_eq!(
        app.notification,
        Some("Invalid ticket: invalid base64 encoding".to_string())
    );
}

#[test]
fn room_is_created_under_its_trimmed_name() {
    let mut app = new_app();
    press(&mut app, Key::Char('n'));
    type_text(&mut app, "  work q ");
    press(&mut app, Key::Down);
    let actions = press(&mut app, Key::Enter);
    match &actions[0] {
        TuiAction::SetupRoom { room } => assert_eq!(room, "work q"),
        _ => panic!("expected a room"),
    }
    assert!(app.dialog.is_none());
    press(&mut app, Key::Char('r'));
    type_text(&mut app, " x ");
    press(&mut app, Key::Backspace);
    press(&mut app, Key::Backspace);
    press(&mut app, Key::Enter);
    assert_eq!(error(&app), "Room name cannot be empty");
    press(&mut app, Key::Char('x'));
    assert_eq!(error(&app), "Room name cannot be empty");
    press(&mut app, Key::Enter);
    press(&mut app, Key::Char('r'));
    press(&mut app, Key::Esc);
    assert!(app.dialog.is_none());
}

#[test]
fn room_is_deleted_after_a_question() {
    let mut app = new_app();
    assert!(press(&mut app, Key::Char('d')).is_empty());
    assert!(app.dialog.is_none());
    press(&mut app, Key::Char('3'));
    press(&mut app, Key::Char('d'));
    match &app.dialog {
        Some(Dialog::RoomDelete { room }) => assert_eq!(room, "home"),
        _ => panic!("expected the delete dialog"),
    }
    press(&mut app, Key::Char('x'));
    assert!(app.dialog.is_some());
    press(&mut app, Key::Char('n'));
    assert!(app.dialog.is_none());
    press(&mut app, Key::Char('d'));
    let actions = press(&mut app, Key::Char('y'));
    match &actions[0] {
        TuiAction::ShutdownRoom { room } => assert_eq!(room, "home"),
        _ => panic!("expected a shutdown"),
    }
    assert!(app.view().rooms.is_empty());
    assert!(copy(&mut app, "alone").is_empty());
    press(&mut app, Key::Char('d'));
    assert!(app.dialog.is_none());
}

#[test]
fn room_events_reach_the_core() {
    let mut app = new_app();
    connect(&mut app, "home", "p2");
    press(&mut app, Key::Enter);
    let event = NetworkEvent::MessageReceived {
        from: "p2".into(),
        content: ClipboardContent::Text("hello".into()),
    };
    let actions = app.tui_step(TuiInput::Room { room: "home".into(), event }, true);
    match &actions[0] {
        TuiAction::Write { content: ClipboardContent::Text(text) } => assert_eq!(text, "hello"),
        _ => panic!("expected a write"),
    }
    assert!(copy(&mut app, "hello").is_empty());
    match &copy(&mut app, "world")[0] {
        TuiAction::Broadcast { room, content: ClipboardContent::Text(text), origin } => {
            assert_eq!((room.as_str(), text.as_str(), origin.as_str()), ("home", "world", "me"));
        }
        _ => panic!("expected a broadcast"),
    }
    let gone = NetworkEvent::PeerDisconnected { id: "p2".into() };
    assert!(app.handle_network_event_tui("home".into(), gone, true).is_empty());
    assert_eq!(app.notification, Some("Peer disconnected: p2".to_string()));
    app.handle_network_event_tui("work".into(), NetworkEvent::Lagged, true);
    assert_eq!(
        info(&app),
        "[work] Gossip stream lagged \u{2014} some clipboard updates may have been dropped."
    );
}

#[test]
fn other_effects_are_processed() {
    let mut app = new_app();
    let image = GossipMessage::ClipboardImage { origin: "me".into(), hash: [0; 32] };
    match app.process_effect(&BsyncEffect::BroadcastMessage { room: "home".into(), message: image }, true) {
        Some(TuiAction::Warn { line }) => {
            assert_eq!(line, "Warning: unexpected BroadcastMessage with image");
        }
        _ => panic!("expected a warning"),
    }
    let effect = BsyncEffect::BroadcastImage {
        room: "work".into(),
        origin: "me".into(),
        png_data: vec![7],
    };
    match app.process_effect(&effect, true) {
        Some(TuiAction::Broadcast { room, content: ClipboardContent::Image(png_data), .. }) => {
            assert_eq!((room.as_str(), png_data), ("work", vec![7]));
        }
        _ => panic!("expected a broadcast"),
    }
    let effect = BsyncEffect::WriteClipboard {
        content: ClipboardContent::Text("x".into()),
        write_hash: [0; 32],
    };
    assert!(app.process_effect(&effect, false).is_none());
    assert!(app.process_effect(&BsyncEffect::Shutdown, true).is_none());
    assert!(app.should_quit);
}

#[test]
fn launch_enters_the_room_and_takes_up_the_ticket() {
    let core = BsyncCore::new(Config {
        peer_id: "me".into(),
        room: "home".into(),
        auto_accept: false,
    });
    let ticket = Ticket::new("there".into(), "theirs".into()).encode();
    let (mut app, actions) = App::launch(core, true, Some(ticket), false);
    assert!(!app.clipboard_enabled);
    assert!(app.notification.is_none());
    assert_eq!(actions.len(), 3);
    assert!(matches!(&actions[0], TuiAction::SetupRoom { room } if room == "home"));
    assert!(matches!(&actions[1], TuiAction::SetupRoom { room } if room == "theirs"));
    assert!(matches!(&actions[2], TuiAction::AddPeer { room, .. } if room == "theirs"));
    assert_eq!(app.view().rooms.len(), 2);
    app.finish();
    assert_eq!(app.view().status, "shutting down...");
    assert!(!app.should_quit);

    let core = BsyncCore::new(Config {
        peer_id: "me".into(),
        room: "home".into(),
        auto_accept: false,
    });
    let (app, actions) = App::launch(core, false, None, true);
    assert!(app.clipboard_enabled);
    assert_eq!(actions.len(), 1);
    assert_eq!(app.view().status, "waiting for connections...");
}

#[test]
fn dialogs_are_cloned() {
    let dialog = Dialog::Approval { room: "home".into(), peer_id: "p2".into() };
    match dialog.clone() {
        Dialog::Approval { room, peer_id } => {
            assert_eq!((room.as_str(), peer_id.as_str()), ("home", "p2"));
        }
        _ => panic!("expected the approval dialog"),
    }
}

#[test]
fn without_a_clipboard_nothing_is_copied() {
    let mut app = new_app();
    connect(&mut app, "home", "p2");
    app.handle_tui_key(Key::Enter, false, false);
    let event = NetworkEvent::MessageReceived {
        from: "p2".into(),
        content: ClipboardContent::Text("hello".into()),
    };
    assert!(app.handle_network_event_tui("home".into(), event, false).is_empty());
    app.tab = Tab::History;
    for key in [Key::Enter, Key::Char('t'), Key::Enter, Key::Char('T'), Key::Char('c')] {
        assert!(app.handle_tui_key(key, false, false).is_empty());
    }
    assert!(app.handle_tui_key(Key::Char('v'), true, false).is_empty());
}

#[test]
fn the_longest_waiting_peer_is_first() {
    let mut app = new_app();
    for id in ["p2", "p3"] {
        connect(&mut app, "home", id);
        press(&mut app, Key::Esc);
    }
    press(&mut app, Key::Char('y'));
    assert_eq!(app.view().connected_peers, vec!["p2".to_string()]);
    assert_eq!(app.view().pending_peers, vec!["p3".to_string()]);
}

#[test]
fn the_highlighted_room_is_meant() {
    let mut app = new_app();
    press(&mut app, Key::Char('r'));
    type_text(&mut app, " work ");
    let actions = press(&mut app, Key::Enter);
    assert!(matches!(&actions[0], TuiAction::SetupRoom { room } if room == "work"));
    assert_eq!(app.view().rooms.len(), 2);
    press(&mut app, Key::Char('3'));
    app.rooms_scroll = 9;
    press(&mut app, Key::Char('d'));
    match &app.dialog {
        Some(Dialog::RoomDelete { room }) => assert_eq!(room, "work"),
        _ => panic!("expected the delete dialog"),
    }
    press(&mut app, Key::Esc);
    press(&mut app, Key::Char('T'));
    assert_eq!(info(&app), "Ticket for 'work' copied to clipboard.");
    press(&mut app, Key::Enter);
    press(&mut app, Key::Char('d'));
    press(&mut app, Key::Enter);
    assert_eq!(app.view().rooms.len(), 1);
    match &copy(&mut app, "hello")[..] {
        [TuiAction::Broadcast { room, .. }] => assert_eq!(room, "home"),
        _ => panic!("expected one broadcast"),
    }
}
