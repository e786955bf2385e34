use bsync::engine::{BsyncCore, Config, RoomInfo};
use bsync::keys::{Key, TuiInput};
use bsync::message::ClipboardContent;
use bsync::network::NetworkEvent;
use bsync::screen::{
    arrange, bold, bold_colored, can_draw, colored, compose, draw, draw_dialog, draw_help,
    draw_peers, draw_rooms, draw_status, notice_place, plain, popup, rules, Area, Color, Line,
    Places, Size, Style, Widget,
};
use bsync::tui::{App, Dialog, Tab};

const AREA: Area = Area { x: 0, y: 0, width: 80, height: 24 };
const UPPER: Area = Area { x: 1, y: 4, width: 78, height: 10 };
const LOWER: Area = Area { x: 1, y: 14, width: 78, height: 9 };

fn new_app() -> App {
    App::new(BsyncCore::new(Config {
        peer_id: "me".into(),
        room: "home".into(),
        auto_accept: false,
    }))
}

fn places() -> Places {
    Places { tab_bar: UPPER, content: LOWER, upper: UPPER, lower: LOWER }
}

fn flat(line: &Line) -> String {
    line.pieces.iter().map(|p| p.text.as_str()).collect()
}

fn styles(line: &Line) -> Vec<Style> {
    line.pieces.iter().map(|p| p.style).collect()
}

fn room(name: &str, is_local: bool, connected: &[&str], pending: &[&str]) -> RoomInfo {
    RoomInfo {
        name: name.into(),
        is_local,
        ticket: if is_local { Some("TICKET".into()) } else { None },
        connected_peers: connected.iter().map(|p| p.to_string()).collect(),
        pending_peers: pending.iter().map(|p| p.to_string()).collect(),
    }
}

#[test]
fn frame_and_tabs() {
    let app = new_app();
    let widgets = compose(&app, AREA, places());
    assert_eq!(widgets.len(), 4);
    match &widgets[0] {
        Widget::Frame { area, title, instructions } => {
            assert_eq!(*area, AREA);
            assert_eq!(flat(title), " bsync ");
            assert_eq!(styles(title), vec![bold()]);
            assert_eq!(
                flat(instructions),
                " Tabs <Tab> Scroll <\u{2191}\u{2193}> Ticket <t> Connect <c> Room <r> Quit <q>"
            );
            assert_eq!(instructions.pieces[1].style, bold_colored(Color::Blue));
        }
        _ => panic!("expected the frame"),
    }
    match &widgets[1] {
        Widget::Tabs { area, titles, selected } => {
            assert_eq!(*area, UPPER);
            assert_eq!(titles[0], " Status ");
            assert_eq!(titles[4], " Help ");
            assert_eq!((titles.len(), *selected), (5, 0));
        }
        _ => panic!("expected the tabs"),
    }
}

#[test]
fn status_of_many_rooms() {
    let mut view = new_app().view();
    view.rooms = vec![
        room("a", false, &["p1", "p2"], &[]),
        room("b", true, &["p3"], &["p4"]),
    ];
    let widgets = draw_status(&view, UPPER, LOWER);
    match &widgets[0] {
        Widget::Panel { area, title, border, padding, lines } => {
            assert_eq!((*area, title.as_str(), *border, *padding), (UPPER, " Status ", None, 1));
            let texts: Vec<String> = lines.iter().map(flat).collect();
            assert_eq!(
                texts,
                vec![
                    "Peer ID: me",
                    "",
                    "Ticket:  TICKET",
                    "",
                    "Rooms:   \u{2192} a, \u{2605} b",
                    "",
                    "3 connected, 1 pending across all rooms",
                ]
            );
            assert_eq!(styles(&lines[6]), vec![colored(Color::Green)]);
        }
        _ => panic!("expected a panel"),
    }
    match &widgets[1] {
        Widget::Panel { area, title, border, lines, .. } => {
            assert_eq!((*area, title.as_str()), (LOWER, " Security "));
            assert_eq!(*border, Some(Color::Yellow));
            assert_eq!(lines.len(), 3);
            assert_eq!(flat(&lines[1]), "    Only connect to peers you trust.");
        }
        _ => panic!("expected a panel"),
    }
}

#[test]
fn status_without_rooms() {
    let mut view = new_app().view();
    view.rooms = vec![];
    match &draw_status(&view, UPPER, LOWER)[0] {
        Widget::Panel { lines, .. } => {
            assert_eq!(flat(&lines[2]), "Ticket:  (no local rooms)");
            assert_eq!(flat(&lines[4]), "Rooms:   ");
            assert_eq!(flat(&lines[6]), "0 connected, 0 pending across all rooms");
        }
        _ => panic!("expected a panel"),
    }
}

#[test]
fn peers_are_listed_by_room() {
    let mut view = new_app().view();
    view.rooms = vec![room("a", false, &["p1", "p2"], &[]), room("b", true, &["p3"], &[])];
    let widgets = draw_peers(&view, UPPER, LOWER);
    match &widgets[0] {
        Widget::List { area, title, rows, selected } => {
            assert_eq!((*area, title.as_str(), *selected), (UPPER, " Connected (3) ", None));
            let texts: Vec<String> = rows.iter().map(flat).collect();
            assert_eq!(texts, vec!["[a] p1", "[a] p2", "[b] p3"]);
            assert_eq!(styles(&rows[0]), vec![plain(), colored(Color::Green)]);
        }
        _ => panic!("expected a list"),
    }
    match &widgets[1] {
        Widget::List { area, title, rows, .. } => {
            assert_eq!((*area, title.as_str()), (LOWER, " Pending (0) "));
            assert_eq!(rows.len(), 1);
            assert_eq!(flat(&rows[0]), "No pending peers");
            assert_eq!(styles(&rows[0]), vec![colored(Color::DarkGray)]);
        }
        _ => panic!("expected a list"),
    }
}

#[test]
fn rooms_are_listed() {
    let mut view = new_app().view();
    view.rooms = vec![
        room("home", true, &["p1", "p2"], &["p3"]),
        room("a room with a long name", false, &[], &[]),
    ];
    let widgets = draw_rooms(&view, 7, UPPER, LOWER);
    match &widgets[0] {
        Widget::List { title, rows, selected, .. } => {
            assert_eq!((title.as_str(), *selected), (" Rooms (2) ", Some(1)));
            assert_eq!(
                flat(&rows[0]),
                "home            \u{2605} local   2 conn, 1 pending"
            );
            assert_eq!(
                flat(&rows[1]),
                "a room with a long name\u{2192} joined  0 conn, 0 pending"
            );
            assert_eq!(
                styles(&rows[1]),
                vec![bold(), colored(Color::Magenta), plain()]
            );
        }
        _ => panic!("expected a list"),
    }
    match &widgets[1] {
        Widget::Row { area, line } => {
            assert_eq!(*area, LOWER);
            assert_eq!(
                flat(line),
                " [n] new  [d] delete  [T] copy ticket  [\u{2191}\u{2193}] scroll"
            );
        }
        _ => panic!("expected a row"),
    }
    view.rooms = vec![];
    match &draw_rooms(&view, 7, UPPER, LOWER)[0] {
        Widget::List { rows, selected, .. } => {
            assert_eq!(*selected, Some(0));
            assert_eq!(
                flat(&rows[0]),
                "No rooms. Press 'n' to create one or 'c' to join via ticket."
            );
        }
        _ => panic!("expected a list"),
    }
}

#[test]
fn history_is_listed_newest_first() {
    let mut app = new_app();
    app.tab = Tab::History;
    match &compose(&app, AREA, places())[2] {
        Widget::List { area, title, rows, selected } => {
            assert_eq!((*area, title.as_str(), *selected), (LOWER, " History ", Some(0)));
            assert_eq!(flat(&rows[0]), "No history yet");
        }
        _ => panic!("expected a list"),
    }
    let content = ClipboardContent::Text("mine".into());
    app.tui_step(TuiInput::Clipboard { content }, true);
    for event in [
        NetworkEvent::PeerConnected { id: "p2".into() },
        NetworkEvent::MessageReceived {
            from: "p2".into(),
            content: ClipboardContent::Text("theirs".into()),
        },
    ] {
        app.handle_network_event_tui("home".into(), event, true);
        app.handle_tui_key(Key::Enter, false, true);
    }
    app.history_scroll = 1;
    match &compose(&app, AREA, places())[2] {
        Widget::List { rows, selected, .. } => {
            assert_eq!(*selected, Some(1));
            assert_eq!(flat(&rows[0]), "\u{2190} theirs  (p2)");
            assert_eq!(flat(&rows[1]), "\u{2192} mine  (you)");
            assert_eq!(rows[0].pieces[1].style, colored(Color::White));
        }
        _ => panic!("expected a list"),
    }
}

#[test]
fn help_names_the_keys() {
    match &draw_help(UPPER)[0] {
        Widget::Panel { title, padding, lines, .. } => {
            assert_eq!((title.as_str(), *padding), (" Help ", 1));
            assert_eq!(lines.len(), 27);
            assert_eq!(flat(&lines[0]), "Keyboard Shortcuts");
            assert!(lines[0].pieces[0].style.underlined);
            assert_eq!(flat(&lines[4]), "  1-5       Jump to tab directly");
            assert_eq!(flat(&lines[16]), "About Rooms");
            assert_eq!(
                flat(&lines[26]),
                "  Ticket: base64-encoded connection info (public, not secret)"
            );
        }
        _ => panic!("expected a panel"),
    }
}

#[test]
fn dialogs_are_drawn() {
    let id = "0123456789abcdefghijKLMNO";
    let cases = [
        (
            Dialog::Approval { room: "home".into(), peer_id: id.into() },
            " Peer Approval ",
            8,
            "|Peer 0123456789abcdefghij wants to connect in room 'home'.||They will be able to see \
             your clipboard.||[y] Allow   [n] Reject   [Esc] Cancel",
        ),
        (
            Dialog::ConnectInput { input: "abc".into() },
            " Connect to Peer ",
            9,
            "|Enter the ticket from the peer you want to connect to:||> abc_||[Enter] Connect   \
             [Esc] Cancel",
        ),
        (
            Dialog::RoomCreate { input: "work".into() },
            " Create Room ",
            9,
            "|Enter a name for the new room:||> work_||[Enter] Create   [Esc] Cancel",
        ),
        (
            Dialog::RoomDelete { room: "work".into() },
            " Delete Room ",
            7,
            "|Delete room 'work'?|All connections in this room will be dropped.||[y] Delete   [n] \
             Cancel",
        ),
        (
            Dialog::Error { message: "bad".into() },
            " Error ",
            6,
            "|bad||[Enter] Dismiss",
        ),
        (
            Dialog::Info { message: "good".into() },
            " Info ",
            6,
            "|good||[Enter] Dismiss",
        ),
    ];
    for (dialog, expected_title, expected_height, expected_lines) in cases {
        match draw_dialog(&dialog, AREA) {
            Widget::Popup { area, title, border, lines } => {
                assert_eq!(title, expected_title);
                assert_eq!(area.height, expected_height);
                assert_eq!(area, popup(AREA, expected_height));
                assert_eq!(border, Color::Cyan);
                let texts: Vec<String> = lines.iter().map(flat).collect();
                assert_eq!(texts.join("|"), expected_lines);
            }
            _ => panic!("expected a popup"),
        }
    }
}

#[test]
fn popups_are_centered() {
    assert_eq!(popup(AREA, 8), Area { x: 10, y: 8, width: 60, height: 8 });
    let small = Area { x: 5, y: 5, width: 21, height: 4 };
    assert_eq!(popup(small, 9), Area { x: 7, y: 5, width: 17, height: 9 });
    let tiny = Area { x: 0, y: 0, width: 3, height: 1 };
    assert_eq!(popup(tiny, 6), Area { x: 1, y: 0, width: 0, height: 6 });
    let edge = Area { x: 0, y: 65530, width: 80, height: 5 };
    assert_eq!(popup(edge, 9), Area { x: 10, y: 65530, width: 60, height: 5 });
}

#[test]
fn notices_are_in_the_corner() {
    assert_eq!(notice_place(AREA, "hello"), Area { x: 69, y: 22, width: 9, height: 1 });
    assert_eq!(notice_place(AREA, &"\u{e9}".repeat(30)).width, 44);
    let tiny = Area { x: 2, y: 3, width: 5, height: 1 };
    assert_eq!(notice_place(tiny, "hello"), Area { x: 2, y: 3, width: 9, height: 1 });
}

#[test]
fn dialog_and_notice_are_in_front() {
    let mut app = new_app();
    app.tab = Tab::Help;
    app.dialog = Some(Dialog::Info { message: "good".into() });
    app.notification = Some("hello".into());
    let widgets = compose(&app, AREA, places());
    assert_eq!(widgets.len(), 5);
    assert!(matches!(widgets[3], Widget::Popup { .. }));
    match &widgets[4] {
        Widget::Notice { area, text, style } => {
            assert_eq!(*area, notice_place(AREA, "hello"));
            assert_eq!(text, "hello");
            assert_eq!((style.fg, style.bg), (Some(Color::Yellow), Some(Color::DarkGray)));
        }
        _ => panic!("expected a notice"),
    }
}

#[test]
fn places_on_a_usual_screen() {
    let inner = |y, height| Area { x: 1, y, width: 78, height };
    let status = arrange(Tab::Status, AREA);
    assert_eq!(status.tab_bar, inner(1, 3));
    assert_eq!(status.content, inner(4, 19));
    assert_eq!((status.upper, status.lower), (inner(4, 14), inner(18, 5)));
    let peers = arrange(Tab::Peers, AREA);
    assert_eq!((peers.upper, peers.lower), (inner(4, 11), inner(15, 8)));
    let rooms = arrange(Tab::Rooms, AREA);
    assert_eq!((rooms.upper, rooms.lower), (inner(4, 18), inner(22, 1)));
    let app = new_app();
    match &draw(&app, AREA)[1] {
        Widget::Tabs { area, .. } => assert_eq!(*area, inner(1, 3)),
        _ => panic!("expected the tabs"),
    }
    let none = Area { x: 3, y: 4, width: 0, height: 1 };
    let places = arrange(Tab::Help, none);
    assert_eq!((places.tab_bar.x, places.tab_bar.width), (3, 0));
}

#[test]
fn undrawable_screens_are_known() {
    let mut app = new_app();
    assert!(can_draw(&app, AREA));
    assert!(!can_draw(&app, Area { x: 65535, y: 0, width: 1, height: 1 }));
    assert!(!can_draw(&app, Area { x: 0, y: 65535, width: 1, height: 1 }));
    app.dialog = Some(Dialog::Approval {
        room: "home".into(),
        peer_id: format!("x{}", "\u{e9}".repeat(20)),
    });
    assert!(!can_draw(&app, AREA));
    app.dialog = Some(Dialog::Approval { room: "home".into(), peer_id: "\u{e9}".into() });
    assert!(can_draw(&app, AREA));
}

#[test]
fn tabs_are_divided() {
    assert_eq!(rules(Tab::Status), Some((Size::Min(1), Size::Length(5))));
    assert_eq!(rules(Tab::Peers), Some((Size::Percentage(60), Size::Min(1))));
    assert_eq!(rules(Tab::Rooms), Some((Size::Min(1), Size::Length(1))));
    assert_eq!(rules(Tab::History), None);
    assert_eq!(rules(Tab::Help), None);
}

fn check_stack(area: Area, upper: Area, lower: Area) {
    assert_eq!((upper.x, upper.width), (area.x, area.width));
    assert_eq!((lower.x, lower.width), (area.x, area.width));
    assert_eq!(upper.y, area.y);
    assert_eq!(lower.y, upper.y + upper.height);
    assert!(lower.y + lower.height <= area.y + area.height);
}

#[test]
fn places_are_stacked_on_any_screen() {
    for (y, heights) in [(0, 0..200), (7, 0..60), (65000, 0..530), (30, 65500..65505)] {
        for height in heights {
            let area = Area { x: 2, y, width: 30, height };
            let inner = Area {
                x: 3,
                y: if height > 0 { y + 1 } else { y },
                width: 28,
                height: height.saturating_sub(2),
            };
            for tab in Tab::all() {
                let places = arrange(tab, area);
                check_stack(inner, places.tab_bar, places.content);
                let content = places.content;
                if inner.height >= 4 {
                    assert_eq!(places.tab_bar.height, 3);
                    assert_eq!(content.height, inner.height - 3);
                }
                match tab {
                    Tab::Status => {
                        check_stack(content, places.upper, places.lower);
                        if content.height >= 6 {
                            assert_eq!(places.lower.height, 5);
                            assert_eq!(places.upper.height, content.height - 5);
                        }
                    }
                    Tab::Peers => {
                        check_stack(content, places.upper, places.lower);
                        let rows = content.height as u32;
                        if 40 * rows >= 100 {
                            assert_eq!(places.upper.height as u32, (60 * rows + 50) / 100);
                            assert_eq!(places.upper.height + places.lower.height, content.height);
                        }
                    }
                    Tab::Rooms => {
                        check_stack(content, places.upper, places.lower);
                        if content.height >= 2 {
                            assert_eq!(places.lower.height, 1);
                            assert_eq!(places.upper.height, content.height - 1);
                        }
                    }
                    Tab::History | Tab::Help => {
                        assert_eq!((places.upper, places.lower), (content, content));
                    }
                }
            }
        }
    }
}
