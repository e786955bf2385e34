//! The state of the terminal interface: tabs, dialogs and scroll positions around the core.
use vstd::prelude::*;
use vstd::utf8::*;
use std::time::Instant;
use crate::engine;
use crate::engine::{BsyncCore, BsyncViewModel, ClipboardHistoryEntry, RoomInfo};
use crate::laws;
use crate::message;
use crate::message::ClipboardContent;
use crate::state;
use crate::text;
use crate::text::{can_cut, concat2, concat3, take_bytes};

verus! {

/// How many bytes of a preview are shown when it is copied again.
pub const SHOWN_PREVIEW_LEN: usize = 40;

/// The tabs, in the order in which they are shown.
#[derive(Debug, Clone, Copy, PartialEq, Eq, Structural)]
pub enum Tab {
    Status,
    Peers,
    Rooms,
    History,
    Help,
}

/// A dialog in front of the tabs.
#[derive(Debug)]
pub enum Dialog {
    Approval { room: String, peer_id: String },
    ConnectInput { input: String },
    RoomCreate { input: String },
    RoomDelete { room: String },
    Error { message: String },
    Info { message: String },
}

/// The mathematical value of a dialog.
pub enum DialogView {
    Approval { room: Seq<char>, peer_id: Seq<char> },
    ConnectInput { input: Seq<char> },
    RoomCreate { input: Seq<char> },
    RoomDelete { room: Seq<char> },
    Error { message: Seq<char> },
    Info { message: Seq<char> },
}

/// The interface.
pub struct App {
    pub core: BsyncCore,
    pub tab: Tab,
    pub history_scroll: usize,
    pub rooms_scroll: usize,
    pub dialog: Option<Dialog>,
    pub should_quit: bool,
    pub clipboard_enabled: bool,
    /// Transient notification shown in the bottom-right.
    pub notification: Option<String>,
}

/// The mathematical value of the interface.
pub struct AppState {
    pub core: state::CoreState,
    /// The zero of the times of the core.
    pub zero: Instant,
    pub tab: Tab,
    pub history_scroll: usize,
    pub rooms_scroll: usize,
    pub dialog: Option<DialogView>,
    pub should_quit: bool,
    pub clipboard_enabled: bool,
    pub notification: Option<Seq<char>>,
}

impl View for Dialog {
    type V = DialogView;

    open spec fn view(&self) -> DialogView {
        match *self {
            Dialog::Approval { room, peer_id } => DialogView::Approval {
                room: room@,
                peer_id: peer_id@,
            },
            Dialog::ConnectInput { input } => DialogView::ConnectInput { input: input@ },
            Dialog::RoomCreate { input } => DialogView::RoomCreate { input: input@ },
            Dialog::RoomDelete { room } => DialogView::RoomDelete { room: room@ },
            Dialog::Error { message } => DialogView::Error { message: message@ },
            Dialog::Info { message } => DialogView::Info { message: message@ },
        }
    }
}

impl Clone for Dialog {
    fn clone(&self) -> (copy: Self)
        ensures
            copy@ == self@,
    {
        match self {
            Dialog::Approval { room, peer_id } => Dialog::Approval {
                room: room.clone(),
                peer_id: peer_id.clone(),
            },
            Dialog::ConnectInput { input } => Dialog::ConnectInput { input: input.clone() },
            Dialog::RoomCreate { input } => Dialog::RoomCreate { input: input.clone() },
            Dialog::RoomDelete { room } => Dialog::RoomDelete { room: room.clone() },
            Dialog::Error { message } => Dialog::Error { message: message.clone() },
            Dialog::Info { message } => Dialog::Info { message: message.clone() },
        }
    }
}

pub open spec fn dialog_of(dialog: Option<Dialog>) -> Option<DialogView> {
    match dialog {
        Some(d) => Some(d@),
        None => None,
    }
}

pub open spec fn content_of(content: Option<ClipboardContent>) -> Option<message::ContentView> {
    match content {
        Some(c) => Some(c@),
        None => None,
    }
}

// ---------------------------------------------------------------------------------------------
// Tabs
// ---------------------------------------------------------------------------------------------

/// The number of tabs.
pub const TAB_COUNT: usize = 5;

/// The place of a tab among all tabs.
pub open spec fn position(tab: Tab) -> int {
    match tab {
        Tab::Status => 0,
        Tab::Peers => 1,
        Tab::Rooms => 2,
        Tab::History => 3,
        Tab::Help => 4,
    }
}

/// The tab at a place.
pub open spec fn tab_at(place: int) -> Tab {
    if place == 0 {
        Tab::Status
    } else if place == 1 {
        Tab::Peers
    } else if place == 2 {
        Tab::Rooms
    } else if place == 3 {
        Tab::History
    } else {
        Tab::Help
    }
}

pub open spec fn next_tab_of(tab: Tab) -> Tab {
    tab_at((position(tab) + 1) % TAB_COUNT as int)
}

pub open spec fn prev_tab_of(tab: Tab) -> Tab {
    tab_at((position(tab) + TAB_COUNT - 1) % TAB_COUNT as int)
}

pub open spec fn tab_title(tab: Tab) -> Seq<char> {
    match tab {
        Tab::Status => "Status"@,
        Tab::Peers => "Peers"@,
        Tab::Rooms => "Rooms"@,
        Tab::History => "History"@,
        Tab::Help => "Help"@,
    }
}

impl Tab {
    /// All tabs, in order.
    pub fn all() -> (all: [Tab; 5])
        ensures
            forall|i: int| 0 <= i < TAB_COUNT ==> #[trigger] all@[i] == tab_at(i),
    {
        [Tab::Status, Tab::Peers, Tab::Rooms, Tab::History, Tab::Help]
    }

    /// The place of the tab among all tabs.
    pub fn index(self) -> (index: usize)
        ensures
            index == position(self),
    {
        match self {
            Tab::Status => 0,
            Tab::Peers => 1,
            Tab::Rooms => 2,
            Tab::History => 3,
            Tab::Help => 4,
        }
    }

    pub fn title(self) -> (title: &'static str)
        ensures
            title@ == tab_title(self),
    {
        match self {
            Tab::Status => "Status",
            Tab::Peers => "Peers",
            Tab::Rooms => "Rooms",
            Tab::History => "History",
            Tab::Help => "Help",
        }
    }

    /// The tab to the right, or the first one after the last.
    pub fn next(self) -> (next: Self)
        ensures
            next == next_tab_of(self),
    {
        Self::all()[(self.index() + 1) % TAB_COUNT]
    }

    /// The tab to the left, or the last one before the first.
    pub fn prev(self) -> (prev: Self)
        ensures
            prev == prev_tab_of(self),
    {
        Self::all()[(self.index() + TAB_COUNT - 1) % TAB_COUNT]
    }
}

/// The tab to the left of the tab to the right is the tab itself, and the other way round.
pub proof fn law_tabs_turn_back(tab: Tab)
    ensures
        prev_tab_of(next_tab_of(tab)) == tab,
        next_tab_of(prev_tab_of(tab)) == tab,
{
}

/// The tab that `n` steps to the right lead to.
pub open spec fn after_steps(tab: Tab, n: nat) -> Tab
    decreases n,
{
    if n == 0 {
        tab
    } else {
        next_tab_of(after_steps(tab, (n - 1) as nat))
    }
}

proof fn lemma_after_steps(tab: Tab, n: nat)
    ensures
        position(after_steps(tab, n)) == (position(tab) + n) % TAB_COUNT as int,
    decreases n,
{
    if n > 0 {
        lemma_after_steps(tab, (n - 1) as nat);
    }
}

/// Steps to the right reach every tab from every other, and come back after all tabs.
pub proof fn law_tabs_go_round(tab: Tab, other: Tab)
    ensures
        after_steps(tab, TAB_COUNT as nat) == tab,
        exists|n: nat| n < TAB_COUNT && #[trigger] after_steps(tab, n) == other,
{
    lemma_after_steps(tab, TAB_COUNT as nat);
    let n = ((position(other) + TAB_COUNT - position(tab)) % TAB_COUNT as int) as nat;
    lemma_after_steps(tab, n);
    assert(after_steps(tab, n) == other);
}

// ---------------------------------------------------------------------------------------------
// Rooms and history
// ---------------------------------------------------------------------------------------------

/// The first room that was made here.
pub open spec fn first_local(rooms: Seq<engine::RoomView>) -> Option<engine::RoomView>
    decreases rooms.len(),
{
    if rooms.len() == 0 {
        None
    } else if rooms[0].is_local {
        Some(rooms[0])
    } else {
        first_local(rooms.drop_first())
    }
}

/// The first room of that name.
pub open spec fn first_named(rooms: Seq<engine::RoomView>, name: Seq<char>) -> Option<
    engine::RoomView,
>
    decreases rooms.len(),
{
    if rooms.len() == 0 {
        None
    } else if rooms[0].name == name {
        Some(rooms[0])
    } else {
        first_named(rooms.drop_first(), name)
    }
}

/// The first pending peer of the first room that has one, after the name of the room.
pub open spec fn first_pending(rooms: Seq<engine::RoomView>) -> Option<(Seq<char>, Seq<char>)>
    decreases rooms.len(),
{
    if rooms.len() == 0 {
        None
    } else if rooms[0].pending_peers.len() > 0 {
        Some((rooms[0].name, rooms[0].pending_peers[0]))
    } else {
        first_pending(rooms.drop_first())
    }
}

/// What the user is told when there is no clipboard to copy to.
pub open spec fn disabled_dialog() -> DialogView {
    DialogView::Error { message: "Clipboard is disabled (--no-clipboard)."@ }
}

/// The answer to a request for the user's own ticket: the dialog, and the text to copy.
pub open spec fn ticket_copy(rooms: Seq<engine::RoomView>, has_clipboard: bool) -> (
    DialogView,
    Option<Seq<char>>,
) {
    if !has_clipboard {
        (disabled_dialog(), None)
    } else {
        match first_local(rooms) {
            Some(room) if room.ticket is Some => (
                DialogView::Info {
                    message: "Ticket for room '"@ + room.name + "' copied to clipboard."@,
                },
                room.ticket,
            ),
            _ => (DialogView::Error { message: "No local rooms available."@ }, None),
        }
    }
}

/// The answer to a request for the ticket of a room: the dialog, and the text to copy.
pub open spec fn room_ticket_copy(
    rooms: Seq<engine::RoomView>,
    name: Seq<char>,
    has_clipboard: bool,
) -> (DialogView, Option<Seq<char>>) {
    if !has_clipboard {
        (disabled_dialog(), None)
    } else {
        match first_named(rooms, name) {
            Some(room) => match room.ticket {
                Some(ticket) => (
                    DialogView::Info { message: "Ticket for '"@ + name + "' copied to clipboard."@ },
                    Some(ticket),
                ),
                None => (
                    DialogView::Error {
                        message: "Room '"@ + name
                            + "' is not a local room \u{2014} no ticket to copy."@,
                    },
                    None,
                ),
            },
            None => (DialogView::Error { message: "Room '"@ + name + "' not found."@ }, None),
        }
    }
}

/// The place in a list of that length that a scroll position selects.
pub open spec fn selected(scroll: usize, len: nat) -> int {
    if scroll < len {
        scroll as int
    } else {
        len - 1
    }
}

/// The answer to a request to copy the selected entry again, of a history that lists the newest
/// entry first: the dialog, and the content to copy. Without entries or a clipboard there is
/// none.
pub open spec fn history_copy(
    history: Seq<state::EntryView>,
    scroll: usize,
    has_clipboard: bool,
) -> Option<(DialogView, message::ContentView)> {
    if history.len() == 0 || !has_clipboard {
        None
    } else {
        let entry = history[selected(scroll, history.len())];
        Some(
            (
                DialogView::Info {
                    message: "Copied to clipboard: "@ + text::byte_head(
                        entry.preview,
                        SHOWN_PREVIEW_LEN as nat,
                    ),
                },
                entry.content,
            ),
        )
    }
}

/// Whether the preview of the entry that would be copied again can be cut where it has to be.
pub open spec fn history_copy_fits(
    history: Seq<state::EntryView>,
    scroll: usize,
    has_clipboard: bool,
) -> bool {
    history.len() > 0 && has_clipboard ==> text::cuts_cleanly(
        history[selected(scroll, history.len())].preview,
        SHOWN_PREVIEW_LEN as nat,
    )
}

/// The first room that was made here.
pub fn find_local(rooms: &Vec<RoomInfo>) -> (found: Option<&RoomInfo>)
    ensures
        match found {
            Some(room) => first_local(engine::rooms_of(rooms@)) == Some(room@),
            None => first_local(engine::rooms_of(rooms@)) is None,
        },
{
    let ghost views = engine::rooms_of(rooms@);
    let mut i: usize = 0;
    assert(views.skip(0) =~= views);
    while i < rooms.len()
        invariant
            i <= rooms@.len(),
            views == engine::rooms_of(rooms@),
            first_local(views) == first_local(views.skip(i as int)),
        decreases rooms@.len() - i,
    {
        assert(views.skip(i as int)[0] == rooms@[i as int]@);
        assert(views.skip(i as int).drop_first() =~= views.skip(i + 1));
        if rooms[i].is_local {
            return Some(&rooms[i]);
        }
        i = i + 1;
    }
    None
}

fn find_named<'a>(rooms: &'a Vec<RoomInfo>, name: &String) -> (found: Option<&'a RoomInfo>)
    ensures
        match found {
            Some(room) => first_named(engine::rooms_of(rooms@), name@) == Some(room@),
            None => first_named(engine::rooms_of(rooms@), name@) is None,
        },
{
    let ghost views = engine::rooms_of(rooms@);
    let mut i: usize = 0;
    assert(views.skip(0) =~= views);
    while i < rooms.len()
        invariant
            i <= rooms@.len(),
            views == engine::rooms_of(rooms@),
            first_named(views, name@) == first_named(views.skip(i as int), name@),
        decreases rooms@.len() - i,
    {
        assert(views.skip(i as int)[0] == rooms@[i as int]@);
        assert(views.skip(i as int).drop_first() =~= views.skip(i + 1));
        if rooms[i].name == *name {
            return Some(&rooms[i]);
        }
        i = i + 1;
    }
    None
}

/// The first pending peer of the first room that has one, after the name of the room.
pub fn find_pending(rooms: &Vec<RoomInfo>) -> (found: Option<(String, String)>)
    ensures
        match found {
            Some((room, id)) => first_pending(engine::rooms_of(rooms@)) == Some((room@, id@)),
            None => first_pending(engine::rooms_of(rooms@)) is None,
        },
{
    let ghost views = engine::rooms_of(rooms@);
    let mut i: usize = 0;
    assert(views.skip(0) =~= views);
    while i < rooms.len()
        invariant
            i <= rooms@.len(),
            views == engine::rooms_of(rooms@),
            first_pending(views) == first_pending(views.skip(i as int)),
        decreases rooms@.len() - i,
    {
        assert(views.skip(i as int)[0] == rooms@[i as int]@);
        assert(views.skip(i as int).drop_first() =~= views.skip(i + 1));
        if rooms[i].pending_peers.len() > 0 {
            return Some((rooms[i].name.clone(), rooms[i].pending_peers[0].clone()));
        }
        i = i + 1;
    }
    None
}

fn copy_of(string: &Option<String>) -> (copy: Option<String>)
    ensures
        text::maybe(copy) == text::maybe(*string),
{
    match string {
        Some(s) => Some(s.clone()),
        None => None,
    }
}

fn disabled() -> (dialog: Dialog)
    ensures
        dialog@ == disabled_dialog(),
{
    Dialog::Error { message: "Clipboard is disabled (--no-clipboard).".to_owned() }
}

/// Answers a request for the user's own ticket: the dialog, and the text to copy.
pub fn copy_ticket(rooms: &Vec<RoomInfo>, has_clipboard: bool) -> (answer: (Dialog, Option<String>))
    ensures
        (answer.0@, text::maybe(answer.1)) == ticket_copy(
            engine::rooms_of(rooms@),
            has_clipboard,
        ),
{
    if !has_clipboard {
        return (disabled(), None);
    }
    if let Some(room) = find_local(rooms) {
        if room.ticket.is_some() {
            return (
                Dialog::Info {
                    message: concat3(
                        "Ticket for room '",
                        room.name.as_str(),
                        "' copied to clipboard.",
                    ),
                },
                copy_of(&room.ticket),
            );
        }
    }
    (Dialog::Error { message: "No local rooms available.".to_owned() }, None)
}

/// Answers a request for the ticket of a room: the dialog, and the text to copy.
pub fn copy_ticket_of(rooms: &Vec<RoomInfo>, name: &String, has_clipboard: bool) -> (answer: (
    Dialog,
    Option<String>,
))
    ensures
        (answer.0@, text::maybe(answer.1)) == room_ticket_copy(
            engine::rooms_of(rooms@),
            name@,
            has_clipboard,
        ),
{
    if !has_clipboard {
        return (disabled(), None);
    }
    match find_named(rooms, name) {
        Some(room) => match &room.ticket {
            Some(ticket) => (
                Dialog::Info {
                    message: concat3("Ticket for '", name.as_str(), "' copied to clipboard."),
                },
                Some(ticket.clone()),
            ),
            None => (
                Dialog::Error {
                    message: concat3(
                        "Room '",
                        name.as_str(),
                        "' is not a local room \u{2014} no ticket to copy.",
                    ),
                },
                None,
            ),
        },
        None => (
            Dialog::Error { message: concat3("Room '", name.as_str(), "' not found.") },
            None,
        ),
    }
}

/// The place in a list of that length that a scroll position selects.
pub fn select(scroll: usize, len: usize) -> (place: usize)
    requires
        len > 0,
    ensures
        place == selected(scroll, len as nat),
{
    if scroll < len {
        scroll
    } else {
        len - 1
    }
}

/// Whether the preview of the entry that would be copied again can be cut where it has to be.
pub fn can_copy_history(
    history: &Vec<ClipboardHistoryEntry>,
    scroll: usize,
    has_clipboard: bool,
) -> (fits: bool)
    ensures
        fits == history_copy_fits(engine::entries(history@), scroll, has_clipboard),
{
    if history.len() == 0 || !has_clipboard {
        return true;
    }
    let entry = &history[select(scroll, history.len())];
    can_cut(entry.preview.as_str(), SHOWN_PREVIEW_LEN)
}

/// Answers a request to copy the selected entry again: the dialog, and the content to copy.
pub fn copy_history(
    history: &Vec<ClipboardHistoryEntry>,
    scroll: usize,
    has_clipboard: bool,
) -> (answer: Option<(Dialog, ClipboardContent)>)
    requires
        history_copy_fits(engine::entries(history@), scroll, has_clipboard),
    ensures
        match answer {
            Some((dialog, content)) => history_copy(
                engine::entries(history@),
                scroll,
                has_clipboard,
            ) == Some((dialog@, content@)),
            None => history_copy(engine::entries(history@), scroll, has_clipboard) is None,
        },
{
    if history.len() == 0 || !has_clipboard {
        return None;
    }
    let entry = &history[select(scroll, history.len())];
    assert(entry@ == engine::entries(history@)[selected(scroll, history@.len())]);
    let shown = take_bytes(entry.preview.as_str(), SHOWN_PREVIEW_LEN);
    Some(
        (
            Dialog::Info { message: concat2("Copied to clipboard: ", shown.as_str()) },
            entry.content.clone(),
        ),
    )
}

// ---------------------------------------------------------------------------------------------
// The interface
// ---------------------------------------------------------------------------------------------

pub open spec fn scrolled_down(scroll: usize) -> usize {
    if scroll == usize::MAX {
        scroll
    } else {
        (scroll + 1) as usize
    }
}

pub open spec fn scrolled_up(scroll: usize) -> usize {
    if scroll == 0 {
        scroll
    } else {
        (scroll - 1) as usize
    }
}

/// The history as it is shown: the newest entry first.
pub open spec fn shown_history(a: AppState) -> Seq<state::EntryView> {
    a.core.history.reverse()
}

/// The interface around a new core.
pub open spec fn fresh(core: state::CoreState, zero: Instant) -> AppState {
    AppState {
        core,
        zero,
        tab: Tab::Status,
        history_scroll: 0,
        rooms_scroll: 0,
        dialog: None,
        should_quit: false,
        clipboard_enabled: true,
        notification: None,
    }
}

impl App {
    /// The mathematical value of the interface.
    pub open spec fn state(&self) -> AppState {
        AppState {
            core: self.core.state(),
            zero: self.core.zero(),
            tab: self.tab,
            history_scroll: self.history_scroll,
            rooms_scroll: self.rooms_scroll,
            dialog: dialog_of(self.dialog),
            should_quit: self.should_quit,
            clipboard_enabled: self.clipboard_enabled,
            notification: text::maybe(self.notification),
        }
    }

    pub fn new(core: BsyncCore) -> (app: Self)
        ensures
            app.state() == fresh(core.state(), core.zero()),
    {
        Self {
            core,
            tab: Tab::Status,
            history_scroll: 0,
            rooms_scroll: 0,
            dialog: None,
            should_quit: false,
            clipboard_enabled: true,
            notification: None,
        }
    }

    pub fn view(&self) -> (view: BsyncViewModel)
        ensures
            view.shows(self.core.state()),
    {
        self.core.view()
    }

    pub fn next_tab(&mut self)
        ensures
            final(self).state() == (AppState {
                tab: next_tab_of(old(self).tab),
                history_scroll: 0,
                ..old(self).state()
            }),
    {
        self.tab = self.tab.next();
        self.history_scroll = 0;
    }

    pub fn prev_tab(&mut self)
        ensures
            final(self).state() == (AppState {
                tab: prev_tab_of(old(self).tab),
                history_scroll: 0,
                ..old(self).state()
            }),
    {
        self.tab = self.tab.prev();
        self.history_scroll = 0;
    }

    pub fn scroll_history_down(&mut self)
        ensures
            final(self).state() == (AppState {
                history_scroll: scrolled_down(old(self).history_scroll),
                ..old(self).state()
            }),
    {
        self.history_scroll = self.history_scroll.saturating_add(1);
    }

    pub fn scroll_history_up(&mut self)
        ensures
            final(self).state() == (AppState {
                history_scroll: scrolled_up(old(self).history_scroll),
                ..old(self).state()
            }),
    {
        self.history_scroll = self.history_scroll.saturating_sub(1);
    }

    pub fn scroll_rooms_down(&mut self)
        ensures
            final(self).state() == (AppState {
                rooms_scroll: scrolled_down(old(self).rooms_scroll),
                ..old(self).state()
            }),
    {
        self.rooms_scroll = self.rooms_scroll.saturating_add(1);
    }

    pub fn scroll_rooms_up(&mut self)
        ensures
            final(self).state() == (AppState {
                rooms_scroll: scrolled_up(old(self).rooms_scroll),
                ..old(self).state()
            }),
    {
        self.rooms_scroll = self.rooms_scroll.saturating_sub(1);
    }

    pub fn open_connect_dialog(&mut self)
        ensures
            final(self).state() == (AppState {
                dialog: Some(DialogView::ConnectInput { input: Seq::empty() }),
                ..old(self).state()
            }),
    {
        let input = String::new();
        assert(input@ =~= Seq::<char>::empty());
        self.dialog = Some(Dialog::ConnectInput { input });
    }

    pub fn open_room_create_dialog(&mut self)
        ensures
            final(self).state() == (AppState {
                dialog: Some(DialogView::RoomCreate { input: Seq::empty() }),
                ..old(self).state()
            }),
    {
        let input = String::new();
        assert(input@ =~= Seq::<char>::empty());
        self.dialog = Some(Dialog::RoomCreate { input });
    }

    pub fn open_room_delete_dialog(&mut self, room: String)
        ensures
            final(self).state() == (AppState {
                dialog: Some(DialogView::RoomDelete { room: room@ }),
                ..old(self).state()
            }),
    {
        self.dialog = Some(Dialog::RoomDelete { room });
    }

    /// Returns the text to copy.
    pub fn copy_ticket_to_clipboard(&mut self, has_clipboard: bool) -> (copied: Option<String>)
        ensures
            ({
                let answer = ticket_copy(
                    engine::core_rooms(old(self).core.state()),
                    has_clipboard,
                );
                &&& final(self).state() == (AppState {
                    dialog: Some(answer.0),
                    ..old(self).state()
                })
                &&& text::maybe(copied) == answer.1
            }),
    {
        let (dialog, copied) = copy_ticket(&self.view().rooms, has_clipboard);
        self.dialog = Some(dialog);
        copied
    }

    /// Returns the text to copy.
    pub fn copy_room_ticket(&mut self, room_name: &String, has_clipboard: bool) -> (copied: Option<
        String,
    >)
        ensures
            ({
                let answer = room_ticket_copy(
                    engine::core_rooms(old(self).core.state()),
                    room_name@,
                    has_clipboard,
                );
                &&& final(self).state() == (AppState {
                    dialog: Some(answer.0),
                    ..old(self).state()
                })
                &&& text::maybe(copied) == answer.1
            }),
    {
        let (dialog, copied) = copy_ticket_of(&self.view().rooms, room_name, has_clipboard);
        self.dialog = Some(dialog);
        copied
    }

    /// Whether the selected entry can be copied again: its preview must not have a character over
    /// the place where it is cut.
    pub fn can_recopy(&self, has_clipboard: bool) -> (fits: bool)
        ensures
            fits == history_copy_fits(
                shown_history(self.state()),
                self.history_scroll,
                has_clipboard,
            ),
    {
        can_copy_history(&self.view().history, self.history_scroll, has_clipboard)
    }

    /// Returns the content to copy.
    pub fn recopy_history_item(&mut self, has_clipboard: bool) -> (copied: Option<ClipboardContent>)
        requires
            history_copy_fits(
                shown_history(old(self).state()),
                old(self).history_scroll,
                has_clipboard,
            ),
        ensures
            match history_copy(
                shown_history(old(self).state()),
                old(self).history_scroll,
                has_clipboard,
            ) {
                Some((dialog, content)) => {
                    &&& final(self).state() == (AppState {
                        dialog: Some(dialog),
                        ..old(self).state()
                    })
                    &&& content_of(copied) == Some(content)
                },
                None => final(self).state() == old(self).state() && copied is None,
            },
    {
        match copy_history(&self.view().history, self.history_scroll, has_clipboard) {
            Some((dialog, content)) => {
                self.dialog = Some(dialog);
                Some(content)
            },
            None => None,
        }
    }
}

/// Scrolling down and up again leads back, unless the position is the last that there is.
pub proof fn law_scroll_turns_back(scroll: usize)
    ensures
        scroll < usize::MAX ==> scrolled_up(scrolled_down(scroll)) == scroll,
        scroll > 0 ==> scrolled_down(scrolled_up(scroll)) == scroll,
{
}

proof fn lemma_first_named(s: state::CoreState, rooms: Seq<state::RoomState>, name: Seq<char>)
    ensures
        ({
            let shown = rooms.map_values(|room: state::RoomState| engine::shown_room(s, room));
            let i = state::place(rooms, name);
            first_named(shown, name) == if i < rooms.len() {
                Some(engine::shown_room(s, rooms[i]))
            } else {
                None
            }
        }),
    decreases rooms.len(),
{
    let shown = rooms.map_values(|room: state::RoomState| engine::shown_room(s, room));
    if rooms.len() > 0 && rooms[0].name != name {
        let rest = rooms.drop_first();
        lemma_first_named(s, rest, name);
        state::lemma_place(rest, name);
        assert(shown.drop_first() =~= rest.map_values(
            |room: state::RoomState| engine::shown_room(s, room),
        ));
    }
}

/// With a clipboard, the ticket that is copied for a room that was made here is the one by which
/// others reach this core in that room; for a room of someone else there is none.
pub proof fn law_copied_ticket_leads_to_the_room(s: state::CoreState, room: Seq<char>)
    requires
        state::knows(s, room),
    ensures
        room_ticket_copy(engine::core_rooms(s), room, true).1 == if state::room_named(
            s,
            room,
        ).is_local {
            Some(laws::invitation(s, room))
        } else {
            None
        },
        room_ticket_copy(engine::core_rooms(s), room, true).0 is Info <==> state::room_named(
            s,
            room,
        ).is_local,
        state::room_named(s, room).is_local ==> text::occurs_in(
            room,
            room_ticket_copy(engine::core_rooms(s), room, true).0->Info_message,
        ),
        room_ticket_copy(engine::core_rooms(s), room, false).1 is None,
        room_ticket_copy(engine::core_rooms(s), room, false).0 is Error,
{
    lemma_first_named(s, s.rooms, room);
    state::lemma_place(s.rooms, room);
    text::lemma_occurs("Ticket for '"@, room, "' copied to clipboard."@);
}

/// The first room that was made here is one that was, and none before it was; if there is none, none
/// of the rooms was.
pub proof fn law_first_local(rooms: Seq<engine::RoomView>)
    ensures
        match first_local(rooms) {
            Some(room) => exists|i: int|
                0 <= i < rooms.len() && room == #[trigger] rooms[i] && room.is_local && forall|
                    j: int,
                |
                    0 <= j < i ==> !(#[trigger] rooms[j]).is_local,
            None => forall|i: int| 0 <= i < rooms.len() ==> !(#[trigger] rooms[i]).is_local,
        },
    decreases rooms.len(),
{
    if rooms.len() > 0 {
        if rooms[0].is_local {
            assert(rooms[0] == rooms[0]);
        } else {
            let rest = rooms.drop_first();
            law_first_local(rest);
            match first_local(rest) {
                Some(room) => {
                    let k = choose|k: int|
                        0 <= k < rest.len() && room == #[trigger] rest[k] && room.is_local
                            && forall|j: int| 0 <= j < k ==> !(#[trigger] rest[j]).is_local;
                    assert forall|j: int| 0 <= j < k + 1 implies !(
                    #[trigger] rooms[j]).is_local by {
                        if j > 0 {
                            assert(rest[j - 1] == rooms[j]);
                        }
                    }
                    assert(rooms[k + 1] == room);
                },
                None => {
                    assert forall|i: int| 0 <= i < rooms.len() implies !(
                    #[trigger] rooms[i]).is_local by {
                        if i > 0 {
                            assert(rest[i - 1] == rooms[i]);
                        }
                    }
                },
            }
        }
    }
}

/// The peer that is answered first is the first that waits in the first room where any does; if there
/// is none, none waits anywhere.
pub proof fn law_first_pending(rooms: Seq<engine::RoomView>)
    ensures
        match first_pending(rooms) {
            Some((room, id)) => exists|i: int|
                0 <= i < rooms.len() && room == (#[trigger] rooms[i]).name
                    && rooms[i].pending_peers.len() > 0 && id == rooms[i].pending_peers[0]
                    && forall|j: int|
                    0 <= j < i ==> (#[trigger] rooms[j]).pending_peers.len() == 0,
            None => forall|i: int|
                0 <= i < rooms.len() ==> (#[trigger] rooms[i]).pending_peers.len() == 0,
        },
    decreases rooms.len(),
{
    if rooms.len() > 0 {
        if rooms[0].pending_peers.len() > 0 {
            assert(rooms[0].name == rooms[0].name);
        } else {
            let rest = rooms.drop_first();
            law_first_pending(rest);
            match first_pending(rest) {
                Some((room, id)) => {
                    let k = choose|k: int|
                        0 <= k < rest.len() && room == (#[trigger] rest[k]).name
                            && rest[k].pending_peers.len() > 0 && id == rest[k].pending_peers[0]
                            && forall|j: int|
                            0 <= j < k ==> (#[trigger] rest[j]).pending_peers.len() == 0;
                    assert forall|j: int| 0 <= j < k + 1 implies (
                    #[trigger] rooms[j]).pending_peers.len() == 0 by {
                        if j > 0 {
                            assert(rest[j - 1] == rooms[j]);
                        }
                    }
                    assert(rooms[k + 1] == rest[k]);
                },
                None => {
                    assert forall|i: int| 0 <= i < rooms.len() implies (
                    #[trigger] rooms[i]).pending_peers.len() == 0 by {
                        if i > 0 {
                            assert(rest[i - 1] == rooms[i]);
                        }
                    }
                },
            }
        }
    }
}

/// The ticket of one's own that is copied is the one by which others reach this core in the first
/// room that was made here. Without such a room, or without a clipboard, nothing is copied, and the
/// user is told.
pub proof fn law_own_ticket_is_copied(s: state::CoreState, i: int)
    requires
        0 <= i < s.rooms.len(),
        s.rooms[i].is_local,
        forall|j: int| 0 <= j < i ==> !(#[trigger] s.rooms[j]).is_local,
    ensures
        ticket_copy(engine::core_rooms(s), true).1 == Some(laws::invitation(s, s.rooms[i].name)),
        ticket_copy(engine::core_rooms(s), true).0 is Info,
        text::occurs_in(
            s.rooms[i].name,
            ticket_copy(engine::core_rooms(s), true).0->Info_message,
        ),
        ticket_copy(engine::core_rooms(s), false).1 is None,
        ticket_copy(engine::core_rooms(s), false).0 is Error,
{
    let rooms = engine::core_rooms(s);
    law_first_local(rooms);
    assert(rooms[i].is_local);
    let room = first_local(rooms)->0;
    let k = choose|k: int|
        0 <= k < rooms.len() && room == #[trigger] rooms[k] && room.is_local && forall|j: int|
            0 <= j < k ==> !(#[trigger] rooms[j]).is_local;
    assert(k == i) by {
        if k < i {
            assert(!s.rooms[k].is_local);
        }
    }
    text::lemma_occurs("Ticket for room '"@, s.rooms[i].name, "' copied to clipboard."@);
}

/// Without a room that was made here there is no ticket of one's own, and the user is told so.
pub proof fn law_no_own_ticket(s: state::CoreState, has_clipboard: bool)
    requires
        forall|j: int| 0 <= j < s.rooms.len() ==> !(#[trigger] s.rooms[j]).is_local,
    ensures
        ticket_copy(engine::core_rooms(s), has_clipboard).1 is None,
        ticket_copy(engine::core_rooms(s), has_clipboard).0 is Error,
{
    let rooms = engine::core_rooms(s);
    law_first_local(rooms);
    if first_local(rooms) is Some {
        let room = first_local(rooms)->0;
        let k = choose|k: int|
            0 <= k < rooms.len() && room == #[trigger] rooms[k] && room.is_local && forall|j: int|
                0 <= j < k ==> !(#[trigger] rooms[j]).is_local;
        assert(s.rooms[k].is_local);
    }
}

/// A scroll position within a list selects the item of that number; one beyond its end selects the
/// last.
pub proof fn law_selection(scroll: usize, len: nat)
    requires
        len > 0,
    ensures
        scroll < len ==> selected(scroll, len) == scroll,
        scroll >= len ==> selected(scroll, len) == len - 1,
{
}

/// With a clipboard, copying the selected entry of a history again gives the content that was
/// recorded for that entry, whole and as it is, and the user is told; without a clipboard, or
/// without entries, nothing is copied.
pub proof fn law_entry_is_copied_whole(
    history: Seq<state::EntryView>,
    scroll: usize,
    has_clipboard: bool,
)
    ensures
        history_copy(history, scroll, has_clipboard) is Some <==> history.len() > 0
            && has_clipboard,
        history.len() > 0 && has_clipboard ==> {
            let i = if scroll < history.len() {
                scroll as int
            } else {
                history.len() - 1
            };
            let (dialog, content) = history_copy(history, scroll, has_clipboard)->0;
            &&& content == history[i].content
            &&& dialog is Info
            &&& text::occurs_in(
                text::byte_head(history[i].preview, SHOWN_PREVIEW_LEN as nat),
                dialog->Info_message,
            )
        },
{
    if history.len() > 0 && has_clipboard {
        let i = selected(scroll, history.len());
        let head = text::byte_head(history[i].preview, SHOWN_PREVIEW_LEN as nat);
        text::lemma_occurs("Copied to clipboard: "@, head, Seq::empty());
        assert("Copied to clipboard: "@ + head + Seq::<char>::empty() =~= "Copied to clipboard: "@
            + head);
    }
}

/// Tabs stand in the order status, peers, rooms, history, help; a step to the right is one place
/// further, and a step to the left one place back, round the ends.
pub proof fn law_tabs_in_order(tab: Tab)
    ensures
        tab_at(0) == Tab::Status,
        tab_at(1) == Tab::Peers,
        tab_at(2) == Tab::Rooms,
        tab_at(3) == Tab::History,
        tab_at(4) == Tab::Help,
        tab_at(position(tab)) == tab,
        next_tab_of(tab) == match tab {
            Tab::Status => Tab::Peers,
            Tab::Peers => Tab::Rooms,
            Tab::Rooms => Tab::History,
            Tab::History => Tab::Help,
            Tab::Help => Tab::Status,
        },
        prev_tab_of(next_tab_of(tab)) == tab,
{
}

/// Scrolling moves by one, and stops at the first position and at the last that there is.
pub proof fn law_scroll_moves_by_one(scroll: usize)
    ensures
        scroll < usize::MAX ==> scrolled_down(scroll) == scroll + 1,
        scrolled_down(usize::MAX) == usize::MAX,
        scroll > 0 ==> scrolled_up(scroll) == scroll - 1,
        scrolled_up(0) == 0,
{
}

/// A new interface shows the status, with nothing open, nothing scrolled and nothing to quit.
pub proof fn law_new_interface(core: state::CoreState, zero: Instant)
    ensures
        ({
            let a = fresh(core, zero);
            &&& a.core == core
            &&& a.zero == zero
            &&& a.tab == Tab::Status
            &&& a.history_scroll == 0
            &&& a.rooms_scroll == 0
            &&& a.dialog is None
            &&& a.notification is None
            &&& !a.should_quit
            &&& a.clipboard_enabled
        }),
{
}

/// Of a room that the user is not in there is no ticket to copy, and the user is told which room it
/// is that was not found.
pub proof fn law_unknown_room_has_no_ticket(s: state::CoreState, room: Seq<char>, has_clipboard: bool)
    requires
        !state::knows(s, room),
    ensures
        room_ticket_copy(engine::core_rooms(s), room, has_clipboard).1 is None,
        room_ticket_copy(engine::core_rooms(s), room, has_clipboard).0 is Error,
        has_clipboard ==> text::occurs_in(
            room,
            room_ticket_copy(engine::core_rooms(s), room, has_clipboard).0->Error_message,
        ),
{
    lemma_first_named(s, s.rooms, room);
    state::lemma_place(s.rooms, room);
    text::lemma_occurs("Room '"@, room, "' not found."@);
}

/// An entry can be copied again unless a character of its preview lies over the end of the first
/// forty bytes; a preview of up to forty bytes never stands in the way.
pub proof fn law_when_an_entry_can_be_copied(
    history: Seq<state::EntryView>,
    scroll: usize,
    has_clipboard: bool,
)
    ensures
        history.len() == 0 || !has_clipboard ==> history_copy_fits(history, scroll, has_clipboard),
        history.len() > 0 ==> ({
            let preview = history[if scroll < history.len() {
                scroll as int
            } else {
                history.len() - 1
            }].preview;
            let bytes = encode_utf8(preview);
            &&& bytes.len() <= 40 ==> history_copy_fits(history, scroll, has_clipboard)
            &&& bytes.len() > 40 && has_clipboard ==> (history_copy_fits(
                history,
                scroll,
                has_clipboard,
            ) <==> is_char_boundary(bytes, 40))
        }),
{
    if history.len() > 0 {
        let preview = history[selected(scroll, history.len())].preview;
        encode_utf8_valid_utf8(preview);
        is_char_boundary_start_end_of_seq(encode_utf8(preview));
    }
}

}
