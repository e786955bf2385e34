//! What the terminal interface decides: what a key, the clipboard or the network does to it, and
//! what is to be done outside.
use vstd::prelude::*;
use std::time::SystemTime;
use crate::engine;
use crate::engine::BsyncCore;
use crate::laws;
use crate::message;
use crate::message::{ClipboardContent, GossipMessage};
use crate::network;
use crate::network::{room_event, NetworkEvent};
use crate::shell;
use crate::state;
use crate::state::{BsyncEffect, BsyncEvent, RoomEvent};
use crate::text;
use crate::text::{concat3, trim};
use crate::ticket;
use crate::tui;
use crate::tui::{App, Dialog, Tab};

verus! {

/// A key of the keyboard.
#[derive(Debug, Clone, Copy, PartialEq, Eq, Structural)]
pub enum Key {
    Char(char),
    Enter,
    Esc,
    Tab,
    BackTab,
    Up,
    Down,
    Backspace,
    /// Any other key.
    Other,
}

/// Something that the terminal shell has to do.
#[derive(Debug)]
pub enum TuiAction {
    /// Put a text into the clipboard.
    SetText { text: String },
    /// Write content to the clipboard.
    Write { content: ClipboardContent },
    /// Read the text of the clipboard, and hand it to `App::paste`.
    Paste,
    /// Send to all peers of a room.
    Broadcast { room: String, content: ClipboardContent, origin: String },
    /// Enter the gossip of a room.
    SetupRoom { room: String },
    /// Leave the gossip of a room.
    ShutdownRoom { room: String },
    /// Connect to another endpoint in a room.
    AddPeer { room: String, endpoint_addr: String },
    /// Print to the standard error.
    Warn { line: String },
}

/// The mathematical value of an action.
pub enum TuiActionView {
    SetText { text: Seq<char> },
    Write { content: message::ContentView },
    Paste,
    Broadcast { room: Seq<char>, content: message::ContentView, origin: Seq<char> },
    SetupRoom { room: Seq<char> },
    ShutdownRoom { room: Seq<char> },
    AddPeer { room: Seq<char>, endpoint_addr: Seq<char> },
    Warn { line: Seq<char> },
}

/// Something that the terminal shell waits for.
#[derive(Debug)]
pub enum TuiInput {
    /// A key was pressed, with or without the control key.
    Key { key: Key, ctrl: bool },
    /// The clipboard changed.
    Clipboard { content: ClipboardContent },
    /// The network layer of a room has something to tell.
    Room { room: String, event: NetworkEvent },
    /// The user asked to stop.
    Interrupt,
}

impl View for TuiAction {
    type V = TuiActionView;

    open spec fn view(&self) -> TuiActionView {
        match *self {
            TuiAction::SetText { text } => TuiActionView::SetText { text: text@ },
            TuiAction::Write { content } => TuiActionView::Write { content: content@ },
            TuiAction::Paste => TuiActionView::Paste,
            TuiAction::Broadcast { room, content, origin } => TuiActionView::Broadcast {
                room: room@,
                content: content@,
                origin: origin@,
            },
            TuiAction::SetupRoom { room } => TuiActionView::SetupRoom { room: room@ },
            TuiAction::ShutdownRoom { room } => TuiActionView::ShutdownRoom { room: room@ },
            TuiAction::AddPeer { room, endpoint_addr } => TuiActionView::AddPeer {
                room: room@,
                endpoint_addr: endpoint_addr@,
            },
            TuiAction::Warn { line } => TuiActionView::Warn { line: line@ },
        }
    }
}

pub open spec fn actions_of(actions: Seq<TuiAction>) -> Seq<TuiActionView> {
    actions.map_values(|a: TuiAction| a@)
}

pub open spec fn action_of(action: Option<TuiAction>) -> Option<TuiActionView> {
    match action {
        Some(a) => Some(a@),
        None => None,
    }
}

/// A step of the interface: its next state, and the actions.
pub type TuiStep = (tui::AppState, Seq<TuiActionView>);

// ---------------------------------------------------------------------------------------------
// Effects
// ---------------------------------------------------------------------------------------------

/// What an effect does to the interface, and the action it calls for, if any.
pub open spec fn effect_step(
    a: tui::AppState,
    effect: state::EffectView,
    has_clipboard: bool,
) -> (tui::AppState, Option<TuiActionView>) {
    match effect {
        state::EffectView::WriteClipboard { content, .. } => (
            a,
            if has_clipboard {
                Some(TuiActionView::Write { content })
            } else {
                None
            },
        ),
        state::EffectView::BroadcastMessage { room, message } => (
            a,
            match message {
                message::MessageView::ClipboardText { origin, content } => Some(
                    TuiActionView::Broadcast {
                        room,
                        content: message::ContentView::Text(content),
                        origin,
                    },
                ),
                message::MessageView::ClipboardImage { .. } => Some(
                    TuiActionView::Warn {
                        line: "Warning: unexpected BroadcastMessage with image"@,
                    },
                ),
            },
        ),
        state::EffectView::BroadcastImage { room, origin, png_data } => (
            a,
            Some(
                TuiActionView::Broadcast {
                    room,
                    content: message::ContentView::Image(png_data),
                    origin,
                },
            ),
        ),
        state::EffectView::PrintStatus { message } => (
            tui::AppState { notification: Some(message), ..a },
            None,
        ),
        state::EffectView::PromptApproval { room, peer_id } => (
            tui::AppState {
                dialog: Some(tui::DialogView::Approval { room, peer_id }),
                ..a
            },
            None,
        ),
        state::EffectView::ConnectToEndpoint { endpoint_addr } => (
            a,
            Some(TuiActionView::AddPeer { room: a.core.room, endpoint_addr }),
        ),
        state::EffectView::SetupRoom { room, .. } => (a, Some(TuiActionView::SetupRoom { room })),
        state::EffectView::ShutdownRoom { room } => (
            a,
            Some(TuiActionView::ShutdownRoom { room }),
        ),
        state::EffectView::AddPeer { room, endpoint_addr } => (
            a,
            Some(TuiActionView::AddPeer { room, endpoint_addr }),
        ),
        state::EffectView::Shutdown => (tui::AppState { should_quit: true, ..a }, None),
    }
}

/// What some effects do, one after the other.
pub open spec fn effects_step(
    a: tui::AppState,
    effects: Seq<state::EffectView>,
    has_clipboard: bool,
) -> TuiStep
    decreases effects.len(),
{
    if effects.len() == 0 {
        (a, Seq::empty())
    } else {
        let (before, actions) = effects_step(a, effects.drop_last(), has_clipboard);
        match effect_step(before, effects.last(), has_clipboard) {
            (after, Some(action)) => (after, actions.push(action)),
            (after, None) => (after, actions),
        }
    }
}

/// What a step of the core does to the interface around it.
pub open spec fn core_step(a: tui::AppState, step: state::Step, has_clipboard: bool) -> TuiStep {
    effects_step(tui::AppState { core: step.0, ..a }, step.1, has_clipboard)
}

fn none() -> (actions: Vec<TuiAction>)
    ensures
        actions_of(actions@) == Seq::<TuiActionView>::empty(),
{
    let actions: Vec<TuiAction> = Vec::new();
    assert(actions_of(actions@) =~= Seq::<TuiActionView>::empty());
    actions
}

fn one(action: TuiAction) -> (actions: Vec<TuiAction>)
    ensures
        actions_of(actions@) == seq![action@],
{
    let actions = vec![action];
    assert(actions_of(actions@) =~= seq![action@]);
    actions
}

impl App {
    /// Decides on an effect.
    pub fn process_effect(&mut self, effect: &BsyncEffect, has_clipboard: bool) -> (action: Option<
        TuiAction,
    >)
        ensures
            (final(self).state(), action_of(action)) == effect_step(
                old(self).state(),
                effect@,
                has_clipboard,
            ),
    {
        match effect {
            BsyncEffect::WriteClipboard { content, .. } => if has_clipboard {
                Some(TuiAction::Write { content: content.clone() })
            } else {
                None
            },
            BsyncEffect::BroadcastMessage { room, message } => match message {
                GossipMessage::ClipboardText { origin, content } => Some(
                    TuiAction::Broadcast {
                        room: room.clone(),
                        content: ClipboardContent::Text(content.clone()),
                        origin: origin.clone(),
                    },
                ),
                GossipMessage::ClipboardImage { .. } => Some(
                    TuiAction::Warn {
                        line: "Warning: unexpected BroadcastMessage with image".to_owned(),
                    },
                ),
            },
            BsyncEffect::BroadcastImage { room, origin, png_data } => {
                let copy = png_data.clone();
                assert(copy@ =~= png_data@);
                Some(
                    TuiAction::Broadcast {
                        room: room.clone(),
                        content: ClipboardContent::Image(copy),
                        origin: origin.clone(),
                    },
                )
            },
            BsyncEffect::PrintStatus { message } => {
                self.notification = Some(message.clone());
                None
            },
            BsyncEffect::PromptApproval { room, peer_id } => {
                self.dialog = Some(
                    Dialog::Approval { room: room.clone(), peer_id: peer_id.clone() },
                );
                None
            },
            BsyncEffect::ConnectToEndpoint { endpoint_addr } => Some(
                TuiAction::AddPeer {
                    room: self.core.room().clone(),
                    endpoint_addr: endpoint_addr.clone(),
                },
            ),
            BsyncEffect::SetupRoom { room, .. } => Some(
                TuiAction::SetupRoom { room: room.clone() },
            ),
            BsyncEffect::ShutdownRoom { room } => Some(
                TuiAction::ShutdownRoom { room: room.clone() },
            ),
            BsyncEffect::AddPeer { room, endpoint_addr } => Some(
                TuiAction::AddPeer {
                    room: room.clone(),
                    endpoint_addr: endpoint_addr.clone(),
                },
            ),
            BsyncEffect::Shutdown => {
                self.should_quit = true;
                None
            },
        }
    }

    fn process_effects(&mut self, effects: &Vec<BsyncEffect>, has_clipboard: bool) -> (actions: Vec<
        TuiAction,
    >)
        ensures
            (final(self).state(), actions_of(actions@)) == effects_step(
                old(self).state(),
                state::effects_of(effects@),
                has_clipboard,
            ),
    {
        let ghost views = state::effects_of(effects@);
        let ghost a = self.state();
        let mut actions = none();
        let mut i: usize = 0;
        assert(views.take(0) =~= Seq::<state::EffectView>::empty());
        while i < effects.len()
            invariant
                i <= effects@.len(),
                views == state::effects_of(effects@),
                (self.state(), actions_of(actions@)) == effects_step(
                    a,
                    views.take(i as int),
                    has_clipboard,
                ),
            decreases effects@.len() - i,
        {
            let ghost before = actions@;
            assert(views.take(i + 1).drop_last() =~= views.take(i as int));
            assert(views.take(i + 1).last() == effects@[i as int]@);
            match self.process_effect(&effects[i], has_clipboard) {
                Some(action) => {
                    actions.push(action);
                    assert(actions_of(actions@) =~= actions_of(before).push(action@));
                },
                None => {},
            }
            i = i + 1;
        }
        assert(views.take(i as int) =~= views);
        actions
    }

    fn tell(&mut self, event: BsyncEvent, has_clipboard: bool) -> (actions: Vec<TuiAction>)
        ensures
            exists|now: u128, wall: SystemTime|
                (final(self).state(), actions_of(actions@)) == core_step(
                    old(self).state(),
                    #[trigger] state::step(old(self).state().core, event, now, wall),
                    has_clipboard,
                ),
            old(self).core.state().wf() ==> final(self).core.state().wf(),
    {
        let ghost a = self.state();
        let effects = self.core.process_event(event);
        let ghost told = self.state();
        let actions = self.process_effects(&effects, has_clipboard);
        proof {
            lemma_effects_keep_core(told, state::effects_of(effects@), has_clipboard);
            let (now, wall) = choose|now: u128, wall: SystemTime|
                (told.core, state::effects_of(effects@)) == #[trigger] state::step(
                    a.core,
                    event,
                    now,
                    wall,
                );
            assert(tui::AppState { core: told.core, ..a } == told);
        }
        actions
    }
}

/// Effects touch the interface, not the core.
pub proof fn lemma_effects_keep_core(
    a: tui::AppState,
    effects: Seq<state::EffectView>,
    has_clipboard: bool,
)
    ensures
        effects_step(a, effects, has_clipboard).0.core == a.core,
    decreases effects.len(),
{
    if effects.len() > 0 {
        lemma_effects_keep_core(a, effects.drop_last(), has_clipboard);
    }
}

// ---------------------------------------------------------------------------------------------
// Keys
// ---------------------------------------------------------------------------------------------

pub open spec fn unchanged(a: tui::AppState) -> TuiStep {
    (a, Seq::empty())
}

pub open spec fn with_dialog(a: tui::AppState, dialog: tui::DialogView) -> TuiStep {
    (tui::AppState { dialog: Some(dialog), ..a }, Seq::empty())
}

/// The user's answer whether a peer may connect in a room.
pub open spec fn answered(
    a: tui::AppState,
    room: Seq<char>,
    peer_id: Seq<char>,
    approved: bool,
    has_clipboard: bool,
) -> TuiStep {
    core_step(a, shell::answer_step(a.core, room, peer_id, approved), has_clipboard)
}

/// The answer to the first peer that waits for one, if any does.
pub open spec fn answered_first(a: tui::AppState, approved: bool, has_clipboard: bool) -> TuiStep {
    match tui::first_pending(engine::core_rooms(a.core)) {
        Some((room, peer_id)) => answered(a, room, peer_id, approved, has_clipboard),
        None => unchanged(a),
    }
}

/// A dialog, and a text to copy if there is one.
pub open spec fn copying(a: tui::AppState, answer: (tui::DialogView, Option<Seq<char>>)) -> TuiStep {
    (
        tui::AppState { dialog: Some(answer.0), ..a },
        match answer.1 {
            Some(text) => seq![TuiActionView::SetText { text }],
            None => Seq::empty(),
        },
    )
}

/// The room that the scroll position of the list of rooms selects: the one that is highlighted.
pub open spec fn selected_room(a: tui::AppState) -> Option<engine::RoomView> {
    let rooms = engine::core_rooms(a.core);
    if rooms.len() > 0 {
        Some(rooms[tui::selected(a.rooms_scroll, rooms.len())])
    } else {
        None
    }
}

/// Whether the key `n` rejects a peer: one waits, and the tab is not the one on which the key makes
/// a room.
pub open spec fn n_rejects(a: tui::AppState) -> bool {
    a.tab != Tab::Rooms && tui::first_pending(engine::core_rooms(a.core)) is Some
}

pub open spec fn recopied(a: tui::AppState, has_clipboard: bool) -> TuiStep {
    match tui::history_copy(tui::shown_history(a), a.history_scroll, has_clipboard) {
        Some((dialog, content)) => (
            tui::AppState { dialog: Some(dialog), ..a },
            seq![TuiActionView::Write { content }],
        ),
        None => unchanged(a),
    }
}

pub open spec fn down(a: tui::AppState) -> tui::AppState {
    if a.tab == Tab::History {
        tui::AppState { history_scroll: tui::scrolled_down(a.history_scroll), ..a }
    } else {
        tui::AppState { rooms_scroll: tui::scrolled_down(a.rooms_scroll), ..a }
    }
}

pub open spec fn up(a: tui::AppState) -> tui::AppState {
    if a.tab == Tab::History {
        tui::AppState { history_scroll: tui::scrolled_up(a.history_scroll), ..a }
    } else {
        tui::AppState { rooms_scroll: tui::scrolled_up(a.rooms_scroll), ..a }
    }
}

/// What a key does when no dialog is open.
pub open spec fn plain_key(a: tui::AppState, key: Key, has_clipboard: bool) -> TuiStep {
    match key {
        Key::Char(c) => if c == 'q' {
            (tui::AppState { should_quit: true, ..a }, Seq::empty())
        } else if c == '1' {
            (tui::AppState { tab: Tab::Status, ..a }, Seq::empty())
        } else if c == '2' {
            (tui::AppState { tab: Tab::Peers, ..a }, Seq::empty())
        } else if c == '3' {
            (tui::AppState { tab: Tab::Rooms, ..a }, Seq::empty())
        } else if c == '4' {
            (tui::AppState { tab: Tab::History, ..a }, Seq::empty())
        } else if c == '5' {
            (tui::AppState { tab: Tab::Help, ..a }, Seq::empty())
        } else if c == 'j' {
            (down(a), Seq::empty())
        } else if c == 'k' {
            (up(a), Seq::empty())
        } else if c == 't' {
            copying(a, tui::ticket_copy(engine::core_rooms(a.core), has_clipboard))
        } else if c == 'c' {
            with_dialog(a, tui::DialogView::ConnectInput { input: Seq::empty() })
        } else if c == 'n' && n_rejects(a) {
            answered_first(a, false, has_clipboard)
        } else if c == 'r' || c == 'n' {
            with_dialog(a, tui::DialogView::RoomCreate { input: Seq::empty() })
        } else if c == 'd' && a.tab == Tab::Rooms {
            match selected_room(a) {
                Some(room) => with_dialog(a, tui::DialogView::RoomDelete { room: room.name }),
                None => unchanged(a),
            }
        } else if c == 'T' && a.tab == Tab::Rooms {
            match selected_room(a) {
                Some(room) => copying(
                    a,
                    tui::room_ticket_copy(engine::core_rooms(a.core), room.name, has_clipboard),
                ),
                None => unchanged(a),
            }
        } else if c == 'y' {
            answered_first(a, true, has_clipboard)
        } else if c == 'N' && a.tab == Tab::Peers {
            answered_first(a, false, has_clipboard)
        } else {
            unchanged(a)
        },
        Key::Esc => (tui::AppState { should_quit: true, ..a }, Seq::empty()),
        Key::Tab => (
            tui::AppState { tab: tui::next_tab_of(a.tab), history_scroll: 0, ..a },
            Seq::empty(),
        ),
        Key::BackTab => (
            tui::AppState { tab: tui::prev_tab_of(a.tab), history_scroll: 0, ..a },
            Seq::empty(),
        ),
        Key::Down => (down(a), Seq::empty()),
        Key::Up => (up(a), Seq::empty()),
        Key::Enter => if a.tab == Tab::History {
            recopied(a, has_clipboard)
        } else {
            unchanged(a)
        },
        Key::Backspace => unchanged(a),
        Key::Other => unchanged(a),
    }
}

/// The text of an input line after a key that edits it.
pub open spec fn edited(input: Seq<char>, key: Key) -> Seq<char> {
    match key {
        Key::Char(c) => input.push(c),
        Key::Backspace => if input.len() > 0 {
            input.drop_last()
        } else {
            input
        },
        _ => input,
    }
}

/// What a key does to a dialog, which it closes unless stated otherwise: `a` is the interface
/// without it.
pub open spec fn dialog_key(
    a: tui::AppState,
    dialog: tui::DialogView,
    key: Key,
    ctrl: bool,
    has_clipboard: bool,
) -> TuiStep {
    match dialog {
        tui::DialogView::Approval { room, peer_id } => if key == Key::Char('y') || key
            == Key::Enter {
            answered(a, room, peer_id, true, has_clipboard)
        } else if key == Key::Char('n') {
            answered(a, room, peer_id, false, has_clipboard)
        } else if key == Key::Esc {
            unchanged(a)
        } else {
            with_dialog(a, dialog)
        },
        tui::DialogView::ConnectInput { input } => if key == Key::Enter {
            if input.len() == 0 {
                with_dialog(a, tui::DialogView::Error { message: "Ticket cannot be empty"@ })
            } else {
                core_step(a, state::join_room(a.core, input), has_clipboard)
            }
        } else if key == Key::Esc {
            unchanged(a)
        } else if key == Key::Char('v') && ctrl {
            (
                tui::AppState { dialog: Some(dialog), ..a },
                if has_clipboard {
                    seq![TuiActionView::Paste]
                } else {
                    Seq::empty()
                },
            )
        } else {
            with_dialog(a, tui::DialogView::ConnectInput { input: edited(input, key) })
        },
        tui::DialogView::RoomCreate { input } => if key == Key::Enter {
            let room = text::trimmed(input);
            if room.len() == 0 {
                with_dialog(a, tui::DialogView::Error { message: "Room name cannot be empty"@ })
            } else {
                core_step(a, state::create_room(a.core, room), has_clipboard)
            }
        } else if key == Key::Esc {
            unchanged(a)
        } else {
            with_dialog(a, tui::DialogView::RoomCreate { input: edited(input, key) })
        },
        tui::DialogView::RoomDelete { room } => if key == Key::Char('y') || key == Key::Enter {
            core_step(a, state::leave_room(a.core, room), has_clipboard)
        } else if key == Key::Char('n') || key == Key::Esc {
            unchanged(a)
        } else {
            with_dialog(a, dialog)
        },
        tui::DialogView::Error { .. } => if key == Key::Enter || key == Key::Esc || key
            == Key::Char(' ') {
            unchanged(a)
        } else {
            with_dialog(a, dialog)
        },
        tui::DialogView::Info { .. } => if key == Key::Enter || key == Key::Esc || key
            == Key::Char(' ') {
            unchanged(a)
        } else {
            with_dialog(a, dialog)
        },
    }
}

/// What a key does: it takes the notification away, and goes to the dialog if one is open.
pub open spec fn key_step(a: tui::AppState, key: Key, ctrl: bool, has_clipboard: bool) -> TuiStep {
    match a.dialog {
        Some(dialog) => dialog_key(
            tui::AppState { notification: None, dialog: None, ..a },
            dialog,
            key,
            ctrl,
            has_clipboard,
        ),
        None => plain_key(tui::AppState { notification: None, ..a }, key, has_clipboard),
    }
}

/// Whether a key can be handled: when it copies the selected history entry again, the entry's
/// preview must not have a character over the place where it is cut.
pub open spec fn key_fits(a: tui::AppState, key: Key, has_clipboard: bool) -> bool {
    a.dialog is None && key == Key::Enter && a.tab == Tab::History ==> tui::history_copy_fits(
        tui::shown_history(a),
        a.history_scroll,
        has_clipboard,
    )
}

/// The actions of a copy: putting the text into the clipboard, if there is one.
fn set_text(copied: Option<String>) -> (actions: Vec<TuiAction>)
    ensures
        actions_of(actions@) == match copied {
            Some(text) => seq![TuiActionView::SetText { text: text@ }],
            None => Seq::empty(),
        },
{
    match copied {
        Some(text) => one(TuiAction::SetText { text }),
        None => none(),
    }
}

fn edit(input: &mut String, key: Key)
    ensures
        final(input)@ == edited(old(input)@, key),
{
    match key {
        Key::Char(c) => input.push(c),
        Key::Backspace => {
            let _ = input.pop();
        },
        _ => {},
    }
}

impl App {
    fn answer(&mut self, room: String, peer_id: String, approved: bool, has_clipboard: bool) -> (actions:
        Vec<TuiAction>)
        ensures
            (final(self).state(), actions_of(actions@)) == answered(
                old(self).state(),
                room@,
                peer_id@,
                approved,
                has_clipboard,
            ),
            old(self).core.state().wf() ==> final(self).core.state().wf(),
    {
        let event = if approved {
            RoomEvent::PeerApproved { id: peer_id }
        } else {
            RoomEvent::PeerRejected { id: peer_id }
        };
        self.tell(BsyncEvent::InRoom { room, event }, has_clipboard)
    }

    fn answer_first(&mut self, approved: bool, has_clipboard: bool) -> (actions: Vec<TuiAction>)
        ensures
            (final(self).state(), actions_of(actions@)) == answered_first(
                old(self).state(),
                approved,
                has_clipboard,
            ),
            old(self).core.state().wf() ==> final(self).core.state().wf(),
    {
        match tui::find_pending(&self.view().rooms) {
            Some((room, peer_id)) => self.answer(room, peer_id, approved, has_clipboard),
            None => none(),
        }
    }

    /// The name of the room that the scroll position of the list of rooms selects.
    fn selected_room_name(&self) -> (name: Option<String>)
        ensures
            match name {
                Some(name) => selected_room(self.state()) is Some && selected_room(
                    self.state(),
                )->0.name == name@,
                None => selected_room(self.state()) is None,
            },
    {
        let rooms = self.view().rooms;
        assert(engine::rooms_of(rooms@) == engine::core_rooms(self.core.state()));
        assert(rooms@.len() == engine::rooms_of(rooms@).len());
        if rooms.len() > 0 {
            let place: usize = tui::select(self.rooms_scroll, rooms.len());
            assert(engine::rooms_of(rooms@)[place as int] == rooms@[place as int]@);
            Some(rooms[place].name.clone())
        } else {
            None
        }
    }

    fn scroll(&mut self, downwards: bool)
        ensures
            final(self).state() == (if downwards {
                down(old(self).state())
            } else {
                up(old(self).state())
            }),
    {
        if self.tab == Tab::History {
            if downwards {
                self.scroll_history_down();
            } else {
                self.scroll_history_up();
            }
        } else if downwards {
            self.scroll_rooms_down();
        } else {
            self.scroll_rooms_up();
        }
    }

    /// Whether a key can be handled (see `key_fits`).
    pub fn can_handle(&self, key: Key, has_clipboard: bool) -> (fits: bool)
        ensures
            fits == key_fits(self.state(), key, has_clipboard),
    {
        if self.dialog.is_none() && key == Key::Enter && self.tab == Tab::History {
            self.can_recopy(has_clipboard)
        } else {
            true
        }
    }

    /// Decides on a key when no dialog is open.
    fn handle_plain_key(&mut self, key: Key, has_clipboard: bool) -> (actions: Vec<TuiAction>)
        requires
            old(self).dialog is None,
            key_fits(old(self).state(), key, has_clipboard),
        ensures
            (final(self).state(), actions_of(actions@)) == plain_key(
                old(self).state(),
                key,
                has_clipboard,
            ),
            old(self).core.state().wf() ==> final(self).core.state().wf(),
    {
        match key {
            Key::Esc => {
                self.should_quit = true;
            },
            Key::Tab => self.next_tab(),
            Key::BackTab => self.prev_tab(),
            Key::Down => self.scroll(true),
            Key::Up => self.scroll(false),
            Key::Enter => {
                if self.tab == Tab::History {
                    if let Some(content) = self.recopy_history_item(has_clipboard) {
                        return one(TuiAction::Write { content });
                    }
                }
            },
            Key::Char(c) => {
                if c == 'q' {
                    self.should_quit = true;
                } else if c == '1' {
                    self.tab = Tab::Status;
                } else if c == '2' {
                    self.tab = Tab::Peers;
                } else if c == '3' {
                    self.tab = Tab::Rooms;
                } else if c == '4' {
                    self.tab = Tab::History;
                } else if c == '5' {
                    self.tab = Tab::Help;
                } else if c == 'j' {
                    self.scroll(true);
                } else if c == 'k' {
                    self.scroll(false);
                } else if c == 't' {
                    let copied = self.copy_ticket_to_clipboard(has_clipboard);
                    return set_text(copied);
                } else if c == 'c' {
                    self.open_connect_dialog();
                } else if c == 'n' && self.tab != Tab::Rooms && tui::find_pending(
                    &self.view().rooms,
                ).is_some() {
                    return self.answer_first(false, has_clipboard);
                } else if c == 'r' || c == 'n' {
                    self.open_room_create_dialog();
                } else if c == 'd' && self.tab == Tab::Rooms {
                    if let Some(name) = self.selected_room_name() {
                        self.open_room_delete_dialog(name);
                    }
                } else if c == 'T' && self.tab == Tab::Rooms {
                    if let Some(name) = self.selected_room_name() {
                        let copied = self.copy_room_ticket(&name, has_clipboard);
                        return set_text(copied);
                    }
                } else if c == 'y' {
                    return self.answer_first(true, has_clipboard);
                } else if c == 'N' && self.tab == Tab::Peers {
                    return self.answer_first(false, has_clipboard);
                }
            },
            Key::Backspace => {},
            Key::Other => {},
        }
        none()
    }

    /// Decides on a key for a dialog that has been taken from the interface.
    fn handle_dialog_key(&mut self, dialog: Dialog, key: Key, ctrl: bool, has_clipboard: bool) -> (actions:
        Vec<TuiAction>)
        requires
            old(self).dialog is None,
        ensures
            (final(self).state(), actions_of(actions@)) == dialog_key(
                old(self).state(),
                dialog@,
                key,
                ctrl,
                has_clipboard,
            ),
            old(self).core.state().wf() ==> final(self).core.state().wf(),
    {
        match dialog {
            Dialog::Approval { room, peer_id } => {
                if key == Key::Char('y') || key == Key::Enter {
                    return self.answer(room, peer_id, true, has_clipboard);
                }
                if key == Key::Char('n') {
                    return self.answer(room, peer_id, false, has_clipboard);
                }
                if key != Key::Esc {
                    self.dialog = Some(Dialog::Approval { room, peer_id });
                }
            },
            Dialog::ConnectInput { input } => {
                let mut input = input;
                if key == Key::Enter {
                    if input.as_str().is_empty() {
                        self.dialog = Some(
                            Dialog::Error { message: "Ticket cannot be empty".to_owned() },
                        );
                    } else {
                        return self.tell(BsyncEvent::JoinRoom { ticket: input }, has_clipboard);
                    }
                } else if key == Key::Esc {
                } else if key == Key::Char('v') && ctrl {
                    self.dialog = Some(Dialog::ConnectInput { input });
                    if has_clipboard {
                        return one(TuiAction::Paste);
                    }
                } else {
                    edit(&mut input, key);
                    self.dialog = Some(Dialog::ConnectInput { input });
                }
            },
            Dialog::RoomCreate { input } => {
                let mut input = input;
                if key == Key::Enter {
                    let room = trim(input.as_str());
                    if room.as_str().is_empty() {
                        self.dialog = Some(
                            Dialog::Error { message: "Room name cannot be empty".to_owned() },
                        );
                    } else {
                        return self.tell(BsyncEvent::CreateRoom { room }, has_clipboard);
                    }
                } else if key != Key::Esc {
                    edit(&mut input, key);
                    self.dialog = Some(Dialog::RoomCreate { input });
                }
            },
            Dialog::RoomDelete { room } => {
                if key == Key::Char('y') || key == Key::Enter {
                    return self.tell(BsyncEvent::LeaveRoom { room }, has_clipboard);
                }
                if key != Key::Char('n') && key != Key::Esc {
                    self.dialog = Some(Dialog::RoomDelete { room });
                }
            },
            Dialog::Error { message } => {
                if key != Key::Enter && key != Key::Esc && key != Key::Char(' ') {
                    self.dialog = Some(Dialog::Error { message });
                }
            },
            Dialog::Info { message } => {
                if key != Key::Enter && key != Key::Esc && key != Key::Char(' ') {
                    self.dialog = Some(Dialog::Info { message });
                }
            },
        }
        none()
    }

    /// Decides on a key, pressed with or without the control key.
    pub fn handle_tui_key(&mut self, key: Key, ctrl: bool, has_clipboard: bool) -> (actions: Vec<
        TuiAction,
    >)
        requires
            key_fits(old(self).state(), key, has_clipboard),
        ensures
            (final(self).state(), actions_of(actions@)) == key_step(
                old(self).state(),
                key,
                ctrl,
                has_clipboard,
            ),
            old(self).core.state().wf() ==> final(self).core.state().wf(),
    {
        // Clear any transient notification on key press.
        self.notification = None;
        match self.dialog.take() {
            Some(dialog) => self.handle_dialog_key(dialog, key, ctrl, has_clipboard),
            None => self.handle_plain_key(key, has_clipboard),
        }
    }

    /// Appends pasted text to the ticket that is being entered, if one is.
    pub fn paste(&mut self, pasted: &str)
        ensures
            final(self).state() == pasted_into(old(self).state(), pasted@),
    {
        match self.dialog.take() {
            Some(Dialog::ConnectInput { input }) => {
                let mut input = input;
                input.append(pasted);
                self.dialog = Some(Dialog::ConnectInput { input });
            },
            other => {
                self.dialog = other;
            },
        }
    }
}

/// The interface after a paste.
pub open spec fn pasted_into(a: tui::AppState, pasted: Seq<char>) -> tui::AppState {
    match a.dialog {
        Some(tui::DialogView::ConnectInput { input }) => tui::AppState {
            dialog: Some(tui::DialogView::ConnectInput { input: input + pasted }),
            ..a
        },
        _ => a,
    }
}

// ---------------------------------------------------------------------------------------------
// The clipboard and the network
// ---------------------------------------------------------------------------------------------

/// What the network layer of a room does to the interface: the core is told, but of lost messages
/// the user is.
pub open spec fn room_step(
    a: tui::AppState,
    room: Seq<char>,
    event: network::NetworkEventView,
    has_clipboard: bool,
    wall: SystemTime,
) -> TuiStep {
    if event is Lagged {
        with_dialog(
            a,
            tui::DialogView::Info {
                message: "["@ + room
                    + "] Gossip stream lagged \u{2014} some clipboard updates may have been dropped."@,
            },
        )
    } else {
        core_step(a, shell::network_step(a.core, room, event, wall), has_clipboard)
    }
}

/// What an input does to the interface.
pub open spec fn tui_step_of(
    a: tui::AppState,
    input: TuiInput,
    has_clipboard: bool,
    now: u128,
    wall: SystemTime,
) -> TuiStep {
    match input {
        TuiInput::Key { key, ctrl } => key_step(a, key, ctrl, has_clipboard),
        TuiInput::Clipboard { content } => core_step(
            a,
            state::local_change(a.core, content@, now, wall),
            has_clipboard,
        ),
        TuiInput::Room { room, event } => room_step(a, room@, event@, has_clipboard, wall),
        TuiInput::Interrupt => (tui::AppState { should_quit: true, ..a }, Seq::empty()),
    }
}

/// The interface after its launch, with the actions: the core starts, its room is entered, and the
/// room of a ticket that the user gave is joined.
pub open spec fn launched(
    core: state::CoreState,
    zero: std::time::Instant,
    no_clipboard: bool,
    ticket: Option<Seq<char>>,
    has_clipboard: bool,
) -> TuiStep {
    let a = tui::AppState {
        clipboard_enabled: !no_clipboard,
        ..tui::fresh(state::start(core).0, zero)
    };
    let (entered, first) = core_step(a, state::create_room(a.core, core.room), has_clipboard);
    match ticket {
        Some(given) => {
            let (joined, more) = core_step(
                entered,
                state::join_room(entered.core, given),
                has_clipboard,
            );
            (joined, first + more)
        },
        None => (entered, first),
    }
}

impl App {
    /// Decides on what the network layer of a room tells.
    pub fn handle_network_event_tui(&mut self, room: String, event: NetworkEvent, has_clipboard: bool) -> (actions:
        Vec<TuiAction>)
        ensures
            exists|wall: SystemTime|
                (final(self).state(), actions_of(actions@)) == #[trigger] room_step(
                    old(self).state(),
                    room@,
                    event@,
                    has_clipboard,
                    wall,
                ),
            old(self).core.state().wf() ==> final(self).core.state().wf(),
    {
        let ghost a = self.state();
        let ghost view = event@;
        let ghost mut at: SystemTime = arbitrary();
        let actions = match room_event(event) {
            Some(event) => {
                let told = BsyncEvent::InRoom { room, event };
                let actions = self.tell(told, has_clipboard);
                proof {
                    let (now, wall) = choose|now: u128, wall: SystemTime|
                        (self.state(), actions_of(actions@)) == core_step(
                            a,
                            #[trigger] state::step(a.core, told, now, wall),
                            has_clipboard,
                        );
                    at = wall;
                }
                actions
            },
            None => {
                let message = concat3(
                    "[",
                    room.as_str(),
                    "] Gossip stream lagged \u{2014} some clipboard updates may have been dropped.",
                );
                self.dialog = Some(Dialog::Info { message });
                none()
            },
        };
        assert((self.state(), actions_of(actions@)) == room_step(
            a,
            room@,
            view,
            has_clipboard,
            at,
        ));
        actions
    }

    /// Decides on an input.
    pub fn tui_step(&mut self, input: TuiInput, has_clipboard: bool) -> (actions: Vec<TuiAction>)
        requires
            input matches TuiInput::Key { key, .. } ==> key_fits(
                old(self).state(),
                key,
                has_clipboard,
            ),
        ensures
            exists|now: u128, wall: SystemTime|
                (final(self).state(), actions_of(actions@)) == #[trigger] tui_step_of(
                    old(self).state(),
                    input,
                    has_clipboard,
                    now,
                    wall,
                ),
            old(self).core.state().wf() ==> final(self).core.state().wf(),
    {
        let ghost a = self.state();
        let ghost given = input;
        let ghost mut at: (u128, SystemTime) = arbitrary();
        let actions = match input {
            TuiInput::Key { key, ctrl } => self.handle_tui_key(key, ctrl, has_clipboard),
            TuiInput::Clipboard { content } => {
                let event = BsyncEvent::LocalClipboardChanged { content };
                let actions = self.tell(event, has_clipboard);
                proof {
                    at = choose|now: u128, wall: SystemTime|
                        (self.state(), actions_of(actions@)) == core_step(
                            a,
                            #[trigger] state::step(a.core, event, now, wall),
                            has_clipboard,
                        );
                }
                actions
            },
            TuiInput::Room { room, event } => {
                let ghost (name, view) = (room@, event@);
                let actions = self.handle_network_event_tui(room, event, has_clipboard);
                proof {
                    at.1 = choose|wall: SystemTime|
                        (self.state(), actions_of(actions@)) == #[trigger] room_step(
                            a,
                            name,
                            view,
                            has_clipboard,
                            wall,
                        );
                }
                actions
            },
            TuiInput::Interrupt => {
                self.should_quit = true;
                none()
            },
        };
        assert((self.state(), actions_of(actions@)) == tui_step_of(
            a,
            given,
            has_clipboard,
            at.0,
            at.1,
        ));
        actions
    }

    /// Launches the interface around a new core.
    pub fn launch(
        core: BsyncCore,
        no_clipboard: bool,
        connect: Option<String>,
        has_clipboard: bool,
    ) -> (launch: (App, Vec<TuiAction>))
        ensures
            (launch.0.state(), actions_of(launch.1@)) == launched(
                core.state(),
                core.zero(),
                no_clipboard,
                text::maybe(connect),
                has_clipboard,
            ),
            core.state().wf() ==> launch.0.core.state().wf(),
    {
        let ghost s = core.state();
        let mut app = App::new(core);
        app.clipboard_enabled = !no_clipboard;
        let _ = app.core.process_event(BsyncEvent::StartEndpoint);
        let room = app.core.room().clone();
        let mut actions = app.tell(BsyncEvent::CreateRoom { room }, has_clipboard);
        if let Some(ticket) = connect {
            let ghost before = actions@;
            let mut joined = app.tell(BsyncEvent::JoinRoom { ticket }, has_clipboard);
            let ghost added = joined@;
            actions.append(&mut joined);
            assert(actions_of(actions@) =~= actions_of(before) + actions_of(added));
        }
        (app, actions)
    }

    /// Tells the core that the interface has closed.
    pub fn finish(&mut self)
        ensures
            final(self).state() == (tui::AppState {
                core: state::shutdown(old(self).state().core).0,
                ..old(self).state()
            }),
            old(self).core.state().wf() ==> final(self).core.state().wf(),
    {
        let _ = self.core.process_event(BsyncEvent::Shutdown);
    }
}

// ---------------------------------------------------------------------------------------------
// Laws
// ---------------------------------------------------------------------------------------------

/// Escape closes whatever dialog is open, and does nothing else; without a dialog it quits.
pub proof fn law_escape(a: tui::AppState, ctrl: bool, has_clipboard: bool)
    ensures
        a.dialog is Some ==> key_step(a, Key::Esc, ctrl, has_clipboard) == unchanged(
            tui::AppState { dialog: None, notification: None, ..a },
        ),
        a.dialog is None ==> key_step(a, Key::Esc, ctrl, has_clipboard) == unchanged(
            tui::AppState { should_quit: true, notification: None, ..a },
        ),
{
}

/// A key takes away the notification that was there before it: what is shown after it is what
/// it brought about itself, and would be shown without that notification too.
pub proof fn law_key_clears_notification(
    a: tui::AppState,
    key: Key,
    ctrl: bool,
    has_clipboard: bool,
)
    ensures
        key_step(a, key, ctrl, has_clipboard) == key_step(
            tui::AppState { notification: None, ..a },
            key,
            ctrl,
            has_clipboard,
        ),
{
}

/// While a dialog is open, no key quits or changes the tab or the scroll positions.
pub proof fn law_dialog_takes_keys(
    a: tui::AppState,
    key: Key,
    ctrl: bool,
    has_clipboard: bool,
)
    requires
        a.dialog is Some,
    ensures
        ({
            let after = key_step(a, key, ctrl, has_clipboard).0;
            &&& after.tab == a.tab
            &&& after.history_scroll == a.history_scroll
            &&& after.rooms_scroll == a.rooms_scroll
            &&& after.should_quit == a.should_quit
        }),
{
    let bare = tui::AppState { notification: None, dialog: None, ..a };
    match a.dialog->0 {
        tui::DialogView::Approval { room, peer_id } => {
            let yes = state::peer_approved(bare.core, room, peer_id);
            let no = state::peer_rejected(bare.core, room, peer_id);
            lemma_core_step_keeps(bare, yes, has_clipboard);
            lemma_core_step_keeps(bare, no, has_clipboard);
        },
        tui::DialogView::ConnectInput { input } => {
            lemma_core_step_keeps(bare, state::join_room(bare.core, input), has_clipboard);
        },
        tui::DialogView::RoomCreate { input } => {
            let made = state::create_room(bare.core, text::trimmed(input));
            lemma_core_step_keeps(bare, made, has_clipboard);
        },
        tui::DialogView::RoomDelete { room } => {
            lemma_core_step_keeps(bare, state::leave_room(bare.core, room), has_clipboard);
        },
        _ => {},
    }
}

proof fn lemma_effects_keep(a: tui::AppState, effects: Seq<state::EffectView>, has_clipboard: bool)
    requires
        forall|i: int| 0 <= i < effects.len() ==> !((#[trigger] effects[i]) is Shutdown),
    ensures
        ({
            let after = effects_step(a, effects, has_clipboard).0;
            &&& after.tab == a.tab
            &&& after.history_scroll == a.history_scroll
            &&& after.rooms_scroll == a.rooms_scroll
            &&& after.should_quit == a.should_quit
            &&& after.core == a.core
        }),
    decreases effects.len(),
{
    if effects.len() > 0 {
        let init = effects.drop_last();
        assert forall|i: int| 0 <= i < init.len() implies !((#[trigger] init[i]) is Shutdown) by {
            assert(effects[i] == init[i]);
        }
        lemma_effects_keep(a, init, has_clipboard);
        assert(effects[effects.len() - 1] == effects.last());
    }
}

/// A step of the core that does not shut down leaves tab, scroll positions and the decision to
/// quit alone.
proof fn lemma_core_step_keeps(a: tui::AppState, step: state::Step, has_clipboard: bool)
    requires
        forall|i: int| 0 <= i < step.1.len() ==> !((#[trigger] step.1[i]) is Shutdown),
    ensures
        ({
            let after = core_step(a, step, has_clipboard).0;
            &&& after.tab == a.tab
            &&& after.history_scroll == a.history_scroll
            &&& after.rooms_scroll == a.rooms_scroll
            &&& after.should_quit == a.should_quit
            &&& after.core == step.0
        }),
{
    lemma_effects_keep(tui::AppState { core: step.0, ..a }, step.1, has_clipboard);
}

/// A new peer in a room that the user is in brings up the approval dialog, and a key of consent
/// there connects it in that room; the other answer, or leaving the dialog, does not.
pub proof fn law_approval_dialog(
    a: tui::AppState,
    room: Seq<char>,
    id: Seq<char>,
    wall: SystemTime,
    ctrl: bool,
)
    requires
        state::knows(a.core, room),
        !a.core.auto_accept,
        !state::connected_in(a.core, room).contains(id),
        !state::pending_in(a.core, room).contains(id),
    ensures
        ({
            let event = network::NetworkEventView::PeerConnected { id };
            let asked = room_step(a, room, event, true, wall).0;
            let yes = key_step(asked, Key::Char('y'), ctrl, true).0.core;
            let no = key_step(asked, Key::Char('n'), ctrl, true).0.core;
            &&& asked.dialog == Some(tui::DialogView::Approval { room, peer_id: id })
            &&& state::pending_in(asked.core, room).contains(id)
            &&& state::connected_in(yes, room).contains(id)
            &&& key_step(asked, Key::Enter, ctrl, true).0.core == yes
            &&& !state::connected_in(no, room).contains(id)
            &&& !state::pending_in(no, room).contains(id)
            &&& key_step(asked, Key::Esc, ctrl, true).0.core == asked.core
        }),
{
    let event = network::NetworkEventView::PeerConnected { id };
    let connected = state::connected_in(a.core, room);
    let pending = state::pending_in(a.core, room);
    let step = state::peer_connected(a.core, room, id);
    assert(step.1.drop_last() =~= Seq::<state::EffectView>::empty());
    assert(effects_step(tui::AppState { core: step.0, ..a }, step.1.drop_last(), true)
        == unchanged(tui::AppState { core: step.0, ..a }));
    let asked = room_step(a, room, event, true, wall).0;
    state::lemma_push_contains(pending, id);
    state::lemma_with_peers(a.core, room, connected, pending.push(id));
    let bare = tui::AppState { notification: None, dialog: None, ..asked };
    let yes = state::peer_approved(bare.core, room, id);
    let no = state::peer_rejected(bare.core, room, id);
    lemma_core_step_keeps(bare, yes, true);
    lemma_core_step_keeps(bare, no, true);
    state::lemma_push_contains(connected, id);
    text::lemma_without(pending.push(id), id);
    let waiting = state::pending_in(bare.core, room);
    state::lemma_with_peers(
        bare.core,
        room,
        connected.push(id),
        text::without(waiting, id),
    );
    state::lemma_with_peers(bare.core, room, connected, text::without(waiting, id));
}

/// A key that edits an input line and then a backspace leave the line as it was.
pub proof fn law_backspace_undoes(input: Seq<char>, c: char)
    ensures
        edited(edited(input, Key::Char(c)), Key::Backspace) == input,
{
    assert(input.push(c).drop_last() =~= input);
}

/// Whether an action needs a clipboard.
pub open spec fn needs_clipboard(action: TuiActionView) -> bool {
    action is SetText || action is Write || action is Paste
}

proof fn lemma_effects_without_clipboard(
    a: tui::AppState,
    effects: Seq<state::EffectView>,
    i: int,
)
    requires
        0 <= i < effects_step(a, effects, false).1.len(),
    ensures
        !needs_clipboard(effects_step(a, effects, false).1[i]),
    decreases effects.len(),
{
    if effects.len() > 0 {
        let before = effects_step(a, effects.drop_last(), false).1;
        if i < before.len() {
            lemma_effects_without_clipboard(a, effects.drop_last(), i);
        }
    }
}

/// Without a clipboard, no input leads to an action that needs one.
pub proof fn law_no_clipboard_no_use(
    a: tui::AppState,
    input: TuiInput,
    now: u128,
    wall: SystemTime,
    i: int,
)
    requires
        0 <= i < tui_step_of(a, input, false, now, wall).1.len(),
    ensures
        !needs_clipboard(tui_step_of(a, input, false, now, wall).1[i]),
{
    assert forall|b: tui::AppState, step: state::Step|
        0 <= i < (#[trigger] core_step(b, step, false)).1.len() implies !needs_clipboard(
        core_step(b, step, false).1[i],
    ) by {
        lemma_effects_without_clipboard(tui::AppState { core: step.0, ..b }, step.1, i);
    }
}

proof fn lemma_first_pending(s: state::CoreState, rooms: Seq<state::RoomState>) -> (i: int)
    requires
        tui::first_pending(
            rooms.map_values(|room: state::RoomState| engine::shown_room(s, room)),
        ) is Some,
    ensures
        0 <= i < rooms.len(),
        rooms[i].pending.len() > 0,
        tui::first_pending(
            rooms.map_values(|room: state::RoomState| engine::shown_room(s, room)),
        ) == Some((rooms[i].name, rooms[i].pending[0])),
    decreases rooms.len(),
{
    let shown = rooms.map_values(|room: state::RoomState| engine::shown_room(s, room));
    if rooms[0].pending.len() > 0 {
        0
    } else {
        let rest = rooms.drop_first();
        assert(shown.drop_first() =~= rest.map_values(
            |room: state::RoomState| engine::shown_room(s, room),
        ));
        lemma_first_pending(s, rest) + 1
    }
}

/// Outside of dialogs the key `y` connects the peer that has waited longest in the first room where
/// one waits, and the key `n` rejects it, on any tab but the one where `n` makes a room.
pub proof fn law_y_and_n_answer_the_first(
    a: tui::AppState,
    room: Seq<char>,
    id: Seq<char>,
    ctrl: bool,
    has_clipboard: bool,
)
    requires
        a.core.wf(),
        a.dialog is None,
        tui::first_pending(engine::core_rooms(a.core)) == Some((room, id)),
    ensures
        ({
            let yes = key_step(a, Key::Char('y'), ctrl, has_clipboard).0.core;
            let no = key_step(a, Key::Char('n'), ctrl, has_clipboard).0.core;
            let connected = state::connected_in(a.core, room);
            let pending = state::pending_in(a.core, room);
            &&& pending.contains(id)
            &&& yes == state::peer_approved(a.core, room, id).0
            &&& state::connected_in(yes, room) == connected.push(id)
            &&& state::pending_in(yes, room) == text::without(pending, id)
            &&& key_step(a, Key::Char('y'), ctrl, has_clipboard) == unchanged(
                tui::AppState {
                    core: yes,
                    notification: Some("Peer approved: "@ + id),
                    ..a
                },
            )
            &&& a.tab != Tab::Rooms ==> key_step(a, Key::Char('n'), ctrl, has_clipboard)
                == unchanged(
                tui::AppState {
                    core: no,
                    notification: Some("Peer rejected: "@ + id),
                    ..a
                },
            )
            &&& a.tab == Tab::Peers ==> key_step(a, Key::Char('N'), ctrl, has_clipboard)
                == key_step(a, Key::Char('n'), ctrl, has_clipboard)
            &&& a.tab != Tab::Rooms ==> no == state::peer_rejected(a.core, room, id).0
                && state::connected_in(no, room) == connected && state::pending_in(no, room)
                == text::without(pending, id)
        }),
{
    let bare = tui::AppState { notification: None, ..a };
    let i = lemma_first_pending(a.core, a.core.rooms);
    state::lemma_place(a.core.rooms, room);
    assert(state::place(a.core.rooms, room) == i) by {
        let k = state::place(a.core.rooms, room);
        if k < i {
            assert(a.core.rooms[k].name != a.core.rooms[i].name);
        }
    }
    let connected = state::connected_in(a.core, room);
    let pending = state::pending_in(a.core, room);
    assert(pending[0] == id);
    assert(pending.contains(id));
    let approved = state::peer_approved(a.core, room, id);
    let rejected = state::peer_rejected(a.core, room, id);
    assert(approved.1 =~= seq![approved.1[0]]);
    assert(rejected.1 =~= seq![rejected.1[0]]);
    lemma_one_effect(
        tui::AppState { core: approved.0, ..bare },
        approved.1[0],
        has_clipboard,
    );
    lemma_one_effect(
        tui::AppState { core: rejected.0, ..bare },
        rejected.1[0],
        has_clipboard,
    );
    lemma_core_step_keeps(bare, state::peer_approved(bare.core, room, id), has_clipboard);
    lemma_core_step_keeps(bare, state::peer_rejected(bare.core, room, id), has_clipboard);
    state::lemma_with_peers(a.core, room, connected.push(id), text::without(pending, id));
    state::lemma_with_peers(a.core, room, connected, text::without(pending, id));
}

/// The key `d` on the rooms tab asks about the room that is highlighted there, and the answer yes
/// leaves that room.
pub proof fn law_d_deletes_the_highlighted(a: tui::AppState, ctrl: bool, has_clipboard: bool)
    requires
        a.dialog is None,
        a.tab == Tab::Rooms,
        a.core.rooms.len() > 0,
    ensures
        ({
            let room = pointed_at(a).name;
            let asked = key_step(a, Key::Char('d'), ctrl, has_clipboard).0;
            &&& asked.core == a.core
            &&& asked.dialog == Some(tui::DialogView::RoomDelete { room })
            &&& key_step(asked, Key::Char('y'), ctrl, has_clipboard).0.core == state::leave_room(
                a.core,
                room,
            ).0
        }),
{
    let room = a.core.rooms[tui::selected(a.rooms_scroll, a.core.rooms.len())].name;
    let asked = key_step(a, Key::Char('d'), ctrl, has_clipboard).0;
    let bare = tui::AppState { notification: None, dialog: None, ..asked };
    lemma_core_step_keeps(bare, state::leave_room(bare.core, room), has_clipboard);
}

// ---------------------------------------------------------------------------------------------
// Laws of effects
// ---------------------------------------------------------------------------------------------

/// What the interface does about each effect of the core. Content is sent to the room of the effect
/// as it is, and written as it is if there is a clipboard; what is to be told is shown; the question
/// about a peer names that peer and its room; and rooms and peers are entered and left as the effect
/// says. The core itself is not touched.
pub proof fn law_effects_are_shown_or_done(
    a: tui::AppState,
    effect: state::EffectView,
    has_clipboard: bool,
)
    ensures
        ({
            let (after, action) = effect_step(a, effect, has_clipboard);
            &&& after.core == a.core
            &&& match effect {
                state::EffectView::BroadcastMessage {
                    room,
                    message: message::MessageView::ClipboardText { origin, content },
                } => after == a && action == Some(
                    TuiActionView::Broadcast {
                        room,
                        content: message::ContentView::Text(content),
                        origin,
                    },
                ),
                state::EffectView::BroadcastMessage { .. } => after == a && action is Some
                    && action->0 is Warn,
                state::EffectView::BroadcastImage { room, origin, png_data } => after == a
                    && action == Some(
                    TuiActionView::Broadcast {
                        room,
                        content: message::ContentView::Image(png_data),
                        origin,
                    },
                ),
                state::EffectView::WriteClipboard { content, .. } => {
                    &&& after == a
                    &&& has_clipboard ==> action == Some(TuiActionView::Write { content })
                    &&& !has_clipboard ==> action is None
                },
                state::EffectView::PrintStatus { message } => after.notification == Some(message)
                    && after.dialog == a.dialog && action is None,
                state::EffectView::PromptApproval { room, peer_id } => after.dialog == Some(
                    tui::DialogView::Approval { room, peer_id },
                ) && after.notification == a.notification && action is None,
                state::EffectView::ConnectToEndpoint { endpoint_addr } => after == a && action
                    == Some(TuiActionView::AddPeer { room: a.core.room, endpoint_addr }),
                state::EffectView::SetupRoom { room, .. } => after == a && action == Some(
                    TuiActionView::SetupRoom { room },
                ),
                state::EffectView::ShutdownRoom { room } => after == a && action == Some(
                    TuiActionView::ShutdownRoom { room },
                ),
                state::EffectView::AddPeer { room, endpoint_addr } => after == a && action == Some(
                    TuiActionView::AddPeer { room, endpoint_addr },
                ),
                state::EffectView::Shutdown => after.should_quit && after.dialog == a.dialog
                    && after.notification == a.notification && action is None,
            }
        }),
{
}

/// One effect leads to what it calls for.
proof fn lemma_one_effect(a: tui::AppState, effect: state::EffectView, has_clipboard: bool)
    ensures
        effects_step(a, seq![effect], has_clipboard) == (
            effect_step(a, effect, has_clipboard).0,
            match effect_step(a, effect, has_clipboard).1 {
                Some(action) => seq![action],
                None => Seq::empty(),
            },
        ),
{
    let effects = seq![effect];
    assert(effects.drop_last() =~= Seq::<state::EffectView>::empty());
    assert(effects_step(a, effects.drop_last(), has_clipboard) == unchanged(a));
    match effect_step(a, effect, has_clipboard).1 {
        Some(action) => {
            assert(effects_step(a, effects, has_clipboard).1 =~= seq![action]);
        },
        None => {},
    }
}

/// Two effects lead to what each calls for, one after the other.
proof fn lemma_two_effects(
    a: tui::AppState,
    first: state::EffectView,
    second: state::EffectView,
    has_clipboard: bool,
)
    ensures
        ({
            let before = effects_step(a, seq![first], has_clipboard);
            let last = effect_step(before.0, second, has_clipboard);
            effects_step(a, seq![first, second], has_clipboard) == (
                last.0,
                match last.1 {
                    Some(action) => before.1.push(action),
                    None => before.1,
                },
            )
        }),
{
    assert(seq![first, second].drop_last() =~= seq![first]);
}

/// Effects that only call for actions leave the interface alone, and lead to those actions in order.
proof fn lemma_actions_in_order(
    a: tui::AppState,
    effects: Seq<state::EffectView>,
    actions: Seq<TuiActionView>,
    has_clipboard: bool,
)
    requires
        effects.len() == actions.len(),
        forall|i: int|
            0 <= i < effects.len() ==> effect_step(a, #[trigger] effects[i], has_clipboard) == (
                a,
                Some(actions[i]),
            ),
    ensures
        effects_step(a, effects, has_clipboard) == (a, actions),
    decreases effects.len(),
{
    if effects.len() == 0 {
        assert(actions =~= Seq::<TuiActionView>::empty());
    } else {
        let init = effects.drop_last();
        assert forall|i: int| 0 <= i < init.len() implies effect_step(
            a,
            #[trigger] init[i],
            has_clipboard,
        ) == (a, Some(actions.drop_last()[i])) by {
            assert(effects[i] == init[i]);
        }
        lemma_actions_in_order(a, init, actions.drop_last(), has_clipboard);
        assert(effects[effects.len() - 1] == effects.last());
        assert(actions.drop_last().push(actions.last()) =~= actions);
    }
}

/// A copy by the user is sent to the peers of every room, as it was copied and in the name of this
/// core, and nothing else is done about it or shown; or nothing is done at all.
pub proof fn law_copy_is_sent_to_every_room(
    a: tui::AppState,
    content: ClipboardContent,
    has_clipboard: bool,
    now: u128,
    wall: SystemTime,
    i: int,
)
    ensures
        ({
            let input = TuiInput::Clipboard { content };
            let (after, actions) = tui_step_of(a, input, has_clipboard, now, wall);
            &&& actions.len() == 0 || actions.len() == a.core.rooms.len()
            &&& 0 <= i < actions.len() ==> actions[i] == (TuiActionView::Broadcast {
                room: a.core.rooms[i].name,
                content: content@,
                origin: a.core.peer_id,
            })
            &&& after == (tui::AppState { core: after.core, ..a })
            &&& after.core.rooms == a.core.rooms
        }),
{
    let step = state::local_change(a.core, content@, now, wall);
    let told = tui::AppState { core: step.0, ..a };
    let actions = step.1.map(
        |k: int, effect: state::EffectView|
            TuiActionView::Broadcast {
                room: a.core.rooms[k].name,
                content: content@,
                origin: a.core.peer_id,
            },
    );
    assert forall|k: int| 0 <= k < step.1.len() implies effect_step(
        told,
        #[trigger] step.1[k],
        has_clipboard,
    ) == (told, Some(actions[k])) by {
        assert(step.1[k] == state::broadcast_in(
            a.core.rooms[k].name,
            a.core.peer_id,
            content@,
        ));
    }
    lemma_actions_in_order(told, step.1, actions, has_clipboard);
}

/// What a peer sends that is connected in a room, and was not applied last, is written as it is, if
/// there is a clipboard, and nothing else is done or shown; what any other sends changes nothing.
pub proof fn law_message_is_written(
    a: tui::AppState,
    room: Seq<char>,
    sender: Seq<char>,
    content: message::ContentView,
    has_clipboard: bool,
    wall: SystemTime,
)
    ensures
        ({
            let event = network::NetworkEventView::MessageReceived { from: sender, content };
            let (after, actions) = room_step(a, room, event, has_clipboard, wall);
            let applies = state::connected_in(a.core, room).contains(sender)
                && a.core.last_applied != Some(message::content_digest(content));
            &&& applies && has_clipboard ==> actions == seq![TuiActionView::Write { content }]
            &&& !(applies && has_clipboard) ==> actions.len() == 0
            &&& applies ==> after == (tui::AppState { core: after.core, ..a })
            &&& applies ==> after.core.pending_write == Some(message::content_digest(content))
            &&& !applies ==> after == a
        }),
{
    let step = state::remote_message(a.core, room, sender, content, wall);
    let told = tui::AppState { core: step.0, ..a };
    let hash = message::content_digest(content);
    lemma_one_effect(
        told,
        state::EffectView::WriteClipboard { content, write_hash: hash },
        has_clipboard,
    );
}

/// Where peers are accepted without asking, a new peer of a room is connected there, and the user is
/// told in a notification; no dialog comes up.
pub proof fn law_accepted_peer_is_announced(
    a: tui::AppState,
    room: Seq<char>,
    id: Seq<char>,
    has_clipboard: bool,
    wall: SystemTime,
)
    requires
        state::knows(a.core, room),
        a.core.auto_accept,
        !state::connected_in(a.core, room).contains(id),
        !state::pending_in(a.core, room).contains(id),
    ensures
        ({
            let event = network::NetworkEventView::PeerConnected { id };
            let (after, actions) = room_step(a, room, event, has_clipboard, wall);
            &&& actions.len() == 0
            &&& after.dialog == a.dialog
            &&& after.notification is Some
            &&& text::occurs_in(id, after.notification->0)
            &&& state::connected_in(after.core, room).contains(id)
        }),
{
    let connected = state::connected_in(a.core, room);
    let pending = state::pending_in(a.core, room);
    let step = state::peer_connected(a.core, room, id);
    let told = tui::AppState { core: step.0, ..a };
    lemma_one_effect(told, step.1[0], has_clipboard);
    assert(step.1 =~= seq![step.1[0]]);
    text::lemma_occurs("Peer connected: "@, id, " (auto-accepted)"@);
    state::lemma_push_contains(connected, id);
    state::lemma_with_peers(a.core, room, connected.push(id), pending);
    let plain = state::with_peers(a.core, room, connected.push(id), pending);
    assert(step.0.rooms == plain.rooms);
    assert(state::connected_in(step.0, room) == state::connected_in(plain, room));
}

/// A peer that disconnects in a room is forgotten there, and the user is told.
pub proof fn law_parted_peer_is_announced(
    a: tui::AppState,
    room: Seq<char>,
    id: Seq<char>,
    has_clipboard: bool,
    wall: SystemTime,
)
    requires
        state::knows(a.core, room),
    ensures
        ({
            let event = network::NetworkEventView::PeerDisconnected { id };
            let (after, actions) = room_step(a, room, event, has_clipboard, wall);
            &&& actions.len() == 0
            &&& after.dialog == a.dialog
            &&& after.notification == Some("Peer disconnected: "@ + id)
            &&& !state::connected_in(after.core, room).contains(id)
            &&& !state::pending_in(after.core, room).contains(id)
        }),
{
    let step = state::peer_disconnected(a.core, room, id);
    let told = tui::AppState { core: step.0, ..a };
    lemma_one_effect(told, step.1[0], has_clipboard);
    assert(step.1 =~= seq![step.1[0]]);
    let any = message::ContentView::Text(id);
    laws::law_disconnect_forgets(a.core, room, id, any, wall);
}

/// Lost messages are told to the user with the name of their room, and change nothing else; and the
/// user's wish to stop is followed at once, with nothing else done.
pub proof fn law_lost_messages_and_interrupts(
    a: tui::AppState,
    room: Seq<char>,
    has_clipboard: bool,
    now: u128,
    wall: SystemTime,
)
    ensures
        ({
            let (after, actions) = room_step(
                a,
                room,
                network::NetworkEventView::Lagged,
                has_clipboard,
                wall,
            );
            &&& actions.len() == 0
            &&& after == (tui::AppState { dialog: after.dialog, ..a })
            &&& after.dialog is Some
            &&& after.dialog->0 is Info
            &&& text::occurs_in(room, after.dialog->0->Info_message)
        }),
        tui_step_of(a, TuiInput::Interrupt, has_clipboard, now, wall) == unchanged(
            tui::AppState { should_quit: true, ..a },
        ),
{
    text::lemma_occurs(
        "["@,
        room,
        "] Gossip stream lagged \u{2014} some clipboard updates may have been dropped."@,
    );
}

proof fn lemma_effects_keep_setup(
    a: tui::AppState,
    effects: Seq<state::EffectView>,
    has_clipboard: bool,
)
    ensures
        ({
            let after = effects_step(a, effects, has_clipboard).0;
            &&& after.zero == a.zero
            &&& after.clipboard_enabled == a.clipboard_enabled
            &&& after.tab == a.tab
            &&& after.history_scroll == a.history_scroll
            &&& after.rooms_scroll == a.rooms_scroll
        }),
    decreases effects.len(),
{
    if effects.len() > 0 {
        lemma_effects_keep_setup(a, effects.drop_last(), has_clipboard);
    }
}

/// What happens outside, on the clipboard or in the network, never turns the tab or scrolls, and no
/// input changes how the interface was set up.
pub proof fn law_inputs_keep_the_setup(
    a: tui::AppState,
    input: TuiInput,
    has_clipboard: bool,
    now: u128,
    wall: SystemTime,
)
    ensures
        ({
            let after = tui_step_of(a, input, has_clipboard, now, wall).0;
            &&& after.zero == a.zero
            &&& after.clipboard_enabled == a.clipboard_enabled
            &&& !(input is Key) ==> after.tab == a.tab && after.history_scroll == a.history_scroll
                && after.rooms_scroll == a.rooms_scroll
        }),
{
    match input {
        TuiInput::Key { key, ctrl } => {
            lemma_keys_keep_setup(a, key, ctrl, has_clipboard);
        },
        TuiInput::Clipboard { content } => {
            let step = state::local_change(a.core, content@, now, wall);
            lemma_effects_keep_setup(tui::AppState { core: step.0, ..a }, step.1, has_clipboard);
        },
        TuiInput::Room { room, event } => {
            let step = shell::network_step(a.core, room@, event@, wall);
            lemma_effects_keep_setup(tui::AppState { core: step.0, ..a }, step.1, has_clipboard);
        },
        TuiInput::Interrupt => {},
    }
}

proof fn lemma_answer_keeps_setup(
    a: tui::AppState,
    room: Seq<char>,
    id: Seq<char>,
    approved: bool,
    has_clipboard: bool,
)
    ensures
        answered(a, room, id, approved, has_clipboard).0.zero == a.zero,
        answered(a, room, id, approved, has_clipboard).0.clipboard_enabled == a.clipboard_enabled,
{
    let step = shell::answer_step(a.core, room, id, approved);
    lemma_effects_keep_setup(tui::AppState { core: step.0, ..a }, step.1, has_clipboard);
}

proof fn lemma_step_keeps_setup(a: tui::AppState, step: state::Step, has_clipboard: bool)
    ensures
        core_step(a, step, has_clipboard).0.zero == a.zero,
        core_step(a, step, has_clipboard).0.clipboard_enabled == a.clipboard_enabled,
{
    lemma_effects_keep_setup(tui::AppState { core: step.0, ..a }, step.1, has_clipboard);
}

proof fn lemma_dialog_keeps_setup(
    a: tui::AppState,
    dialog: tui::DialogView,
    key: Key,
    ctrl: bool,
    has_clipboard: bool,
)
    ensures
        dialog_key(a, dialog, key, ctrl, has_clipboard).0.zero == a.zero,
        dialog_key(a, dialog, key, ctrl, has_clipboard).0.clipboard_enabled
            == a.clipboard_enabled,
{
    match dialog {
        tui::DialogView::Approval { room, peer_id } => {
            lemma_answer_keeps_setup(a, room, peer_id, true, has_clipboard);
            lemma_answer_keeps_setup(a, room, peer_id, false, has_clipboard);
        },
        tui::DialogView::ConnectInput { input } => {
            lemma_step_keeps_setup(a, state::join_room(a.core, input), has_clipboard);
        },
        tui::DialogView::RoomCreate { input } => {
            let made = state::create_room(a.core, text::trimmed(input));
            lemma_step_keeps_setup(a, made, has_clipboard);
        },
        tui::DialogView::RoomDelete { room } => {
            lemma_step_keeps_setup(a, state::leave_room(a.core, room), has_clipboard);
        },
        _ => {},
    }
}

proof fn lemma_plain_keeps_setup(a: tui::AppState, key: Key, has_clipboard: bool)
    ensures
        plain_key(a, key, has_clipboard).0.zero == a.zero,
        plain_key(a, key, has_clipboard).0.clipboard_enabled == a.clipboard_enabled,
{
    if let Some((room, id)) = tui::first_pending(engine::core_rooms(a.core)) {
        lemma_answer_keeps_setup(a, room, id, true, has_clipboard);
        lemma_answer_keeps_setup(a, room, id, false, has_clipboard);
    }
}

proof fn lemma_keys_keep_setup(a: tui::AppState, key: Key, ctrl: bool, has_clipboard: bool)
    ensures
        key_step(a, key, ctrl, has_clipboard).0.zero == a.zero,
        key_step(a, key, ctrl, has_clipboard).0.clipboard_enabled == a.clipboard_enabled,
{
    match a.dialog {
        Some(dialog) => {
            lemma_dialog_keeps_setup(
                tui::AppState { notification: None, dialog: None, ..a },
                dialog,
                key,
                ctrl,
                has_clipboard,
            );
        },
        None => {
            lemma_plain_keeps_setup(
                tui::AppState { notification: None, ..a },
                key,
                has_clipboard,
            );
        },
    }
}

// ---------------------------------------------------------------------------------------------
// Laws of keys without a dialog
// ---------------------------------------------------------------------------------------------

/// The keys 1 to 5 lead to the tab of that number, and the tab keys one tab to the right or to the
/// left, where the history is shown from its start; nothing else changes.
pub proof fn law_tab_keys(a: tui::AppState, i: int, ctrl: bool, has_clipboard: bool)
    requires
        a.dialog is None,
        0 <= i < 5,
    ensures
        key_step(
            a,
            Key::Char(
                if i == 0 {
                    '1'
                } else if i == 1 {
                    '2'
                } else if i == 2 {
                    '3'
                } else if i == 3 {
                    '4'
                } else {
                    '5'
                },
            ),
            ctrl,
            has_clipboard,
        ) == unchanged(tui::AppState { tab: tui::tab_at(i), notification: None, ..a }),
        key_step(a, Key::Tab, ctrl, has_clipboard) == unchanged(
            tui::AppState {
                tab: tui::tab_at((tui::position(a.tab) + 1) % 5),
                history_scroll: 0,
                notification: None,
                ..a
            },
        ),
        key_step(a, Key::BackTab, ctrl, has_clipboard) == unchanged(
            tui::AppState {
                tab: tui::tab_at((tui::position(a.tab) + 4) % 5),
                history_scroll: 0,
                notification: None,
                ..a
            },
        ),
{
}

/// The arrow keys, and j and k, scroll the history on its tab and the rooms on any other, by one
/// entry, and nothing else.
pub proof fn law_scroll_keys(a: tui::AppState, ctrl: bool, has_clipboard: bool)
    requires
        a.dialog is None,
    ensures
        ({
            let down = key_step(a, Key::Down, ctrl, has_clipboard);
            let up = key_step(a, Key::Up, ctrl, has_clipboard);
            let further = |scroll: usize|
                if scroll < usize::MAX {
                    (scroll + 1) as usize
                } else {
                    scroll
                };
            let back = |scroll: usize|
                if scroll > 0 {
                    (scroll - 1) as usize
                } else {
                    scroll
                };
            &&& key_step(a, Key::Char('j'), ctrl, has_clipboard) == down
            &&& key_step(a, Key::Char('k'), ctrl, has_clipboard) == up
            &&& a.tab == Tab::History ==> down == unchanged(
                tui::AppState {
                    history_scroll: further(a.history_scroll),
                    notification: None,
                    ..a
                },
            ) && up == unchanged(
                tui::AppState {
                    history_scroll: back(a.history_scroll),
                    notification: None,
                    ..a
                },
            )
            &&& a.tab != Tab::History ==> down == unchanged(
                tui::AppState {
                    rooms_scroll: further(a.rooms_scroll),
                    notification: None,
                    ..a
                },
            ) && up == unchanged(
                tui::AppState { rooms_scroll: back(a.rooms_scroll), notification: None, ..a },
            )
        }),
{
}

/// The key q quits; c asks for a ticket and r for the name of a room, both with an empty line; n asks
/// for the name of a room too, unless a peer waits and the tab is another than that of the rooms.
pub proof fn law_asking_keys(a: tui::AppState, ctrl: bool, has_clipboard: bool)
    requires
        a.dialog is None,
    ensures
        ({
            let bare = tui::AppState { notification: None, ..a };
            let create = unchanged(
                tui::AppState {
                    dialog: Some(tui::DialogView::RoomCreate { input: Seq::empty() }),
                    ..bare
                },
            );
            &&& key_step(a, Key::Char('q'), ctrl, has_clipboard) == unchanged(
                tui::AppState { should_quit: true, ..bare },
            )
            &&& key_step(a, Key::Char('c'), ctrl, has_clipboard) == unchanged(
                tui::AppState {
                    dialog: Some(tui::DialogView::ConnectInput { input: Seq::empty() }),
                    ..bare
                },
            )
            &&& key_step(a, Key::Char('r'), ctrl, has_clipboard) == create
            &&& a.tab == Tab::Rooms || (forall|i: int|
                0 <= i < a.core.rooms.len() ==> (#[trigger] a.core.rooms[i]).pending.len() == 0)
                ==> key_step(a, Key::Char('n'), ctrl, has_clipboard) == create
        }),
{
    lemma_nobody_waits(a.core);
}

/// If no peer waits in any room, there is no first that does.
proof fn lemma_nobody_waits(s: state::CoreState)
    ensures
        (forall|i: int| 0 <= i < s.rooms.len() ==> (#[trigger] s.rooms[i]).pending.len() == 0)
            <==> tui::first_pending(engine::core_rooms(s)) is None,
{
    let rooms = engine::core_rooms(s);
    tui::law_first_pending(rooms);
    if tui::first_pending(rooms) is None {
        assert forall|i: int| 0 <= i < s.rooms.len() implies (
        #[trigger] s.rooms[i]).pending.len() == 0 by {
            assert(rooms[i].pending_peers.len() == 0);
        }
    } else {
        let (room, id) = tui::first_pending(rooms)->0;
        let k = choose|k: int|
            0 <= k < rooms.len() && room == (#[trigger] rooms[k]).name
                && rooms[k].pending_peers.len() > 0 && id == rooms[k].pending_peers[0]
                && forall|j: int| 0 <= j < k ==> (#[trigger] rooms[j]).pending_peers.len() == 0;
        assert(s.rooms[k].pending.len() > 0);
    }
}

/// Where no peer waits, the keys that answer do nothing.
pub proof fn law_answers_need_a_question(a: tui::AppState, ctrl: bool, has_clipboard: bool)
    requires
        a.dialog is None,
        forall|i: int| 0 <= i < a.core.rooms.len() ==> (
        #[trigger] a.core.rooms[i]).pending.len() == 0,
    ensures
        key_step(a, Key::Char('y'), ctrl, has_clipboard) == unchanged(
            tui::AppState { notification: None, ..a },
        ),
        key_step(a, Key::Char('N'), ctrl, has_clipboard) == unchanged(
            tui::AppState { notification: None, ..a },
        ),
{
    lemma_nobody_waits(a.core);
}

/// A key that has no meaning does nothing but take the notification away.
pub proof fn law_other_keys_do_nothing(a: tui::AppState, c: char, ctrl: bool, has_clipboard: bool)
    requires
        a.dialog is None,
        !seq![
            'q',
            '1',
            '2',
            '3',
            '4',
            '5',
            'j',
            'k',
            't',
            'c',
            'n',
            'r',
            'd',
            'T',
            'y',
            'N',
        ].contains(c),
    ensures
        key_step(a, Key::Char(c), ctrl, has_clipboard) == unchanged(
            tui::AppState { notification: None, ..a },
        ),
        key_step(a, Key::Backspace, ctrl, has_clipboard) == unchanged(
            tui::AppState { notification: None, ..a },
        ),
        key_step(a, Key::Other, ctrl, has_clipboard) == unchanged(
            tui::AppState { notification: None, ..a },
        ),
        a.tab != Tab::History ==> key_step(a, Key::Enter, ctrl, has_clipboard) == unchanged(
            tui::AppState { notification: None, ..a },
        ),
        a.tab != Tab::Rooms ==> key_step(a, Key::Char('d'), ctrl, has_clipboard) == unchanged(
            tui::AppState { notification: None, ..a },
        ) && key_step(a, Key::Char('T'), ctrl, has_clipboard) == unchanged(
            tui::AppState { notification: None, ..a },
        ),
        a.tab != Tab::Peers ==> key_step(a, Key::Char('N'), ctrl, has_clipboard) == unchanged(
            tui::AppState { notification: None, ..a },
        ),
{
    let known = seq![
        'q',
        '1',
        '2',
        '3',
        '4',
        '5',
        'j',
        'k',
        't',
        'c',
        'n',
        'r',
        'd',
        'T',
        'y',
        'N',
    ];
    assert(known[0] == 'q' && known[1] == '1' && known[2] == '2' && known[3] == '3' && known[4]
        == '4' && known[5] == '5' && known[6] == 'j' && known[7] == 'k');
    assert(known[8] == 't' && known[9] == 'c' && known[10] == 'n' && known[11] == 'r' && known[12]
        == 'd' && known[13] == 'T' && known[14] == 'y' && known[15] == 'N');
}

/// The room that is highlighted on the rooms tab: that of the scroll position, or the last where the
/// position is beyond the end.
pub open spec fn pointed_at(a: tui::AppState) -> state::RoomState {
    if a.rooms_scroll < a.core.rooms.len() {
        a.core.rooms[a.rooms_scroll as int]
    } else {
        a.core.rooms.last()
    }
}

/// The key T on the rooms tab copies the ticket of the room that is highlighted, which is the room
/// that the key d asks about: with a clipboard, the text by which others reach this core in that very
/// room, if it was made here; for a room of someone else, or without a clipboard, the user is told
/// that there is none. Nothing else changes.
pub proof fn law_ticket_of_the_highlighted_room(a: tui::AppState, ctrl: bool)
    requires
        a.core.wf(),
        a.dialog is None,
        a.tab == Tab::Rooms,
        a.core.rooms.len() > 0,
    ensures
        ({
            let room = pointed_at(a);
            let (after, actions) = key_step(a, Key::Char('T'), ctrl, true);
            &&& room.is_local ==> actions == seq![
                TuiActionView::SetText { text: laws::invitation(a.core, room.name) },
            ]
            &&& !room.is_local ==> actions.len() == 0
            &&& after == (tui::AppState { notification: None, dialog: after.dialog, ..a })
            &&& after.dialog is Some
            &&& room.is_local <==> after.dialog->0 is Info
            &&& room.is_local ==> text::occurs_in(room.name, after.dialog->0->Info_message)
            &&& key_step(a, Key::Char('d'), ctrl, true).0.dialog == Some(
                tui::DialogView::RoomDelete { room: room.name },
            )
            &&& key_step(a, Key::Char('T'), ctrl, false).1.len() == 0
        }),
{
    let room = pointed_at(a);
    let i = if a.rooms_scroll < a.core.rooms.len() {
        a.rooms_scroll as int
    } else {
        a.core.rooms.len() - 1
    };
    assert(a.core.rooms[i] == room);
    state::lemma_place(a.core.rooms, room.name);
    assert(state::place(a.core.rooms, room.name) == i) by {
        let k = state::place(a.core.rooms, room.name);
        if k < i {
            assert(a.core.rooms[k].name != a.core.rooms[i].name);
        } else if k > i {
            assert(a.core.rooms[i].name != room.name);
        }
    }
    tui::law_copied_ticket_leads_to_the_room(a.core, room.name);
}

/// The key t copies the ticket of the first room that was made here, whatever the tab is.
pub proof fn law_own_ticket_key(a: tui::AppState, i: int, ctrl: bool)
    requires
        a.dialog is None,
        0 <= i < a.core.rooms.len(),
        a.core.rooms[i].is_local,
        forall|j: int| 0 <= j < i ==> !(#[trigger] a.core.rooms[j]).is_local,
    ensures
        ({
            let (after, actions) = key_step(a, Key::Char('t'), ctrl, true);
            &&& actions == seq![
                TuiActionView::SetText { text: laws::invitation(a.core, a.core.rooms[i].name) },
            ]
            &&& after == (tui::AppState { notification: None, dialog: after.dialog, ..a })
            &&& after.dialog is Some
            &&& after.dialog->0 is Info
            &&& key_step(a, Key::Char('t'), ctrl, false).1.len() == 0
        }),
{
    tui::law_own_ticket_is_copied(a.core, i);
}

/// Enter on the history tab, with a clipboard, writes the whole content of the selected entry, as it
/// was recorded: the newest entry is the first, and a position beyond the end selects the oldest.
/// Nothing but a dialog that says so changes; without a clipboard, or without entries, nothing does.
pub proof fn law_enter_copies_the_entry_again(a: tui::AppState, ctrl: bool, has_clipboard: bool)
    requires
        a.dialog is None,
        a.tab == Tab::History,
    ensures
        ({
            let history = a.core.history;
            let (after, actions) = key_step(a, Key::Enter, ctrl, has_clipboard);
            if history.len() > 0 && has_clipboard {
                let back = if a.history_scroll < history.len() {
                    a.history_scroll as int
                } else {
                    history.len() - 1
                };
                &&& actions == seq![
                    TuiActionView::Write { content: history[history.len() - 1 - back].content },
                ]
                &&& after == (tui::AppState { notification: None, dialog: after.dialog, ..a })
                &&& after.dialog is Some
                &&& after.dialog->0 is Info
            } else {
                actions.len() == 0 && after == (tui::AppState { notification: None, ..a })
            }
        }),
{
    tui::law_entry_is_copied_whole(tui::shown_history(a), a.history_scroll, has_clipboard);
}

/// Copying something and then copying its entry again gives back what was copied, whole: the newest
/// entry of the history after a copy that is no echo is the copy itself. The same holds of what a
/// connected peer sent.
pub proof fn law_copy_can_be_copied_again(
    a: tui::AppState,
    content: message::ContentView,
    room: Seq<char>,
    sender: Seq<char>,
    now: u128,
    wall: SystemTime,
    ctrl: bool,
)
    requires
        a.dialog is None,
        a.tab == Tab::History,
        a.history_scroll == 0,
    ensures
        a.core.pending_write != Some(message::content_digest(content)) ==> key_step(
            tui::AppState { core: state::local_change(a.core, content, now, wall).0, ..a },
            Key::Enter,
            ctrl,
            true,
        ).1 == seq![TuiActionView::Write { content }],
        state::connected_in(a.core, room).contains(sender) && a.core.last_applied != Some(
            message::content_digest(content),
        ) ==> key_step(
            tui::AppState {
                core: state::remote_message(a.core, room, sender, content, wall).0,
                ..a
            },
            Key::Enter,
            ctrl,
            true,
        ).1 == seq![TuiActionView::Write { content }],
{
    let copied = state::local_change(a.core, content, now, wall).0;
    let received = state::remote_message(a.core, room, sender, content, wall).0;
    law_enter_copies_the_entry_again(tui::AppState { core: copied, ..a }, ctrl, true);
    law_enter_copies_the_entry_again(tui::AppState { core: received, ..a }, ctrl, true);
}

// ---------------------------------------------------------------------------------------------
// Laws of dialogs
// ---------------------------------------------------------------------------------------------

/// A line that is typed is what was typed: a character goes to its end, a backspace takes its last
/// one off, and any other key leaves it. The dialog stays open meanwhile, and nothing else changes.
pub proof fn law_typing(
    a: tui::AppState,
    input: Seq<char>,
    c: char,
    key: Key,
    ctrl: bool,
    has_clipboard: bool,
)
    requires
        !(c == 'v' && ctrl),
        key == Key::Tab || key == Key::BackTab || key == Key::Up || key == Key::Down || key
            == Key::Other,
    ensures
        ({
            let connect = |line: Seq<char>|
                tui::AppState {
                    dialog: Some(tui::DialogView::ConnectInput { input: line }),
                    notification: None,
                    ..a
                };
            let create = |line: Seq<char>|
                tui::AppState {
                    dialog: Some(tui::DialogView::RoomCreate { input: line }),
                    notification: None,
                    ..a
                };
            let shorter = if input.len() > 0 {
                input.drop_last()
            } else {
                input
            };
            &&& key_step(connect(input), Key::Char(c), ctrl, has_clipboard) == unchanged(
                connect(input.push(c)),
            )
            &&& key_step(create(input), Key::Char(c), ctrl, has_clipboard) == unchanged(
                create(input.push(c)),
            )
            &&& key_step(connect(input), Key::Backspace, ctrl, has_clipboard) == unchanged(
                connect(shorter),
            )
            &&& key_step(create(input), Key::Backspace, ctrl, has_clipboard) == unchanged(
                create(shorter),
            )
            &&& key_step(connect(input), key, ctrl, has_clipboard) == unchanged(connect(input))
            &&& key_step(create(input), key, ctrl, has_clipboard) == unchanged(create(input))
        }),
{
}

/// Pasting into the line for a ticket asks for the text of the clipboard, if there is one, and then
/// puts it behind what was typed; outside of that dialog a pasted text goes nowhere.
pub proof fn law_pasting(
    a: tui::AppState,
    input: Seq<char>,
    pasted: Seq<char>,
    has_clipboard: bool,
)
    ensures
        ({
            let open = tui::AppState {
                dialog: Some(tui::DialogView::ConnectInput { input }),
                ..a
            };
            let (after, actions) = key_step(open, Key::Char('v'), true, has_clipboard);
            &&& after == (tui::AppState { notification: None, ..open })
            &&& has_clipboard ==> actions == seq![TuiActionView::Paste]
            &&& !has_clipboard ==> actions.len() == 0
            &&& pasted_into(open, pasted) == (tui::AppState {
                dialog: Some(tui::DialogView::ConnectInput { input: input + pasted }),
                ..a
            })
        }),
        !(a.dialog is Some && a.dialog->0 is ConnectInput) ==> pasted_into(a, pasted) == a,
{
}

/// Entering a ticket joins its room: the gossip of the room is entered, and the peer of the ticket
/// connected there; the user is in the room from then on. A text that is no ticket changes nothing
/// but that the user is told why, and an empty line is refused.
pub proof fn law_entering_a_ticket(a: tui::AppState, input: Seq<char>, ctrl: bool, has_clipboard: bool)
    requires
        a.dialog == Some(tui::DialogView::ConnectInput { input }),
    ensures
        ({
            let (after, actions) = key_step(a, Key::Enter, ctrl, has_clipboard);
            let bare = tui::AppState { notification: None, dialog: None, ..a };
            if input.len() == 0 {
                actions.len() == 0 && after.core == a.core && after.dialog is Some
                    && after.dialog->0 is Error
            } else {
                match ticket::ticket_in(input) {
                    Ok(found) => {
                        &&& actions == seq![
                            TuiActionView::SetupRoom { room: found.room },
                            TuiActionView::AddPeer {
                                room: found.room,
                                endpoint_addr: found.endpoint_addr,
                            },
                        ]
                        &&& after == (tui::AppState { core: after.core, ..bare })
                        &&& state::knows(after.core, found.room)
                        &&& laws::enters(a.core, after.core, found.room, false)
                    },
                    Err(error) => {
                        &&& actions.len() == 0
                        &&& after == (tui::AppState {
                            notification: Some(
                                "Invalid ticket: "@ + ticket::error_text(error),
                            ),
                            ..bare
                        })
                    },
                }
            }
        }),
{
    let bare = tui::AppState { notification: None, dialog: None, ..a };
    laws::law_joined_room_is_there(a.core, input);
    let step = state::join_room(a.core, input);
    let told = tui::AppState { core: step.0, ..bare };
    match ticket::ticket_in(input) {
        Ok(found) => {
            assert(step.1 =~= seq![step.1[0], step.1[1]]);
            lemma_one_effect(told, step.1[0], has_clipboard);
            lemma_two_effects(told, step.1[0], step.1[1], has_clipboard);
            if input.len() > 0 {
                assert(key_step(a, Key::Enter, ctrl, has_clipboard).1 =~= seq![
                    TuiActionView::SetupRoom { room: found.room },
                    TuiActionView::AddPeer {
                        room: found.room,
                        endpoint_addr: found.endpoint_addr,
                    },
                ]);
            }
        },
        Err(error) => {
            lemma_one_effect(told, step.1[0], has_clipboard);
        },
    }
}

/// Entering the name of a room creates the room of that name, without the white space around it: the
/// user is in it from then on, and its gossip is entered. A name of nothing but white space is
/// refused.
pub proof fn law_entering_a_name(a: tui::AppState, input: Seq<char>, ctrl: bool, has_clipboard: bool)
    requires
        a.dialog == Some(tui::DialogView::RoomCreate { input }),
    ensures
        ({
            let (after, actions) = key_step(a, Key::Enter, ctrl, has_clipboard);
            let bare = tui::AppState { notification: None, dialog: None, ..a };
            let room = text::trimmed(input);
            if room.len() == 0 {
                actions.len() == 0 && after.core == a.core && after.dialog is Some
                    && after.dialog->0 is Error
            } else {
                &&& actions == seq![TuiActionView::SetupRoom { room }]
                &&& after == (tui::AppState { core: after.core, ..bare })
                &&& state::knows(after.core, room)
                &&& laws::enters(a.core, after.core, room, true)
            }
        }),
{
    let bare = tui::AppState { notification: None, dialog: None, ..a };
    let room = text::trimmed(input);
    laws::law_created_room_is_there(a.core, room, room);
    let step = state::create_room(a.core, room);
    let told = tui::AppState { core: step.0, ..bare };
    lemma_one_effect(told, step.1[0], has_clipboard);
    assert(step.1 =~= seq![step.1[0]]);
}

/// The question whether to leave a room: with a yes the room is gone and its gossip is left; with a
/// no everything stays; and any other key leaves the question open.
pub proof fn law_answering_to_leave(
    a: tui::AppState,
    room: Seq<char>,
    key: Key,
    ctrl: bool,
    has_clipboard: bool,
)
    requires
        a.core.wf(),
        a.dialog == Some(tui::DialogView::RoomDelete { room }),
    ensures
        ({
            let (after, actions) = key_step(a, key, ctrl, has_clipboard);
            let bare = tui::AppState { notification: None, dialog: None, ..a };
            if key == Key::Char('y') || key == Key::Enter {
                &&& !state::knows(after.core, room)
                &&& state::knows(a.core, room) ==> actions == seq![
                    TuiActionView::ShutdownRoom { room },
                ] && after.core.rooms.len() == a.core.rooms.len() - 1
                &&& !state::knows(a.core, room) ==> actions.len() == 0 && after.core == a.core
                &&& after == (tui::AppState { core: after.core, ..bare })
            } else if key == Key::Char('n') || key == Key::Esc {
                after == bare && actions.len() == 0
            } else {
                after == (tui::AppState { notification: None, ..a }) && actions.len() == 0
            }
        }),
{
    let bare = tui::AppState { notification: None, dialog: None, ..a };
    let step = state::leave_room(a.core, room);
    let told = tui::AppState { core: step.0, ..bare };
    lemma_one_effect(told, state::EffectView::ShutdownRoom { room }, has_clipboard);
    let any = message::ContentView::Text(room);
    let event = state::RoomEventView::PeerConnected { id: room };
    laws::law_left_room_is_gone(a.core, room, event, any, room, 0, arbitrary(), 0);
}

/// The question about a peer: with a yes, by y or Enter, it is connected in the room of the question;
/// with a no it is neither connected there nor waits any more; leaving the question answers it in
/// neither way; and any other key leaves it open. The user is told of either answer.
pub proof fn law_answering_about_a_peer(
    a: tui::AppState,
    room: Seq<char>,
    id: Seq<char>,
    key: Key,
    ctrl: bool,
    has_clipboard: bool,
)
    requires
        a.core.wf(),
        a.dialog == Some(tui::DialogView::Approval { room, peer_id: id }),
        state::pending_in(a.core, room).contains(id),
    ensures
        ({
            let (after, actions) = key_step(a, key, ctrl, has_clipboard);
            let bare = tui::AppState { notification: None, dialog: None, ..a };
            let connected = state::connected_in(after.core, room);
            &&& actions.len() == 0
            &&& if key == Key::Char('y') || key == Key::Enter {
                &&& connected == state::connected_in(a.core, room).push(id)
                &&& !state::pending_in(after.core, room).contains(id)
                &&& after == (tui::AppState {
                    core: after.core,
                    notification: Some("Peer approved: "@ + id),
                    ..bare
                })
            } else if key == Key::Char('n') {
                &&& connected == state::connected_in(a.core, room)
                &&& !connected.contains(id)
                &&& !state::pending_in(after.core, room).contains(id)
                &&& after == (tui::AppState {
                    core: after.core,
                    notification: Some("Peer rejected: "@ + id),
                    ..bare
                })
            } else if key == Key::Esc {
                after == bare
            } else {
                after == (tui::AppState { notification: None, ..a })
            }
        }),
{
    let bare = tui::AppState { notification: None, dialog: None, ..a };
    let connected = state::connected_in(a.core, room);
    let pending = state::pending_in(a.core, room);
    state::lemma_place(a.core.rooms, room);
    assert(state::room_named(a.core, room).wf());
    let any = message::ContentView::Text(id);
    let yes = state::peer_approved(a.core, room, id);
    let no = state::peer_rejected(a.core, room, id);
    text::lemma_without(pending, id);
    let left = text::without(pending, id);
    state::lemma_with_peers(a.core, room, connected.push(id), left);
    state::lemma_with_peers(a.core, room, connected, left);
    let plain = state::with_peers(a.core, room, connected.push(id), left);
    assert(yes.0.rooms == plain.rooms);
    assert(state::connected_in(yes.0, room) == state::connected_in(plain, room));
    assert(state::pending_in(yes.0, room) == state::pending_in(plain, room));
    lemma_one_effect(tui::AppState { core: yes.0, ..bare }, yes.1[0], has_clipboard);
    lemma_one_effect(tui::AppState { core: no.0, ..bare }, no.1[0], has_clipboard);
    assert(yes.1 =~= seq![yes.1[0]]);
    assert(no.1 =~= seq![no.1[0]]);
}

/// What the user was told goes away with Enter, Esc or the space bar, and stays with any other key;
/// nothing else changes.
pub proof fn law_dismissing(
    a: tui::AppState,
    message: Seq<char>,
    key: Key,
    ctrl: bool,
    has_clipboard: bool,
)
    requires
        a.dialog == Some(tui::DialogView::Error { message }) || a.dialog == Some(
            tui::DialogView::Info { message },
        ),
    ensures
        key_step(a, key, ctrl, has_clipboard) == unchanged(
            tui::AppState {
                notification: None,
                dialog: if key == Key::Enter || key == Key::Esc || key == Key::Char(' ') {
                    None
                } else {
                    a.dialog
                },
                ..a
            },
        ),
{
}

// ---------------------------------------------------------------------------------------------
// Laws of the launch
// ---------------------------------------------------------------------------------------------

/// The launch enters the gossip of the core's room, and then, if the user gave a ticket, joins the
/// room of the ticket and connects its peer there; a text that is no ticket is told to the user. The
/// rooms that the core was in stay, and whether there is a clipboard is remembered.
pub proof fn law_launch(
    core: state::CoreState,
    zero: std::time::Instant,
    no_clipboard: bool,
    ticket: Option<Seq<char>>,
    has_clipboard: bool,
)
    requires
        state::knows(core, core.room),
    ensures
        ({
            let (a, actions) = launched(core, zero, no_clipboard, ticket, has_clipboard);
            let entered = TuiActionView::SetupRoom { room: core.room };
            &&& a.zero == zero
            &&& a.tab == Tab::Status
            &&& a.dialog is None
            &&& !a.should_quit
            &&& a.clipboard_enabled == !no_clipboard
            &&& match ticket {
                Some(given) => match ticket::ticket_in(given) {
                    Ok(found) => {
                        &&& actions == seq![
                            entered,
                            TuiActionView::SetupRoom { room: found.room },
                            TuiActionView::AddPeer {
                                room: found.room,
                                endpoint_addr: found.endpoint_addr,
                            },
                        ]
                        &&& a.notification is None
                        &&& laws::enters(core, a.core, found.room, false)
                    },
                    Err(error) => {
                        &&& actions == seq![entered]
                        &&& a.notification == Some(
                            "Invalid ticket: "@ + ticket::error_text(error),
                        )
                        &&& a.core.rooms == core.rooms
                    },
                },
                None => {
                    &&& actions == seq![entered]
                    &&& a.notification is None
                    &&& a.core.rooms == core.rooms
                },
            }
        }),
{
    let started = state::start(core).0;
    let first = tui::AppState {
        clipboard_enabled: !no_clipboard,
        ..tui::fresh(started, zero)
    };
    let made = state::create_room(started, core.room);
    assert(made.1 =~= seq![made.1[0]]);
    lemma_one_effect(tui::AppState { core: made.0, ..first }, made.1[0], has_clipboard);
    let entered = core_step(first, made, has_clipboard);
    if let Some(given) = ticket {
        laws::law_joined_room_is_there(made.0, given);
        let joined = state::join_room(made.0, given);
        let told = tui::AppState { core: joined.0, ..entered.0 };
        match ticket::ticket_in(given) {
            Ok(found) => {
                assert(joined.1 =~= seq![joined.1[0], joined.1[1]]);
                lemma_one_effect(told, joined.1[0], has_clipboard);
                lemma_two_effects(told, joined.1[0], joined.1[1], has_clipboard);
                assert(launched(core, zero, no_clipboard, ticket, has_clipboard).1 =~= seq![
                    TuiActionView::SetupRoom { room: core.room },
                    TuiActionView::SetupRoom { room: found.room },
                    TuiActionView::AddPeer {
                        room: found.room,
                        endpoint_addr: found.endpoint_addr,
                    },
                ]);
            },
            Err(_) => {
                lemma_one_effect(told, joined.1[0], has_clipboard);
                assert(launched(core, zero, no_clipboard, ticket, has_clipboard).1 =~= seq![
                    TuiActionView::SetupRoom { room: core.room },
                ]);
            },
        }
    }
}

/// A key is handled as the key that was pressed, with or without the control key, and what the
/// network tells as what happened in the room that it names.
pub proof fn law_inputs_are_passed_on(
    a: tui::AppState,
    input: TuiInput,
    has_clipboard: bool,
    now: u128,
    wall: SystemTime,
)
    ensures
        input matches TuiInput::Key { key, ctrl } ==> tui_step_of(
            a,
            input,
            has_clipboard,
            now,
            wall,
        ) == key_step(a, key, ctrl, has_clipboard),
        input matches TuiInput::Room { room, event } ==> tui_step_of(
            a,
            input,
            has_clipboard,
            now,
            wall,
        ) == room_step(a, room@, event@, has_clipboard, wall),
{
}

/// Every key can be handled, but for Enter on the history tab when the selected entry cannot be
/// copied again.
pub proof fn law_when_a_key_can_be_handled(a: tui::AppState, key: Key, has_clipboard: bool)
    ensures
        a.dialog is Some || key != Key::Enter || a.tab != Tab::History ==> key_fits(
            a,
            key,
            has_clipboard,
        ),
        a.dialog is None && a.tab == Tab::History ==> (key_fits(a, Key::Enter, has_clipboard)
            <==> tui::history_copy_fits(
            a.core.history.reverse(),
            a.history_scroll,
            has_clipboard,
        )),
{
}

}
