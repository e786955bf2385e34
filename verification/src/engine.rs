//! The sync core: pure logic, no I/O but for reading the clocks.
use vstd::prelude::*;
use std::collections::VecDeque;
use std::time::{Instant, SystemTime};
use crate::clock;
use crate::digest::same_digest;
use crate::message::{ClipboardContent, GossipMessage};
use crate::state;
use crate::state::{
    BsyncEffect, BsyncEvent, RoomEvent, HISTORY_CAPACITY, HISTORY_PREVIEW_LEN,
    MAX_BROADCASTS_PER_SEC,
};
use crate::text;
use crate::text::{concat2, concat3, copy_strings, is_among, strings_with, strings_without};
use crate::ticket;
use crate::ticket::Ticket;

verus! {

/// How a core is set up.
#[derive(Debug, Clone)]
pub struct Config {
    /// Human-readable peer ID.
    pub peer_id: String,
    /// Room name for logical isolation.
    pub room: String,
    /// Skip peer approval prompts (dangerous for clipboard data).
    pub auto_accept: bool,
}

/// A single entry in the clipboard history.
#[derive(Debug)]
pub struct ClipboardHistoryEntry {
    /// Truncated preview of the clipboard content.
    pub preview: String,
    /// Whether this originated locally (true) or from a remote peer (false).
    pub is_local: bool,
    /// Peer ID of the origin (equals our peer_id for local copies).
    pub origin: String,
    /// When this entry was recorded (system time, for display).
    pub timestamp: SystemTime,
    /// The whole content, to be copied again.
    pub content: ClipboardContent,
}

/// A room and its peers.
#[derive(Debug, Clone)]
pub struct RoomInfo {
    pub name: String,
    /// Whether the room was made here.
    pub is_local: bool,
    /// The ticket to hand out, for a room that was made here.
    pub ticket: Option<String>,
    pub connected_peers: Vec<String>,
    pub pending_peers: Vec<String>,
}

/// The mathematical content of a room.
pub struct RoomView {
    pub name: Seq<char>,
    pub is_local: bool,
    pub ticket: Option<Seq<char>>,
    pub connected_peers: Seq<Seq<char>>,
    pub pending_peers: Seq<Seq<char>>,
}

/// Read-only snapshot for UI rendering. Ticket and peers outside of `rooms` are those of the room
/// that the core was made with.
#[derive(Debug, Clone)]
pub struct BsyncViewModel {
    pub peer_id: String,
    pub ticket: String,
    pub room: String,
    pub connected_peers: Vec<String>,
    pub pending_peers: Vec<String>,
    pub status: String,
    /// Newest first.
    pub history: Vec<ClipboardHistoryEntry>,
    pub rooms: Vec<RoomInfo>,
}

/// A room that the user is in.
struct Room {
    name: String,
    is_local: bool,
    connected: Vec<String>,
    pending: Vec<String>,
}

/// The core.
pub struct BsyncCore {
    peer_id: String,
    /// The room that the core was made with.
    room: String,
    auto_accept: bool,
    rooms: Vec<Room>,
    /// Hash of the last remote content we applied (dedup).
    last_applied_hash: Option<[u8; 32]>,
    /// Hash of the content we just wrote to clipboard (echo guard).
    pending_write_hash: Option<[u8; 32]>,
    /// Times of recent broadcasts (rate limiting).
    broadcast_times: VecDeque<u128>,
    /// Ring buffer of recent clipboard entries (newest last).
    history: VecDeque<ClipboardHistoryEntry>,
    status: String,
    /// When the core was made: the zero of its times.
    made: Instant,
}

impl View for ClipboardHistoryEntry {
    type V = state::EntryView;

    open spec fn view(&self) -> state::EntryView {
        state::EntryView {
            preview: self.preview@,
            is_local: self.is_local,
            origin: self.origin@,
            timestamp: self.timestamp,
            content: self.content@,
        }
    }
}

impl View for RoomInfo {
    type V = RoomView;

    open spec fn view(&self) -> RoomView {
        RoomView {
            name: self.name@,
            is_local: self.is_local,
            ticket: text::maybe(self.ticket),
            connected_peers: text::texts(self.connected_peers@),
            pending_peers: text::texts(self.pending_peers@),
        }
    }
}

pub open spec fn rooms_of(rooms: Seq<RoomInfo>) -> Seq<RoomView> {
    rooms.map_values(|r: RoomInfo| r@)
}

/// A room of a core, as it is shown.
pub open spec fn shown_room(s: state::CoreState, room: state::RoomState) -> RoomView {
    RoomView {
        name: room.name,
        is_local: room.is_local,
        ticket: state::room_ticket(s, room),
        connected_peers: room.connected,
        pending_peers: room.pending,
    }
}

/// The rooms of a core, as they are shown.
pub open spec fn core_rooms(s: state::CoreState) -> Seq<RoomView> {
    s.rooms.map_values(|room: state::RoomState| shown_room(s, room))
}

impl View for Room {
    type V = state::RoomState;

    closed spec fn view(&self) -> state::RoomState {
        state::RoomState {
            name: self.name@,
            is_local: self.is_local,
            connected: text::texts(self.connected@),
            pending: text::texts(self.pending@),
        }
    }
}

spec fn room_states(rooms: Seq<Room>) -> Seq<state::RoomState> {
    rooms.map_values(|r: Room| r@)
}

fn new_room(name: String, is_local: bool) -> (room: Room)
    ensures
        room@ == state::empty_room(name@, is_local),
{
    let room = Room { name, is_local, connected: Vec::new(), pending: Vec::new() };
    assert(text::texts(room.connected@) =~= Seq::<Seq<char>>::empty());
    assert(text::texts(room.pending@) =~= Seq::<Seq<char>>::empty());
    room
}

impl Clone for ClipboardHistoryEntry {
    fn clone(&self) -> (copy: Self)
        ensures
            copy@ == self@,
    {
        ClipboardHistoryEntry {
            preview: self.preview.clone(),
            is_local: self.is_local,
            origin: self.origin.clone(),
            timestamp: self.timestamp,
            content: self.content.clone(),
        }
    }
}

pub open spec fn entries(history: Seq<ClipboardHistoryEntry>) -> Seq<state::EntryView> {
    history.map_values(|e: ClipboardHistoryEntry| e@)
}

pub open spec fn hash_of(hash: Option<[u8; 32]>) -> Option<Seq<u8>> {
    match hash {
        Some(bytes) => Some(bytes@),
        None => None,
    }
}

fn is_hash(expected: &Option<[u8; 32]>, hash: &[u8; 32]) -> (same: bool)
    ensures
        same == (hash_of(*expected) == Some(hash@)),
{
    match expected {
        Some(bytes) => same_digest(bytes, hash),
        None => false,
    }
}

fn preview(content: &ClipboardContent) -> (preview: String)
    ensures
        preview@ == state::preview_of(content@),
{
    match content {
        ClipboardContent::Text(text) => {
            if text.as_str().unicode_len() > HISTORY_PREVIEW_LEN {
                let mut preview = text.as_str().substring_char(0, HISTORY_PREVIEW_LEN).to_owned();
                preview.append("\u{2026}");
                preview
            } else {
                text.clone()
            }
        },
        ClipboardContent::Image(_) => "[image]".to_owned(),
    }
}

/// No effects.
fn nothing() -> (effects: Vec<BsyncEffect>)
    ensures
        state::effects_of(effects@) == Seq::<state::EffectView>::empty(),
{
    let effects = Vec::new();
    assert(state::effects_of(effects@) =~= Seq::<state::EffectView>::empty());
    effects
}

fn print_status(message: String) -> (effects: Vec<BsyncEffect>)
    ensures
        state::effects_of(effects@) == state::print(message@),
{
    let effects = vec![BsyncEffect::PrintStatus { message }];
    assert(state::effects_of(effects@) =~= state::print(message@));
    effects
}

impl BsyncCore {
    /// The state of the core.
    pub closed spec fn state(&self) -> state::CoreState {
        state::CoreState {
            peer_id: self.peer_id@,
            room: self.room@,
            auto_accept: self.auto_accept,
            rooms: room_states(self.rooms@),
            last_applied: hash_of(self.last_applied_hash),
            pending_write: hash_of(self.pending_write_hash),
            broadcast_times: self.broadcast_times@,
            history: entries(self.history@),
            status: self.status@,
        }
    }

    /// When the core was made: the zero of its times.
    pub closed spec fn zero(&self) -> Instant {
        self.made
    }

    /// A core in one room, with no peers and no history.
    pub fn new(config: Config) -> (core: Self)
        ensures
            core.state() == state::initial(
                config.peer_id@,
                config.room@,
                config.auto_accept,
            ),
            core.state().wf(),
    {
        let rooms = vec![new_room(config.room.clone(), true)];
        let core = Self {
            peer_id: config.peer_id,
            room: config.room,
            auto_accept: config.auto_accept,
            rooms,
            last_applied_hash: None,
            pending_write_hash: None,
            broadcast_times: VecDeque::with_capacity(MAX_BROADCASTS_PER_SEC),
            history: VecDeque::with_capacity(HISTORY_CAPACITY),
            status: String::new(),
            made: Instant::now(),
        };
        proof {
            assert(room_states(core.rooms@) =~= seq![state::empty_room(config.room@, true)]);
            assert(entries(core.history@) =~= Seq::<state::EntryView>::empty());
        }
        core
    }

    /// Remove broadcast times older than 1 second.
    fn prune_broadcast_times(&mut self, now: u128)
        ensures
            final(self).zero() == old(self).zero(),
            final(self).state() == (state::CoreState {
                broadcast_times: state::pruned(old(self).state().broadcast_times, now),
                ..old(self).state()
            }),
    {
        while self.broadcast_times.len() > 0 && now >= self.broadcast_times[0] && now
            - self.broadcast_times[0] >= clock::SECOND
            invariant
                self.zero() == old(self).zero(),
                state::pruned(old(self).state().broadcast_times, now) == state::pruned(
                    self.broadcast_times@,
                    now,
                ),
                self.state() == (state::CoreState {
                    broadcast_times: self.broadcast_times@,
                    ..old(self).state()
                }),
            decreases self.broadcast_times@.len(),
        {
            let ghost before = self.broadcast_times@;
            self.broadcast_times.pop_front();
            assert(self.broadcast_times@ =~= before.drop_first());
        }
    }

    /// Push a clipboard entry to history, evicting oldest if at capacity.
    fn push_history(&mut self, content: ClipboardContent, origin: String, is_local: bool, wall: SystemTime)
        ensures
            final(self).zero() == old(self).zero(),
            final(self).state() == (state::CoreState {
                history: state::recorded(
                    old(self).state(),
                    content@,
                    origin@,
                    is_local,
                    wall,
                ),
                ..old(self).state()
            }),
    {
        let entry = ClipboardHistoryEntry {
            preview: preview(&content),
            is_local,
            origin,
            timestamp: wall,
            content,
        };
        let ghost before = self.history@;
        if self.history.len() >= HISTORY_CAPACITY {
            self.history.pop_front();
            assert(entries(self.history@) =~= entries(before).drop_first());
        }
        let ghost kept = self.history@;
        self.history.push_back(entry);
        assert(entries(self.history@) =~= entries(kept).push(entry@));
    }

    fn handle_start(&mut self) -> (effects: Vec<BsyncEffect>)
        ensures
            final(self).zero() == old(self).zero(),
            (final(self).state(), state::effects_of(effects@)) == state::start(old(self).state()),
    {
        let ticket = Ticket::new(self.peer_id.clone(), self.room.clone()).encode();
        self.status = "waiting for connections...".to_owned();
        let mut message = concat3("Peer ID: ", self.peer_id.as_str(), "\n");
        message.append("Ticket:  ");
        message.append(ticket.as_str());
        message.append("\nRoom:    ");
        message.append(self.room.as_str());
        message.append("\n");
        print_status(message)
    }

    fn handle_connect(&mut self, ticket_str: String) -> (effects: Vec<BsyncEffect>)
        ensures
            final(self).zero() == old(self).zero(),
            (final(self).state(), state::effects_of(effects@)) == state::connect(
                old(self).state(),
                ticket_str@,
            ),
    {
        match Ticket::decode(ticket_str.as_str()) {
            Ok(ticket) => {
                self.status = concat3("connecting to ", ticket.endpoint_addr.as_str(), "...");
                let effects = vec![
                    BsyncEffect::ConnectToEndpoint { endpoint_addr: ticket.endpoint_addr },
                ];
                assert(state::effects_of(effects@) =~= state::connect(
                    old(self).state(),
                    ticket_str@,
                ).1);
                effects
            },
            Err(e) => print_status(concat2("Invalid ticket: ", e.message().as_str())),
        }
    }

    /// The place of a room that the user is in.
    fn find_room(&self, name: &String) -> (found: Option<usize>)
        ensures
            match found {
                Some(i) => i == state::place(self.state().rooms, name@) && i < self.rooms@.len()
                    && self.state().rooms.len() == self.rooms@.len() && state::knows(
                    self.state(),
                    name@,
                ) && self.rooms@[i as int]@ == state::room_named(self.state(), name@)
                    && self.rooms@[i as int].name@ == name@,
                None => !state::knows(self.state(), name@),
            },
    {
        let ghost states = room_states(self.rooms@);
        let mut i: usize = 0;
        assert(states.skip(0) =~= states);
        while i < self.rooms.len()
            invariant
                i <= self.rooms@.len(),
                states == room_states(self.rooms@),
                state::place(states, name@) == i + state::place(states.skip(i as int), name@),
            decreases self.rooms@.len() - i,
        {
            assert(states.skip(i as int)[0] == self.rooms@[i as int]@);
            assert(states.skip(i as int).drop_first() =~= states.skip(i + 1));
            if self.rooms[i].name == *name {
                return Some(i);
            }
            i = i + 1;
        }
        None
    }

    /// Puts other peers into a room.
    fn set_peers(&mut self, i: usize, connected: Vec<String>, pending: Vec<String>)
        requires
            i < old(self).rooms@.len(),
        ensures
            final(self).zero() == old(self).zero(),
            final(self).state() == (state::CoreState {
                rooms: old(self).state().rooms.update(
                    i as int,
                    state::RoomState {
                        connected: text::texts(connected@),
                        pending: text::texts(pending@),
                        ..old(self).rooms@[i as int]@
                    },
                ),
                ..old(self).state()
            }),
    {
        let room = Room {
            name: self.rooms[i].name.clone(),
            is_local: self.rooms[i].is_local,
            connected,
            pending,
        };
        let ghost view = room@;
        self.rooms.set(i, room);
        assert(room_states(self.rooms@) =~= room_states(old(self).rooms@).update(i as int, view));
    }

    /// Adds a room, unless the user is in it. Returns the ticket to hand out for it.
    fn enter_room(&mut self, room: &String, is_local: bool) -> (ticket: Option<String>)
        ensures
            final(self).zero() == old(self).zero(),
            final(self).state() == state::with_room(old(self).state(), room@, is_local),
            text::maybe(ticket) == state::room_ticket(
                final(self).state(),
                state::room_named(final(self).state(), room@),
            ),
    {
        let local = match self.find_room(room) {
            Some(i) => self.rooms[i].is_local,
            None => {
                let ghost before = self.state();
                let ghost states = room_states(self.rooms@);
                self.rooms.push(new_room(room.clone(), is_local));
                proof {
                    let added = state::empty_room(room@, is_local);
                    assert(room_states(self.rooms@) =~= states.push(added));
                    state::lemma_place(states, room@);
                    state::lemma_place(states.push(added), room@);
                    let i = state::place(states.push(added), room@);
                    if i < states.len() {
                        assert(states[i].name == room@);
                    }
                    assert(states.push(added)[states.len() as int].name == room@);
                }
                is_local
            },
        };
        proof {
            state::lemma_place(self.state().rooms, room@);
        }
        if local {
            Some(Ticket::new(self.peer_id.clone(), room.clone()).encode())
        } else {
            None
        }
    }

    fn handle_create_room(&mut self, room: String) -> (effects: Vec<BsyncEffect>)
        ensures
            final(self).zero() == old(self).zero(),
            (final(self).state(), state::effects_of(effects@)) == state::create_room(
                old(self).state(),
                room@,
            ),
    {
        let ticket = self.enter_room(&room, true);
        let effects = vec![BsyncEffect::SetupRoom { room, ticket }];
        assert(state::effects_of(effects@) =~= state::create_room(old(self).state(), room@).1);
        effects
    }

    fn handle_join_room(&mut self, ticket_str: String) -> (effects: Vec<BsyncEffect>)
        ensures
            final(self).zero() == old(self).zero(),
            (final(self).state(), state::effects_of(effects@)) == state::join_room(
                old(self).state(),
                ticket_str@,
            ),
    {
        match Ticket::decode(ticket_str.as_str()) {
            Ok(found) => {
                let ticket = self.enter_room(&found.room, false);
                self.status = concat3("connecting to ", found.endpoint_addr.as_str(), "...");
                let effects = vec![
                    BsyncEffect::SetupRoom { room: found.room.clone(), ticket },
                    BsyncEffect::AddPeer { room: found.room, endpoint_addr: found.endpoint_addr },
                ];
                assert(state::effects_of(effects@) =~= state::join_room(
                    old(self).state(),
                    ticket_str@,
                ).1);
                effects
            },
            Err(e) => print_status(concat2("Invalid ticket: ", e.message().as_str())),
        }
    }

    fn handle_leave_room(&mut self, room: String) -> (effects: Vec<BsyncEffect>)
        ensures
            final(self).zero() == old(self).zero(),
            (final(self).state(), state::effects_of(effects@)) == state::leave_room(
                old(self).state(),
                room@,
            ),
    {
        match self.find_room(&room) {
            Some(i) => {
                let ghost states = room_states(self.rooms@);
                let _ = self.rooms.remove(i);
                assert(room_states(self.rooms@) =~= states.remove(i as int));
                let effects = vec![BsyncEffect::ShutdownRoom { room }];
                assert(state::effects_of(effects@) =~= state::leave_room(
                    old(self).state(),
                    room@,
                ).1);
                effects
            },
            None => nothing(),
        }
    }

    /// The broadcast of content in a room.
    fn broadcast_in(&self, room: &String, content: &ClipboardContent) -> (effect: BsyncEffect)
        ensures
            effect@ == state::broadcast_in(room@, self.state().peer_id, content@),
    {
        match content {
            ClipboardContent::Text(text) => BsyncEffect::BroadcastMessage {
                room: room.clone(),
                message: GossipMessage::ClipboardText {
                    origin: self.peer_id.clone(),
                    content: text.clone(),
                },
            },
            ClipboardContent::Image(png_data) => {
                let copy = png_data.clone();
                assert(copy@ =~= png_data@);
                BsyncEffect::BroadcastImage {
                    room: room.clone(),
                    origin: self.peer_id.clone(),
                    png_data: copy,
                }
            },
        }
    }

    /// A broadcast in each room.
    fn broadcasts(&self, content: &ClipboardContent) -> (effects: Vec<BsyncEffect>)
        ensures
            state::effects_of(effects@) == state::broadcasts_of(self.state(), content@),
    {
        let mut effects: Vec<BsyncEffect> = Vec::new();
        let mut i: usize = 0;
        while i < self.rooms.len()
            invariant
                i <= self.rooms@.len(),
                effects@.len() == i,
                forall|j: int|
                    0 <= j < i ==> (#[trigger] effects@[j])@ == state::broadcast_in(
                        self.rooms@[j]@.name,
                        self.state().peer_id,
                        content@,
                    ),
            decreases self.rooms@.len() - i,
        {
            effects.push(self.broadcast_in(&self.rooms[i].name, content));
            i = i + 1;
        }
        assert(state::effects_of(effects@) =~= state::broadcasts_of(self.state(), content@));
        effects
    }

    /// The user copied something, at the time `now` and `wall`.
    pub fn handle_local_change(&mut self, content: ClipboardContent, now: u128, wall: SystemTime) -> (effects:
        Vec<BsyncEffect>)
        ensures
            final(self).zero() == old(self).zero(),
            old(self).state().wf() ==> final(self).state().wf(),
            (final(self).state(), state::effects_of(effects@)) == state::local_change(
                old(self).state(),
                content@,
                now,
                wall,
            ),
    {
        proof {
            if self.state().wf() {
                let event = BsyncEvent::LocalClipboardChanged { content };
                state::lemma_step_wf(self.state(), event, now, wall);
            }
        }
        let hash = content.digest();

        // Echo guard: if this matches our pending write, suppress broadcast.
        if is_hash(&self.pending_write_hash, &hash) {
            self.pending_write_hash = None;
            return nothing();
        }
        // Record in history regardless of rate limiting.

        let origin = self.peer_id.clone();
        self.push_history(content.clone(), origin, true, wall);

        // Rate limit: at most MAX_BROADCASTS_PER_SEC broadcasts per second.
        self.prune_broadcast_times(now);
        assert(self.rooms@.len() == self.state().rooms.len());
        if self.broadcast_times.len() >= MAX_BROADCASTS_PER_SEC || self.rooms.len() == 0 {
            return nothing();
        }
        self.broadcast_times.push_back(now);
        self.status = "syncing...".to_owned();
        self.broadcasts(&content)
    }

    fn handle_remote_message(
        &mut self,
        room: String,
        from: String,
        content: ClipboardContent,
        wall: SystemTime,
    ) -> (effects: Vec<BsyncEffect>)
        ensures
            final(self).zero() == old(self).zero(),
            (final(self).state(), state::effects_of(effects@)) == state::remote_message(
                old(self).state(),
                room@,
                from@,
                content@,
                wall,
            ),
    {
        // Approval gate: only process messages from approved peers.
        // Pending, rejected, or unknown peers are silently dropped.
        match self.find_room(&room) {
            Some(i) => {
                if !is_among(&self.rooms[i].connected, &from) {
                    return nothing();
                }
            },
            None => {
                return nothing();
            },
        }
        let hash = content.digest();

        // Dedup: skip if we already applied this exact content.
        if is_hash(&self.last_applied_hash, &hash) {
            return nothing();
        }
        self.last_applied_hash = Some(hash);
        self.pending_write_hash = Some(hash);  // Set echo guard
        self.push_history(content.clone(), from, false, wall);
        let effects = vec![BsyncEffect::WriteClipboard { content, write_hash: hash }];
        assert(state::effects_of(effects@) =~= state::remote_message(
            old(self).state(),
            room@,
            from@,
            content@,
            wall,
        ).1);
        effects
    }

    fn handle_peer_connected(&mut self, room: String, id: String) -> (effects: Vec<BsyncEffect>)
        ensures
            final(self).zero() == old(self).zero(),
            (final(self).state(), state::effects_of(effects@)) == state::peer_connected(
                old(self).state(),
                room@,
                id@,
            ),
    {
        let i: usize = match self.find_room(&room) {
            Some(i) => i,
            None => {
                return nothing();
            },
        };
        if is_among(&self.rooms[i].connected, &id) || is_among(&self.rooms[i].pending, &id) {
            return nothing();
        }
        if self.auto_accept {
            let connected = strings_with(&self.rooms[i].connected, &id);
            let pending = copy_strings(&self.rooms[i].pending);
            self.set_peers(i, connected, pending);
            self.status = concat2("connected to ", id.as_str());
            print_status(concat3("Peer connected: ", id.as_str(), " (auto-accepted)"))
        } else {
            let connected = copy_strings(&self.rooms[i].connected);
            let pending = strings_with(&self.rooms[i].pending, &id);
            self.set_peers(i, connected, pending);
            let effects = vec![BsyncEffect::PromptApproval { room, peer_id: id }];
            assert(state::effects_of(effects@) =~= state::peer_connected(
                old(self).state(),
                room@,
                id@,
            ).1);
            effects
        }
    }

    fn handle_peer_disconnected(&mut self, room: String, id: String) -> (effects: Vec<BsyncEffect>)
        ensures
            final(self).zero() == old(self).zero(),
            (final(self).state(), state::effects_of(effects@)) == state::peer_disconnected(
                old(self).state(),
                room@,
                id@,
            ),
    {
        match self.find_room(&room) {
            Some(i) => {
                let connected = strings_without(&self.rooms[i].connected, &id);
                let pending = strings_without(&self.rooms[i].pending, &id);
                self.set_peers(i, connected, pending);
                self.status = concat3("peer ", id.as_str(), " disconnected");
                print_status(concat2("Peer disconnected: ", id.as_str()))
            },
            None => nothing(),
        }
    }

    fn handle_peer_approved(&mut self, room: String, id: String) -> (effects: Vec<BsyncEffect>)
        ensures
            final(self).zero() == old(self).zero(),
            (final(self).state(), state::effects_of(effects@)) == state::peer_approved(
                old(self).state(),
                room@,
                id@,
            ),
    {
        let i: usize = match self.find_room(&room) {
            Some(i) => i,
            None => {
                return nothing();
            },
        };
        if !is_among(&self.rooms[i].pending, &id) {
            return nothing();
        }
        let connected = strings_with(&self.rooms[i].connected, &id);
        let pending = strings_without(&self.rooms[i].pending, &id);
        self.set_peers(i, connected, pending);
        self.status = concat2("connected to ", id.as_str());
        print_status(concat2("Peer approved: ", id.as_str()))
    }

    fn handle_peer_rejected(&mut self, room: String, id: String) -> (effects: Vec<BsyncEffect>)
        ensures
            final(self).zero() == old(self).zero(),
            (final(self).state(), state::effects_of(effects@)) == state::peer_rejected(
                old(self).state(),
                room@,
                id@,
            ),
    {
        match self.find_room(&room) {
            Some(i) => {
                let connected = copy_strings(&self.rooms[i].connected);
                let pending = strings_without(&self.rooms[i].pending, &id);
                self.set_peers(i, connected, pending);
                print_status(concat2("Peer rejected: ", id.as_str()))
            },
            None => nothing(),
        }
    }

    fn handle_in_room(&mut self, room: String, event: RoomEvent, wall: SystemTime) -> (effects: Vec<
        BsyncEffect,
    >)
        ensures
            final(self).zero() == old(self).zero(),
            (final(self).state(), state::effects_of(effects@)) == state::room_step(
                old(self).state(),
                room@,
                event@,
                wall,
            ),
    {
        match event {
            RoomEvent::MessageReceived { from, content } => {
                self.handle_remote_message(room, from, content, wall)
            },
            RoomEvent::PeerConnected { id } => self.handle_peer_connected(room, id),
            RoomEvent::PeerDisconnected { id } => self.handle_peer_disconnected(room, id),
            RoomEvent::PeerApproved { id } => self.handle_peer_approved(room, id),
            RoomEvent::PeerRejected { id } => self.handle_peer_rejected(room, id),
        }
    }

    fn handle_shutdown(&mut self) -> (effects: Vec<BsyncEffect>)
        ensures
            final(self).zero() == old(self).zero(),
            (final(self).state(), state::effects_of(effects@)) == state::shutdown(
                old(self).state(),
            ),
    {
        self.status = "shutting down...".to_owned();
        let effects = vec![BsyncEffect::Shutdown];
        assert(state::effects_of(effects@) =~= seq![state::EffectView::Shutdown]);
        effects
    }

    /// Process a single event at the time `now`, in nanoseconds since the core was made, and
    /// `wall` of the system clock. Returns zero or more effects the shell must dispatch.
    pub fn process_event_at(&mut self, event: BsyncEvent, now: u128, wall: SystemTime) -> (effects:
        Vec<BsyncEffect>)
        ensures
            final(self).zero() == old(self).zero(),
            (final(self).state(), state::effects_of(effects@)) == state::step(
                old(self).state(),
                event,
                now,
                wall,
            ),
            old(self).state().wf() ==> final(self).state().wf(),
    {
        proof {
            if self.state().wf() {
                state::lemma_step_wf(self.state(), event, now, wall);
            }
        }
        let home = self.room.clone();
        match event {
            BsyncEvent::StartEndpoint => self.handle_start(),
            BsyncEvent::ConnectToPeer { ticket } => self.handle_connect(ticket),
            BsyncEvent::LocalClipboardChanged { content } => {
                self.handle_local_change(content, now, wall)
            },
            BsyncEvent::RemoteMessageReceived { from, content } => {
                self.handle_remote_message(home, from, content, wall)
            },
            BsyncEvent::PeerConnected { id } => self.handle_peer_connected(home, id),
            BsyncEvent::PeerDisconnected { id } => self.handle_peer_disconnected(home, id),
            BsyncEvent::PeerApproved { id } => self.handle_peer_approved(home, id),
            BsyncEvent::PeerRejected { id } => self.handle_peer_rejected(home, id),
            BsyncEvent::CreateRoom { room } => self.handle_create_room(room),
            BsyncEvent::JoinRoom { ticket } => self.handle_join_room(ticket),
            BsyncEvent::LeaveRoom { room } => self.handle_leave_room(room),
            BsyncEvent::InRoom { room, event } => self.handle_in_room(room, event, wall),
            BsyncEvent::Shutdown => self.handle_shutdown(),
        }
    }

    /// Process a single event, at whatever time it is. Returns zero or more effects the shell
    /// must dispatch.
    pub fn process_event(&mut self, event: BsyncEvent) -> (effects: Vec<BsyncEffect>)
        ensures
            final(self).zero() == old(self).zero(),
            exists|now: u128, wall: SystemTime|
                (final(self).state(), state::effects_of(effects@)) == #[trigger] state::step(
                    old(self).state(),
                    event,
                    now,
                    wall,
                ),
            old(self).state().wf() ==> final(self).state().wf(),
    {
        let now: u128 = self.made.elapsed().as_nanos();
        let wall = SystemTime::now();
        self.process_event_at(event, now, wall)
    }

    fn newest_first(&self) -> (newest: Vec<ClipboardHistoryEntry>)
        ensures
            entries(newest@) == self.state().history.reverse(),
    {
        let mut newest: Vec<ClipboardHistoryEntry> = Vec::new();
        let mut left: usize = self.history.len();
        while left > 0
            invariant
                left <= self.history@.len(),
                newest@.len() == self.history@.len() - left,
                forall|i: int|
                    0 <= i < newest@.len() ==> (#[trigger] newest@[i])@
                        == self.history@[self.history@.len() - 1 - i]@,
            decreases left,
        {
            left = left - 1;
            newest.push(self.history[left].clone());
        }
        assert(entries(newest@) =~= self.state().history.reverse());
        newest
    }

    /// The room that the core was made with.
    pub fn room(&self) -> (room: &String)
        ensures
            room@ == self.state().room,
    {
        &self.room
    }

    fn show_room(&self, room: &Room) -> (shown: RoomInfo)
        ensures
            shown@ == shown_room(self.state(), room@),
    {
        let ticket = if room.is_local {
            Some(Ticket::new(self.peer_id.clone(), room.name.clone()).encode())
        } else {
            None
        };
        RoomInfo {
            name: room.name.clone(),
            is_local: room.is_local,
            ticket,
            connected_peers: copy_strings(&room.connected),
            pending_peers: copy_strings(&room.pending),
        }
    }

    fn show_rooms(&self) -> (shown: Vec<RoomInfo>)
        ensures
            rooms_of(shown@) == core_rooms(self.state()),
    {
        let mut shown: Vec<RoomInfo> = Vec::new();
        let mut i: usize = 0;
        while i < self.rooms.len()
            invariant
                i <= self.rooms@.len(),
                shown@.len() == i,
                forall|j: int|
                    0 <= j < i ==> (#[trigger] shown@[j])@ == shown_room(
                        self.state(),
                        self.rooms@[j]@,
                    ),
            decreases self.rooms@.len() - i,
        {
            shown.push(self.show_room(&self.rooms[i]));
            i = i + 1;
        }
        assert(rooms_of(shown@) =~= core_rooms(self.state()));
        shown
    }

    /// The connected and the pending peers of the room that the core was made with.
    fn home_peers(&self) -> (peers: (Vec<String>, Vec<String>))
        ensures
            text::texts(peers.0@) == state::connected_in(self.state(), self.state().room),
            text::texts(peers.1@) == state::pending_in(self.state(), self.state().room),
    {
        match self.find_room(&self.room) {
            Some(i) => (copy_strings(&self.rooms[i].connected), copy_strings(&self.rooms[i].pending)),
            None => {
                let connected: Vec<String> = Vec::new();
                let pending: Vec<String> = Vec::new();
                assert(text::texts(connected@) =~= Seq::<Seq<char>>::empty());
                assert(text::texts(pending@) =~= Seq::<Seq<char>>::empty());
                (connected, pending)
            },
        }
    }

    /// Read-only snapshot for UI rendering.
    pub fn view(&self) -> (view: BsyncViewModel)
        ensures
            view.shows(self.state()),
    {
        let (connected_peers, pending_peers) = self.home_peers();
        BsyncViewModel {
            peer_id: self.peer_id.clone(),
            ticket: Ticket::new(self.peer_id.clone(), self.room.clone()).encode(),
            room: self.room.clone(),
            connected_peers,
            pending_peers,
            status: self.status.clone(),
            history: self.newest_first(),
            rooms: self.show_rooms(),
        }
    }
}

impl BsyncViewModel {
    /// Whether this is a snapshot of the state `s`: its lists, the history newest first, the
    /// ticket by which others reach it, and its rooms.
    pub open spec fn shows(&self, s: state::CoreState) -> bool {
        &&& self.peer_id@ == s.peer_id
        &&& self.ticket@ == ticket::ticket_text(state::own_ticket(s))
        &&& self.ticket@.len() > 0
        &&& ticket::ticket_in(self.ticket@) == Ok::<ticket::TicketView, ticket::TicketError>(
            state::own_ticket(s),
        )
        &&& self.room@ == s.room
        &&& text::texts(self.connected_peers@) == state::connected_in(s, s.room)
        &&& text::texts(self.pending_peers@) == state::pending_in(s, s.room)
        &&& self.status@ == s.status
        &&& entries(self.history@) == s.history.reverse()
        &&& rooms_of(self.rooms@) == core_rooms(s)
    }
}

}
