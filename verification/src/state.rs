//! The sync state machine as mathematics: its state, and what each event does to it.
use vstd::prelude::*;
use std::time::SystemTime;
use crate::clock;
use crate::message;
use crate::text;
use crate::ticket;

verus! {

/// Maximum clipboard broadcasts per second (rate limit).
pub const MAX_BROADCASTS_PER_SEC: usize = 4;

/// How many clipboard entries to keep in history.
pub const HISTORY_CAPACITY: usize = 50;

/// Truncate preview text to this many characters in history entries.
pub const HISTORY_PREVIEW_LEN: usize = 100;

/// Something that happened in a room.
#[derive(Debug, Clone)]
pub enum RoomEvent {
    /// Remote peer sent clipboard content.
    MessageReceived { from: String, content: message::ClipboardContent },
    /// New peer connected.
    PeerConnected { id: String },
    /// Peer disconnected.
    PeerDisconnected { id: String },
    /// User approved a pending peer.
    PeerApproved { id: String },
    /// User rejected a pending peer.
    PeerRejected { id: String },
}

/// The mathematical value of what happened in a room.
#[allow(inconsistent_fields)]
pub enum RoomEventView {
    MessageReceived { from: Seq<char>, content: message::ContentView },
    PeerConnected { id: Seq<char> },
    PeerDisconnected { id: Seq<char> },
    PeerApproved { id: Seq<char> },
    PeerRejected { id: Seq<char> },
}

impl View for RoomEvent {
    type V = RoomEventView;

    open spec fn view(&self) -> RoomEventView {
        match *self {
            RoomEvent::MessageReceived { from, content } => RoomEventView::MessageReceived {
                from: from@,
                content: content@,
            },
            RoomEvent::PeerConnected { id } => RoomEventView::PeerConnected { id: id@ },
            RoomEvent::PeerDisconnected { id } => RoomEventView::PeerDisconnected { id: id@ },
            RoomEvent::PeerApproved { id } => RoomEventView::PeerApproved { id: id@ },
            RoomEvent::PeerRejected { id } => RoomEventView::PeerRejected { id: id@ },
        }
    }
}

/// Something that happened outside, which the core is told. What happens in a room and does not
/// name it concerns the room that the core was made with.
#[derive(Debug, Clone)]
pub enum BsyncEvent {
    /// Start the endpoint: the core produces peer ID, ticket and status.
    StartEndpoint,
    /// User wants to connect to a peer via ticket.
    ConnectToPeer { ticket: String },
    /// Local clipboard content changed (from watcher).
    LocalClipboardChanged { content: message::ClipboardContent },
    /// Remote peer sent clipboard content.
    RemoteMessageReceived { from: String, content: message::ClipboardContent },
    /// New peer connected.
    PeerConnected { id: String },
    /// Peer disconnected.
    PeerDisconnected { id: String },
    /// User approved a pending peer.
    PeerApproved { id: String },
    /// User rejected a pending peer.
    PeerRejected { id: String },
    /// User wants a room of their own.
    CreateRoom { room: String },
    /// User wants to join the room of another peer via ticket.
    JoinRoom { ticket: String },
    /// User wants to leave a room.
    LeaveRoom { room: String },
    /// Something happened in a room.
    InRoom { room: String, event: RoomEvent },
    /// Graceful shutdown requested.
    Shutdown,
}

/// Something that the shell must do.
#[allow(inconsistent_fields)]
#[derive(Debug)]
pub enum BsyncEffect {
    /// Shell writes content to local clipboard. `write_hash` is for the echo guard.
    WriteClipboard { content: message::ClipboardContent, write_hash: [u8; 32] },
    /// Shell serializes the message and broadcasts it via gossip.
    BroadcastMessage { room: String, message: message::GossipMessage },
    /// Shell stores the image as a blob and broadcasts its hash via gossip.
    BroadcastImage { room: String, origin: String, png_data: Vec<u8> },
    /// Shell prints a status line to the user.
    PrintStatus { message: String },
    /// Shell prompts the user to approve or reject a pending peer.
    PromptApproval { room: String, peer_id: String },
    /// Shell resolves the endpoint address and bootstraps a connection.
    ConnectToEndpoint { endpoint_addr: String },
    /// Shell enters the gossip of a room, unless it has.
    SetupRoom { room: String, ticket: Option<String> },
    /// Shell leaves the gossip of a room.
    ShutdownRoom { room: String },
    /// Shell connects to an endpoint in a room.
    AddPeer { room: String, endpoint_addr: String },
    /// Shutdown signal: shell performs cleanup.
    Shutdown,
}

/// The mathematical value of an effect.
#[allow(inconsistent_fields)]
pub enum EffectView {
    WriteClipboard { content: message::ContentView, write_hash: Seq<u8> },
    BroadcastMessage { room: Seq<char>, message: message::MessageView },
    BroadcastImage { room: Seq<char>, origin: Seq<char>, png_data: Seq<u8> },
    PrintStatus { message: Seq<char> },
    PromptApproval { room: Seq<char>, peer_id: Seq<char> },
    ConnectToEndpoint { endpoint_addr: Seq<char> },
    SetupRoom { room: Seq<char>, ticket: Option<Seq<char>> },
    ShutdownRoom { room: Seq<char> },
    AddPeer { room: Seq<char>, endpoint_addr: Seq<char> },
    Shutdown,
}

impl View for BsyncEffect {
    type V = EffectView;

    open spec fn view(&self) -> EffectView {
        match *self {
            BsyncEffect::WriteClipboard { content, write_hash } => EffectView::WriteClipboard {
                content: content@,
                write_hash: write_hash@,
            },
            BsyncEffect::BroadcastMessage { room, message } => EffectView::BroadcastMessage {
                room: room@,
                message: message@,
            },
            BsyncEffect::BroadcastImage { room, origin, png_data } => EffectView::BroadcastImage {
                room: room@,
                origin: origin@,
                png_data: png_data@,
            },
            BsyncEffect::PrintStatus { message } => EffectView::PrintStatus { message: message@ },
            BsyncEffect::PromptApproval { room, peer_id } => EffectView::PromptApproval {
                room: room@,
                peer_id: peer_id@,
            },
            BsyncEffect::ConnectToEndpoint { endpoint_addr } => EffectView::ConnectToEndpoint {
                endpoint_addr: endpoint_addr@,
            },
            BsyncEffect::SetupRoom { room, ticket } => EffectView::SetupRoom {
                room: room@,
                ticket: text::maybe(ticket),
            },
            BsyncEffect::ShutdownRoom { room } => EffectView::ShutdownRoom { room: room@ },
            BsyncEffect::AddPeer { room, endpoint_addr } => EffectView::AddPeer {
                room: room@,
                endpoint_addr: endpoint_addr@,
            },
            BsyncEffect::Shutdown => EffectView::Shutdown,
        }
    }
}

pub open spec fn effects_of(effects: Seq<BsyncEffect>) -> Seq<EffectView> {
    effects.map_values(|e: BsyncEffect| e@)
}

/// An entry of the clipboard history.
pub struct EntryView {
    pub preview: Seq<char>,
    pub is_local: bool,
    pub origin: Seq<char>,
    pub timestamp: SystemTime,
    pub content: message::ContentView,
}

/// A room, as the core knows it.
pub struct RoomState {
    pub name: Seq<char>,
    /// Whether the room was made here.
    pub is_local: bool,
    /// Peers whose messages are applied.
    pub connected: Seq<Seq<char>>,
    /// Peers that wait for the user's approval.
    pub pending: Seq<Seq<char>>,
}

/// The state of the core. Times are nanoseconds since the core was made.
pub struct CoreState {
    pub peer_id: Seq<char>,
    /// The room that the core was made with.
    pub room: Seq<char>,
    pub auto_accept: bool,
    /// The rooms that the user is in.
    pub rooms: Seq<RoomState>,
    /// Hash of the last remote content that was applied (dedup).
    pub last_applied: Option<Seq<u8>>,
    /// Hash of the content that was just handed out for the clipboard (echo guard).
    pub pending_write: Option<Seq<u8>>,
    /// Times of recent broadcasts (rate limiting), oldest first.
    pub broadcast_times: Seq<u128>,
    /// Recent clipboard entries, oldest first.
    pub history: Seq<EntryView>,
    pub status: Seq<char>,
}

impl RoomState {
    /// No peer is listed twice, and none is both connected and pending.
    pub open spec fn wf(self) -> bool {
        &&& self.connected.no_duplicates()
        &&& self.pending.no_duplicates()
        &&& forall|id: Seq<char>| #[trigger]
            self.connected.contains(id) ==> !self.pending.contains(id)
    }
}

impl CoreState {
    /// No room is listed twice, its peers are listed properly, none waits where peers are accepted
    /// without asking, and the bounded lists keep their bounds.
    pub open spec fn wf(self) -> bool {
        &&& forall|i: int, j: int|
            0 <= i < j < self.rooms.len() ==> (#[trigger] self.rooms[i]).name != (
            #[trigger] self.rooms[j]).name
        &&& forall|i: int| 0 <= i < self.rooms.len() ==> (#[trigger] self.rooms[i]).wf()
        &&& forall|i: int|
            0 <= i < self.rooms.len() && self.auto_accept ==> (
            #[trigger] self.rooms[i]).pending.len() == 0
        &&& self.broadcast_times.len() <= MAX_BROADCASTS_PER_SEC
        &&& self.history.len() <= HISTORY_CAPACITY
    }
}

pub type Step = (CoreState, Seq<EffectView>);

/// A room without peers.
pub open spec fn empty_room(name: Seq<char>, is_local: bool) -> RoomState {
    RoomState { name, is_local, connected: Seq::empty(), pending: Seq::empty() }
}

pub open spec fn initial(peer_id: Seq<char>, room: Seq<char>, auto_accept: bool) -> CoreState {
    CoreState {
        peer_id,
        room,
        auto_accept,
        rooms: seq![empty_room(room, true)],
        last_applied: None,
        pending_write: None,
        broadcast_times: Seq::empty(),
        history: Seq::empty(),
        status: Seq::empty(),
    }
}

// ---------------------------------------------------------------------------------------------
// Rooms
// ---------------------------------------------------------------------------------------------

/// The place of the room of that name, or the end of the list.
pub open spec fn place(rooms: Seq<RoomState>, name: Seq<char>) -> int
    decreases rooms.len(),
{
    if rooms.len() == 0 {
        0
    } else if rooms[0].name == name {
        0
    } else {
        1 + place(rooms.drop_first(), name)
    }
}

/// Whether the user is in that room.
pub open spec fn knows(s: CoreState, room: Seq<char>) -> bool {
    place(s.rooms, room) < s.rooms.len()
}

/// The room of that name, which the user is in.
pub open spec fn room_named(s: CoreState, room: Seq<char>) -> RoomState {
    s.rooms[place(s.rooms, room)]
}

/// The connected peers of a room.
pub open spec fn connected_in(s: CoreState, room: Seq<char>) -> Seq<Seq<char>> {
    if knows(s, room) {
        room_named(s, room).connected
    } else {
        Seq::empty()
    }
}

/// The pending peers of a room.
pub open spec fn pending_in(s: CoreState, room: Seq<char>) -> Seq<Seq<char>> {
    if knows(s, room) {
        room_named(s, room).pending
    } else {
        Seq::empty()
    }
}

/// The state with other peers in a room.
pub open spec fn with_peers(
    s: CoreState,
    room: Seq<char>,
    connected: Seq<Seq<char>>,
    pending: Seq<Seq<char>>,
) -> CoreState {
    CoreState {
        rooms: s.rooms.update(
            place(s.rooms, room),
            RoomState { connected, pending, ..room_named(s, room) },
        ),
        ..s
    }
}

/// The ticket that others use to reach this core in a room.
pub open spec fn ticket_for(s: CoreState, room: Seq<char>) -> ticket::TicketView {
    ticket::TicketView { v: ticket::TICKET_VERSION, endpoint_addr: s.peer_id, room }
}

/// The ticket that others use to reach this core in the room that it was made with.
pub open spec fn own_ticket(s: CoreState) -> ticket::TicketView {
    ticket_for(s, s.room)
}

/// The text of the ticket to hand out for a room, if it was made here.
pub open spec fn room_ticket(s: CoreState, room: RoomState) -> Option<Seq<char>> {
    if room.is_local {
        Some(ticket::ticket_text(ticket_for(s, room.name)))
    } else {
        None
    }
}

/// Where a room is in the list: the first of its name, if any is.
pub proof fn lemma_place(rooms: Seq<RoomState>, name: Seq<char>)
    ensures
        0 <= place(rooms, name) <= rooms.len(),
        place(rooms, name) < rooms.len() ==> rooms[place(rooms, name)].name == name,
        forall|i: int| 0 <= i < place(rooms, name) ==> (#[trigger] rooms[i]).name != name,
    decreases rooms.len(),
{
    if rooms.len() > 0 && rooms[0].name != name {
        let rest = rooms.drop_first();
        lemma_place(rest, name);
        assert forall|i: int| 0 <= i < place(rooms, name) implies (#[trigger] rooms[i]).name
            != name by {
            if i > 0 {
                assert(rooms[i] == rest[i - 1]);
            }
        }
    }
}

/// Places depend on the names alone.
pub proof fn lemma_same_places(before: Seq<RoomState>, after: Seq<RoomState>, name: Seq<char>)
    requires
        before.len() == after.len(),
        forall|i: int|
            0 <= i < before.len() ==> (#[trigger] before[i]).name == (#[trigger] after[i]).name,
    ensures
        place(before, name) == place(after, name),
    decreases before.len(),
{
    if before.len() > 0 {
        assert(before[0].name == after[0].name);
        let b = before.drop_first();
        let a = after.drop_first();
        assert forall|i: int| 0 <= i < b.len() implies (#[trigger] b[i]).name == (
        #[trigger] a[i]).name by {
            assert(before[i + 1].name == after[i + 1].name);
        }
        lemma_same_places(b, a, name);
    }
}

/// Other peers in a room are other peers in that room alone.
pub proof fn lemma_with_peers(
    s: CoreState,
    room: Seq<char>,
    connected: Seq<Seq<char>>,
    pending: Seq<Seq<char>>,
)
    requires
        knows(s, room),
    ensures
        ({
            let after = with_peers(s, room, connected, pending);
            &&& knows(after, room)
            &&& connected_in(after, room) == connected
            &&& pending_in(after, room) == pending
            &&& forall|other: Seq<char>| #[trigger] knows(after, other) == knows(s, other)
            &&& forall|other: Seq<char>|
                other != room ==> #[trigger] connected_in(after, other) == connected_in(s, other)
            &&& forall|other: Seq<char>|
                other != room ==> #[trigger] pending_in(after, other) == pending_in(s, other)
        }),
{
    let after = with_peers(s, room, connected, pending);
    lemma_place(s.rooms, room);
    assert forall|other: Seq<char>| place(after.rooms, other) == #[trigger] place(
        s.rooms,
        other,
    ) by {
        lemma_same_places(s.rooms, after.rooms, other);
    }
    assert forall|other: Seq<char>|
        knows(s, other) && other != room implies #[trigger] place(s.rooms, other) != place(
        s.rooms,
        room,
    ) by {
        lemma_place(s.rooms, other);
    }
    assert forall|other: Seq<char>| #[trigger] knows(after, other) == knows(s, other) by {
        assert(place(after.rooms, other) == place(s.rooms, other));
    }
    assert(place(after.rooms, room) == place(s.rooms, room));
    assert forall|other: Seq<char>| other != room implies #[trigger] connected_in(after, other)
        == connected_in(s, other) by {
        assert(place(after.rooms, other) == place(s.rooms, other));
        lemma_place(s.rooms, other);
    }
    assert forall|other: Seq<char>| other != room implies #[trigger] pending_in(after, other)
        == pending_in(s, other) by {
        assert(place(after.rooms, other) == place(s.rooms, other));
        lemma_place(s.rooms, other);
    }
}

// ---------------------------------------------------------------------------------------------
// History and rate limit
// ---------------------------------------------------------------------------------------------

/// The preview of a text: the text itself, or its first characters and an ellipsis.
pub open spec fn text_preview(content: Seq<char>) -> Seq<char> {
    if content.len() > HISTORY_PREVIEW_LEN {
        content.take(HISTORY_PREVIEW_LEN as int) + "\u{2026}"@
    } else {
        content
    }
}

/// The preview of clipboard content.
pub open spec fn preview_of(content: message::ContentView) -> Seq<char> {
    match content {
        message::ContentView::Text(text) => text_preview(text),
        message::ContentView::Image(_) => "[image]"@,
    }
}

/// The history with one more entry at its new end, and the oldest one gone if it was full.
pub open spec fn recorded(
    s: CoreState,
    content: message::ContentView,
    origin: Seq<char>,
    is_local: bool,
    wall: SystemTime,
) -> Seq<EntryView> {
    let entry = EntryView {
        preview: preview_of(content),
        is_local,
        origin,
        timestamp: wall,
        content,
    };
    if s.history.len() >= HISTORY_CAPACITY {
        s.history.drop_first().push(entry)
    } else {
        s.history.push(entry)
    }
}

/// Whether a broadcast at `time` lies a second or more before `now`.
pub open spec fn expired(time: u128, now: u128) -> bool {
    now - time >= clock::SECOND
}

/// The times without the expired ones at the front.
pub open spec fn pruned(times: Seq<u128>, now: u128) -> Seq<u128>
    decreases times.len(),
{
    if times.len() > 0 && expired(times[0], now) {
        pruned(times.drop_first(), now)
    } else {
        times
    }
}

// ---------------------------------------------------------------------------------------------
// Steps
// ---------------------------------------------------------------------------------------------

pub open spec fn print(message: Seq<char>) -> Seq<EffectView> {
    seq![EffectView::PrintStatus { message }]
}

pub open spec fn start(s: CoreState) -> Step {
    (
        CoreState { status: "waiting for connections..."@, ..s },
        print(
            "Peer ID: "@ + s.peer_id + "\n"@ + "Ticket:  "@ + ticket::ticket_text(own_ticket(s))
                + "\nRoom:    "@ + s.room + "\n"@,
        ),
    )
}

pub open spec fn connect(s: CoreState, ticket: Seq<char>) -> Step {
    match ticket::ticket_in(ticket) {
        Ok(found) => (
            CoreState { status: "connecting to "@ + found.endpoint_addr + "..."@, ..s },
            seq![EffectView::ConnectToEndpoint { endpoint_addr: found.endpoint_addr }],
        ),
        Err(error) => (s, print("Invalid ticket: "@ + ticket::error_text(error))),
    }
}

/// The state with a room of that name: the one that is there, or a new one at the end.
pub open spec fn with_room(s: CoreState, room: Seq<char>, is_local: bool) -> CoreState {
    if knows(s, room) {
        s
    } else {
        CoreState { rooms: s.rooms.push(empty_room(room, is_local)), ..s }
    }
}

/// The user is in the room from now on, and its gossip is entered. A room that the user is in
/// already stays as it is.
pub open spec fn create_room(s: CoreState, room: Seq<char>) -> Step {
    let after = with_room(s, room, true);
    (
        after,
        seq![
            EffectView::SetupRoom { room, ticket: room_ticket(after, room_named(after, room)) },
        ],
    )
}

/// The user is in the room of the ticket from now on, and is connected to the peer that made it.
pub open spec fn join_room(s: CoreState, ticket: Seq<char>) -> Step {
    match ticket::ticket_in(ticket) {
        Ok(found) => {
            let after = with_room(s, found.room, false);
            (
                CoreState { status: "connecting to "@ + found.endpoint_addr + "..."@, ..after },
                seq![
                    EffectView::SetupRoom {
                        room: found.room,
                        ticket: room_ticket(after, room_named(after, found.room)),
                    },
                    EffectView::AddPeer {
                        room: found.room,
                        endpoint_addr: found.endpoint_addr,
                    },
                ],
            )
        },
        Err(error) => (s, print("Invalid ticket: "@ + ticket::error_text(error))),
    }
}

/// The room is forgotten with its peers, and its gossip is left.
pub open spec fn leave_room(s: CoreState, room: Seq<char>) -> Step {
    if knows(s, room) {
        (
            CoreState { rooms: s.rooms.remove(place(s.rooms, room)), ..s },
            seq![EffectView::ShutdownRoom { room }],
        )
    } else {
        (s, Seq::empty())
    }
}

/// The broadcast of content of `origin` in a room.
pub open spec fn broadcast_in(
    room: Seq<char>,
    origin: Seq<char>,
    content: message::ContentView,
) -> EffectView {
    match content {
        message::ContentView::Text(content) => EffectView::BroadcastMessage {
            room,
            message: message::MessageView::ClipboardText { origin, content },
        },
        message::ContentView::Image(png_data) => EffectView::BroadcastImage {
            room,
            origin,
            png_data,
        },
    }
}

/// A broadcast in each room.
pub open spec fn broadcasts_of(s: CoreState, content: message::ContentView) -> Seq<EffectView> {
    s.rooms.map_values(|room: RoomState| broadcast_in(room.name, s.peer_id, content))
}

/// A change that the guard expects is the echo of a write and goes no further. Any other is
/// recorded, and broadcast in every room unless there were enough broadcasts within the last
/// second.
pub open spec fn local_change(
    s: CoreState,
    content: message::ContentView,
    now: u128,
    wall: SystemTime,
) -> Step {
    if s.pending_write == Some(message::content_digest(content)) {
        (CoreState { pending_write: None, ..s }, Seq::empty())
    } else {
        let history = recorded(s, content, s.peer_id, true, wall);
        let recent = pruned(s.broadcast_times, now);
        if recent.len() >= MAX_BROADCASTS_PER_SEC || s.rooms.len() == 0 {
            (CoreState { history, broadcast_times: recent, ..s }, Seq::empty())
        } else {
            (
                CoreState {
                    history,
                    broadcast_times: recent.push(now),
                    status: "syncing..."@,
                    ..s
                },
                broadcasts_of(s, content),
            )
        }
    }
}

/// Only content from a connected peer that was not applied last is applied.
pub open spec fn remote_message(
    s: CoreState,
    room: Seq<char>,
    sender: Seq<char>,
    content: message::ContentView,
    wall: SystemTime,
) -> Step {
    let hash = message::content_digest(content);
    if !connected_in(s, room).contains(sender) || s.last_applied == Some(hash) {
        (s, Seq::empty())
    } else {
        (
            CoreState {
                last_applied: Some(hash),
                pending_write: Some(hash),
                history: recorded(s, content, sender, false, wall),
                ..s
            },
            seq![EffectView::WriteClipboard { content, write_hash: hash }],
        )
    }
}

pub open spec fn peer_connected(s: CoreState, room: Seq<char>, id: Seq<char>) -> Step {
    let connected = connected_in(s, room);
    let pending = pending_in(s, room);
    if !knows(s, room) || connected.contains(id) || pending.contains(id) {
        (s, Seq::empty())
    } else if s.auto_accept {
        (
            CoreState {
                status: "connected to "@ + id,
                ..with_peers(s, room, connected.push(id), pending)
            },
            print("Peer connected: "@ + id + " (auto-accepted)"@),
        )
    } else {
        (
            with_peers(s, room, connected, pending.push(id)),
            seq![EffectView::PromptApproval { room, peer_id: id }],
        )
    }
}

pub open spec fn peer_disconnected(s: CoreState, room: Seq<char>, id: Seq<char>) -> Step {
    if !knows(s, room) {
        (s, Seq::empty())
    } else {
        (
            CoreState {
                status: "peer "@ + id + " disconnected"@,
                ..with_peers(
                    s,
                    room,
                    text::without(connected_in(s, room), id),
                    text::without(pending_in(s, room), id),
                )
            },
            print("Peer disconnected: "@ + id),
        )
    }
}

pub open spec fn peer_approved(s: CoreState, room: Seq<char>, id: Seq<char>) -> Step {
    if pending_in(s, room).contains(id) {
        (
            CoreState {
                status: "connected to "@ + id,
                ..with_peers(
                    s,
                    room,
                    connected_in(s, room).push(id),
                    text::without(pending_in(s, room), id),
                )
            },
            print("Peer approved: "@ + id),
        )
    } else {
        (s, Seq::empty())
    }
}

pub open spec fn peer_rejected(s: CoreState, room: Seq<char>, id: Seq<char>) -> Step {
    if !knows(s, room) {
        (s, Seq::empty())
    } else {
        (
            with_peers(s, room, connected_in(s, room), text::without(pending_in(s, room), id)),
            print("Peer rejected: "@ + id),
        )
    }
}

pub open spec fn shutdown(s: CoreState) -> Step {
    (CoreState { status: "shutting down..."@, ..s }, seq![EffectView::Shutdown])
}

/// What happens in a room does this.
pub open spec fn room_step(
    s: CoreState,
    room: Seq<char>,
    event: RoomEventView,
    wall: SystemTime,
) -> Step {
    match event {
        RoomEventView::MessageReceived { from, content } => remote_message(
            s,
            room,
            from,
            content,
            wall,
        ),
        RoomEventView::PeerConnected { id } => peer_connected(s, room, id),
        RoomEventView::PeerDisconnected { id } => peer_disconnected(s, room, id),
        RoomEventView::PeerApproved { id } => peer_approved(s, room, id),
        RoomEventView::PeerRejected { id } => peer_rejected(s, room, id),
    }
}

/// The room in which an event happened, and what happened there, if it is such an event. `home`
/// is the room of an event that names none.
pub open spec fn addressed(home: Seq<char>, event: BsyncEvent) -> Option<
    (Seq<char>, RoomEventView),
> {
    match event {
        BsyncEvent::RemoteMessageReceived { from, content } => Some(
            (home, RoomEventView::MessageReceived { from: from@, content: content@ }),
        ),
        BsyncEvent::PeerConnected { id } => Some((home, RoomEventView::PeerConnected { id: id@ })),
        BsyncEvent::PeerDisconnected { id } => Some(
            (home, RoomEventView::PeerDisconnected { id: id@ }),
        ),
        BsyncEvent::PeerApproved { id } => Some((home, RoomEventView::PeerApproved { id: id@ })),
        BsyncEvent::PeerRejected { id } => Some((home, RoomEventView::PeerRejected { id: id@ })),
        BsyncEvent::InRoom { room, event } => Some((room@, event@)),
        _ => None,
    }
}

/// What an event does at the time `now` of the monotonic clock and `wall` of the system clock:
/// the next state, and the effects.
pub open spec fn step(s: CoreState, event: BsyncEvent, now: u128, wall: SystemTime) -> Step {
    match event {
        BsyncEvent::StartEndpoint => start(s),
        BsyncEvent::ConnectToPeer { ticket } => connect(s, ticket@),
        BsyncEvent::LocalClipboardChanged { content } => local_change(s, content@, now, wall),
        BsyncEvent::CreateRoom { room } => create_room(s, room@),
        BsyncEvent::JoinRoom { ticket } => join_room(s, ticket@),
        BsyncEvent::LeaveRoom { room } => leave_room(s, room@),
        BsyncEvent::Shutdown => shutdown(s),
        _ => match addressed(s.room, event) {
            Some((room, happened)) => room_step(s, room, happened, wall),
            None => (s, Seq::empty()),
        },
    }
}

proof fn lemma_pruned_len(times: Seq<u128>, now: u128)
    ensures
        pruned(times, now).len() <= times.len(),
    decreases times.len(),
{
    if times.len() > 0 && expired(times[0], now) {
        lemma_pruned_len(times.drop_first(), now);
    }
}

pub proof fn lemma_push_contains(list: Seq<Seq<char>>, name: Seq<char>)
    ensures
        forall|other: Seq<char>| #[trigger]
            list.push(name).contains(other) <==> (list.contains(other) || other == name),
        list.no_duplicates() && !list.contains(name) ==> list.push(name).no_duplicates(),
{
    assert forall|other: Seq<char>| #[trigger]
        list.push(name).contains(other) <==> (list.contains(other) || other == name) by {
        if list.contains(other) {
            let i = choose|i: int| 0 <= i < list.len() && list[i] == other;
            assert(list.push(name)[i] == other);
        }
        assert(list.push(name)[list.len() as int] == name);
    }
}

proof fn lemma_peers_wf(
    s: CoreState,
    room: Seq<char>,
    connected: Seq<Seq<char>>,
    pending: Seq<Seq<char>>,
)
    requires
        s.wf(),
        knows(s, room),
        (RoomState { connected, pending, ..room_named(s, room) }).wf(),
        s.auto_accept ==> pending.len() == 0,
    ensures
        with_peers(s, room, connected, pending).wf(),
{
    lemma_place(s.rooms, room);
    let after = with_peers(s, room, connected, pending);
    assert forall|i: int, j: int| 0 <= i < j < after.rooms.len() implies (
    #[trigger] after.rooms[i]).name != (#[trigger] after.rooms[j]).name by {
        assert(s.rooms[i].name != s.rooms[j].name);
    }
    assert forall|i: int| 0 <= i < after.rooms.len() implies (#[trigger] after.rooms[i]).wf() by {
        assert(s.rooms[i].wf());
    }
    assert forall|i: int| 0 <= i < after.rooms.len() && after.auto_accept implies (
    #[trigger] after.rooms[i]).pending.len() == 0 by {
        assert(s.rooms[i].pending.len() == 0);
    }
}

proof fn lemma_with_room_wf(s: CoreState, room: Seq<char>, is_local: bool)
    requires
        s.wf(),
    ensures
        with_room(s, room, is_local).wf(),
{
    lemma_place(s.rooms, room);
    let after = with_room(s, room, is_local);
    if !knows(s, room) {
        assert forall|i: int, j: int| 0 <= i < j < after.rooms.len() implies (
        #[trigger] after.rooms[i]).name != (#[trigger] after.rooms[j]).name by {
            if j < s.rooms.len() {
                assert(s.rooms[i].name != s.rooms[j].name);
            } else {
                assert(after.rooms[i] == s.rooms[i]);
            }
        }
        assert forall|i: int| 0 <= i < after.rooms.len() implies (
        #[trigger] after.rooms[i]).wf() by {
            if i < s.rooms.len() {
                assert(s.rooms[i].wf());
            }
        }
        assert forall|i: int| 0 <= i < after.rooms.len() && after.auto_accept implies (
        #[trigger] after.rooms[i]).pending.len() == 0 by {
            if i < s.rooms.len() {
                assert(s.rooms[i].pending.len() == 0);
            }
        }
    }
}

proof fn lemma_leave_room_wf(s: CoreState, room: Seq<char>)
    requires
        s.wf(),
        knows(s, room),
    ensures
        leave_room(s, room).0.wf(),
{
    lemma_place(s.rooms, room);
    let gone = place(s.rooms, room);
    let after = leave_room(s, room).0;
    assert forall|i: int| 0 <= i < after.rooms.len() implies #[trigger] after.rooms[i] == s.rooms[(
    if i < gone {
        i
    } else {
        i + 1
    })] by {}
    assert forall|i: int, j: int| 0 <= i < j < after.rooms.len() implies (
    #[trigger] after.rooms[i]).name != (#[trigger] after.rooms[j]).name by {
        let a = if i < gone {
            i
        } else {
            i + 1
        };
        let b = if j < gone {
            j
        } else {
            j + 1
        };
        assert(s.rooms[a].name != s.rooms[b].name);
    }
}

proof fn lemma_room_step_wf(s: CoreState, room: Seq<char>, event: RoomEventView, wall: SystemTime)
    requires
        s.wf(),
    ensures
        room_step(s, room, event, wall).0.wf(),
{
    lemma_place(s.rooms, room);
    if knows(s, room) {
        let connected = connected_in(s, room);
        let pending = pending_in(s, room);
        assert(room_named(s, room).wf());
        match event {
            RoomEventView::MessageReceived { .. } => {},
            RoomEventView::PeerConnected { id } => {
                lemma_push_contains(connected, id);
                lemma_push_contains(pending, id);
                if !connected.contains(id) && !pending.contains(id) {
                    if s.auto_accept {
                        lemma_peers_wf(s, room, connected.push(id), pending);
                    } else {
                        lemma_peers_wf(s, room, connected, pending.push(id));
                    }
                }
            },
            RoomEventView::PeerDisconnected { id } => {
                text::lemma_without(connected, id);
                text::lemma_without(pending, id);
                lemma_peers_wf(
                    s,
                    room,
                    text::without(connected, id),
                    text::without(pending, id),
                );
            },
            RoomEventView::PeerApproved { id } => {
                text::lemma_without(pending, id);
                lemma_push_contains(connected, id);
                if pending.contains(id) {
                    lemma_peers_wf(s, room, connected.push(id), text::without(pending, id));
                }
            },
            RoomEventView::PeerRejected { id } => {
                text::lemma_without(pending, id);
                lemma_peers_wf(s, room, connected, text::without(pending, id));
            },
        }
    }
}

/// Every event keeps the state well-formed.
pub proof fn lemma_step_wf(s: CoreState, event: BsyncEvent, now: u128, wall: SystemTime)
    requires
        s.wf(),
    ensures
        step(s, event, now, wall).0.wf(),
{
    lemma_pruned_len(s.broadcast_times, now);
    match event {
        BsyncEvent::StartEndpoint => {},
        BsyncEvent::ConnectToPeer { .. } => {},
        BsyncEvent::LocalClipboardChanged { .. } => {},
        BsyncEvent::CreateRoom { room } => {
            lemma_with_room_wf(s, room@, true);
        },
        BsyncEvent::JoinRoom { ticket } => {
            match ticket::ticket_in(ticket@) {
                Ok(found) => {
                    lemma_with_room_wf(s, found.room, false);
                },
                Err(_) => {},
            }
        },
        BsyncEvent::LeaveRoom { room } => {
            if knows(s, room@) {
                lemma_leave_room_wf(s, room@);
            }
        },
        BsyncEvent::Shutdown => {},
        _ => {
            match addressed(s.room, event) {
                Some((room, happened)) => {
                    lemma_room_step_wf(s, room, happened, wall);
                },
                None => {},
            }
        },
    }
}

}
