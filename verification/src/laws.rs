//! What holds of the core over any run of events.
use vstd::prelude::*;
use std::time::SystemTime;
use crate::clock;
use crate::digest;
use crate::engine;
use crate::message;
use crate::state;
use crate::state::BsyncEvent;
use crate::text;
use crate::ticket;

verus! {

/// An event with the times at which it is processed.
pub struct Input {
    pub event: BsyncEvent,
    pub now: u128,
    pub wall: SystemTime,
}

pub open spec fn take_step(s: state::CoreState, input: Input) -> state::Step {
    state::step(s, input.event, input.now, input.wall)
}

/// The state after a run of events.
pub open spec fn run(s: state::CoreState, inputs: Seq<Input>) -> state::CoreState
    decreases inputs.len(),
{
    if inputs.len() == 0 {
        s
    } else {
        take_step(run(s, inputs.drop_last()), inputs.last()).0
    }
}

/// Whether an event is a message from a peer, in whatever room.
pub open spec fn is_message(event: BsyncEvent) -> bool {
    match event {
        BsyncEvent::RemoteMessageReceived { .. } => true,
        BsyncEvent::InRoom { event, .. } => event@ is MessageReceived,
        _ => false,
    }
}

/// The content of a message from a peer.
pub open spec fn message_content(event: BsyncEvent) -> message::ContentView {
    match event {
        BsyncEvent::RemoteMessageReceived { content, .. } => content@,
        BsyncEvent::InRoom { event, .. } => event@->MessageReceived_content,
        _ => arbitrary(),
    }
}

/// No message from a peer, and no report of this very content from the clipboard.
pub open spec fn leaves_guard(event: BsyncEvent, content: message::ContentView) -> bool {
    match event {
        BsyncEvent::LocalClipboardChanged { content: other } => message::content_digest(other@)
            != message::content_digest(content),
        _ => !is_message(event),
    }
}

/// Every run keeps the state well-formed: no room is listed twice, no peer is listed twice in a
/// room or in both of its lists, and the bounded lists keep their bounds.
pub proof fn law_well_formed(s: state::CoreState, inputs: Seq<Input>)
    requires
        s.wf(),
    ensures
        run(s, inputs).wf(),
    decreases inputs.len(),
{
    if inputs.len() > 0 {
        law_well_formed(s, inputs.drop_last());
        let input = inputs.last();
        state::lemma_step_wf(run(s, inputs.drop_last()), input.event, input.now, input.wall);
    }
}

/// A core starts well-formed.
pub proof fn law_starts_well_formed(peer_id: Seq<char>, room: Seq<char>, auto_accept: bool)
    ensures
        state::initial(peer_id, room, auto_accept).wf(),
{
}

/// Who the core is, the room it was made with and its approval policy never change, and so neither
/// does its ticket.
pub proof fn law_identity_is_fixed(s: state::CoreState, inputs: Seq<Input>)
    ensures
        run(s, inputs).peer_id == s.peer_id,
        run(s, inputs).room == s.room,
        run(s, inputs).auto_accept == s.auto_accept,
        state::own_ticket(run(s, inputs)) == state::own_ticket(s),
    decreases inputs.len(),
{
    if inputs.len() > 0 {
        law_identity_is_fixed(s, inputs.drop_last());
    }
}

/// What a core shows of itself: in any run of a core, its peer id and its room are those that it
/// was made with, and its ticket, which is never empty, leads to them.
pub proof fn law_shown_identity_is_fixed(
    peer_id: Seq<char>,
    room: Seq<char>,
    auto_accept: bool,
    inputs: Seq<Input>,
    view: engine::BsyncViewModel,
)
    requires
        view.shows(run(state::initial(peer_id, room, auto_accept), inputs)),
    ensures
        view.peer_id@ == peer_id,
        view.room@ == room,
        view.ticket@.len() > 0,
        ticket::ticket_in(view.ticket@) == Ok::<ticket::TicketView, ticket::TicketError>(
            ticket::TicketView { v: ticket::TICKET_VERSION, endpoint_addr: peer_id, room },
        ),
{
    law_identity_is_fixed(state::initial(peer_id, room, auto_accept), inputs);
}

/// A copy by the user has at most one effect in each room; any other event has at most one effect,
/// but for joining a room, which is to enter it and to connect to a peer there.
pub proof fn law_few_effects(s: state::CoreState, input: Input)
    ensures
        input.event is LocalClipboardChanged ==> take_step(s, input).1.len() <= s.rooms.len(),
        input.event is JoinRoom ==> take_step(s, input).1.len() <= 2,
        !(input.event is LocalClipboardChanged) && !(input.event is JoinRoom) ==> take_step(
            s,
            input,
        ).1.len() <= 1,
{
}

proof fn lemma_guard_waits(s: state::CoreState, between: Seq<Input>, content: message::ContentView)
    requires
        s.pending_write == Some(message::content_digest(content)),
        forall|i: int|
            0 <= i < between.len() ==> leaves_guard((#[trigger] between[i]).event, content),
    ensures
        run(s, between).pending_write == s.pending_write,
    decreases between.len(),
{
    if between.len() > 0 {
        let init = between.drop_last();
        assert forall|i: int| 0 <= i < init.len() implies leaves_guard(
            (#[trigger] init[i]).event,
            content,
        ) by {
            assert(between[i] == init[i]);
        }
        lemma_guard_waits(s, init, content);
        assert(between[between.len() - 1] == between.last());
    }
}

proof fn lemma_applied_waits(s: state::CoreState, between: Seq<Input>)
    requires
        forall|i: int| 0 <= i < between.len() ==> !is_message((#[trigger] between[i]).event),
    ensures
        run(s, between).last_applied == s.last_applied,
    decreases between.len(),
{
    if between.len() > 0 {
        let init = between.drop_last();
        assert forall|i: int| 0 <= i < init.len() implies !is_message(
            (#[trigger] init[i]).event,
        ) by {
            assert(between[i] == init[i]);
        }
        lemma_applied_waits(s, init);
        assert(between[between.len() - 1] == between.last());
    }
}

/// Echo guard: when remote content has been handed out for the clipboard, and the clipboard then
/// reports that content, nothing is broadcast. This holds whatever happens between, as long as no
/// other message arrives and the content was not reported already.
pub proof fn law_echo_is_suppressed(
    s: state::CoreState,
    remote: Input,
    between: Seq<Input>,
    local: Input,
)
    requires
        is_message(remote.event),
        take_step(s, remote).1.len() > 0,
        forall|i: int|
            0 <= i < between.len() ==> leaves_guard(
                (#[trigger] between[i]).event,
                message_content(remote.event),
            ),
        local.event is LocalClipboardChanged,
        local.event->LocalClipboardChanged_content@ == message_content(remote.event),
    ensures
        ({
            let before = run(take_step(s, remote).0, between);
            take_step(before, local) == (
                state::CoreState { pending_write: None, ..before },
                Seq::<state::EffectView>::empty(),
            )
        }),
{
    lemma_guard_waits(take_step(s, remote).0, between, message_content(remote.event));
}

/// The echo guard suppresses one report only: when the same content is reported again, it counts
/// as a copy by the user and is recorded.
pub proof fn law_guard_fires_once(s: state::CoreState, echo: Input, again: Input)
    requires
        echo.event is LocalClipboardChanged,
        s.pending_write == Some(
            message::content_digest(echo.event->LocalClipboardChanged_content@),
        ),
        again.event is LocalClipboardChanged,
    ensures
        ({
            let cleared = take_step(s, echo).0;
            let content = again.event->LocalClipboardChanged_content@;
            &&& take_step(s, echo).1.len() == 0
            &&& take_step(cleared, again).0.history == state::recorded(
                cleared,
                content,
                cleared.peer_id,
                true,
                again.wall,
            )
        }),
{
}

/// Dedup: remote content that was applied is not applied again, by whichever peer and in whichever
/// room it is sent again, as long as no other message arrived meanwhile.
pub proof fn law_applied_once(
    s: state::CoreState,
    first: Input,
    between: Seq<Input>,
    second: Input,
)
    requires
        is_message(first.event),
        take_step(s, first).1.len() > 0,
        forall|i: int| 0 <= i < between.len() ==> !is_message((#[trigger] between[i]).event),
        is_message(second.event),
        message_content(second.event) == message_content(first.event),
    ensures
        ({
            let before = run(take_step(s, first).0, between);
            take_step(before, second) == (before, Seq::<state::EffectView>::empty())
        }),
{
    lemma_applied_waits(take_step(s, first).0, between);
}

/// Approval gate: a message from a peer that is not connected in the room it comes from changes
/// nothing and has no effect.
pub proof fn law_unapproved_is_dropped(
    s: state::CoreState,
    room: Seq<char>,
    sender: Seq<char>,
    content: message::ContentView,
    wall: SystemTime,
)
    requires
        !state::connected_in(s, room).contains(sender),
    ensures
        state::remote_message(s, room, sender, content, wall) == (
            s,
            Seq::<state::EffectView>::empty(),
        ),
{
}

/// Content is handed out for the clipboard only when a peer sent it that is connected in the room
/// it comes from.
pub proof fn law_writes_come_from_connected(s: state::CoreState, input: Input, i: int)
    requires
        0 <= i < take_step(s, input).1.len(),
        take_step(s, input).1[i] is WriteClipboard,
    ensures
        state::addressed(s.room, input.event) matches Some((room, event))
            && event matches state::RoomEventView::MessageReceived { from, content }
            && state::connected_in(s, room).contains(from)
            && take_step(s, input).1[i]->WriteClipboard_content == content,
{
}

// ---------------------------------------------------------------------------------------------
// Consent
// ---------------------------------------------------------------------------------------------

/// Whether an event is that peer `id` connected in `room`.
pub open spec fn arrives(home: Seq<char>, event: BsyncEvent, room: Seq<char>, id: Seq<char>) -> bool {
    state::addressed(home, event) == Some((room, state::RoomEventView::PeerConnected { id }))
}

/// Whether an event is that the user approved peer `id` in `room`.
pub open spec fn approves(home: Seq<char>, event: BsyncEvent, room: Seq<char>, id: Seq<char>) -> bool {
    state::addressed(home, event) == Some((room, state::RoomEventView::PeerApproved { id }))
}

/// Whether an event is that the user rejected peer `id` in `room`.
pub open spec fn rejects(home: Seq<char>, event: BsyncEvent, room: Seq<char>, id: Seq<char>) -> bool {
    state::addressed(home, event) == Some((room, state::RoomEventView::PeerRejected { id }))
}

/// Whether an event is that peer `id` disconnected in `room`, or that the user left the room.
pub open spec fn parts(home: Seq<char>, event: BsyncEvent, room: Seq<char>, id: Seq<char>) -> bool {
    ||| state::addressed(home, event) == Some((room, state::RoomEventView::PeerDisconnected { id }))
    ||| event matches BsyncEvent::LeaveRoom { room: left } && left@ == room
}

proof fn lemma_with_room(s: state::CoreState, added: Seq<char>, is_local: bool, room: Seq<char>)
    ensures
        ({
            let after = state::with_room(s, added, is_local);
            &&& state::connected_in(after, room) == state::connected_in(s, room)
            &&& state::pending_in(after, room) == state::pending_in(s, room)
            &&& state::knows(after, added)
            &&& state::knows(s, room) ==> state::knows(after, room)
        }),
{
    let after = state::with_room(s, added, is_local);
    state::lemma_place(s.rooms, room);
    state::lemma_place(after.rooms, room);
    state::lemma_place(s.rooms, added);
    state::lemma_place(after.rooms, added);
    if !state::knows(s, added) {
        let i = state::place(s.rooms, room);
        let j = state::place(after.rooms, room);
        assert(after.rooms[s.rooms.len() as int].name == added);
        if i < s.rooms.len() {
            assert(after.rooms[i].name == room);
            assert(j == i) by {
                if j < i {
                    assert(s.rooms[j].name == room);
                }
            }
        } else if j < after.rooms.len() {
            if j < s.rooms.len() {
                assert(s.rooms[j].name == room);
            }
        }
        let k = state::place(after.rooms, added);
        if k >= after.rooms.len() {
            assert(after.rooms[s.rooms.len() as int].name != added);
        }
    }
}

proof fn lemma_leave_room(s: state::CoreState, left: Seq<char>, room: Seq<char>)
    requires
        s.wf(),
        state::knows(s, left),
    ensures
        ({
            let after = state::leave_room(s, left).0;
            &&& !state::knows(after, left)
            &&& room != left ==> state::connected_in(after, room) == state::connected_in(s, room)
            &&& room != left ==> state::pending_in(after, room) == state::pending_in(s, room)
            &&& room != left ==> state::knows(after, room) == state::knows(s, room)
        }),
{
    let after = state::leave_room(s, left).0;
    let gone = state::place(s.rooms, left);
    state::lemma_place(s.rooms, left);
    state::lemma_place(after.rooms, left);
    let l = state::place(after.rooms, left);
    if l < after.rooms.len() {
        let b = if l < gone {
            l
        } else {
            l + 1
        };
        assert(after.rooms[l] == s.rooms[b]);
        if b < gone {
            assert(s.rooms[b].name != s.rooms[gone].name);
        } else {
            assert(s.rooms[gone].name != s.rooms[b].name);
        }
    }
    if room != left {
        state::lemma_place(s.rooms, room);
        state::lemma_place(after.rooms, room);
        let i = state::place(s.rooms, room);
        let j = state::place(after.rooms, room);
        if i < s.rooms.len() {
            let k = if i < gone {
                i
            } else {
                i - 1
            };
            assert(after.rooms[k] == s.rooms[i]);
            assert(j <= k) by {
                if j > k {
                    assert(after.rooms[k].name != room);
                }
            }
            if j < k {
                let b = if j < gone {
                    j
                } else {
                    j + 1
                };
                assert(after.rooms[j] == s.rooms[b]);
                assert(s.rooms[b].name != room);
            }
        } else if j < after.rooms.len() {
            let b = if j < gone {
                j
            } else {
                j + 1
            };
            assert(after.rooms[j] == s.rooms[b]);
            assert(s.rooms[b].name != room);
        }
    }
}

/// Who is in which room after the peers of one room have changed, whatever the status is.
proof fn lemma_peers_after(
    s: state::CoreState,
    at: Seq<char>,
    connected: Seq<Seq<char>>,
    pending: Seq<Seq<char>>,
    status: Seq<char>,
    room: Seq<char>,
)
    requires
        state::knows(s, at),
    ensures
        ({
            let after = state::CoreState {
                status,
                ..state::with_peers(s, at, connected, pending)
            };
            &&& state::knows(after, room) == state::knows(s, room)
            &&& state::connected_in(after, room) == if room == at {
                connected
            } else {
                state::connected_in(s, room)
            }
            &&& state::pending_in(after, room) == if room == at {
                pending
            } else {
                state::pending_in(s, room)
            }
        }),
{
    state::lemma_with_peers(s, at, connected, pending);
    let plain = state::with_peers(s, at, connected, pending);
    assert(state::knows(plain, room) == state::knows(s, room));
    if room != at {
        assert(state::connected_in(plain, room) == state::connected_in(s, room));
        assert(state::pending_in(plain, room) == state::pending_in(s, room));
    }
}

/// What a step does to the lists of peers of a room.
proof fn lemma_peers_step(s: state::CoreState, input: Input, room: Seq<char>, id: Seq<char>)
    requires
        s.wf(),
    ensures
        ({
            let after = take_step(s, input).0;
            let home = s.room;
            &&& state::connected_in(after, room).contains(id) ==> !parts(home, input.event, room, id)
                && (state::connected_in(s, room).contains(id) || (approves(
                home,
                input.event,
                room,
                id,
            ) && state::pending_in(s, room).contains(id)) || (arrives(home, input.event, room, id)
                && s.auto_accept))
            &&& state::pending_in(after, room).contains(id) ==> !parts(home, input.event, room, id)
                && !rejects(home, input.event, room, id) && !approves(home, input.event, room, id)
                && (state::pending_in(s, room).contains(id) || (arrives(
                home,
                input.event,
                room,
                id,
            ) && !s.auto_accept))
        }),
{
    let home = s.room;
    match input.event {
        BsyncEvent::CreateRoom { room: added } => {
            lemma_with_room(s, added@, true, room);
        },
        BsyncEvent::JoinRoom { ticket } => {
            match ticket::ticket_in(ticket@) {
                Ok(found) => {
                    lemma_with_room(s, found.room, false, room);
                },
                Err(_) => {},
            }
        },
        BsyncEvent::LeaveRoom { room: left } => {
            if state::knows(s, left@) {
                lemma_leave_room(s, left@, room);
            }
        },
        BsyncEvent::StartEndpoint => {},
        BsyncEvent::ConnectToPeer { .. } => {},
        BsyncEvent::LocalClipboardChanged { .. } => {},
        BsyncEvent::Shutdown => {},
        _ => {
            match state::addressed(home, input.event) {
                Some((at, event)) => {
                    lemma_peers_room_step(s, at, event, input.wall, room, id);
                },
                None => {},
            }
        },
    }
}

proof fn lemma_peers_room_step(
    s: state::CoreState,
    at: Seq<char>,
    event: state::RoomEventView,
    wall: SystemTime,
    room: Seq<char>,
    id: Seq<char>,
)
    requires
        s.wf(),
    ensures
        ({
            let after = state::room_step(s, at, event, wall).0;
            let here = at == room;
            &&& state::connected_in(after, room).contains(id) ==> !(here && event == (
            state::RoomEventView::PeerDisconnected { id })) && (state::connected_in(
                s,
                room,
            ).contains(id) || (here && event == (state::RoomEventView::PeerApproved { id })
                && state::pending_in(s, room).contains(id)) || (here && event == (
            state::RoomEventView::PeerConnected { id }) && s.auto_accept))
            &&& state::pending_in(after, room).contains(id) ==> !(here && event == (
            state::RoomEventView::PeerDisconnected { id })) && !(here && event == (
            state::RoomEventView::PeerRejected { id })) && !(here && event == (
            state::RoomEventView::PeerApproved { id })) && (state::pending_in(s, room).contains(id)
                || (here && event == (state::RoomEventView::PeerConnected { id })
                && !s.auto_accept))
        }),
{
    let after = state::room_step(s, at, event, wall).0;
    let connected = state::connected_in(s, at);
    let pending = state::pending_in(s, at);
    if state::knows(s, at) {
        state::lemma_place(s.rooms, at);
        assert(state::room_named(s, at).wf());
        match event {
            state::RoomEventView::MessageReceived { .. } => {},
            state::RoomEventView::PeerConnected { id: new } => {
                lemma_peers_after(s, at, connected.push(new), pending, after.status, room);
                lemma_peers_after(s, at, connected, pending.push(new), after.status, room);
                state::lemma_push_contains(connected, new);
                state::lemma_push_contains(pending, new);
            },
            state::RoomEventView::PeerDisconnected { id: gone } => {
                text::lemma_without(connected, gone);
                text::lemma_without(pending, gone);
                lemma_peers_after(
                    s,
                    at,
                    text::without(connected, gone),
                    text::without(pending, gone),
                    after.status,
                    room,
                );
            },
            state::RoomEventView::PeerApproved { id: new } => {
                text::lemma_without(pending, new);
                state::lemma_push_contains(connected, new);
                lemma_peers_after(
                    s,
                    at,
                    connected.push(new),
                    text::without(pending, new),
                    after.status,
                    room,
                );
            },
            state::RoomEventView::PeerRejected { id: gone } => {
                text::lemma_without(pending, gone);
                lemma_peers_after(
                    s,
                    at,
                    connected,
                    text::without(pending, gone),
                    after.status,
                    room,
                );
            },
        }
    }
}

/// A peer becomes connected in a room only by the user's approval of a peer that is pending there,
/// or, where peers are accepted without asking, by connecting.
pub proof fn law_connected_by_consent(
    s: state::CoreState,
    input: Input,
    room: Seq<char>,
    id: Seq<char>,
)
    requires
        s.wf(),
        !state::connected_in(s, room).contains(id),
        state::connected_in(take_step(s, input).0, room).contains(id),
    ensures
        (approves(s.room, input.event, room, id) && state::pending_in(s, room).contains(id)) || (
        arrives(s.room, input.event, room, id) && s.auto_accept),
{
    lemma_peers_step(s, input, room, id);
}

/// From `from` on nothing happens that takes peer `id` out of `room`.
pub open spec fn stays(
    home: Seq<char>,
    inputs: Seq<Input>,
    from: int,
    room: Seq<char>,
    id: Seq<char>,
) -> bool {
    forall|j: int| from <= j < inputs.len() ==> !parts(home, (#[trigger] inputs[j]).event, room, id)
}

/// Peer `id` connected in `room` at `k`, has not been taken out since, and was neither approved nor
/// rejected since.
pub open spec fn waits_since(
    home: Seq<char>,
    inputs: Seq<Input>,
    k: int,
    room: Seq<char>,
    id: Seq<char>,
) -> bool {
    &&& 0 <= k < inputs.len()
    &&& arrives(home, inputs[k].event, room, id)
    &&& stays(home, inputs, k, room, id)
    &&& forall|j: int|
        k <= j < inputs.len() ==> !rejects(home, (#[trigger] inputs[j]).event, room, id)
            && !approves(home, inputs[j].event, room, id)
}

/// Peer `id` connected in `room` at `k`, waited, was approved at `i`, and has not been taken out
/// since.
pub open spec fn admitted(
    home: Seq<char>,
    inputs: Seq<Input>,
    k: int,
    i: int,
    room: Seq<char>,
    id: Seq<char>,
) -> bool {
    &&& 0 <= i < inputs.len()
    &&& waits_since(home, inputs.take(i), k, room, id)
    &&& approves(home, inputs[i].event, room, id)
    &&& stays(home, inputs, i, room, id)
}

proof fn lemma_pending_waits(
    peer_id: Seq<char>,
    home: Seq<char>,
    inputs: Seq<Input>,
    room: Seq<char>,
    id: Seq<char>,
) -> (k: int)
    requires
        state::pending_in(run(state::initial(peer_id, home, false), inputs), room).contains(id),
    ensures
        waits_since(home, inputs, k, room, id),
    decreases inputs.len(),
{
    let s = state::initial(peer_id, home, false);
    if inputs.len() == 0 {
        state::lemma_place(s.rooms, room);
        assert(false);
        0
    } else {
        let init = inputs.drop_last();
        let before = run(s, init);
        law_well_formed(s, init);
        law_identity_is_fixed(s, init);
        lemma_peers_step(before, inputs.last(), room, id);
        assert(inputs[inputs.len() - 1] == inputs.last());
        if state::pending_in(before, room).contains(id) {
            let k = lemma_pending_waits(peer_id, home, init, room, id);
            assert(inputs[k] == init[k]);
            assert forall|j: int| k <= j < inputs.len() implies !parts(
                home,
                (#[trigger] inputs[j]).event,
                room,
                id,
            ) && !rejects(home, inputs[j].event, room, id) && !approves(
                home,
                inputs[j].event,
                room,
                id,
            ) by {
                if j < init.len() {
                    assert(inputs[j] == init[j]);
                }
            }
            k
        } else {
            inputs.len() - 1
        }
    }
}

/// Where peers are not accepted without asking, every peer that is connected in a room connected
/// there, waited for the user without being rejected, was approved, and has neither disconnected
/// since nor has the user left the room.
pub proof fn law_connected_was_approved(
    peer_id: Seq<char>,
    home: Seq<char>,
    inputs: Seq<Input>,
    room: Seq<char>,
    id: Seq<char>,
)
    requires
        state::connected_in(run(state::initial(peer_id, home, false), inputs), room).contains(id),
    ensures
        exists|k: int, i: int| #[trigger] admitted(home, inputs, k, i, room, id),
    decreases inputs.len(),
{
    let s = state::initial(peer_id, home, false);
    if inputs.len() == 0 {
        state::lemma_place(s.rooms, room);
        assert(false);
    } else {
        let init = inputs.drop_last();
        let before = run(s, init);
        law_well_formed(s, init);
        law_identity_is_fixed(s, init);
        lemma_peers_step(before, inputs.last(), room, id);
        assert(inputs[inputs.len() - 1] == inputs.last());
        if state::connected_in(before, room).contains(id) {
            law_connected_was_approved(peer_id, home, init, room, id);
            let (k, i) = choose|k: int, i: int| #[trigger] admitted(home, init, k, i, room, id);
            assert(init.take(i) =~= inputs.take(i));
            assert(inputs[i] == init[i]);
            assert forall|j: int| i <= j < inputs.len() implies !parts(
                home,
                (#[trigger] inputs[j]).event,
                room,
                id,
            ) by {
                if j < init.len() {
                    assert(inputs[j] == init[j]);
                }
            }
            assert(admitted(home, inputs, k, i, room, id));
        } else {
            let k = lemma_pending_waits(peer_id, home, init, room, id);
            let i = inputs.len() - 1;
            assert(inputs.take(i) =~= init);
            assert(admitted(home, inputs, k, i, room, id));
        }
    }
}

/// Where peers are accepted without asking, no peer ever waits in any room, and the user is never
/// asked.
pub proof fn law_auto_accept_never_asks(
    peer_id: Seq<char>,
    home: Seq<char>,
    inputs: Seq<Input>,
    input: Input,
    room: Seq<char>,
    i: int,
)
    ensures
        ({
            let s = run(state::initial(peer_id, home, true), inputs);
            &&& state::pending_in(s, room).len() == 0
            &&& 0 <= i < take_step(s, input).1.len() ==> !(take_step(
                s,
                input,
            ).1[i] is PromptApproval)
        }),
{
    let first = state::initial(peer_id, home, true);
    let s = run(first, inputs);
    law_well_formed(first, inputs);
    law_identity_is_fixed(first, inputs);
    state::lemma_place(s.rooms, room);
}

/// A peer that connects in a room and is not accepted without asking waits for approval: the user
/// is asked, and its messages are dropped until then.
pub proof fn law_new_peer_waits(
    s: state::CoreState,
    room: Seq<char>,
    id: Seq<char>,
    content: message::ContentView,
    wall: SystemTime,
)
    requires
        state::knows(s, room),
        !s.auto_accept,
        !state::connected_in(s, room).contains(id),
        !state::pending_in(s, room).contains(id),
    ensures
        ({
            let asked = state::peer_connected(s, room, id);
            &&& asked.1 == seq![state::EffectView::PromptApproval { room, peer_id: id }]
            &&& state::pending_in(asked.0, room) == state::pending_in(s, room).push(id)
            &&& state::pending_in(asked.0, room).contains(id)
            &&& state::connected_in(asked.0, room) == state::connected_in(s, room)
            &&& state::remote_message(asked.0, room, id, content, wall) == (
                asked.0,
                Seq::<state::EffectView>::empty(),
            )
        }),
{
    let connected = state::connected_in(s, room);
    let pending = state::pending_in(s, room);
    state::lemma_push_contains(pending, id);
    state::lemma_with_peers(s, room, connected, pending.push(id));
}

/// Approval moves a pending peer to the connected ones of its room, and what it sends there is
/// applied from then on.
pub proof fn law_approval_connects(
    s: state::CoreState,
    room: Seq<char>,
    id: Seq<char>,
    content: message::ContentView,
    wall: SystemTime,
)
    requires
        state::pending_in(s, room).contains(id),
        s.last_applied != Some(message::content_digest(content)),
    ensures
        ({
            let after = state::peer_approved(s, room, id).0;
            &&& state::peer_approved(s, room, id).1 == seq![
                state::EffectView::PrintStatus { message: "Peer approved: "@ + id },
            ]
            &&& after.status == "connected to "@ + id
            &&& state::connected_in(after, room).contains(id)
            &&& !state::pending_in(after, room).contains(id)
            &&& state::connected_in(after, room) == state::connected_in(s, room).push(id)
            &&& state::pending_in(after, room) == state::pending_in(s, room).filter(
                |other: Seq<char>| other != id,
            )
            &&& state::remote_message(after, room, id, content, wall).1 == seq![
                state::EffectView::WriteClipboard {
                    content,
                    write_hash: message::content_digest(content),
                },
            ]
        }),
{
    let connected = state::connected_in(s, room);
    let pending = state::pending_in(s, room);
    state::lemma_push_contains(connected, id);
    text::lemma_without(pending, id);
    text::law_without_filters(pending, id);
    state::lemma_with_peers(s, room, connected.push(id), text::without(pending, id));
}

/// Approval needs a peer that waits: of any other peer it changes nothing.
pub proof fn law_approval_needs_waiting(s: state::CoreState, room: Seq<char>, id: Seq<char>)
    requires
        !state::pending_in(s, room).contains(id),
    ensures
        state::peer_approved(s, room, id) == (s, Seq::<state::EffectView>::empty()),
{
}

/// Where peers are accepted without asking, a peer that connects in a room that the user is in, and
/// was not listed there, is connected there from then on, behind those that were; the user is told,
/// and what the peer sends next is applied.
pub proof fn law_auto_accepted_peer_is_connected(
    s: state::CoreState,
    room: Seq<char>,
    id: Seq<char>,
    content: message::ContentView,
    wall: SystemTime,
)
    requires
        state::knows(s, room),
        s.auto_accept,
        !state::connected_in(s, room).contains(id),
        !state::pending_in(s, room).contains(id),
        s.last_applied != Some(message::content_digest(content)),
    ensures
        ({
            let (after, effects) = state::peer_connected(s, room, id);
            &&& state::connected_in(after, room).contains(id)
            &&& forall|other: Seq<char>| #[trigger]
                state::connected_in(s, room).contains(other) ==> state::connected_in(
                    after,
                    room,
                ).contains(other)
            &&& state::connected_in(after, room) == state::connected_in(s, room).push(id)
            &&& state::pending_in(after, room) == state::pending_in(s, room)
            &&& effects == seq![
                state::EffectView::PrintStatus {
                    message: "Peer connected: "@ + id + " (auto-accepted)"@,
                },
            ]
            &&& after.status == "connected to "@ + id
            &&& state::remote_message(after, room, id, content, wall).1 == seq![
                state::EffectView::WriteClipboard {
                    content,
                    write_hash: message::content_digest(content),
                },
            ]
        }),
{
    let connected = state::connected_in(s, room);
    let pending = state::pending_in(s, room);
    let after = state::peer_connected(s, room, id).0;
    state::lemma_push_contains(connected, id);
    lemma_peers_after(s, room, connected.push(id), pending, after.status, room);
}

/// A peer that is listed already, or that connects in a room that the user is not in, changes
/// nothing.
pub proof fn law_listed_peer_changes_nothing(s: state::CoreState, room: Seq<char>, id: Seq<char>)
    requires
        !state::knows(s, room) || state::connected_in(s, room).contains(id) || state::pending_in(
            s,
            room,
        ).contains(id),
    ensures
        state::peer_connected(s, room, id) == (s, Seq::<state::EffectView>::empty()),
{
}

/// A rejected peer is not pending any more, and no one becomes connected by a rejection.
pub proof fn law_rejection(s: state::CoreState, room: Seq<char>, id: Seq<char>)
    ensures
        !state::pending_in(state::peer_rejected(s, room, id).0, room).contains(id),
        forall|other: Seq<char>| #[trigger]
            state::connected_in(state::peer_rejected(s, room, id).0, other)
                == state::connected_in(s, other),
        state::pending_in(state::peer_rejected(s, room, id).0, room) == state::pending_in(
            s,
            room,
        ).filter(|other: Seq<char>| other != id),
        state::knows(s, room) ==> state::peer_rejected(s, room, id).1 == seq![
            state::EffectView::PrintStatus { message: "Peer rejected: "@ + id },
        ],
        !state::knows(s, room) ==> state::peer_rejected(s, room, id) == (
            s,
            Seq::<state::EffectView>::empty(),
        ),
{
    text::law_without_filters(state::pending_in(s, room), id);
    if !state::knows(s, room) {
        assert(text::without(Seq::<Seq<char>>::empty(), id) =~= Seq::empty());
    }
    if state::knows(s, room) {
        let connected = state::connected_in(s, room);
        let pending = state::pending_in(s, room);
        text::lemma_without(pending, id);
        state::lemma_with_peers(s, room, connected, text::without(pending, id));
    }
}

/// A peer that disconnects is forgotten in its room: it is neither connected nor pending there, the
/// others stay, and what it sends there later is dropped.
pub proof fn law_disconnect_forgets(
    s: state::CoreState,
    room: Seq<char>,
    id: Seq<char>,
    content: message::ContentView,
    wall: SystemTime,
)
    ensures
        ({
            let after = state::peer_disconnected(s, room, id).0;
            &&& !state::connected_in(after, room).contains(id)
            &&& !state::pending_in(after, room).contains(id)
            &&& state::connected_in(after, room) == state::connected_in(s, room).filter(
                |other: Seq<char>| other != id,
            )
            &&& state::pending_in(after, room) == state::pending_in(s, room).filter(
                |other: Seq<char>| other != id,
            )
            &&& state::knows(s, room) ==> state::peer_disconnected(s, room, id).1 == seq![
                state::EffectView::PrintStatus { message: "Peer disconnected: "@ + id },
            ] && after.status == "peer "@ + id + " disconnected"@
            &&& !state::knows(s, room) ==> state::peer_disconnected(s, room, id) == (
                s,
                Seq::<state::EffectView>::empty(),
            )
            &&& forall|other: Seq<char>|
                other != id ==> (#[trigger] state::connected_in(after, room).contains(other)
                    <==> state::connected_in(s, room).contains(other))
            &&& forall|other: Seq<char>|
                other != id ==> (#[trigger] state::pending_in(after, room).contains(other)
                    <==> state::pending_in(s, room).contains(other))
            &&& state::remote_message(after, room, id, content, wall) == (
                after,
                Seq::<state::EffectView>::empty(),
            )
        }),
{
    let connected = state::connected_in(s, room);
    let pending = state::pending_in(s, room);
    text::lemma_without(connected, id);
    text::lemma_without(pending, id);
    text::law_without_filters(connected, id);
    text::law_without_filters(pending, id);
    if state::knows(s, room) {
        state::lemma_with_peers(
            s,
            room,
            text::without(connected, id),
            text::without(pending, id),
        );
    }
}

// ---------------------------------------------------------------------------------------------
// Rooms
// ---------------------------------------------------------------------------------------------

/// Rooms are isolated: what happens in one changes the peers of no other.
pub proof fn law_rooms_are_isolated(
    s: state::CoreState,
    room: Seq<char>,
    event: state::RoomEventView,
    wall: SystemTime,
    other: Seq<char>,
)
    requires
        other != room,
    ensures
        ({
            let after = state::room_step(s, room, event, wall).0;
            &&& state::knows(after, other) == state::knows(s, other)
            &&& state::connected_in(after, other) == state::connected_in(s, other)
            &&& state::pending_in(after, other) == state::pending_in(s, other)
        }),
{
    let after = state::room_step(s, room, event, wall).0;
    if state::knows(s, room) {
        let connected = state::connected_in(s, room);
        let pending = state::pending_in(s, room);
        match event {
            state::RoomEventView::MessageReceived { .. } => {},
            state::RoomEventView::PeerConnected { id } => {
                lemma_peers_after(s, room, connected.push(id), pending, after.status, other);
                lemma_peers_after(s, room, connected, pending.push(id), after.status, other);
            },
            state::RoomEventView::PeerDisconnected { id } => {
                lemma_peers_after(
                    s,
                    room,
                    text::without(connected, id),
                    text::without(pending, id),
                    after.status,
                    other,
                );
            },
            state::RoomEventView::PeerApproved { id } => {
                lemma_peers_after(
                    s,
                    room,
                    connected.push(id),
                    text::without(pending, id),
                    after.status,
                    other,
                );
            },
            state::RoomEventView::PeerRejected { id } => {
                lemma_peers_after(
                    s,
                    room,
                    connected,
                    text::without(pending, id),
                    after.status,
                    other,
                );
            },
        }
    }
}

/// A room that is created is one that the user is in; the rooms and peers that were there stay.
pub proof fn law_created_room_is_there(s: state::CoreState, room: Seq<char>, other: Seq<char>)
    ensures
        ({
            let after = state::create_room(s, room).0;
            &&& state::knows(after, room)
            &&& state::knows(s, other) ==> state::knows(after, other)
            &&& state::connected_in(after, other) == state::connected_in(s, other)
            &&& state::pending_in(after, other) == state::pending_in(s, other)
            &&& enters(s, after, room, true)
            &&& after.status == s.status
        }),
{
    lemma_with_room(s, room, true, room);
    lemma_with_room(s, room, true, other);
    lemma_enters(s, room, true);
}

/// Whether the user is in one more room: the rooms that were there stay in their places, and if the
/// room was not among them, it stands behind them, without any peers. Nothing else is touched but
/// the status.
pub open spec fn enters(
    s: state::CoreState,
    after: state::CoreState,
    room: Seq<char>,
    is_local: bool,
) -> bool {
    &&& s.rooms.len() <= after.rooms.len() <= s.rooms.len() + 1
    &&& after.rooms.take(s.rooms.len() as int) == s.rooms
    &&& after.rooms.len() == s.rooms.len() <==> state::knows(s, room)
    &&& !state::knows(s, room) ==> {
        let added = after.rooms.last();
        &&& added.name == room
        &&& added.is_local == is_local
        &&& added.connected.len() == 0
        &&& added.pending.len() == 0
    }
    &&& after.history == s.history
    &&& after.last_applied == s.last_applied
    &&& after.pending_write == s.pending_write
    &&& after.broadcast_times == s.broadcast_times
}

proof fn lemma_enters(s: state::CoreState, room: Seq<char>, is_local: bool)
    ensures
        enters(s, state::with_room(s, room, is_local), room, is_local),
{
    let after = state::with_room(s, room, is_local);
    assert(after.rooms.take(s.rooms.len() as int) =~= s.rooms);
}

/// The ticket by which others reach this core in a room.
pub open spec fn invitation(s: state::CoreState, room: Seq<char>) -> Seq<char> {
    ticket::ticket_text(
        ticket::TicketView { v: ticket::TICKET_VERSION, endpoint_addr: s.peer_id, room },
    )
}

/// Creating a room enters its gossip, in one effect. A room that is new, or that was made here
/// before, comes with the ticket that leads others to this core in that very room.
pub proof fn law_created_room_is_entered(s: state::CoreState, room: Seq<char>)
    ensures
        ({
            let effects = state::create_room(s, room).1;
            &&& effects.len() == 1
            &&& effects[0] matches state::EffectView::SetupRoom { room: entered, ticket }
                && entered == room && (!state::knows(s, room) ==> ticket == Some(
                invitation(s, room),
            )) && (state::knows(s, room) ==> ticket == if state::room_named(s, room).is_local {
                Some(invitation(s, room))
            } else {
                None
            })
        }),
{
    let after = state::with_room(s, room, true);
    state::lemma_place(s.rooms, room);
    state::lemma_place(after.rooms, room);
    lemma_with_room(s, room, true, room);
    if !state::knows(s, room) {
        let i = state::place(after.rooms, room);
        if i < s.rooms.len() {
            assert(s.rooms[i].name == room);
        }
    }
}

/// Joining by a ticket: the user is in the room of the ticket, which is someone else's if it is
/// new; its gossip is entered, and the peer of the ticket is connected there. A text that is no
/// ticket changes nothing, and the user is told why.
pub proof fn law_joined_room_is_there(s: state::CoreState, ticket: Seq<char>)
    ensures
        ({
            let (after, effects) = state::join_room(s, ticket);
            match ticket::ticket_in(ticket) {
                Ok(found) => {
                    &&& state::knows(after, found.room)
                    &&& enters(s, after, found.room, false)
                    &&& after.status == "connecting to "@ + found.endpoint_addr + "..."@
                    &&& effects.len() == 2
                    &&& effects[0] is SetupRoom
                    &&& effects[0]->SetupRoom_room == found.room
                    &&& effects[0]->SetupRoom_ticket == if state::knows(s, found.room)
                        && state::room_named(s, found.room).is_local {
                        Some(invitation(s, found.room))
                    } else {
                        None
                    }
                    &&& effects[1] == (state::EffectView::AddPeer {
                        room: found.room,
                        endpoint_addr: found.endpoint_addr,
                    })
                },
                Err(error) => {
                    &&& after == s
                    &&& effects == seq![
                        state::EffectView::PrintStatus {
                            message: "Invalid ticket: "@ + ticket::error_text(error),
                        },
                    ]
                },
            }
        }),
{
    match ticket::ticket_in(ticket) {
        Ok(found) => {
            lemma_with_room(s, found.room, false, found.room);
            lemma_enters(s, found.room, false);
            let after = state::with_room(s, found.room, false);
            state::lemma_place(s.rooms, found.room);
            state::lemma_place(after.rooms, found.room);
            if !state::knows(s, found.room) {
                let i = state::place(after.rooms, found.room);
                if i < s.rooms.len() {
                    assert(s.rooms[i].name == found.room);
                }
            }
        },
        Err(_) => {},
    }
}

/// Creating a room and leaving it again brings back the rooms that were there.
pub proof fn law_leaving_undoes_creating(s: state::CoreState, room: Seq<char>)
    requires
        !state::knows(s, room),
    ensures
        state::leave_room(state::create_room(s, room).0, room).0.rooms == s.rooms,
{
    let after = state::create_room(s, room).0;
    lemma_with_room(s, room, true, room);
    state::lemma_place(s.rooms, room);
    state::lemma_place(after.rooms, room);
    let i = state::place(after.rooms, room);
    if i < s.rooms.len() {
        assert(s.rooms[i].name == room);
    }
    assert(after.rooms.remove(i) =~= s.rooms);
}

/// A room that is left is the only one that goes: every other room is still there, unchanged and
/// in the same order.
pub proof fn law_leaving_keeps_the_others(s: state::CoreState, room: Seq<char>, i: int)
    requires
        s.wf(),
        0 <= i < s.rooms.len(),
        s.rooms[i].name != room,
    ensures
        ({
            let after = state::leave_room(s, room).0;
            let k = if state::place(s.rooms, room) < i {
                i - 1
            } else {
                i
            };
            &&& 0 <= k < after.rooms.len()
            &&& after.rooms[k] == s.rooms[i]
            &&& after.history == s.history
            &&& after.last_applied == s.last_applied
            &&& after.pending_write == s.pending_write
            &&& after.broadcast_times == s.broadcast_times
            &&& after.status == s.status
        }),
{
    state::lemma_place(s.rooms, room);
}

/// A room that is left is gone, with all its connections: nothing that happens there later changes
/// anything, nothing is broadcast there, and the other rooms and their peers stay.
pub proof fn law_left_room_is_gone(
    s: state::CoreState,
    room: Seq<char>,
    event: state::RoomEventView,
    copied: message::ContentView,
    other: Seq<char>,
    now: u128,
    wall: SystemTime,
    i: int,
)
    requires
        s.wf(),
    ensures
        ({
            let after = state::leave_room(s, room).0;
            let sent = state::local_change(after, copied, now, wall).1;
            &&& !state::knows(after, room)
            &&& state::room_step(after, room, event, wall) == (
                after,
                Seq::<state::EffectView>::empty(),
            )
            &&& 0 <= i < sent.len() ==> carries(
                sent[i],
                after.rooms[i].name,
                after.peer_id,
                copied,
            ) && after.rooms[i].name != room && !carries(sent[i], room, s.peer_id, copied)
            &&& state::knows(s, room) ==> state::leave_room(s, room).1 == seq![
                state::EffectView::ShutdownRoom { room },
            ] && after.rooms.len() == s.rooms.len() - 1
            &&& !state::knows(s, room) ==> state::leave_room(s, room) == (
                s,
                Seq::<state::EffectView>::empty(),
            )
            &&& other != room ==> state::knows(after, other) == state::knows(s, other)
                && state::connected_in(after, other) == state::connected_in(s, other)
                && state::pending_in(after, other) == state::pending_in(s, other)
        }),
{
    let after = state::leave_room(s, room).0;
    if state::knows(s, room) {
        lemma_leave_room(s, room, room);
        lemma_leave_room(s, room, other);
    }
    state::lemma_place(s.rooms, room);
    state::lemma_place(after.rooms, room);
    let sent = state::local_change(after, copied, now, wall).1;
    if 0 <= i < sent.len() {
        lemma_goes_everywhere(after, copied);
        assert(carries(sent[i], after.rooms[i].name, s.peer_id, copied));
        assert(after.rooms[i].name != room);
    }
}

/// A core that is given the ticket that another core shows for a room joins that room, and
/// connects to that other core there.
pub proof fn law_ticket_leads_into_its_room(
    s: state::CoreState,
    owner: state::CoreState,
    room: Seq<char>,
    ticket: Seq<char>,
)
    requires
        ticket::ticket_in(ticket) == Ok::<ticket::TicketView, ticket::TicketError>(
            ticket::TicketView { v: ticket::TICKET_VERSION, endpoint_addr: owner.peer_id, room },
        ),
    ensures
        ({
            let joined = state::join_room(s, ticket);
            &&& state::knows(joined.0, room)
            &&& joined.1.len() == 2
            &&& joined.1[1] == (state::EffectView::AddPeer { room, endpoint_addr: owner.peer_id })
        }),
{
    lemma_with_room(s, room, false, room);
}

// ---------------------------------------------------------------------------------------------
// Rate limit
// ---------------------------------------------------------------------------------------------

/// Whether the step broadcasts.
pub open spec fn broadcasts(s: state::CoreState, input: Input) -> bool {
    take_step(s, input).1.len() > 0 && (take_step(s, input).1[0] is BroadcastMessage || take_step(
        s,
        input,
    ).1[0] is BroadcastImage)
}

/// The times at which a run broadcast something.
pub open spec fn broadcast_log(s: state::CoreState, inputs: Seq<Input>) -> Seq<u128>
    decreases inputs.len(),
{
    if inputs.len() == 0 {
        Seq::empty()
    } else {
        let log = broadcast_log(s, inputs.drop_last());
        if broadcasts(run(s, inputs.drop_last()), inputs.last()) {
            log.push(inputs.last().now)
        } else {
            log
        }
    }
}

/// The clock does not run backwards.
pub open spec fn in_time_order(inputs: Seq<Input>) -> bool {
    forall|i: int, j: int|
        0 <= i <= j < inputs.len() ==> (#[trigger] inputs[i]).now <= (#[trigger] inputs[j]).now
}

proof fn lemma_pruned(times: Seq<u128>, now: u128) -> (gone: int)
    ensures
        0 <= gone <= times.len(),
        state::pruned(times, now) == times.skip(gone),
        forall|i: int| 0 <= i < gone ==> state::expired(#[trigger] times[i], now),
        gone < times.len() ==> !state::expired(times[gone], now),
    decreases times.len(),
{
    if times.len() > 0 && state::expired(times[0], now) {
        let rest = times.drop_first();
        let gone = lemma_pruned(rest, now);
        assert(rest.skip(gone) =~= times.skip(gone + 1));
        assert forall|i: int| 0 <= i < gone + 1 implies state::expired(#[trigger] times[i], now) by {
            if i > 0 {
                assert(times[i] == rest[i - 1]);
            }
        }
        gone + 1
    } else {
        assert(times.skip(0) =~= times);
        0
    }
}

/// What is known of a log: it is in order, the core remembers its end, what it forgot is a second
/// old, and any five broadcasts in a row take a second.
spec fn log_inv(log: Seq<u128>, times: Seq<u128>, last: u128) -> bool {
    &&& times.len() <= log.len()
    &&& times == log.skip(log.len() - times.len())
    &&& forall|i: int|
        0 <= i < log.len() - times.len() ==> state::expired(#[trigger] log[i], last)
    &&& forall|i: int, j: int|
        0 <= i && i + state::MAX_BROADCASTS_PER_SEC <= j < log.len() ==> (#[trigger] log[j]) - (
        #[trigger] log[i]) >= clock::SECOND
    &&& forall|i: int| 0 <= i < log.len() ==> #[trigger] log[i] <= last
    &&& forall|i: int, j: int| 0 <= i <= j < log.len() ==> #[trigger] log[i] <= #[trigger] log[j]
}

proof fn lemma_log_step(log: Seq<u128>, times: Seq<u128>, last: u128, now: u128)
    requires
        log_inv(log, times, last),
        last <= now,
    ensures
        log_inv(log, state::pruned(times, now), now),
        state::pruned(times, now).len() < state::MAX_BROADCASTS_PER_SEC ==> log_inv(
            log.push(now),
            state::pruned(times, now).push(now),
            now,
        ),
{
    let gone = lemma_pruned(times, now);
    let kept = state::pruned(times, now);
    let first = log.len() - times.len();
    assert(kept =~= log.skip(log.len() - kept.len()));
    assert forall|i: int| 0 <= i < log.len() - kept.len() implies state::expired(
        #[trigger] log[i],
        now,
    ) by {
        if i >= first {
            assert(log[i] == times[i - first]);
        }
    }
    if kept.len() < state::MAX_BROADCASTS_PER_SEC {
        let longer = log.push(now);
        assert(kept.push(now) =~= longer.skip(longer.len() - kept.len() - 1));
        assert forall|i: int, j: int|
            0 <= i && i + state::MAX_BROADCASTS_PER_SEC <= j < longer.len() implies (
        #[trigger] longer[j]) - (#[trigger] longer[i]) >= clock::SECOND by {
            if j == log.len() {
                assert(state::expired(log[i], now));
            } else {
                assert(log[j] - log[i] >= clock::SECOND);
            }
        }
        assert forall|i: int| 0 <= i < longer.len() - kept.push(now).len() implies state::expired(
            #[trigger] longer[i],
            now,
        ) by {
            assert(state::expired(log[i], now));
        }
    }
}

/// Only a copy by the user broadcasts, and only then does the core remember a time.
proof fn lemma_times_step(s: state::CoreState, input: Input)
    ensures
        ({
            let after = take_step(s, input).0;
            let kept = state::pruned(s.broadcast_times, input.now);
            &&& broadcasts(s, input) ==> after.broadcast_times == kept.push(input.now)
                && kept.len() < state::MAX_BROADCASTS_PER_SEC
            &&& !broadcasts(s, input) ==> after.broadcast_times == kept || after.broadcast_times
                == s.broadcast_times
        }),
{
    match input.event {
        BsyncEvent::LocalClipboardChanged { content } => {
            if s.rooms.len() > 0 {
                assert(state::broadcasts_of(s, content@)[0] == state::broadcast_in(
                    s.rooms[0].name,
                    s.peer_id,
                    content@,
                ));
            }
        },
        _ => {},
    }
}

proof fn lemma_broadcast_log(s: state::CoreState, inputs: Seq<Input>)
    requires
        s.broadcast_times.len() == 0,
        in_time_order(inputs),
    ensures
        inputs.len() > 0 ==> log_inv(
            broadcast_log(s, inputs),
            run(s, inputs).broadcast_times,
            inputs.last().now,
        ),
        inputs.len() == 0 ==> log_inv(
            broadcast_log(s, inputs),
            run(s, inputs).broadcast_times,
            0,
        ),
    decreases inputs.len(),
{
    if inputs.len() == 0 {
        assert(s.broadcast_times =~= Seq::<u128>::empty().skip(0));
    } else {
        let init = inputs.drop_last();
        let input = inputs.last();
        assert forall|i: int, j: int| 0 <= i <= j < init.len() implies (#[trigger] init[i]).now <= (
        #[trigger] init[j]).now by {
            assert(inputs[i].now <= inputs[j].now);
        }
        lemma_broadcast_log(s, init);
        let last = if init.len() > 0 {
            assert(inputs[init.len() - 1].now <= inputs[inputs.len() - 1].now);
            init.last().now
        } else {
            0
        };
        let before = run(s, init);
        let log = broadcast_log(s, init);
        lemma_times_step(before, input);
        lemma_log_step(log, before.broadcast_times, last, input.now);
        assert forall|i: int| 0 <= i < log.len() - before.broadcast_times.len() implies state::expired(
            #[trigger] log[i],
            input.now,
        ) by {
            assert(state::expired(log[i], last));
        }
    }
}

/// Rate limit: in any run of a new core, among any five broadcasts in a row the last is at least
/// a second after the first, so that no second sees more than four.
pub proof fn law_rate_limit(s: state::CoreState, inputs: Seq<Input>, i: int, j: int)
    requires
        s.broadcast_times.len() == 0,
        in_time_order(inputs),
        0 <= i,
        i + state::MAX_BROADCASTS_PER_SEC <= j < broadcast_log(s, inputs).len(),
    ensures
        broadcast_log(s, inputs)[j] - broadcast_log(s, inputs)[i] >= clock::SECOND,
{
    lemma_broadcast_log(s, inputs);
}

/// How many of the times lie within the second before `now`.
pub open spec fn recent_count(log: Seq<u128>, now: u128) -> nat
    decreases log.len(),
{
    if log.len() == 0 {
        0
    } else {
        recent_count(log.drop_last(), now) + if now - log.last() < clock::SECOND {
            1nat
        } else {
            0nat
        }
    }
}

proof fn lemma_recent_count(log: Seq<u128>, now: u128, n: int)
    requires
        0 <= n <= log.len(),
        forall|i: int| 0 <= i < n ==> state::expired(#[trigger] log[i], now),
        forall|i: int| n <= i < log.len() ==> !state::expired(#[trigger] log[i], now),
    ensures
        recent_count(log, now) == log.len() - n,
    decreases log.len(),
{
    if log.len() > 0 {
        let init = log.drop_last();
        assert(log[log.len() - 1] == log.last());
        assert forall|i: int| n <= i < init.len() implies !state::expired(
            #[trigger] init[i],
            now,
        ) by {
            assert(log[i] == init[i]);
        }
        if n < log.len() {
            lemma_recent_count(init, now, n);
        } else {
            lemma_recent_count(init, now, n - 1);
        }
    }
}

/// A copy by the user, that is, one that is no echo, is recorded as the newest entry in any case.
/// It is broadcast in every room if and only if fewer than four broadcasts of the run lie in the
/// second before it. One that is held back has no effect, leaves the status as it was, and does
/// not count as a broadcast itself.
pub proof fn law_copy_is_held_back(s: state::CoreState, inputs: Seq<Input>, copy: Input)
    requires
        s.broadcast_times.len() == 0,
        in_time_order(inputs.push(copy)),
        copy.event is LocalClipboardChanged,
        run(s, inputs).rooms.len() > 0,
        run(s, inputs).pending_write != Some(
            message::content_digest(copy.event->LocalClipboardChanged_content@),
        ),
    ensures
        ({
            let before = run(s, inputs);
            let after = take_step(before, copy);
            let content = copy.event->LocalClipboardChanged_content@;
            let log = broadcast_log(s, inputs);
            &&& after == state::local_change(before, content, copy.now, copy.wall)
            &&& after.0.history == state::recorded(
                before,
                content,
                before.peer_id,
                true,
                copy.wall,
            )
            &&& broadcasts(before, copy) <==> recent_count(log, copy.now)
                < state::MAX_BROADCASTS_PER_SEC
            &&& broadcasts(before, copy) ==> goes_everywhere(before, content, after.1)
            &&& !broadcasts(before, copy) ==> after.1.len() == 0 && after.0.status == before.status
                && broadcast_log(s, inputs.push(copy)) == log
        }),
{
    let before = run(s, inputs);
    let log = broadcast_log(s, inputs);
    let times = before.broadcast_times;
    let now = copy.now;
    let all = inputs.push(copy);
    assert(all.drop_last() =~= inputs);
    assert forall|i: int, j: int| 0 <= i <= j < inputs.len() implies (#[trigger] inputs[i]).now <= (
    #[trigger] inputs[j]).now by {
        assert(all[i].now <= all[j].now);
    }
    lemma_broadcast_log(s, inputs);
    let last = if inputs.len() > 0 {
        assert(all[inputs.len() - 1].now <= all[inputs.len() as int].now);
        inputs.last().now
    } else {
        0
    };
    lemma_log_step(log, times, last, now);
    let gone = lemma_pruned(times, now);
    let kept = state::pruned(times, now);
    let n = log.len() - kept.len();
    assert forall|i: int| n <= i < log.len() implies !state::expired(#[trigger] log[i], now) by {
        assert(log[n] == kept[0]);
        assert(kept[0] == times[gone]);
        assert(log[n] <= log[i]);
    }
    lemma_recent_count(log, now, n);
    let content = copy.event->LocalClipboardChanged_content@;
    assert(state::broadcasts_of(before, content)[0] == state::broadcast_in(
        before.rooms[0].name,
        before.peer_id,
        content,
    ));
    lemma_goes_everywhere(before, content);
}

/// Whether an effect is to send content of `origin` to the peers of a room, as it is.
pub open spec fn carries(
    effect: state::EffectView,
    room: Seq<char>,
    origin: Seq<char>,
    content: message::ContentView,
) -> bool {
    match content {
        message::ContentView::Text(text) => effect == (state::EffectView::BroadcastMessage {
            room,
            message: message::MessageView::ClipboardText { origin, content: text },
        }),
        message::ContentView::Image(png) => effect == (state::EffectView::BroadcastImage {
            room,
            origin,
            png_data: png,
        }),
    }
}

/// Whether the effects are to send content to the peers of every room, in the name of this core,
/// and nothing else.
pub open spec fn goes_everywhere(
    s: state::CoreState,
    content: message::ContentView,
    effects: Seq<state::EffectView>,
) -> bool {
    &&& effects.len() == s.rooms.len()
    &&& forall|i: int|
        0 <= i < effects.len() ==> carries(
            #[trigger] effects[i],
            s.rooms[i].name,
            s.peer_id,
            content,
        )
}

proof fn lemma_goes_everywhere(s: state::CoreState, content: message::ContentView)
    ensures
        goes_everywhere(s, content, state::broadcasts_of(s, content)),
{
}

/// What is copied goes unchanged to the peers of all rooms: when a copy has any effect at all,
/// there is one for each room that the user is in, and each is to send that very content there in
/// the name of this core. The rooms and their peers stay as they are.
pub proof fn law_copy_goes_to_every_room(s: state::CoreState, copy: Input, room: Seq<char>)
    requires
        copy.event is LocalClipboardChanged,
    ensures
        ({
            let content = copy.event->LocalClipboardChanged_content@;
            let (after, effects) = take_step(s, copy);
            &&& after.rooms == s.rooms
            &&& after.last_applied == s.last_applied
            &&& effects.len() > 0 ==> goes_everywhere(s, content, effects)
            &&& effects.len() > 0 ==> after.pending_write == s.pending_write
            &&& effects.len() > 0 ==> after.status == "syncing..."@
            &&& effects.len() > 0 && state::knows(s, room) ==> exists|i: int|
                0 <= i < effects.len() && carries(#[trigger] effects[i], room, s.peer_id, content)
        }),
{
    let content = copy.event->LocalClipboardChanged_content@;
    let effects = take_step(s, copy).1;
    lemma_goes_everywhere(s, content);
    state::lemma_place(s.rooms, room);
    if effects.len() > 0 && state::knows(s, room) {
        assert(carries(effects[state::place(s.rooms, room)], room, s.peer_id, content));
    }
}

// ---------------------------------------------------------------------------------------------
// History
// ---------------------------------------------------------------------------------------------

/// Whether the step records anything.
pub open spec fn records(s: state::CoreState, input: Input) -> bool {
    match input.event {
        BsyncEvent::LocalClipboardChanged { content } => s.pending_write != Some(
            message::content_digest(content@),
        ),
        _ => match state::addressed(s.room, input.event) {
            Some((room, state::RoomEventView::MessageReceived { from, content })) =>
                state::connected_in(s, room).contains(from) && s.last_applied != Some(
                    message::content_digest(content),
                ),
            _ => false,
        },
    }
}

/// The entry of content that is recorded.
pub open spec fn entry_of(s: state::CoreState, input: Input) -> state::EntryView {
    match input.event {
        BsyncEvent::LocalClipboardChanged { content } => state::EntryView {
            preview: state::preview_of(content@),
            is_local: true,
            origin: s.peer_id,
            timestamp: input.wall,
            content: content@,
        },
        _ => match state::addressed(s.room, input.event) {
            Some((room, state::RoomEventView::MessageReceived { from, content })) =>
                state::EntryView {
                    preview: state::preview_of(content),
                    is_local: false,
                    origin: from,
                    timestamp: input.wall,
                    content,
                },
            _ => arbitrary(),
        },
    }
}

/// Everything that a run recorded, oldest first.
pub open spec fn record_log(s: state::CoreState, inputs: Seq<Input>) -> Seq<state::EntryView>
    decreases inputs.len(),
{
    if inputs.len() == 0 {
        Seq::empty()
    } else {
        let before = run(s, inputs.drop_last());
        let log = record_log(s, inputs.drop_last());
        if records(before, inputs.last()) {
            log.push(entry_of(before, inputs.last()))
        } else {
            log
        }
    }
}

/// The last `n` of a list, or all of a shorter one.
pub open spec fn last_of<T>(list: Seq<T>, n: nat) -> Seq<T> {
    if list.len() > n {
        list.skip(list.len() - n)
    } else {
        list
    }
}

/// The history holds the newest entries of everything that was recorded, up to its capacity.
/// Whether a copy was broadcast or held back by the rate limit makes no difference.
pub proof fn law_history_keeps_the_newest(s: state::CoreState, inputs: Seq<Input>)
    requires
        s.history.len() == 0,
    ensures
        run(s, inputs).history == last_of(
            record_log(s, inputs),
            state::HISTORY_CAPACITY as nat,
        ),
    decreases inputs.len(),
{
    if inputs.len() == 0 {
        assert(s.history =~= Seq::<state::EntryView>::empty());
    } else {
        law_history_keeps_the_newest(s, inputs.drop_last());
        let before = run(s, inputs.drop_last());
        assert(run(s, inputs).history =~= last_of(
            record_log(s, inputs),
            state::HISTORY_CAPACITY as nat,
        ));
    }
}

/// The preview of a text is the text itself up to a hundred characters, and never longer than
/// those and an ellipsis. That of an image says that it is one.
pub proof fn law_preview(content: Seq<char>)
    ensures
        ({
            let preview = state::preview_of(message::ContentView::Text(content));
            &&& forall|png: Seq<u8>| #[trigger]
                state::preview_of(message::ContentView::Image(png)) == "[image]"@
            &&& preview.len() <= state::HISTORY_PREVIEW_LEN + 1
            &&& content.len() <= state::HISTORY_PREVIEW_LEN ==> preview == content
            &&& content.len() > state::HISTORY_PREVIEW_LEN ==> {
                &&& preview.last() == '\u{2026}'
                &&& preview.drop_last() == content.take(state::HISTORY_PREVIEW_LEN as int)
            }
        }),
{
    reveal_strlit("\u{2026}");
    if content.len() > state::HISTORY_PREVIEW_LEN {
        assert(state::text_preview(content).drop_last() =~= content.take(
            state::HISTORY_PREVIEW_LEN as int,
        ));
    }
}

// ---------------------------------------------------------------------------------------------
// Tickets
// ---------------------------------------------------------------------------------------------

/// A core that is given the ticket that another core shows connects to that other core.
pub proof fn law_ticket_leads_to_its_owner(
    view: engine::BsyncViewModel,
    owner: state::CoreState,
    s: state::CoreState,
)
    requires
        view.shows(owner),
    ensures
        state::connect(s, view.ticket@).1 == seq![
            state::EffectView::ConnectToEndpoint { endpoint_addr: owner.peer_id },
        ],
{
}

/// A text that is no ticket changes nothing, and the user is told why.
pub proof fn law_bad_ticket_is_reported(s: state::CoreState, text: Seq<char>)
    requires
        ticket::ticket_in(text) is Err,
    ensures
        state::connect(s, text) == (
            s,
            state::print("Invalid ticket: "@ + ticket::error_text(ticket::ticket_in(text)->Err_0)),
        ),
{
}

// ---------------------------------------------------------------------------------------------
// Which event does what
// ---------------------------------------------------------------------------------------------

/// Whether an event tells that something happened in a room. An event that names no room tells of
/// the room `home`.
pub open spec fn tells(
    home: Seq<char>,
    event: BsyncEvent,
    room: Seq<char>,
    happened: state::RoomEventView,
) -> bool {
    match event {
        BsyncEvent::RemoteMessageReceived { from, content } => room == home && happened == (
        state::RoomEventView::MessageReceived { from: from@, content: content@ }),
        BsyncEvent::PeerConnected { id } => room == home && happened == (
        state::RoomEventView::PeerConnected { id: id@ }),
        BsyncEvent::PeerDisconnected { id } => room == home && happened == (
        state::RoomEventView::PeerDisconnected { id: id@ }),
        BsyncEvent::PeerApproved { id } => room == home && happened == (
        state::RoomEventView::PeerApproved { id: id@ }),
        BsyncEvent::PeerRejected { id } => room == home && happened == (
        state::RoomEventView::PeerRejected { id: id@ }),
        BsyncEvent::InRoom { room: at, event: told } => room == at@ && happened == told@,
        _ => false,
    }
}

/// What happens in a room happens in that room, whether the event names it or means the room that
/// the core was made with; and each thing that happens there is what is done about it.
pub proof fn law_events_reach_their_room(
    s: state::CoreState,
    input: Input,
    room: Seq<char>,
    happened: state::RoomEventView,
)
    requires
        tells(s.room, input.event, room, happened),
    ensures
        take_step(s, input) == match happened {
            state::RoomEventView::MessageReceived { from, content } => state::remote_message(
                s,
                room,
                from,
                content,
                input.wall,
            ),
            state::RoomEventView::PeerConnected { id } => state::peer_connected(s, room, id),
            state::RoomEventView::PeerDisconnected { id } => state::peer_disconnected(s, room, id),
            state::RoomEventView::PeerApproved { id } => state::peer_approved(s, room, id),
            state::RoomEventView::PeerRejected { id } => state::peer_rejected(s, room, id),
        },
{
}

/// What the user asks for is what is done.
pub proof fn law_requests_are_carried_out(s: state::CoreState, input: Input)
    ensures
        match input.event {
            BsyncEvent::CreateRoom { room } => take_step(s, input) == state::create_room(s, room@),
            BsyncEvent::JoinRoom { ticket } => take_step(s, input) == state::join_room(s, ticket@),
            BsyncEvent::LeaveRoom { room } => take_step(s, input) == state::leave_room(s, room@),
            BsyncEvent::ConnectToPeer { ticket } => take_step(s, input) == state::connect(
                s,
                ticket@,
            ),
            BsyncEvent::StartEndpoint => take_step(s, input) == state::start(s),
            BsyncEvent::LocalClipboardChanged { content } => take_step(s, input)
                == state::local_change(s, content@, input.now, input.wall),
            _ => true,
        },
{
}

/// What happens to the peers of a room changes nothing but the lists of that room and the status:
/// neither the history, nor the guards against echoes and repeats, nor the rate limit, nor which
/// rooms there are.
pub proof fn law_peer_events_keep_the_rest(
    s: state::CoreState,
    room: Seq<char>,
    happened: state::RoomEventView,
    wall: SystemTime,
)
    requires
        !(happened is MessageReceived),
    ensures
        ({
            let after = state::room_step(s, room, happened, wall).0;
            &&& after.history == s.history
            &&& after.last_applied == s.last_applied
            &&& after.pending_write == s.pending_write
            &&& after.broadcast_times == s.broadcast_times
            &&& after.rooms.len() == s.rooms.len()
            &&& forall|i: int|
                0 <= i < s.rooms.len() ==> (#[trigger] after.rooms[i]).name == s.rooms[i].name
                    && after.rooms[i].is_local == s.rooms[i].is_local
            &&& forall|i: int|
                0 <= i < s.rooms.len() && s.rooms[i].name != room ==> #[trigger] after.rooms[i]
                    == s.rooms[i]
        }),
{
    state::lemma_place(s.rooms, room);
}

/// A message from a peer is applied if and only if the peer is connected in the room that it comes
/// from and the content is not the one that was applied last. It is then handed out for the
/// clipboard, unchanged, and nothing else is done; it is the newest entry of the history, under the
/// name of the peer. The peers, the status and the rate limit are not touched in any case.
pub proof fn law_message_is_applied(
    s: state::CoreState,
    room: Seq<char>,
    sender: Seq<char>,
    content: message::ContentView,
    wall: SystemTime,
)
    ensures
        ({
            let (after, effects) = state::remote_message(s, room, sender, content, wall);
            let hash = message::content_digest(content);
            &&& effects.len() > 0 <==> state::connected_in(s, room).contains(sender)
                && s.last_applied != Some(hash)
            &&& effects.len() == 0 ==> after == s
            &&& effects.len() > 0 ==> {
                &&& effects == seq![
                    state::EffectView::WriteClipboard { content, write_hash: hash },
                ]
                &&& after.last_applied == Some(hash)
                &&& after.pending_write == Some(hash)
                &&& after.history.len() > 0
                &&& after.history.last().content == content
                &&& after.history.last().origin == sender
                &&& !after.history.last().is_local
                &&& after.history.last().timestamp == wall
            }
            &&& after.rooms == s.rooms
            &&& after.status == s.status
            &&& after.broadcast_times == s.broadcast_times
        }),
{
}

/// The hash of a text is that of its UTF-8 bytes, and the hash of an image that of its bytes: of all
/// of them, and of nothing else.
pub proof fn law_hash_is_of_the_whole_content(content: message::ContentView)
    ensures
        message::content_digest(content) == match content {
            message::ContentView::Text(text) => digest::blake3_digest(
                vstd::utf8::encode_utf8(text),
            ),
            message::ContentView::Image(png) => digest::blake3_digest(png),
        },
{
}

/// The content that a run last handed out for the clipboard, if any.
pub open spec fn last_written(s: state::CoreState, inputs: Seq<Input>) -> Option<
    message::ContentView,
>
    decreases inputs.len(),
{
    if inputs.len() == 0 {
        None
    } else {
        let effects = take_step(run(s, inputs.drop_last()), inputs.last()).1;
        if effects.len() > 0 && effects[0] is WriteClipboard {
            Some(effects[0]->WriteClipboard_content)
        } else {
            last_written(s, inputs.drop_last())
        }
    }
}

proof fn lemma_guards_step(s: state::CoreState, input: Input)
    ensures
        ({
            let (after, effects) = take_step(s, input);
            let writes = effects.len() > 0 && effects[0] is WriteClipboard;
            &&& writes ==> after.last_applied == Some(
                message::content_digest(effects[0]->WriteClipboard_content),
            ) && after.pending_write == after.last_applied
            &&& !writes ==> after.last_applied == s.last_applied && (after.pending_write
                == s.pending_write || after.pending_write is None)
        }),
{
    match input.event {
        BsyncEvent::LocalClipboardChanged { content } => {
            if s.rooms.len() > 0 {
                assert(state::broadcasts_of(s, content@)[0] == state::broadcast_in(
                    s.rooms[0].name,
                    s.peer_id,
                    content@,
                ));
            }
        },
        _ => {},
    }
}

/// What the guards of a core remember is what it last handed out for the clipboard: the guard
/// against repeats always, and the guard against echoes if it waits for one.
pub proof fn law_guards_remember_the_last_write(
    peer_id: Seq<char>,
    home: Seq<char>,
    auto_accept: bool,
    inputs: Seq<Input>,
)
    ensures
        ({
            let first = state::initial(peer_id, home, auto_accept);
            let s = run(first, inputs);
            let written = match last_written(first, inputs) {
                Some(content) => Some(message::content_digest(content)),
                None => None,
            };
            &&& s.last_applied == written
            &&& s.pending_write is Some ==> s.pending_write == written
        }),
    decreases inputs.len(),
{
    if inputs.len() > 0 {
        let first = state::initial(peer_id, home, auto_accept);
        law_guards_remember_the_last_write(peer_id, home, auto_accept, inputs.drop_last());
        lemma_guards_step(run(first, inputs.drop_last()), inputs.last());
    }
}

/// Nothing but echoes and repeats is held back: in any run of a core, a copy by the user is recorded
/// and sent, as far as the rate limit goes, unless it has the hash of what was last written; and a
/// message of a connected peer is written, unless it has that hash.
pub proof fn law_only_echoes_and_repeats_are_dropped(
    peer_id: Seq<char>,
    home: Seq<char>,
    auto_accept: bool,
    inputs: Seq<Input>,
    content: message::ContentView,
    room: Seq<char>,
    sender: Seq<char>,
    now: u128,
    wall: SystemTime,
)
    requires
        last_written(state::initial(peer_id, home, auto_accept), inputs) matches Some(written)
            ==> message::content_digest(written) != message::content_digest(content),
    ensures
        ({
            let s = run(state::initial(peer_id, home, auto_accept), inputs);
            let copied = state::local_change(s, content, now, wall).0;
            &&& copied.history.len() > 0
            &&& copied.history.last().content == content
            &&& copied.history.last().is_local
            &&& copied.history.last().origin == peer_id
            &&& copied.history.last().timestamp == wall
            &&& state::connected_in(s, room).contains(sender) ==> state::remote_message(
                s,
                room,
                sender,
                content,
                wall,
            ).1 == seq![
                state::EffectView::WriteClipboard {
                    content,
                    write_hash: message::content_digest(content),
                },
            ]
        }),
{
    law_guards_remember_the_last_write(peer_id, home, auto_accept, inputs);
    law_identity_is_fixed(state::initial(peer_id, home, auto_accept), inputs);
}

/// Starting tells the user, in one message, who the core is, the ticket by which others reach it,
/// and its room; nothing but the status changes.
pub proof fn law_start_tells_who_and_where(s: state::CoreState)
    ensures
        ({
            let (after, effects) = state::start(s);
            &&& effects.len() == 1
            &&& effects[0] matches state::EffectView::PrintStatus { message }
                && text::occurs_in(s.peer_id, message) && text::occurs_in(
                invitation(s, s.room),
                message,
            ) && text::occurs_in(s.room, message)
            &&& after == (state::CoreState { status: "waiting for connections..."@, ..s })
        }),
{
    let message = state::start(s).1[0]->PrintStatus_message;
    let a = "Peer ID: "@;
    let b = "\n"@;
    let c = "Ticket:  "@;
    let d = "\nRoom:    "@;
    let ticket = invitation(s, s.room);
    text::lemma_occurs(a, s.peer_id, b + c + ticket + d + s.room + b);
    assert(message =~= a + s.peer_id + (b + c + ticket + d + s.room + b));
    text::lemma_occurs(a + s.peer_id + b + c, ticket, d + s.room + b);
    assert(message =~= a + s.peer_id + b + c + ticket + (d + s.room + b));
    text::lemma_occurs(a + s.peer_id + b + c + ticket + d, s.room, b);
}

/// Connecting by a ticket leads to the endpoint of the ticket, and changes the status alone.
pub proof fn law_connecting_follows_the_ticket(s: state::CoreState, ticket: Seq<char>)
    requires
        ticket::ticket_in(ticket) is Ok,
    ensures
        ({
            let found = ticket::ticket_in(ticket)->Ok_0;
            let (after, effects) = state::connect(s, ticket);
            &&& effects == seq![
                state::EffectView::ConnectToEndpoint { endpoint_addr: found.endpoint_addr },
            ]
            &&& after == (state::CoreState {
                status: "connecting to "@ + found.endpoint_addr + "..."@,
                ..s
            })
        }),
{
}

/// Shutting down is passed on to the shell, and changes the status alone.
pub proof fn law_shutdown_is_passed_on(s: state::CoreState, input: Input)
    requires
        input.event is Shutdown,
    ensures
        take_step(s, input).1 == seq![state::EffectView::Shutdown],
        take_step(s, input).0 == (state::CoreState { status: "shutting down..."@, ..s }),
{
}

/// What is shown of a core is all of it: every entry of the history, the newest first; every peer of
/// its own room; and every room with all its peers and, if it was made here, the ticket by which
/// others reach this core there.
pub proof fn law_view_shows_everything(view: engine::BsyncViewModel, s: state::CoreState, i: int)
    requires
        view.shows(s),
    ensures
        view.peer_id@ == s.peer_id,
        view.room@ == s.room,
        view.status@ == s.status,
        view.history@.len() == s.history.len(),
        0 <= i < s.history.len() ==> view.history@[i]@ == s.history[s.history.len() - 1 - i],
        text::texts(view.connected_peers@) == state::connected_in(s, s.room),
        text::texts(view.pending_peers@) == state::pending_in(s, s.room),
        view.rooms@.len() == s.rooms.len(),
        0 <= i < s.rooms.len() ==> {
            let shown = view.rooms@[i]@;
            &&& shown.name == s.rooms[i].name
            &&& shown.is_local == s.rooms[i].is_local
            &&& shown.connected_peers == s.rooms[i].connected
            &&& shown.pending_peers == s.rooms[i].pending
            &&& shown.ticket == if s.rooms[i].is_local {
                Some(invitation(s, s.rooms[i].name))
            } else {
                None
            }
        },
        view.ticket@ == invitation(s, s.room),
{
    assert(engine::entries(view.history@).len() == view.history@.len());
    assert(engine::rooms_of(view.rooms@).len() == view.rooms@.len());
    if 0 <= i < s.history.len() {
        assert(engine::entries(view.history@)[i] == view.history@[i]@);
    }
    if 0 <= i < s.rooms.len() {
        assert(engine::rooms_of(view.rooms@)[i] == view.rooms@[i]@);
    }
}

/// A new core is in one room, which was made here, with no peers; it has no history, and it
/// expects neither an echo nor a repeat.
pub proof fn law_new_core_is_alone(peer_id: Seq<char>, room: Seq<char>, auto_accept: bool)
    ensures
        ({
            let s = state::initial(peer_id, room, auto_accept);
            &&& s.peer_id == peer_id
            &&& s.room == room
            &&& s.auto_accept == auto_accept
            &&& s.rooms.len() == 1
            &&& s.rooms[0].name == room
            &&& s.rooms[0].is_local
            &&& s.rooms[0].connected.len() == 0
            &&& s.rooms[0].pending.len() == 0
            &&& s.history.len() == 0
            &&& s.broadcast_times.len() == 0
            &&& s.last_applied is None
            &&& s.pending_write is None
            &&& s.status.len() == 0
        }),
{
}

}
