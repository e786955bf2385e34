//! What the plain shell decides: which events it tells the core, and what it does about the
//! effects.
use vstd::prelude::*;
use std::time::SystemTime;
use crate::engine::BsyncCore;
use crate::identity;
use crate::identity::parse_endpoint_addr;
use crate::laws;
use crate::message;
use crate::message::{ClipboardContent, GossipMessage};
use crate::network;
use crate::network::{room_event, GossipInput, NetworkEvent};
use crate::state;
use crate::state::{BsyncEffect, BsyncEvent};
use crate::text;
use crate::text::{concat2, concat3, decimal_text, trim};
use crate::ticket;
use crate::ticket::Ticket;

verus! {

/// Printed on every launch.
pub const STARTUP_WARNING: &'static str = "\u{26a0}\u{fe0f}  bsync sends your clipboard contents to ALL connected peers.\n    Only connect to peers you trust completely.\n    Connected peers can see: passwords, 2FA codes, API keys, private text.";

/// Something that the shell has to do.
#[derive(Debug)]
pub enum ShellAction {
    /// Write to the clipboard.
    Write { content: ClipboardContent },
    /// Send to all peers.
    Broadcast { content: ClipboardContent, origin: String },
    /// Print to the standard output.
    Print { line: String },
    /// Print to the standard error.
    Warn { line: String },
    /// Ask the user, and report the answer as `ShellInput::Approval`.
    Ask { peer_id: String, prompt: String },
}

/// The mathematical value of an action.
pub enum ActionView {
    Write { content: message::ContentView },
    Broadcast { content: message::ContentView, origin: Seq<char> },
    Print { line: Seq<char> },
    Warn { line: Seq<char> },
    Ask { peer_id: Seq<char>, prompt: Seq<char> },
}

/// Something that the shell waits for.
#[derive(Debug)]
pub enum ShellInput {
    /// The clipboard changed.
    Clipboard { content: ClipboardContent },
    /// The network layer has something to tell.
    Network { event: NetworkEvent },
    /// The network layer has stopped.
    NetworkEnded,
    /// The gossip stream yields something, where the shell reads it itself. If it is a message that
    /// the shell does not understand, `cause` says why.
    Gossip { input: GossipInput, cause: String },
    /// The user answered whether a peer may connect.
    Approval { peer_id: String, approved: bool },
    /// The user asked to stop.
    Interrupt,
}

/// What the shell does about an input.
#[derive(Debug)]
pub struct ShellStep {
    pub actions: Vec<ShellAction>,
    /// Whether this was the last input.
    pub stop: bool,
}

/// What the shell does before it waits for anything.
#[derive(Debug)]
pub struct Startup {
    pub actions: Vec<ShellAction>,
    /// The endpoints by which to enter the gossip.
    pub bootstrap: Vec<[u8; 32]>,
}

impl View for ShellAction {
    type V = ActionView;

    open spec fn view(&self) -> ActionView {
        match *self {
            ShellAction::Write { content } => ActionView::Write { content: content@ },
            ShellAction::Broadcast { content, origin } => ActionView::Broadcast {
                content: content@,
                origin: origin@,
            },
            ShellAction::Print { line } => ActionView::Print { line: line@ },
            ShellAction::Warn { line } => ActionView::Warn { line: line@ },
            ShellAction::Ask { peer_id, prompt } => ActionView::Ask {
                peer_id: peer_id@,
                prompt: prompt@,
            },
        }
    }
}

pub open spec fn actions_of(actions: Seq<ShellAction>) -> Seq<ActionView> {
    actions.map_values(|a: ShellAction| a@)
}

pub open spec fn keys_of(keys: Seq<[u8; 32]>) -> Seq<Seq<u8>> {
    keys.map_values(|k: [u8; 32]| k@)
}

// ---------------------------------------------------------------------------------------------
// Effects
// ---------------------------------------------------------------------------------------------

/// The question whether a peer may connect.
pub open spec fn prompt_text(peer_id: Seq<char>) -> Seq<char> {
    "Peer "@ + peer_id + " wants to connect. Allow? [y/N]: "@
}

/// What the shell does about an effect, if anything. Without a clipboard nothing is written. An
/// endpoint is connected at startup only, and the shell stays in one room.
pub open spec fn action_for(effect: state::EffectView, has_clipboard: bool) -> Option<ActionView> {
    match effect {
        state::EffectView::WriteClipboard { content, .. } => if has_clipboard {
            Some(ActionView::Write { content })
        } else {
            None
        },
        state::EffectView::BroadcastMessage { message, .. } => match message {
            message::MessageView::ClipboardText { origin, content } => Some(
                ActionView::Broadcast { content: message::ContentView::Text(content), origin },
            ),
            message::MessageView::ClipboardImage { .. } => Some(
                ActionView::Warn {
                    line: "Warning: unexpected BroadcastMessage with image \u{2014} skipping"@,
                },
            ),
        },
        state::EffectView::BroadcastImage { origin, png_data, .. } => Some(
            ActionView::Broadcast { content: message::ContentView::Image(png_data), origin },
        ),
        state::EffectView::PrintStatus { message } => Some(ActionView::Print { line: message }),
        state::EffectView::PromptApproval { peer_id, .. } => Some(
            ActionView::Ask { peer_id, prompt: prompt_text(peer_id) },
        ),
        state::EffectView::ConnectToEndpoint { .. } => None,
        state::EffectView::SetupRoom { .. } => None,
        state::EffectView::ShutdownRoom { .. } => None,
        state::EffectView::AddPeer { .. } => None,
        state::EffectView::Shutdown => None,
    }
}

/// What the shell does about some effects, in their order.
pub open spec fn actions_for(effects: Seq<state::EffectView>, has_clipboard: bool) -> Seq<
    ActionView,
>
    decreases effects.len(),
{
    if effects.len() == 0 {
        Seq::empty()
    } else {
        let before = actions_for(effects.drop_last(), has_clipboard);
        match action_for(effects.last(), has_clipboard) {
            Some(action) => before.push(action),
            None => before,
        }
    }
}

/// Decides what to do about an effect.
pub fn dispatch_effect(effect: &BsyncEffect, has_clipboard: bool) -> (action: Option<ShellAction>)
    ensures
        match action {
            Some(found) => action_for(effect@, has_clipboard) == Some(found@),
            None => action_for(effect@, has_clipboard) is None,
        },
{
    match effect {
        BsyncEffect::WriteClipboard { content, .. } => if has_clipboard {
            Some(ShellAction::Write { content: content.clone() })
        } else {
            None
        },
        BsyncEffect::BroadcastMessage { message, .. } => match message {
            GossipMessage::ClipboardText { origin, content } => Some(
                ShellAction::Broadcast {
                    content: ClipboardContent::Text(content.clone()),
                    origin: origin.clone(),
                },
            ),
            GossipMessage::ClipboardImage { .. } => Some(
                ShellAction::Warn {
                    line: "Warning: unexpected BroadcastMessage with image \u{2014} skipping".to_owned(),
                },
            ),
        },
        BsyncEffect::BroadcastImage { origin, png_data, .. } => {
            let copy = png_data.clone();
            assert(copy@ =~= png_data@);
            Some(
                ShellAction::Broadcast {
                    content: ClipboardContent::Image(copy),
                    origin: origin.clone(),
                },
            )
        },
        BsyncEffect::PrintStatus { message } => Some(ShellAction::Print { line: message.clone() }),
        BsyncEffect::PromptApproval { peer_id, .. } => Some(
            ShellAction::Ask {
                peer_id: peer_id.clone(),
                prompt: concat3("Peer ", peer_id.as_str(), " wants to connect. Allow? [y/N]: "),
            },
        ),
        BsyncEffect::ConnectToEndpoint { .. } => None,
        BsyncEffect::SetupRoom { .. } => None,
        BsyncEffect::ShutdownRoom { .. } => None,
        BsyncEffect::AddPeer { .. } => None,
        BsyncEffect::Shutdown => None,
    }
}

fn dispatch_effects(effects: &Vec<BsyncEffect>, has_clipboard: bool) -> (actions: Vec<ShellAction>)
    ensures
        actions_of(actions@) == actions_for(state::effects_of(effects@), has_clipboard),
{
    let ghost views = state::effects_of(effects@);
    let mut actions: Vec<ShellAction> = Vec::new();
    let mut i: usize = 0;
    assert(actions_of(actions@) =~= actions_for(views.take(0), has_clipboard));
    while i < effects.len()
        invariant
            i <= effects@.len(),
            views == state::effects_of(effects@),
            actions_of(actions@) == actions_for(views.take(i as int), has_clipboard),
        decreases effects@.len() - i,
    {
        let ghost before = actions@;
        assert(views.take(i + 1).drop_last() =~= views.take(i as int));
        assert(views.take(i + 1).last() == effects@[i as int]@);
        match dispatch_effect(&effects[i], has_clipboard) {
            Some(action) => {
                actions.push(action);
                assert(actions_of(actions@) =~= actions_of(before).push(action@));
            },
            None => {},
        }
        i = i + 1;
    }
    assert(views.take(i as int) =~= views);
    actions
}

// ---------------------------------------------------------------------------------------------
// Inputs
// ---------------------------------------------------------------------------------------------

/// What an event of the network layer of a room does to the core, which is told nothing of lost
/// messages.
pub open spec fn network_step(
    s: state::CoreState,
    room: Seq<char>,
    event: network::NetworkEventView,
    wall: SystemTime,
) -> state::Step {
    match network::happened(event) {
        Some(meaning) => state::room_step(s, room, meaning, wall),
        None => (s, Seq::empty()),
    }
}

/// What the user's answer about a peer in a room does to the core.
pub open spec fn answer_step(
    s: state::CoreState,
    room: Seq<char>,
    peer_id: Seq<char>,
    approved: bool,
) -> state::Step {
    if approved {
        state::peer_approved(s, room, peer_id)
    } else {
        state::peer_rejected(s, room, peer_id)
    }
}

/// A step of the shell: the next state of the core, the actions, and whether it was the last.
pub type ShellStepView = (state::CoreState, Seq<ActionView>, bool);

pub open spec fn going_on(step: state::Step, has_clipboard: bool) -> ShellStepView {
    (step.0, actions_for(step.1, has_clipboard), false)
}

pub open spec fn warning(s: state::CoreState, line: Seq<char>, stop: bool) -> ShellStepView {
    (s, seq![ActionView::Warn { line }], stop)
}

pub open spec fn lagged_text() -> Seq<char> {
    "Warning: gossip stream lagged \u{2014} some clipboard updates were dropped"@
}

/// What the shell does about an event of the network layer.
pub open spec fn on_network(
    s: state::CoreState,
    event: network::NetworkEventView,
    has_clipboard: bool,
    wall: SystemTime,
) -> ShellStepView {
    if event is Lagged {
        warning(s, lagged_text(), false)
    } else {
        going_on(network_step(s, s.room, event, wall), has_clipboard)
    }
}

/// What the shell does about an item of a gossip stream that it reads itself. Only messages with
/// text are understood; `cause` is why a message is not.
pub open spec fn on_gossip(
    s: state::CoreState,
    input: GossipInput,
    cause: Seq<char>,
    has_clipboard: bool,
    wall: SystemTime,
) -> ShellStepView {
    match input {
        GossipInput::Received { content } => match message::message_in(content@) {
            Some(message::MessageView::ClipboardText { origin, content }) => going_on(
                state::remote_message(
                    s,
                    s.room,
                    origin,
                    message::ContentView::Text(content),
                    wall,
                ),
                has_clipboard,
            ),
            _ => warning(s, "Failed to deserialize gossip message: "@ + cause, false),
        },
        GossipInput::NeighborUp { id } => going_on(
            state::peer_connected(s, s.room, id@),
            has_clipboard,
        ),
        GossipInput::NeighborDown { id } => going_on(
            state::peer_disconnected(s, s.room, id@),
            has_clipboard,
        ),
        GossipInput::Lagged => warning(s, lagged_text(), false),
        GossipInput::Failed { reason } => warning(s, "Gossip error: "@ + reason@, false),
        GossipInput::Ended => warning(s, "Gossip stream ended"@, true),
    }
}

/// What the shell does about an input.
pub open spec fn shell_step_of(
    s: state::CoreState,
    input: ShellInput,
    has_clipboard: bool,
    now: u128,
    wall: SystemTime,
) -> ShellStepView {
    match input {
        ShellInput::Clipboard { content } => going_on(
            state::local_change(s, content@, now, wall),
            has_clipboard,
        ),
        ShellInput::Network { event } => on_network(s, event@, has_clipboard, wall),
        ShellInput::NetworkEnded => warning(s, "Network stream ended"@, true),
        ShellInput::Gossip { input, cause } => on_gossip(s, input, cause@, has_clipboard, wall),
        ShellInput::Approval { peer_id, approved } => going_on(
            answer_step(s, s.room, peer_id@, approved),
            has_clipboard,
        ),
        ShellInput::Interrupt => {
            let step = state::shutdown(s);
            (
                step.0,
                seq![ActionView::Print { line: "\nShutting down..."@ }] + actions_for(
                    step.1,
                    has_clipboard,
                ),
                true,
            )
        },
    }
}

fn process(core: &mut BsyncCore, event: BsyncEvent, has_clipboard: bool) -> (step: ShellStep)
    ensures
        exists|now: u128, wall: SystemTime|
            (final(core).state(), actions_of(step.actions@), step.stop) == going_on(
                #[trigger] state::step(old(core).state(), event, now, wall),
                has_clipboard,
            ),
        old(core).state().wf() ==> final(core).state().wf(),
        final(core).zero() == old(core).zero(),
{
    let effects = core.process_event(event);
    ShellStep { actions: dispatch_effects(&effects, has_clipboard), stop: false }
}

fn only(action: ShellAction, stop: bool) -> (step: ShellStep)
    ensures
        actions_of(step.actions@) == seq![action@],
        step.stop == stop,
{
    let actions = vec![action];
    assert(actions_of(actions@) =~= seq![action@]);
    ShellStep { actions, stop }
}

fn warn(line: &str, stop: bool) -> (step: ShellStep)
    ensures
        actions_of(step.actions@) == seq![ActionView::Warn { line: line@ }],
        step.stop == stop,
{
    only(ShellAction::Warn { line: line.to_owned() }, stop)
}

/// Decides on an event of the network layer.
pub fn handle_network_event(core: &mut BsyncCore, event: NetworkEvent, has_clipboard: bool) -> (step:
    ShellStep)
    ensures
        exists|wall: SystemTime|
            (final(core).state(), actions_of(step.actions@), step.stop) == #[trigger] on_network(
                old(core).state(),
                event@,
                has_clipboard,
                wall,
            ),
        old(core).state().wf() ==> final(core).state().wf(),
        final(core).zero() == old(core).zero(),
{
    let ghost s = core.state();
    let ghost view = event@;
    let ghost mut at: SystemTime = arbitrary();
    let step = match room_event(event) {
        Some(event) => {
            let told = BsyncEvent::InRoom { room: core.room().clone(), event };
            let step = process(core, told, has_clipboard);
            proof {
                let (now, wall) = choose|now: u128, wall: SystemTime|
                    (core.state(), actions_of(step.actions@), step.stop) == going_on(
                        #[trigger] state::step(s, told, now, wall),
                        has_clipboard,
                    );
                at = wall;
            }
            step
        },
        None => warn(
            "Warning: gossip stream lagged \u{2014} some clipboard updates were dropped",
            false,
        ),
    };
    assert((core.state(), actions_of(step.actions@), step.stop) == on_network(
        s,
        view,
        has_clipboard,
        at,
    ));
    step
}

/// Decides on an item of the gossip stream. `cause` is why a message is not understood.
pub fn handle_gossip_event(
    core: &mut BsyncCore,
    input: GossipInput,
    cause: &str,
    has_clipboard: bool,
) -> (step: ShellStep)
    ensures
        exists|wall: SystemTime|
            (final(core).state(), actions_of(step.actions@), step.stop) == #[trigger] on_gossip(
                old(core).state(),
                input,
                cause@,
                has_clipboard,
                wall,
            ),
        old(core).state().wf() ==> final(core).state().wf(),
        final(core).zero() == old(core).zero(),
{
    let ghost s = core.state();
    let ghost given = input;
    let ghost mut at: SystemTime = arbitrary();
    let step = match input {
        GossipInput::Received { content } => match GossipMessage::from_json(content.as_slice()) {
            Some(GossipMessage::ClipboardText { origin, content }) => {
                let event = BsyncEvent::RemoteMessageReceived {
                    from: origin,
                    content: ClipboardContent::Text(content),
                };
                let step = process(core, event, has_clipboard);
                proof {
                    let (now, wall) = choose|now: u128, wall: SystemTime|
                        (core.state(), actions_of(step.actions@), step.stop) == going_on(
                            #[trigger] state::step(s, event, now, wall),
                            has_clipboard,
                        );
                    at = wall;
                }
                step
            },
            _ => warn(
                concat2("Failed to deserialize gossip message: ", cause).as_str(),
                false,
            ),
        },
        GossipInput::NeighborUp { id } => process(
            core,
            BsyncEvent::PeerConnected { id },
            has_clipboard,
        ),
        GossipInput::NeighborDown { id } => process(
            core,
            BsyncEvent::PeerDisconnected { id },
            has_clipboard,
        ),
        GossipInput::Lagged => warn(
            "Warning: gossip stream lagged \u{2014} some clipboard updates were dropped",
            false,
        ),
        GossipInput::Failed { reason } => warn(
            concat2("Gossip error: ", reason.as_str()).as_str(),
            false,
        ),
        GossipInput::Ended => warn("Gossip stream ended", true),
    };
    assert((core.state(), actions_of(step.actions@), step.stop) == on_gossip(
        s,
        given,
        cause@,
        has_clipboard,
        at,
    ));
    step
}

/// Decides on an input: tells the core what happened, and what is to be done about it.
pub fn shell_step(core: &mut BsyncCore, input: ShellInput, has_clipboard: bool) -> (step: ShellStep)
    ensures
        exists|now: u128, wall: SystemTime|
            (final(core).state(), actions_of(step.actions@), step.stop)
                == #[trigger] shell_step_of(old(core).state(), input, has_clipboard, now, wall),
        old(core).state().wf() ==> final(core).state().wf(),
        final(core).zero() == old(core).zero(),
{
    let ghost s = core.state();
    let ghost given = input;
    let ghost mut at: (u128, SystemTime) = arbitrary();
    let step = match input {
        ShellInput::Clipboard { content } => {
            let event = BsyncEvent::LocalClipboardChanged { content };
            let step = process(core, event, has_clipboard);
            proof {
                at = choose|now: u128, wall: SystemTime|
                    (core.state(), actions_of(step.actions@), step.stop) == going_on(
                        #[trigger] state::step(s, event, now, wall),
                        has_clipboard,
                    );
            }
            step
        },
        ShellInput::Network { event } => {
            let ghost view = event@;
            let step = handle_network_event(core, event, has_clipboard);
            proof {
                at.1 = choose|wall: SystemTime|
                    (core.state(), actions_of(step.actions@), step.stop) == #[trigger] on_network(
                        s,
                        view,
                        has_clipboard,
                        wall,
                    );
            }
            step
        },
        ShellInput::NetworkEnded => warn("Network stream ended", true),
        ShellInput::Gossip { input, cause } => {
            let ghost item = input;
            let step = handle_gossip_event(core, input, cause.as_str(), has_clipboard);
            proof {
                at.1 = choose|wall: SystemTime|
                    (core.state(), actions_of(step.actions@), step.stop) == #[trigger] on_gossip(
                        s,
                        item,
                        cause@,
                        has_clipboard,
                        wall,
                    );
            }
            step
        },
        ShellInput::Approval { peer_id, approved } => {
            let event = if approved {
                BsyncEvent::PeerApproved { id: peer_id }
            } else {
                BsyncEvent::PeerRejected { id: peer_id }
            };
            process(core, event, has_clipboard)
        },
        ShellInput::Interrupt => {
            let shown = only(ShellAction::Print { line: "\nShutting down...".to_owned() }, true);
            let ended = process(core, BsyncEvent::Shutdown, has_clipboard);
            let mut actions = shown.actions;
            let mut rest = ended.actions;
            actions.append(&mut rest);
            assert(actions_of(actions@) =~= actions_of(shown.actions@) + actions_of(
                ended.actions@,
            ));
            ShellStep { actions, stop: true }
        },
    };
    assert((core.state(), actions_of(step.actions@), step.stop) == shell_step_of(
        s,
        given,
        has_clipboard,
        at.0,
        at.1,
    ));
    step
}

// ---------------------------------------------------------------------------------------------
// Startup
// ---------------------------------------------------------------------------------------------

/// What the shell does at its start: the state of the core, the actions and the endpoints to
/// enter by.
pub type StartupView = (state::CoreState, Seq<ActionView>, Seq<Seq<u8>>);

/// The core starts, and its ticket is printed. A ticket that the user gave is told to the core,
/// and its endpoint is one to enter by; one that is none is reported.
pub open spec fn startup_of(s: state::CoreState, ticket: Option<Seq<char>>) -> StartupView {
    let (started, shown) = state::start(s);
    let printed = seq![ActionView::Print { line: shown[0]->PrintStatus_message }];
    match ticket {
        Some(given) => match ticket::ticket_in(given) {
            Ok(found) => match identity::endpoint_key(found.endpoint_addr) {
                Some(key) => (state::connect(started, given).0, printed, seq![key]),
                None => (
                    state::connect(started, given).0,
                    printed.push(
                        ActionView::Warn {
                            line: "Invalid endpoint address in ticket: "@
                                + "invalid endpoint address in ticket"@,
                        },
                    ),
                    Seq::empty(),
                ),
            },
            Err(error) => (
                started,
                printed.push(
                    ActionView::Warn { line: "Invalid ticket: "@ + ticket::error_text(error) },
                ),
                Seq::empty(),
            ),
        },
        None => (started, printed, Seq::empty()),
    }
}

/// The line that an effect prints, if it is a status line.
fn print_effect(effect: &BsyncEffect) -> (action: Option<ShellAction>)
    ensures
        match action {
            Some(found) => effect@ is PrintStatus && found@ == (ActionView::Print {
                line: effect@->PrintStatus_message,
            }),
            None => !(effect@ is PrintStatus),
        },
{
    match effect {
        BsyncEffect::PrintStatus { message } => Some(ShellAction::Print { line: message.clone() }),
        _ => None,
    }
}

/// Starts the core, and takes up the ticket of a peer if the user gave one.
pub fn start_shell(core: &mut BsyncCore, connect: Option<String>) -> (startup: Startup)
    ensures
        (
            final(core).state(),
            actions_of(startup.actions@),
            keys_of(startup.bootstrap@),
        ) == startup_of(old(core).state(), text::maybe(connect)),
        old(core).state().wf() ==> final(core).state().wf(),
        final(core).zero() == old(core).zero(),
{
    let ghost s = core.state();
    let mut actions: Vec<ShellAction> = Vec::new();
    let mut bootstrap: Vec<[u8; 32]> = Vec::new();
    let effects = core.process_event(BsyncEvent::StartEndpoint);
    let ghost started = state::start(s);
    assert(state::effects_of(effects@).len() == started.1.len());
    assert(state::effects_of(effects@)[0] == started.1[0]);
    if let Some(action) = print_effect(&effects[0]) {
        actions.push(action);
    }
    let ghost printed = actions_of(actions@);
    assert(printed =~= seq![ActionView::Print { line: started.1[0]->PrintStatus_message }]);
    if let Some(given) = connect {
        let ghost typed = given@;
        match Ticket::decode(given.as_str()) {
            Ok(_) => {
                let effects = core.process_event(BsyncEvent::ConnectToPeer { ticket: given });
                let ghost expected = state::connect(started.0, typed).1;
                assert(state::effects_of(effects@).len() == expected.len());
                assert(state::effects_of(effects@)[0] == expected[0]);
                match &effects[0] {
                    BsyncEffect::ConnectToEndpoint { endpoint_addr } => {
                        match parse_endpoint_addr(endpoint_addr.as_str()) {
                            Ok(key) => bootstrap.push(key),
                            Err(error) => actions.push(
                                ShellAction::Warn {
                                    line: concat2(
                                        "Invalid endpoint address in ticket: ",
                                        error.message().as_str(),
                                    ),
                                },
                            ),
                        }
                    },
                    _ => {},
                }
            },
            Err(error) => actions.push(
                ShellAction::Warn { line: concat2("Invalid ticket: ", error.message().as_str()) },
            ),
        }
    }
    proof {
        let expected = startup_of(s, text::maybe(connect));
        assert(actions_of(actions@) =~= expected.1);
        assert(keys_of(bootstrap@) =~= expected.2);
    }
    Startup { actions, bootstrap }
}

/// How long the shell waits for the first peer when the user gave a ticket, in seconds.
pub const CONNECT_TIMEOUT_SECS: u64 = 30;

/// Whether the shell still waits for its first peer after an input.
pub open spec fn waits_after(waiting: bool, input: ShellInput) -> bool {
    waiting && match input {
        ShellInput::Network { event } => !(event@ is PeerConnected),
        ShellInput::Gossip { input, .. } => !(input is NeighborUp),
        _ => true,
    }
}

/// Whether the shell still waits for its first peer after an input.
pub fn still_waits(waiting: bool, input: &ShellInput) -> (waits: bool)
    ensures
        waits == waits_after(waiting, *input),
{
    waiting && match input {
        ShellInput::Network { event } => match event {
            NetworkEvent::PeerConnected { .. } => false,
            _ => true,
        },
        ShellInput::Gossip { input, .. } => match input {
            GossipInput::NeighborUp { .. } => false,
            _ => true,
        },
        _ => true,
    }
}

/// Whether the shell waits for a first peer at all: when there is an endpoint to enter by.
pub fn waits_at_start(startup: &Startup) -> (waits: bool)
    ensures
        waits == (startup.bootstrap@.len() > 0),
{
    startup.bootstrap.len() > 0
}

/// What the user is told when no peer has connected in time.
pub open spec fn timeout_text() -> Seq<char> {
    "Connection timed out after "@ + text::decimal(CONNECT_TIMEOUT_SECS as nat) + " seconds."@
}

/// What the shell fails with when the time is over: a shell that still waits stops with a message,
/// any other goes on.
pub fn at_deadline(waiting: bool) -> (failure: Option<String>)
    ensures
        match failure {
            Some(message) => waiting && message@ == timeout_text(),
            None => !waiting,
        },
{
    if waiting {
        Some(timeout_message())
    } else {
        None
    }
}

/// What the user is told when no peer has connected in time.
pub fn timeout_message() -> (message: String)
    ensures
        message@ == timeout_text(),
{
    concat3(
        "Connection timed out after ",
        decimal_text(CONNECT_TIMEOUT_SECS).as_str(),
        " seconds.",
    )
}

/// What the user is told when the clipboard cannot be opened.
pub fn clipboard_failure(reason: &str) -> (message: String)
    ensures
        message@ == "Failed to open clipboard: "@ + reason@
            + "\nWayland: ensure compositor supports wlr-data-control or ext-data-control-v1.\nUse --no-clipboard to run without clipboard sync."@,
{
    concat3(
        "Failed to open clipboard: ",
        reason,
        "\nWayland: ensure compositor supports wlr-data-control or ext-data-control-v1.\nUse --no-clipboard to run without clipboard sync.",
    )
}

// ---------------------------------------------------------------------------------------------
// Answers
// ---------------------------------------------------------------------------------------------

/// Whether a line means yes: the letter y, small or capital, with white space around it or none.
pub open spec fn means_yes(line: Seq<char>) -> bool {
    text::trimmed(line) == "y"@ || text::trimmed(line) == "Y"@
}

/// Whether the line that was read, if one was, allows a peer to connect.
pub fn approves(line: Option<String>) -> (approved: bool)
    ensures
        approved == (line is Some && means_yes(line->0@)),
{
    match line {
        Some(line) => {
            let answer = trim(line.as_str());
            answer == "y".to_owned() || answer == "Y".to_owned()
        },
        None => false,
    }
}

// ---------------------------------------------------------------------------------------------
// Laws
// ---------------------------------------------------------------------------------------------

/// What the shell does about each effect of the core. Content is sent as it is, under the name that
/// the effect gives; it is written as it is, if there is a clipboard; what is to be printed is
/// printed; and the question about a peer names that peer and is about it.
pub proof fn law_effects_are_carried_out(effect: state::EffectView, has_clipboard: bool)
    ensures
        match effect {
            state::EffectView::BroadcastMessage {
                message: message::MessageView::ClipboardText { origin, content },
                ..
            } => action_for(effect, has_clipboard) == Some(
                ActionView::Broadcast { content: message::ContentView::Text(content), origin },
            ),
            state::EffectView::BroadcastMessage { .. } => action_for(
                effect,
                has_clipboard,
            ) matches Some(ActionView::Warn { .. }),
            state::EffectView::BroadcastImage { origin, png_data, .. } => action_for(
                effect,
                has_clipboard,
            ) == Some(
                ActionView::Broadcast { content: message::ContentView::Image(png_data), origin },
            ),
            state::EffectView::WriteClipboard { content, .. } => {
                &&& has_clipboard ==> action_for(effect, has_clipboard) == Some(
                    ActionView::Write { content },
                )
                &&& !has_clipboard ==> action_for(effect, has_clipboard) is None
            },
            state::EffectView::PrintStatus { message } => action_for(effect, has_clipboard)
                == Some(ActionView::Print { line: message }),
            state::EffectView::PromptApproval { peer_id: asked, .. } => action_for(
                effect,
                has_clipboard,
            ) matches Some(ActionView::Ask { peer_id, prompt }) && peer_id == asked
                && text::occurs_in(asked, prompt),
            _ => action_for(effect, has_clipboard) is None,
        },
{
    if let state::EffectView::PromptApproval { peer_id, .. } = effect {
        text::lemma_occurs("Peer "@, peer_id, " wants to connect. Allow? [y/N]: "@);
    }
}

/// The actions about some effects, each of which calls for one, are those actions in order.
proof fn lemma_actions_in_order(effects: Seq<state::EffectView>, has_clipboard: bool)
    requires
        forall|i: int|
            0 <= i < effects.len() ==> action_for(#[trigger] effects[i], has_clipboard) is Some,
    ensures
        actions_for(effects, has_clipboard).len() == effects.len(),
        forall|i: int|
            0 <= i < effects.len() ==> Some(#[trigger] actions_for(effects, has_clipboard)[i])
                == action_for(effects[i], has_clipboard),
    decreases effects.len(),
{
    if effects.len() > 0 {
        let init = effects.drop_last();
        assert forall|i: int| 0 <= i < init.len() implies action_for(
            #[trigger] init[i],
            has_clipboard,
        ) is Some by {
            assert(effects[i] == init[i]);
        }
        lemma_actions_in_order(init, has_clipboard);
        assert(effects[effects.len() - 1] == effects.last());
        assert forall|i: int| 0 <= i < effects.len() implies Some(
            #[trigger] actions_for(effects, has_clipboard)[i],
        ) == action_for(effects[i], has_clipboard) by {
            if i < init.len() {
                assert(init[i] == effects[i]);
                assert(actions_for(init, has_clipboard)[i] == actions_for(
                    effects,
                    has_clipboard,
                )[i]);
            }
        }
    }
}

/// A copy by the user is sent once for each room that the core is in, as it was copied and in the
/// name of the core, and nothing else is done about it; or nothing is done at all.
pub proof fn law_copy_is_sent_as_it_is(
    s: state::CoreState,
    content: ClipboardContent,
    has_clipboard: bool,
    now: u128,
    wall: SystemTime,
    i: int,
)
    ensures
        ({
            let step = shell_step_of(
                s,
                ShellInput::Clipboard { content },
                has_clipboard,
                now,
                wall,
            );
            &&& !step.2
            &&& step.1.len() == 0 || step.1.len() == s.rooms.len()
            &&& 0 <= i < step.1.len() ==> step.1[i] == (ActionView::Broadcast {
                content: content@,
                origin: s.peer_id,
            })
        }),
{
    lemma_copy_is_sent(s, content@, has_clipboard, now, wall);
}

proof fn lemma_copy_is_sent(
    s: state::CoreState,
    content: message::ContentView,
    has_clipboard: bool,
    now: u128,
    wall: SystemTime,
)
    ensures
        ({
            let effects = state::local_change(s, content, now, wall).1;
            let actions = actions_for(effects, has_clipboard);
            &&& actions.len() == effects.len()
            &&& effects.len() == 0 || effects.len() == s.rooms.len()
            &&& forall|i: int|
                0 <= i < actions.len() ==> #[trigger] actions[i] == (ActionView::Broadcast {
                    content,
                    origin: s.peer_id,
                })
        }),
{
    let effects = state::local_change(s, content, now, wall).1;
    assert forall|i: int| 0 <= i < effects.len() implies action_for(
        #[trigger] effects[i],
        has_clipboard,
    ) == Some(ActionView::Broadcast { content, origin: s.peer_id }) by {
        assert(effects[i] == state::broadcast_in(s.rooms[i].name, s.peer_id, content));
    }
    lemma_actions_in_order(effects, has_clipboard);
    let actions = actions_for(effects, has_clipboard);
    assert forall|i: int| 0 <= i < actions.len() implies #[trigger] actions[i] == (
    ActionView::Broadcast { content, origin: s.peer_id }) by {
        assert(Some(actions[i]) == action_for(effects[i], has_clipboard));
    }
}

/// Text that the user copies on one machine is what is written to the clipboard of another: when
/// the shell of the first has an action to do about the copy, the second reads what goes out for
/// that action in one of the rooms, has connected the first in that room, and has not just applied
/// the text already. The second then does not broadcast it in turn when its clipboard reports it.
pub proof fn law_copy_reaches_the_peer(
    here: state::CoreState,
    there: state::CoreState,
    content: Seq<char>,
    has_clipboard: bool,
    now: u128,
    wall: SystemTime,
    i: int,
    bytes: Vec<u8>,
    later: u128,
)
    requires
        ({
            let copied = message::ContentView::Text(content);
            let sent = actions_for(
                state::local_change(here, copied, now, wall).1,
                has_clipboard,
            );
            let out = network::outgoing_of(
                sent[i]->Broadcast_content,
                sent[i]->Broadcast_origin,
            );
            &&& 0 <= i < sent.len()
            &&& out is Ready ==> message::message_in(bytes@) == Some(out->Ready_message)
            &&& state::connected_in(there, here.rooms[i].name).contains(here.peer_id)
            &&& there.last_applied != Some(message::content_digest(copied))
        }),
    ensures
        ({
            let copied = message::ContentView::Text(content);
            let received = network::gossip_step_of(GossipInput::Received { content: bytes });
            let applied = network_step(
                there,
                here.rooms[i].name,
                received->Emit_event,
                wall,
            );
            &&& received is Emit
            &&& actions_for(applied.1, true) == seq![ActionView::Write { content: copied }]
            &&& state::local_change(applied.0, copied, later, wall).1.len() == 0
        }),
{
    let copied = message::ContentView::Text(content);
    lemma_copy_is_sent(here, copied, has_clipboard, now, wall);
    let received = network::gossip_step_of(GossipInput::Received { content: bytes });
    let step = network_step(there, here.rooms[i].name, received->Emit_event, wall);
    assert(step.1.drop_last() =~= Seq::<state::EffectView>::empty());
    assert(actions_for(step.1.drop_last(), true).len() == 0);
}

/// One effect that calls for an action leads to that action alone.
proof fn lemma_one_action(effect: state::EffectView, has_clipboard: bool)
    ensures
        actions_for(seq![effect], has_clipboard) == match action_for(effect, has_clipboard) {
            Some(action) => seq![action],
            None => Seq::empty(),
        },
{
    let effects = seq![effect];
    assert(effects.drop_last() =~= Seq::<state::EffectView>::empty());
    assert(actions_for(effects.drop_last(), has_clipboard) =~= Seq::<ActionView>::empty());
    match action_for(effect, has_clipboard) {
        Some(action) => {
            assert(actions_for(effects, has_clipboard) =~= seq![action]);
        },
        None => {},
    }
}

/// What the network layer tells is told to the core as it is, as something that happened in the
/// shell's room: a message of a connected peer that was not applied last is written, if there is a
/// clipboard, and nothing else is done; and the user is asked about a new peer, unless peers are
/// accepted without asking.
pub proof fn law_network_is_listened_to(
    s: state::CoreState,
    sender: Seq<char>,
    content: message::ContentView,
    id: Seq<char>,
    has_clipboard: bool,
    wall: SystemTime,
)
    ensures
        ({
            let message = network::NetworkEventView::MessageReceived { from: sender, content };
            let (after, actions, stop) = on_network(s, message, has_clipboard, wall);
            let applies = state::connected_in(s, s.room).contains(sender) && s.last_applied
                != Some(message::content_digest(content));
            &&& !stop
            &&& applies && has_clipboard ==> actions == seq![ActionView::Write { content }]
            &&& !(applies && has_clipboard) ==> actions.len() == 0
            &&& applies ==> after.last_applied == Some(message::content_digest(content))
            &&& !applies ==> after == s
        }),
        ({
            let event = network::NetworkEventView::PeerConnected { id };
            let (after, actions, stop) = on_network(s, event, has_clipboard, wall);
            let is_new = state::knows(s, s.room) && !state::connected_in(s, s.room).contains(id)
                && !state::pending_in(s, s.room).contains(id);
            &&& !stop
            &&& !is_new ==> after == s && actions.len() == 0
            &&& is_new && !s.auto_accept ==> actions.len() == 1 && actions[0] is Ask
                && actions[0]->Ask_peer_id == id && state::pending_in(after, s.room).contains(id)
                && !state::connected_in(after, s.room).contains(id)
            &&& is_new && s.auto_accept ==> actions.len() == 1 && actions[0] is Print
                && state::connected_in(after, s.room).contains(id)
        }),
        ({
            let event = network::NetworkEventView::PeerDisconnected { id };
            let (after, actions, stop) = on_network(s, event, has_clipboard, wall);
            &&& !stop
            &&& !state::connected_in(after, s.room).contains(id)
            &&& !state::pending_in(after, s.room).contains(id)
            &&& state::knows(s, s.room) ==> actions == seq![
                ActionView::Print { line: "Peer disconnected: "@ + id },
            ]
        }),
        ({
            let (after, actions, stop) = on_network(
                s,
                network::NetworkEventView::Lagged,
                has_clipboard,
                wall,
            );
            &&& !stop
            &&& after == s
            &&& actions.len() == 1 && actions[0] is Warn
        }),
{
    let room = s.room;
    let connected = state::connected_in(s, room);
    let pending = state::pending_in(s, room);
    let hash = message::content_digest(content);
    lemma_one_action(state::EffectView::WriteClipboard { content, write_hash: hash }, has_clipboard);
    lemma_one_action(state::EffectView::PromptApproval { room, peer_id: id }, has_clipboard);
    lemma_one_action(
        state::EffectView::PrintStatus {
            message: "Peer connected: "@ + id + " (auto-accepted)"@,
        },
        has_clipboard,
    );
    lemma_one_action(
        state::EffectView::PrintStatus { message: "Peer disconnected: "@ + id },
        has_clipboard,
    );
    laws::law_disconnect_forgets(s, room, id, content, wall);
    if state::knows(s, room) && !connected.contains(id) && !pending.contains(id) {
        state::lemma_push_contains(connected, id);
        state::lemma_push_contains(pending, id);
        state::lemma_with_peers(s, room, connected.push(id), pending);
        state::lemma_with_peers(s, room, connected, pending.push(id));
        let plain = state::with_peers(s, room, connected.push(id), pending);
        let after = state::peer_connected(s, room, id).0;
        if s.auto_accept {
            assert(after.rooms == plain.rooms);
            assert(state::connected_in(after, room) == state::connected_in(plain, room));
        }
    }
}

/// The user's answer about a peer that waits is what becomes of the peer: with a yes it is connected
/// in the shell's room, with a no it is not, and in either case it waits no more.
pub proof fn law_answer_decides(
    s: state::CoreState,
    peer_id: String,
    approved: bool,
    has_clipboard: bool,
    now: u128,
    wall: SystemTime,
)
    requires
        s.wf(),
        state::pending_in(s, s.room).contains(peer_id@),
    ensures
        ({
            let input = ShellInput::Approval { peer_id, approved };
            let (after, actions, stop) = shell_step_of(s, input, has_clipboard, now, wall);
            &&& !stop
            &&& state::connected_in(after, s.room).contains(peer_id@) <==> approved
            &&& !state::pending_in(after, s.room).contains(peer_id@)
            &&& actions == seq![
                ActionView::Print {
                    line: (if approved {
                        "Peer approved: "@
                    } else {
                        "Peer rejected: "@
                    }) + peer_id@,
                },
            ]
        }),
{
    let room = s.room;
    let id = peer_id@;
    let connected = state::connected_in(s, room);
    let pending = state::pending_in(s, room);
    state::lemma_place(s.rooms, room);
    assert(state::room_named(s, room).wf());
    state::lemma_push_contains(connected, id);
    text::lemma_without(pending, id);
    let waiting = text::without(pending, id);
    state::lemma_with_peers(s, room, connected.push(id), waiting);
    state::lemma_with_peers(s, room, connected, waiting);
    let plain = state::with_peers(s, room, connected.push(id), waiting);
    let yes = state::peer_approved(s, room, id).0;
    assert(yes.rooms == plain.rooms);
    assert(state::connected_in(yes, room) == state::connected_in(plain, room));
    assert(state::pending_in(yes, room) == state::pending_in(plain, room));
    lemma_one_action(
        state::EffectView::PrintStatus { message: "Peer approved: "@ + id },
        has_clipboard,
    );
    lemma_one_action(
        state::EffectView::PrintStatus { message: "Peer rejected: "@ + id },
        has_clipboard,
    );
}

/// The shell stops when the user asks for it or when the network is over, and on no other input but
/// the end of a gossip stream that it reads itself. Before it stops, it says so.
pub proof fn law_when_the_shell_stops(
    s: state::CoreState,
    input: ShellInput,
    has_clipboard: bool,
    now: u128,
    wall: SystemTime,
)
    ensures
        ({
            let (after, actions, stop) = shell_step_of(s, input, has_clipboard, now, wall);
            &&& stop <==> input is Interrupt || input is NetworkEnded || (
            input matches ShellInput::Gossip { input: item, .. } && item is Ended)
            &&& stop ==> actions.len() == 1 && (actions[0] is Print || actions[0] is Warn)
            &&& input is Interrupt ==> actions == seq![
                ActionView::Print { line: "\nShutting down..."@ },
            ]
            &&& after.history.len() > s.history.len() ==> input is Clipboard || input is Network
                || input is Gossip
        }),
{
    lemma_one_action(state::EffectView::Shutdown, has_clipboard);
    if input is Interrupt {
        let (after, actions, stop) = shell_step_of(s, input, has_clipboard, now, wall);
        assert(actions =~= seq![ActionView::Print { line: "\nShutting down..."@ }]);
    }
}

/// A shell that reads the gossip stream itself does with a text, and with peers that come and go,
/// what it does when the network layer tells it of them.
pub proof fn law_gossip_is_like_the_network(
    s: state::CoreState,
    bytes: Vec<u8>,
    id: String,
    cause: Seq<char>,
    has_clipboard: bool,
    wall: SystemTime,
)
    ensures
        message::message_in(bytes@) matches Some(
            message::MessageView::ClipboardText { origin, content },
        ) ==> on_gossip(s, GossipInput::Received { content: bytes }, cause, has_clipboard, wall)
            == on_network(
            s,
            network::NetworkEventView::MessageReceived {
                from: origin,
                content: message::ContentView::Text(content),
            },
            has_clipboard,
            wall,
        ),
        on_gossip(s, GossipInput::NeighborUp { id }, cause, has_clipboard, wall) == on_network(
            s,
            network::NetworkEventView::PeerConnected { id: id@ },
            has_clipboard,
            wall,
        ),
        on_gossip(s, GossipInput::NeighborDown { id }, cause, has_clipboard, wall) == on_network(
            s,
            network::NetworkEventView::PeerDisconnected { id: id@ },
            has_clipboard,
            wall,
        ),
        on_gossip(s, GossipInput::Lagged, cause, has_clipboard, wall) == on_network(
            s,
            network::NetworkEventView::Lagged,
            has_clipboard,
            wall,
        ),
        !(message::message_in(bytes@) matches Some(message::MessageView::ClipboardText { .. }))
            ==> on_gossip(
            s,
            GossipInput::Received { content: bytes },
            cause,
            has_clipboard,
            wall,
        ) == (
            s,
            seq![ActionView::Warn { line: "Failed to deserialize gossip message: "@ + cause }],
            false,
        ),
        on_gossip(s, GossipInput::Failed { reason: id }, cause, has_clipboard, wall) == (
            s,
            seq![ActionView::Warn { line: "Gossip error: "@ + id@ }],
            false,
        ),
{
}

/// Starting the shell with the ticket of a peer enters by the endpoint of that ticket, and by no
/// other; without a ticket, or with one that is none or names no endpoint, there is none to enter
/// by, and the user is warned of a ticket that leads nowhere. In any case the peer id, the ticket
/// and the room are printed first.
pub proof fn law_startup_follows_the_ticket(s: state::CoreState, ticket: Option<Seq<char>>)
    ensures
        ({
            let (after, actions, bootstrap) = startup_of(s, ticket);
            let key = match ticket {
                Some(given) => match ticket::ticket_in(given) {
                    Ok(found) => identity::endpoint_key(found.endpoint_addr),
                    Err(_) => None,
                },
                None => None,
            };
            &&& bootstrap == match key {
                Some(bytes) => seq![bytes],
                None => Seq::empty(),
            }
            &&& actions.len() == if ticket is Some && key is None {
                2int
            } else {
                1
            }
            &&& actions.len() == 2 ==> actions[1] is Warn
            &&& actions[0] is Print
            &&& text::occurs_in(s.peer_id, actions[0]->Print_line)
            &&& text::occurs_in(s.room, actions[0]->Print_line)
            &&& text::occurs_in(laws::invitation(s, s.room), actions[0]->Print_line)
            &&& after.rooms == s.rooms
            &&& after.history == s.history
        }),
{
    laws::law_start_tells_who_and_where(s);
}

/// Waiting for a first peer ends when one connects, and only then; who does not wait never starts
/// to.
pub proof fn law_waiting_ends_with_a_peer(waiting: bool, input: ShellInput)
    ensures
        ({
            let arrives = match input {
                ShellInput::Network { event } => event@ is PeerConnected,
                ShellInput::Gossip { input: item, .. } => item is NeighborUp,
                _ => false,
            };
            waits_after(waiting, input) <==> waiting && !arrives
        }),
{
}

/// Only the letter y means yes, small or capital, with nothing around it but white space.
pub proof fn law_only_y_means_yes(line: Seq<char>)
    ensures
        means_yes(line) <==> text::trimmed(line) == seq!['y'] || text::trimmed(line) == seq!['Y'],
{
    reveal_strlit("y");
    reveal_strlit("Y");
    assert("y"@ =~= seq!['y']);
    assert("Y"@ =~= seq!['Y']);
}

/// An image that the user copies on one machine is what is written to the clipboard of another:
/// when the first broadcasts it in a room, the second gets the message for the blob that it was
/// stored as, the blob fetched is the one stored, and the second has connected the first in that
/// room and has not just applied the image already. The second then does not broadcast it in turn
/// when its clipboard reports it.
pub proof fn law_image_reaches_the_peer(
    here: state::CoreState,
    there: state::CoreState,
    png_data: Seq<u8>,
    has_clipboard: bool,
    now: u128,
    wall: SystemTime,
    i: int,
    from: Seq<u8>,
    hash: Seq<u8>,
    bytes: Vec<u8>,
    blob: Vec<u8>,
    later: u128,
)
    requires
        ({
            let copied = message::ContentView::Image(png_data);
            let sent = actions_for(
                state::local_change(here, copied, now, wall).1,
                has_clipboard,
            );
            &&& 0 <= i < sent.len()
            &&& identity::endpoint_key(here.peer_id) == Some(from)
            &&& message::message_in(bytes@) == Some(
                message::MessageView::ClipboardImage { origin: here.peer_id, hash },
            )
            &&& blob@ == png_data
            &&& state::connected_in(there, here.rooms[i].name).contains(here.peer_id)
            &&& there.last_applied != Some(message::content_digest(copied))
        }),
    ensures
        ({
            let copied = message::ContentView::Image(png_data);
            let sent = actions_for(
                state::local_change(here, copied, now, wall).1,
                has_clipboard,
            );
            let fetched = network::blob_step_of(here.peer_id, Some(blob));
            let applied = network_step(
                there,
                here.rooms[i].name,
                fetched->Emit_event,
                wall,
            );
            &&& sent[i] == (ActionView::Broadcast { content: copied, origin: here.peer_id })
            &&& network::outgoing_of(copied, here.peer_id) == (network::OutgoingView::Upload {
                png_data,
            })
            &&& network::gossip_step_of(GossipInput::Received { content: bytes }) == (
            network::GossipStepView::Fetch { origin: here.peer_id, from, hash })
            &&& fetched is Emit
            &&& actions_for(applied.1, true) == seq![ActionView::Write { content: copied }]
            &&& state::local_change(applied.0, copied, later, wall).1.len() == 0
        }),
{
    let copied = message::ContentView::Image(png_data);
    lemma_copy_is_sent(here, copied, has_clipboard, now, wall);
    network::law_image_arrives(bytes, here.peer_id, from, hash, blob);
    let fetched = network::blob_step_of(here.peer_id, Some(blob));
    let step = network_step(there, here.rooms[i].name, fetched->Emit_event, wall);
    assert(step.1.drop_last() =~= Seq::<state::EffectView>::empty());
    assert(actions_for(step.1.drop_last(), true).len() == 0);
}

/// Without a clipboard nothing is ever written to one.
pub proof fn law_no_clipboard_no_writes(effects: Seq<state::EffectView>, i: int)
    requires
        0 <= i < actions_for(effects, false).len(),
    ensures
        !(actions_for(effects, false)[i] is Write),
    decreases effects.len(),
{
    if effects.len() > 0 {
        let before = actions_for(effects.drop_last(), false);
        if i < before.len() {
            law_no_clipboard_no_writes(effects.drop_last(), i);
        }
    }
}

/// What a peer sends that is not connected in the shell's room changes nothing, and nothing is
/// done about it.
pub proof fn law_strangers_are_ignored(
    s: state::CoreState,
    sender: Seq<char>,
    content: message::ContentView,
    has_clipboard: bool,
    wall: SystemTime,
)
    requires
        !state::connected_in(s, s.room).contains(sender),
    ensures
        on_network(
            s,
            network::NetworkEventView::MessageReceived { from: sender, content },
            has_clipboard,
            wall,
        ) == (s, Seq::<ActionView>::empty(), false),
{
}

/// What the shell is told by the network layer, or reads of the gossip stream itself, is what it
/// decides on, and of nothing else; the end of the network layer changes nothing.
pub proof fn law_inputs_are_passed_on(
    s: state::CoreState,
    input: ShellInput,
    has_clipboard: bool,
    now: u128,
    wall: SystemTime,
)
    ensures
        input matches ShellInput::Network { event } ==> shell_step_of(
            s,
            input,
            has_clipboard,
            now,
            wall,
        ) == on_network(s, event@, has_clipboard, wall),
        input matches ShellInput::Gossip { input: item, cause } ==> shell_step_of(
            s,
            input,
            has_clipboard,
            now,
            wall,
        ) == on_gossip(s, item, cause@, has_clipboard, wall),
        input is NetworkEnded ==> shell_step_of(s, input, has_clipboard, now, wall).0 == s,
        input is Interrupt ==> shell_step_of(s, input, has_clipboard, now, wall).0 == (
        state::CoreState { status: "shutting down..."@, ..s }),
{
}

}
