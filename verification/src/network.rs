//! What the network layer decides: which gossip becomes an event for the shell, and which bytes
//! go out for clipboard content.
use vstd::prelude::*;
use crate::identity;
use crate::identity::parse_endpoint_addr;
use crate::message;
use crate::message::{ClipboardContent, GossipMessage};
use crate::state;
use crate::state::RoomEvent;
use crate::text;
use crate::text::{concat3, decimal_text};
use crate::wire;

verus! {

/// Event from the network layer to the shell.
///
/// For images, the blob has already been downloaded: `content` holds the full PNG bytes.
#[derive(Debug)]
pub enum NetworkEvent {
    MessageReceived { from: String, content: ClipboardContent },
    PeerConnected { id: String },
    PeerDisconnected { id: String },
    Lagged,
}

/// The mathematical value of a network event.
pub enum NetworkEventView {
    MessageReceived { from: Seq<char>, content: message::ContentView },
    PeerConnected { id: Seq<char> },
    PeerDisconnected { id: Seq<char> },
    Lagged,
}

/// What the gossip stream yields.
#[derive(Debug)]
pub enum GossipInput {
    /// A message arrived, with these bytes.
    Received { content: Vec<u8> },
    NeighborUp { id: String },
    NeighborDown { id: String },
    /// Messages were lost because they were not read in time.
    Lagged,
    /// The stream failed.
    Failed { reason: String },
    /// The stream is over.
    Ended,
}

/// What the task that reads the gossip stream does next.
#[derive(Debug)]
pub enum GossipStep {
    /// Hand the event to the shell and read on.
    Emit { event: NetworkEvent },
    /// Download the blob `hash` from the endpoint `from`, then see `blob_step`.
    Fetch { origin: String, from: [u8; 32], hash: [u8; 32] },
    /// Read on.
    Skip,
    /// Stop reading.
    Stop,
}

/// The mathematical value of such a step.
pub enum GossipStepView {
    Emit { event: NetworkEventView },
    Fetch { origin: Seq<char>, from: Seq<u8>, hash: Seq<u8> },
    Skip,
    Stop,
}

/// What has to happen before clipboard content can be broadcast.
#[derive(Debug)]
pub enum Outgoing {
    /// Nothing: this is the message.
    Ready { message: GossipMessage },
    /// The image is stored as a blob, and the message names its hash (see `image_message`).
    Upload { png_data: Vec<u8> },
}

/// The mathematical value of this.
pub enum OutgoingView {
    Ready { message: message::MessageView },
    Upload { png_data: Seq<u8> },
}

impl View for NetworkEvent {
    type V = NetworkEventView;

    open spec fn view(&self) -> NetworkEventView {
        match *self {
            NetworkEvent::MessageReceived { from, content } => NetworkEventView::MessageReceived {
                from: from@,
                content: content@,
            },
            NetworkEvent::PeerConnected { id } => NetworkEventView::PeerConnected { id: id@ },
            NetworkEvent::PeerDisconnected { id } => NetworkEventView::PeerDisconnected { id: id@ },
            NetworkEvent::Lagged => NetworkEventView::Lagged,
        }
    }
}

impl View for GossipStep {
    type V = GossipStepView;

    open spec fn view(&self) -> GossipStepView {
        match *self {
            GossipStep::Emit { event } => GossipStepView::Emit { event: event@ },
            GossipStep::Fetch { origin, from, hash } => GossipStepView::Fetch {
                origin: origin@,
                from: from@,
                hash: hash@,
            },
            GossipStep::Skip => GossipStepView::Skip,
            GossipStep::Stop => GossipStepView::Stop,
        }
    }
}

impl View for Outgoing {
    type V = OutgoingView;

    open spec fn view(&self) -> OutgoingView {
        match *self {
            Outgoing::Ready { message } => OutgoingView::Ready { message: message@ },
            Outgoing::Upload { png_data } => OutgoingView::Upload { png_data: png_data@ },
        }
    }
}

/// The step that a message calls for. Text is there already; an image has to be fetched from its
/// author, and is passed over if the author's name is no endpoint.
pub open spec fn message_step_of(message: message::MessageView) -> GossipStepView {
    match message {
        message::MessageView::ClipboardText { origin, content } => GossipStepView::Emit {
            event: NetworkEventView::MessageReceived {
                from: origin,
                content: message::ContentView::Text(content),
            },
        },
        message::MessageView::ClipboardImage { origin, hash } => match identity::endpoint_key(
            origin,
        ) {
            Some(from) => GossipStepView::Fetch { origin, from, hash },
            None => GossipStepView::Skip,
        },
    }
}

/// The step that an item of the gossip stream calls for. Bytes that are no message are passed
/// over.
pub open spec fn gossip_step_of(input: GossipInput) -> GossipStepView {
    match input {
        GossipInput::Received { content } => match message::message_in(content@) {
            Some(message) => message_step_of(message),
            None => GossipStepView::Skip,
        },
        GossipInput::NeighborUp { id } => GossipStepView::Emit {
            event: NetworkEventView::PeerConnected { id: id@ },
        },
        GossipInput::NeighborDown { id } => GossipStepView::Emit {
            event: NetworkEventView::PeerDisconnected { id: id@ },
        },
        GossipInput::Lagged => GossipStepView::Emit { event: NetworkEventView::Lagged },
        GossipInput::Failed { .. } => GossipStepView::Stop,
        GossipInput::Ended => GossipStepView::Stop,
    }
}

/// The step that the outcome of a download calls for.
pub open spec fn blob_step_of(origin: Seq<char>, blob: Option<Vec<u8>>) -> GossipStepView {
    match blob {
        Some(png_data) => GossipStepView::Emit {
            event: NetworkEventView::MessageReceived {
                from: origin,
                content: message::ContentView::Image(png_data@),
            },
        },
        None => GossipStepView::Skip,
    }
}

/// What has to happen before content of `origin` can be broadcast.
pub open spec fn outgoing_of(content: message::ContentView, origin: Seq<char>) -> OutgoingView {
    match content {
        message::ContentView::Text(content) => OutgoingView::Ready {
            message: message::MessageView::ClipboardText { origin, content },
        },
        message::ContentView::Image(png_data) => OutgoingView::Upload { png_data },
    }
}

/// What an event of the network layer means for the room it comes from. Lost messages mean
/// nothing to it.
pub open spec fn happened(event: NetworkEventView) -> Option<state::RoomEventView> {
    match event {
        NetworkEventView::MessageReceived { from, content } => Some(
            state::RoomEventView::MessageReceived { from, content },
        ),
        NetworkEventView::PeerConnected { id } => Some(state::RoomEventView::PeerConnected { id }),
        NetworkEventView::PeerDisconnected { id } => Some(
            state::RoomEventView::PeerDisconnected { id },
        ),
        NetworkEventView::Lagged => None,
    }
}

/// What an event of the network layer means for the room it comes from.
pub fn room_event(event: NetworkEvent) -> (meaning: Option<RoomEvent>)
    ensures
        match meaning {
            Some(found) => happened(event@) == Some(found@),
            None => happened(event@) is None,
        },
{
    match event {
        NetworkEvent::MessageReceived { from, content } => Some(
            RoomEvent::MessageReceived { from, content },
        ),
        NetworkEvent::PeerConnected { id } => Some(RoomEvent::PeerConnected { id }),
        NetworkEvent::PeerDisconnected { id } => Some(RoomEvent::PeerDisconnected { id }),
        NetworkEvent::Lagged => None,
    }
}

/// Decides on a message that arrived.
pub fn message_step(message: GossipMessage) -> (step: GossipStep)
    ensures
        step@ == message_step_of(message@),
{
    match message {
        GossipMessage::ClipboardText { origin, content } => GossipStep::Emit {
            event: NetworkEvent::MessageReceived {
                from: origin,
                content: ClipboardContent::Text(content),
            },
        },
        GossipMessage::ClipboardImage { origin, hash } => match parse_endpoint_addr(
            origin.as_str(),
        ) {
            Ok(from) => GossipStep::Fetch { origin, from, hash },
            Err(_) => GossipStep::Skip,
        },
    }
}

/// Decides on an item of the gossip stream.
pub fn gossip_step(input: GossipInput) -> (step: GossipStep)
    ensures
        step@ == gossip_step_of(input),
{
    match input {
        GossipInput::Received { content } => match GossipMessage::from_json(content.as_slice()) {
            Some(message) => message_step(message),
            None => GossipStep::Skip,
        },
        GossipInput::NeighborUp { id } => GossipStep::Emit {
            event: NetworkEvent::PeerConnected { id },
        },
        GossipInput::NeighborDown { id } => GossipStep::Emit {
            event: NetworkEvent::PeerDisconnected { id },
        },
        GossipInput::Lagged => GossipStep::Emit { event: NetworkEvent::Lagged },
        GossipInput::Failed { .. } => GossipStep::Stop,
        GossipInput::Ended => GossipStep::Stop,
    }
}

/// Decides on the outcome of a download: the bytes of the blob, or nothing.
pub fn blob_step(origin: String, blob: Option<Vec<u8>>) -> (step: GossipStep)
    ensures
        step@ == blob_step_of(origin@, blob),
{
    match blob {
        Some(png_data) => GossipStep::Emit {
            event: NetworkEvent::MessageReceived {
                from: origin,
                content: ClipboardContent::Image(png_data),
            },
        },
        None => GossipStep::Skip,
    }
}

/// Decides how clipboard content goes out.
pub fn outgoing(content: &ClipboardContent, origin: &str) -> (outgoing: Outgoing)
    ensures
        outgoing@ == outgoing_of(content@, origin@),
{
    match content {
        ClipboardContent::Text(text) => Outgoing::Ready {
            message: GossipMessage::ClipboardText {
                origin: origin.to_owned(),
                content: text.clone(),
            },
        },
        ClipboardContent::Image(png_data) => {
            let copy = png_data.clone();
            assert(copy@ =~= png_data@);
            Outgoing::Upload { png_data: copy }
        },
    }
}

/// The message for an image that was stored as a blob.
pub fn image_message(origin: &str, hash: [u8; 32]) -> (message: GossipMessage)
    ensures
        message@ == (message::MessageView::ClipboardImage { origin: origin@, hash: hash@ }),
{
    GossipMessage::ClipboardImage { origin: origin.to_owned(), hash }
}

/// What the user is told of a message that is too large to be sent.
pub open spec fn oversize_text(size: nat) -> Seq<char> {
    "Message too large ("@ + text::decimal(size) + " bytes). Skipping sync."@
}

/// What the user is told of a message that is too large to be sent.
pub fn oversize_notice(size: usize) -> (notice: String)
    ensures
        notice@ == oversize_text(size as nat),
{
    concat3("Message too large (", decimal_text(size as u64).as_str(), " bytes). Skipping sync.")
}

// ---------------------------------------------------------------------------------------------
// Laws
// ---------------------------------------------------------------------------------------------

/// Text that one peer sends reaches the shell of another unchanged, under the name of its author:
/// whenever `bytes` is what `GossipMessage::payload` gives for it.
pub proof fn law_text_arrives(bytes: Vec<u8>, content: Seq<char>, origin: Seq<char>)
    requires
        message::message_in(bytes@) == Some(
            outgoing_of(message::ContentView::Text(content), origin)->Ready_message,
        ),
    ensures
        gossip_step_of(GossipInput::Received { content: bytes }) == (GossipStepView::Emit {
            event: NetworkEventView::MessageReceived {
                from: origin,
                content: message::ContentView::Text(content),
            },
        }),
{
}

/// An image that one peer sends is fetched by another from its author under the hash of its blob,
/// and then reaches the shell unchanged.
pub proof fn law_image_arrives(
    bytes: Vec<u8>,
    origin: Seq<char>,
    from: Seq<u8>,
    hash: Seq<u8>,
    blob: Vec<u8>,
)
    requires
        message::message_in(bytes@) == Some(
            message::MessageView::ClipboardImage { origin, hash },
        ),
        identity::endpoint_key(origin) == Some(from),
    ensures
        gossip_step_of(GossipInput::Received { content: bytes }) == (GossipStepView::Fetch {
            origin,
            from,
            hash,
        }),
        blob_step_of(origin, Some(blob)) == (GossipStepView::Emit {
            event: NetworkEventView::MessageReceived {
                from: origin,
                content: message::ContentView::Image(blob@),
            },
        }),
{
}

/// A message of a kind that is not known here is passed over, and the stream is read on.
pub proof fn law_unknown_message_is_skipped(bytes: Vec<u8>, kind: Seq<char>, at: int)
    requires
        wire::tag_at(bytes@, 0) == Some((kind, at)),
        kind != "ClipboardText"@,
        kind != "ClipboardImage"@,
    ensures
        gossip_step_of(GossipInput::Received { content: bytes }) == GossipStepView::Skip,
{
}

/// An image whose author is no endpoint, or whose blob could not be fetched, is passed over, and so
/// are bytes that are no message.
pub proof fn law_what_cannot_be_had_is_skipped(bytes: Vec<u8>, origin: Seq<char>, hash: Seq<u8>)
    ensures
        message::message_in(bytes@) == Some(
            message::MessageView::ClipboardImage { origin, hash },
        ) && identity::endpoint_key(origin) is None ==> gossip_step_of(
            GossipInput::Received { content: bytes },
        ) == GossipStepView::Skip,
        message::message_in(bytes@) is None ==> gossip_step_of(
            GossipInput::Received { content: bytes },
        ) == GossipStepView::Skip,
        blob_step_of(origin, None) == GossipStepView::Skip,
{
}

/// Peers that come and go are reported under their own names, lost messages are reported, and
/// reading stops when the stream fails or is over, and at nothing else.
pub proof fn law_gossip_is_reported(input: GossipInput)
    ensures
        input matches GossipInput::NeighborUp { id } ==> gossip_step_of(input) == (
        GossipStepView::Emit { event: NetworkEventView::PeerConnected { id: id@ } }),
        input matches GossipInput::NeighborDown { id } ==> gossip_step_of(input) == (
        GossipStepView::Emit { event: NetworkEventView::PeerDisconnected { id: id@ } }),
        input is Lagged ==> gossip_step_of(input) == (GossipStepView::Emit {
            event: NetworkEventView::Lagged,
        }),
        gossip_step_of(input) is Stop <==> input is Failed || input is Ended,
{
}

/// Text goes out as it is, under the name of its author; an image is stored as it is.
pub proof fn law_content_goes_out_unchanged(content: message::ContentView, origin: Seq<char>)
    ensures
        match content {
            message::ContentView::Text(text) => outgoing_of(content, origin) == (
            OutgoingView::Ready {
                message: message::MessageView::ClipboardText { origin, content: text },
            }),
            message::ContentView::Image(png) => outgoing_of(content, origin) == (
            OutgoingView::Upload { png_data: png }),
        },
{
}

/// What goes out for content, and is then received, is that content, of that author: a text at
/// once, and an image when its blob has been fetched from the author.
pub proof fn law_what_goes_out_comes_in(
    content: message::ContentView,
    origin: Seq<char>,
    blob: Vec<u8>,
)
    ensures
        match outgoing_of(content, origin) {
            OutgoingView::Ready { message } => message_step_of(message) == (GossipStepView::Emit {
                event: NetworkEventView::MessageReceived { from: origin, content },
            }),
            OutgoingView::Upload { png_data } => blob@ == png_data ==> blob_step_of(
                origin,
                Some(blob),
            ) == (GossipStepView::Emit {
                event: NetworkEventView::MessageReceived { from: origin, content },
            }),
        },
{
}

/// An event of the network layer means just what it says, for the same peer and with the same
/// content; lost messages mean nothing to the room.
pub proof fn law_events_mean_what_they_say(event: NetworkEventView)
    ensures
        event matches NetworkEventView::MessageReceived { from, content } ==> happened(event)
            == Some(state::RoomEventView::MessageReceived { from, content }),
        event matches NetworkEventView::PeerConnected { id } ==> happened(event) == Some(
            state::RoomEventView::PeerConnected { id },
        ),
        event matches NetworkEventView::PeerDisconnected { id } ==> happened(event) == Some(
            state::RoomEventView::PeerDisconnected { id },
        ),
        event is Lagged ==> happened(event) is None,
{
}

/// The notice of a message that is too large says how many bytes it has, in decimal digits.
pub proof fn law_oversize_notice_tells_the_size(size: nat)
    ensures
        text::occurs_in(text::decimal(size), oversize_text(size)),
        text::number_of(text::decimal(size)) == size,
{
    text::law_decimal(size);
    text::lemma_occurs("Message too large ("@, text::decimal(size), " bytes). Skipping sync."@);
    assert(oversize_text(size) == "Message too large ("@ + text::decimal(size)
        + " bytes). Skipping sync."@);
}

}
