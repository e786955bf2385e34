use bsync::message::{ClipboardContent, GossipMessage, MAX_MESSAGE_SIZE};
use bsync::network::{
    blob_step, gossip_step, image_message, message_step, outgoing, oversize_notice, room_event,
    GossipInput, GossipStep, NetworkEvent, Outgoing,
};
use bsync::state::RoomEvent;

const PEER: &str = "d75a980182b10ab7d54bfed3c964073a0ee172f3daa62325af021a68f707511a";

fn emitted(step: GossipStep) -> NetworkEvent {
    match step {
        GossipStep::Emit { event } => event,
        _ => panic!("expected an event"),
    }
}

#[test]
fn sent_text_arrives() {
    let message = match outgoing(&ClipboardContent::Text("hello".into()), PEER) {
        Outgoing::Ready { message } => message,
        Outgoing::Upload { .. } => panic!("expected a message"),
    };
    let content = message.payload().unwrap();
    match emitted(gossip_step(GossipInput::Received { content })) {
        NetworkEvent::MessageReceived { from, content: ClipboardContent::Text(text) } => {
            assert_eq!(from, PEER);
            assert_eq!(text, "hello");
        }
        _ => panic!("expected a text"),
    }
}

#[test]
fn sent_image_is_fetched_from_its_author() {
    match outgoing(&ClipboardContent::Image(vec![1, 2, 3]), PEER) {
        Outgoing::Upload { png_data } => assert_eq!(png_data, vec![1, 2, 3]),
        Outgoing::Ready { .. } => panic!("expected an upload"),
    }
    let content = image_message(PEER, [9; 32]).payload().unwrap();
    let author = match gossip_step(GossipInput::Received { content }) {
        GossipStep::Fetch { origin, from, hash } => {
            assert_eq!(origin, PEER);
            assert_eq!(from[0], 0xd7);
            assert_eq!(from[31], 0x1a);
            assert_eq!(hash, [9; 32]);
            origin
        }
        _ => panic!("expected a download"),
    };
    match emitted(blob_step(author, Some(vec![1, 2, 3]))) {
        NetworkEvent::MessageReceived { from, content: ClipboardContent::Image(png_data) } => {
            assert_eq!(from, PEER);
            assert_eq!(png_data, vec![1, 2, 3]);
        }
        _ => panic!("expected an image"),
    }
}

#[test]
fn failed_downloads_and_bad_messages_are_skipped() {
    assert!(matches!(blob_step(PEER.into(), None), GossipStep::Skip));
    let received = GossipInput::Received { content: b"no message".to_vec() };
    assert!(matches!(gossip_step(received), GossipStep::Skip));
    let nobody = GossipMessage::ClipboardImage { origin: "nobody".into(), hash: [0; 32] };
    assert!(matches!(message_step(nobody), GossipStep::Skip));
}

#[test]
fn neighbours_are_announced() {
    match emitted(gossip_step(GossipInput::NeighborUp { id: "p2".into() })) {
        NetworkEvent::PeerConnected { id } => assert_eq!(id, "p2"),
        _ => panic!("expected a connection"),
    }
    match emitted(gossip_step(GossipInput::NeighborDown { id: "p2".into() })) {
        NetworkEvent::PeerDisconnected { id } => assert_eq!(id, "p2"),
        _ => panic!("expected a disconnection"),
    }
    assert!(matches!(emitted(gossip_step(GossipInput::Lagged)), NetworkEvent::Lagged));
}

#[test]
fn a_broken_stream_is_left() {
    let failed = GossipInput::Failed { reason: "gone".into() };
    assert!(matches!(gossip_step(failed), GossipStep::Stop));
    assert!(matches!(gossip_step(GossipInput::Ended), GossipStep::Stop));
}

#[test]
fn oversize_is_told_in_bytes() {
    assert_eq!(
        oversize_notice(MAX_MESSAGE_SIZE + 1),
        "Message too large (1048577 bytes). Skipping sync."
    );
    assert_eq!(oversize_notice(0), "Message too large (0 bytes). Skipping sync.");
}

#[test]
fn unknown_kinds_of_messages_are_skipped() {
    let content = br#"{"FileTransfer":{"origin":"p1","name":"x"}}"#.to_vec();
    assert!(matches!(gossip_step(GossipInput::Received { content }), GossipStep::Skip));
}

#[test]
fn network_events_are_events_of_the_room() {
    let connected = room_event(NetworkEvent::PeerConnected { id: "p2".into() });
    assert!(matches!(connected, Some(RoomEvent::PeerConnected { id }) if id == "p2"));
    let gone = room_event(NetworkEvent::PeerDisconnected { id: "p2".into() });
    assert!(matches!(gone, Some(RoomEvent::PeerDisconnected { id }) if id == "p2"));
    let content = ClipboardContent::Image(vec![4]);
    let event = NetworkEvent::MessageReceived { from: "p2".into(), content };
    match room_event(event) {
        Some(RoomEvent::MessageReceived { from, content: ClipboardContent::Image(png) }) => {
            assert_eq!((from.as_str(), png), ("p2", vec![4]));
        }
        _ => panic!("expected a message"),
    }
    assert!(room_event(NetworkEvent::Lagged).is_none());
}
