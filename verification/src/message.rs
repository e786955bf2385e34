//! Clipboard content, and the messages that carry it between peers.
use vstd::prelude::*;
use crate::digest;
use crate::digest::{bytes_hash, content_hash};
use crate::wire;
use crate::wire::{read_tag, read_tagged_record, write_tagged, Field, Kind, Value};

verus! {

/// Maximum size of a serialized gossip message (1 MB).
pub const MAX_MESSAGE_SIZE: usize = 1024 * 1024;

/// What a clipboard holds.
#[derive(Debug)]
pub enum ClipboardContent {
    Text(String),
    /// A PNG-encoded image.
    Image(Vec<u8>),
}

/// The mathematical value of clipboard content.
pub enum ContentView {
    Text(Seq<char>),
    Image(Seq<u8>),
}

/// Wire protocol message. `origin` is required because gossip names the
/// forwarding neighbor of a message, not its author.
#[derive(Debug)]
pub enum GossipMessage {
    ClipboardText { origin: String, content: String },
    /// The image itself travels as a blob with this hash.
    ClipboardImage { origin: String, hash: [u8; 32] },
}

/// The mathematical value of a message.
pub enum MessageView {
    ClipboardText { origin: Seq<char>, content: Seq<char> },
    ClipboardImage { origin: Seq<char>, hash: Seq<u8> },
}

impl View for ClipboardContent {
    type V = ContentView;

    open spec fn view(&self) -> ContentView {
        match *self {
            ClipboardContent::Text(text) => ContentView::Text(text@),
            ClipboardContent::Image(png_data) => ContentView::Image(png_data@),
        }
    }
}

/// The hash of clipboard content: that of the UTF-8 bytes of a text, or of the bytes of an image.
pub open spec fn content_digest(content: ContentView) -> Seq<u8> {
    match content {
        ContentView::Text(text) => digest::content_digest(text),
        ContentView::Image(png_data) => digest::blake3_digest(png_data),
    }
}

impl ClipboardContent {
    /// Hashes clipboard content.
    pub fn digest(&self) -> (hash: [u8; 32])
        ensures
            hash@ == content_digest(self@),
    {
        match self {
            ClipboardContent::Text(text) => content_hash(text.as_str()),
            ClipboardContent::Image(png_data) => bytes_hash(png_data.as_slice()),
        }
    }
}

impl View for GossipMessage {
    type V = MessageView;

    open spec fn view(&self) -> MessageView {
        match *self {
            GossipMessage::ClipboardText { origin, content } => MessageView::ClipboardText {
                origin: origin@,
                content: content@,
            },
            GossipMessage::ClipboardImage { origin, hash } => MessageView::ClipboardImage {
                origin: origin@,
                hash: hash@,
            },
        }
    }
}

impl Clone for ClipboardContent {
    fn clone(&self) -> (copy: Self)
        ensures
            copy@ == self@,
    {
        match self {
            ClipboardContent::Text(text) => ClipboardContent::Text(text.clone()),
            ClipboardContent::Image(png_data) => {
                let copy = png_data.clone();
                assert(copy@ =~= png_data@);
                ClipboardContent::Image(copy)
            },
        }
    }
}

impl Clone for GossipMessage {
    fn clone(&self) -> (copy: Self)
        ensures
            copy@ == self@,
    {
        match self {
            GossipMessage::ClipboardText { origin, content } => GossipMessage::ClipboardText {
                origin: origin.clone(),
                content: content.clone(),
            },
            GossipMessage::ClipboardImage { origin, hash } => GossipMessage::ClipboardImage {
                origin: origin.clone(),
                hash: *hash,
            },
        }
    }
}

// ---------------------------------------------------------------------------------------------
// The wire format
// ---------------------------------------------------------------------------------------------

/// The fields of a text message.
pub open spec fn text_shape() -> wire::Shape {
    seq![("origin"@, Kind::Text), ("content"@, Kind::Text)]
}

/// The fields of an image message.
pub open spec fn image_shape() -> wire::Shape {
    seq![("origin"@, Kind::Text), ("hash"@, Kind::Digest)]
}

/// The JSON of a message: an object with one member, named after the kind of the message.
pub open spec fn message_json(message: MessageView) -> Seq<u8> {
    match message {
        MessageView::ClipboardText { origin, content } => wire::tagged_bytes(
            "ClipboardText"@,
            text_shape(),
            seq![wire::Item::Text(origin), wire::Item::Text(content)],
        ),
        MessageView::ClipboardImage { origin, hash } => wire::tagged_bytes(
            "ClipboardImage"@,
            image_shape(),
            seq![wire::Item::Text(origin), wire::Item::Digest(hash)],
        ),
    }
}

/// The message in a JSON document, if it is one.
pub open spec fn message_in(json: Seq<u8>) -> Option<MessageView> {
    match wire::tag_at(json, 0) {
        Some((name, at)) => if name == "ClipboardText"@ {
            match wire::tagged_record(text_shape(), json, at) {
                Some(items) => Some(
                    MessageView::ClipboardText {
                        origin: items[0]->Text_0,
                        content: items[1]->Text_0,
                    },
                ),
                None => None,
            }
        } else if name == "ClipboardImage"@ {
            match wire::tagged_record(image_shape(), json, at) {
                Some(items) => Some(
                    MessageView::ClipboardImage {
                        origin: items[0]->Text_0,
                        hash: items[1]->Digest_0,
                    },
                ),
                None => None,
            }
        } else {
            None
        },
        None => None,
    }
}

fn text_fields() -> (fields: Vec<Field>)
    ensures
        wire::shape_of(fields@) == text_shape(),
        wire::distinct_names(text_shape()),
{
    proof {
        reveal_strlit("origin");
        reveal_strlit("content");
        assert("origin"@.len() != "content"@.len());
    }
    let fields = vec![
        Field { name: "origin".to_owned(), kind: Kind::Text },
        Field { name: "content".to_owned(), kind: Kind::Text },
    ];
    assert(wire::shape_of(fields@) =~= text_shape());
    fields
}

fn image_fields() -> (fields: Vec<Field>)
    ensures
        wire::shape_of(fields@) == image_shape(),
        wire::distinct_names(image_shape()),
{
    proof {
        reveal_strlit("origin");
        reveal_strlit("hash");
        assert("origin"@.len() != "hash"@.len());
    }
    let fields = vec![
        Field { name: "origin".to_owned(), kind: Kind::Text },
        Field { name: "hash".to_owned(), kind: Kind::Digest },
    ];
    assert(wire::shape_of(fields@) =~= image_shape());
    fields
}

impl GossipMessage {
    /// The message as JSON bytes. Reading them gives the message back.
    pub fn to_json(&self) -> (json: Vec<u8>)
        ensures
            json@ == message_json(self@),
            message_in(json@) == Some(self@),
    {
        proof {
            reveal_strlit("ClipboardText");
            reveal_strlit("ClipboardImage");
            assert("ClipboardText"@.len() != "ClipboardImage"@.len());
        }
        match self {
            GossipMessage::ClipboardText { origin, content } => {
                let values = vec![Value::Text(origin.clone()), Value::Text(content.clone())];
                let fields = text_fields();
                assert(wire::items_of(values@) =~= seq![
                    wire::Item::Text(origin@),
                    wire::Item::Text(content@),
                ]);
                write_tagged("ClipboardText", &fields, &values)
            },
            GossipMessage::ClipboardImage { origin, hash } => {
                let values = vec![Value::Text(origin.clone()), Value::Digest(*hash)];
                let fields = image_fields();
                assert(wire::items_of(values@) =~= seq![
                    wire::Item::Text(origin@),
                    wire::Item::Digest(hash@),
                ]);
                write_tagged("ClipboardImage", &fields, &values)
            },
        }
    }

    /// Reads a message from JSON bytes.
    pub fn from_json(json: &[u8]) -> (message: Option<Self>)
        ensures
            match message {
                Some(found) => message_in(json@) == Some(found@),
                None => message_in(json@) is None,
            },
    {
        let (name, at) = match read_tag(json) {
            Some(tag) => tag,
            None => {
                return None;
            },
        };
        if name == "ClipboardText".to_owned() {
            match read_tagged_record(&text_fields(), json, at) {
                Some(values) => {
                    assert(wire::has_kind(wire::items_of(values@)[0], text_shape()[0].1));
                    assert(wire::has_kind(wire::items_of(values@)[1], text_shape()[1].1));
                    Some(
                        GossipMessage::ClipboardText {
                            origin: values[0].text().clone(),
                            content: values[1].text().clone(),
                        },
                    )
                },
                None => None,
            }
        } else if name == "ClipboardImage".to_owned() {
            match read_tagged_record(&image_fields(), json, at) {
                Some(values) => {
                    assert(wire::has_kind(wire::items_of(values@)[0], image_shape()[0].1));
                    assert(wire::has_kind(wire::items_of(values@)[1], image_shape()[1].1));
                    Some(
                        GossipMessage::ClipboardImage {
                            origin: values[0].text().clone(),
                            hash: values[1].digest(),
                        },
                    )
                },
                None => None,
            }
        } else {
            None
        }
    }

    /// The bytes to broadcast, or the size of a message that is too large for it.
    pub fn payload(&self) -> (payload: Result<Vec<u8>, usize>)
        ensures
            match payload {
                Ok(bytes) => bytes@ == message_json(self@) && bytes@.len() <= MAX_MESSAGE_SIZE
                    && message_in(bytes@) == Some(self@),
                Err(size) => size == message_json(self@).len() && size > MAX_MESSAGE_SIZE,
            },
    {
        let bytes = self.to_json();
        if bytes.len() > MAX_MESSAGE_SIZE {
            Err(bytes.len())
        } else {
            Ok(bytes)
        }
    }
}

/// The layout of a text message: an object with one member, whose name is the kind of the message
/// and whose value is an object with the author and the text.
pub proof fn law_text_message_layout(origin: Seq<char>, content: Seq<char>)
    ensures
        message_json(MessageView::ClipboardText { origin, content }) == seq![wire::OPEN_OBJECT]
            + wire::json_text("ClipboardText"@) + seq![wire::COLON, wire::OPEN_OBJECT]
            + wire::json_text("origin"@) + seq![wire::COLON] + wire::json_text(origin) + seq![
            wire::COMMA,
        ] + wire::json_text("content"@) + seq![wire::COLON] + wire::json_text(content) + seq![
            wire::CLOSE_OBJECT,
            wire::CLOSE_OBJECT,
        ],
{
    let items = seq![wire::Item::Text(origin), wire::Item::Text(content)];
    reveal_with_fuel(wire::members_bytes, 3);
    assert(wire::members_bytes(text_shape(), items, 2) =~= Seq::<u8>::empty());
    assert(message_json(MessageView::ClipboardText { origin, content }) =~= seq![
        wire::OPEN_OBJECT,
    ] + wire::json_text("ClipboardText"@) + seq![wire::COLON, wire::OPEN_OBJECT]
        + wire::json_text("origin"@) + seq![wire::COLON] + wire::json_text(origin) + seq![
        wire::COMMA,
    ] + wire::json_text("content"@) + seq![wire::COLON] + wire::json_text(content) + seq![
        wire::CLOSE_OBJECT,
        wire::CLOSE_OBJECT,
    ]);
}

/// The layout of an image message: the same with the author and the hash of the image.
pub proof fn law_image_message_layout(origin: Seq<char>, hash: Seq<u8>)
    ensures
        message_json(MessageView::ClipboardImage { origin, hash }) == seq![wire::OPEN_OBJECT]
            + wire::json_text("ClipboardImage"@) + seq![wire::COLON, wire::OPEN_OBJECT]
            + wire::json_text("origin"@) + seq![wire::COLON] + wire::json_text(origin) + seq![
            wire::COMMA,
        ] + wire::json_text("hash"@) + seq![wire::COLON] + wire::json_digest(hash) + seq![
            wire::CLOSE_OBJECT,
            wire::CLOSE_OBJECT,
        ],
{
    let items = seq![wire::Item::Text(origin), wire::Item::Digest(hash)];
    reveal_with_fuel(wire::members_bytes, 3);
    assert(wire::members_bytes(image_shape(), items, 2) =~= Seq::<u8>::empty());
    assert(message_json(MessageView::ClipboardImage { origin, hash }) =~= seq![wire::OPEN_OBJECT]
        + wire::json_text("ClipboardImage"@) + seq![wire::COLON, wire::OPEN_OBJECT]
        + wire::json_text("origin"@) + seq![wire::COLON] + wire::json_text(origin) + seq![
        wire::COMMA,
    ] + wire::json_text("hash"@) + seq![wire::COLON] + wire::json_digest(hash) + seq![
        wire::CLOSE_OBJECT,
        wire::CLOSE_OBJECT,
    ]);
}

/// What a message says is what its fields say: the kind is the name of the only member, and each
/// field of the message is the field of that name.
pub proof fn law_message_is_what_its_fields_say(json: Seq<u8>, at: int)
    ensures
        wire::tag_at(json, 0) == Some(("ClipboardText"@, at)) ==> match wire::tagged_record(
            text_shape(),
            json,
            at,
        ) {
            Some(items) => message_in(json) == Some(
                MessageView::ClipboardText {
                    origin: items[0]->Text_0,
                    content: items[1]->Text_0,
                },
            ),
            None => message_in(json) is None,
        },
        wire::tag_at(json, 0) == Some(("ClipboardImage"@, at)) ==> match wire::tagged_record(
            image_shape(),
            json,
            at,
        ) {
            Some(items) => message_in(json) == Some(
                MessageView::ClipboardImage {
                    origin: items[0]->Text_0,
                    hash: items[1]->Digest_0,
                },
            ),
            None => message_in(json) is None,
        },
        wire::tag_at(json, 0) is None ==> message_in(json) is None,
{
    reveal_strlit("ClipboardText");
    reveal_strlit("ClipboardImage");
    assert("ClipboardText"@.len() != "ClipboardImage"@.len());
}

}
