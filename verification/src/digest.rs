//! Content hashes, and the gossip topic of a room.
use vstd::prelude::*;

verus! {

/// The 32 bytes of the BLAKE3 hash of `data`.
pub uninterp spec fn blake3_digest(data: Seq<u8>) -> Seq<u8>;

/// `blake3::hash`, as its 32 bytes.
#[verifier::external_body]
fn blake3_hash(data: &[u8]) -> (digest: [u8; 32])
    ensures
        digest@ == blake3_digest(data@),
{
    *blake3::hash(data).as_bytes()
}

/// The hash of a clipboard text: that of its UTF-8 bytes.
pub open spec fn content_digest(content: Seq<char>) -> Seq<u8> {
    blake3_digest(vstd::utf8::encode_utf8(content))
}

/// The name under which a room's topic is hashed.
pub open spec fn topic_name(room: Seq<char>) -> Seq<char> {
    "bsync-clipboard-v1:"@ + room
}

/// Hashes a clipboard text.
pub fn content_hash(content: &str) -> (digest: [u8; 32])
    ensures
        digest@ == content_digest(content@),
{
    blake3_hash(content.as_bytes())
}

/// Hashes some bytes.
pub fn bytes_hash(data: &[u8]) -> (digest: [u8; 32])
    ensures
        digest@ == blake3_digest(data@),
{
    blake3_hash(data)
}

/// Topic derived from room name: blake3("bsync-clipboard-v1:" + room), 32 bytes.
pub fn derive_topic(room: &str) -> (topic: [u8; 32])
    ensures
        topic@ == content_digest(topic_name(room@)),
{
    let mut name = "bsync-clipboard-v1:".to_owned();
    name.append(room);
    content_hash(name.as_str())
}

/// Whether two hashes are the same.
pub fn same_digest(a: &[u8; 32], b: &[u8; 32]) -> (same: bool)
    ensures
        same == (a@ == b@),
{
    let mut i: usize = 0;
    while i < 32
        invariant
            i <= 32,
            forall|j: int| 0 <= j < i ==> a@[j] == b@[j],
        decreases 32 - i,
    {
        if a[i] != b[i] {
            return false;
        }
        i = i + 1;
    }
    assert(a@ =~= b@);
    true
}

/// Every room has a topic name of its own: the version of the protocol, and then the whole name of
/// the room as it is.
pub proof fn law_rooms_have_topics_of_their_own(room: Seq<char>, other: Seq<char>)
    ensures
        topic_name(room).take(19) == "bsync-clipboard-v1:"@,
        topic_name(room).skip(19) == room,
        topic_name(room) == topic_name(other) ==> room == other,
{
    reveal_strlit("bsync-clipboard-v1:");
    assert(topic_name(room).take(19) =~= "bsync-clipboard-v1:"@);
    assert(topic_name(room).skip(19) =~= room);
    assert(topic_name(other).skip(19) =~= other);
}

/// A text is hashed as its UTF-8 bytes, all of them.
pub proof fn law_text_is_hashed_as_bytes(content: Seq<char>)
    ensures
        content_digest(content) == blake3_digest(vstd::utf8::encode_utf8(content)),
{
}

}
