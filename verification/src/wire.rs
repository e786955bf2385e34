//! Records on the wire: JSON objects with a fixed list of named fields.
//!
//! A record is written as one object whose members stand in the order of the field list. It is
//! read from an object with its members in any order (a field given twice is an error, an unknown
//! member is passed over), or from an array that holds the values in the order of the list. The
//! values themselves are written and read by `serde_json`.
use vstd::prelude::*;
use vstd::pervasive::unreached;
use vstd::slice::slice_subrange;
use vstd::utf8::*;
use crate::text;

verus! {

pub const QUOTE: u8 = 0x22;

pub const COMMA: u8 = 0x2c;

pub const COLON: u8 = 0x3a;

pub const OPEN_LIST: u8 = 0x5b;

pub const CLOSE_LIST: u8 = 0x5d;

pub const OPEN_OBJECT: u8 = 0x7b;

pub const CLOSE_OBJECT: u8 = 0x7d;

/// What a field holds.
#[derive(Clone, Copy, Debug, PartialEq, Eq, Structural)]
pub enum Kind {
    Text,
    Byte,
    Digest,
}

/// A named field of a record.
pub struct Field {
    pub name: String,
    pub kind: Kind,
}

/// The value of a field.
pub enum Value {
    Text(String),
    Byte(u8),
    Digest([u8; 32]),
}

/// The mathematical value of a field.
pub enum Item {
    Text(Seq<char>),
    Byte(u8),
    Digest(Seq<u8>),
}

/// A field list, as names and kinds.
pub type Shape = Seq<(Seq<char>, Kind)>;

impl View for Value {
    type V = Item;

    open spec fn view(&self) -> Item {
        match *self {
            Value::Text(text) => Item::Text(text@),
            Value::Byte(byte) => Item::Byte(byte),
            Value::Digest(digest) => Item::Digest(digest@),
        }
    }
}

impl Value {
    /// The text of a text value.
    pub fn text(&self) -> (text: &String)
        requires
            self@ is Text,
        ensures
            text@ == self@->Text_0,
    {
        match self {
            Value::Text(text) => text,
            _ => unreached(),
        }
    }

    /// The byte of a byte value.
    pub fn byte(&self) -> (byte: u8)
        requires
            self@ is Byte,
        ensures
            byte == self@->Byte_0,
    {
        match self {
            Value::Byte(byte) => *byte,
            _ => unreached(),
        }
    }

    /// The bytes of a digest value.
    pub fn digest(&self) -> (digest: [u8; 32])
        requires
            self@ is Digest,
        ensures
            digest@ == self@->Digest_0,
    {
        match self {
            Value::Digest(digest) => *digest,
            _ => unreached(),
        }
    }
}

pub open spec fn shape_of(fields: Seq<Field>) -> Shape {
    fields.map_values(|f: Field| (f.name@, f.kind))
}

pub open spec fn items_of(values: Seq<Value>) -> Seq<Item> {
    values.map_values(|v: Value| v@)
}

/// Whether `item` is of kind `kind`.
pub open spec fn has_kind(item: Item, kind: Kind) -> bool {
    match item {
        Item::Text(_) => kind == Kind::Text,
        Item::Byte(_) => kind == Kind::Byte,
        Item::Digest(digest) => kind == Kind::Digest && digest.len() == 32,
    }
}

/// There is an item of the right kind for each field.
pub open spec fn kinds_fit(shape: Shape, items: Seq<Item>) -> bool {
    &&& shape.len() == items.len()
    &&& forall|i: int| 0 <= i < items.len() ==> has_kind(#[trigger] items[i], shape[i].1)
}

/// What is known of each field is of the right kind.
pub open spec fn known_fit(shape: Shape, known: Seq<Option<Item>>) -> bool {
    &&& shape.len() == known.len()
    &&& forall|i: int|
        0 <= i < known.len() && (#[trigger] known[i]) is Some ==> has_kind(known[i]->0, shape[i].1)
}

// ---------------------------------------------------------------------------------------------
// Values, as `serde_json` writes and reads them
// ---------------------------------------------------------------------------------------------

/// The hexadecimal digit of value `d`, in lower case.
pub open spec fn hex_digit(d: int) -> char {
    if d < 10 {
        ('0' as int + d) as char
    } else {
        ('a' as int + d - 10) as char
    }
}

/// A character inside a JSON string literal: quotes, backslashes and control characters are
/// escaped, five of the latter by a letter and the others by their number; any other character
/// stands for itself.
pub open spec fn escaped_char(c: char) -> Seq<char> {
    if c == '"' {
        seq!['\\', '"']
    } else if c == '\\' {
        seq!['\\', '\\']
    } else if c == '\u{8}' {
        seq!['\\', 'b']
    } else if c == '\u{9}' {
        seq!['\\', 't']
    } else if c == '\u{a}' {
        seq!['\\', 'n']
    } else if c == '\u{c}' {
        seq!['\\', 'f']
    } else if c == '\u{d}' {
        seq!['\\', 'r']
    } else if 0x20 > c as int {
        seq!['\\', 'u', '0', '0', hex_digit(c as int / 16), hex_digit(c as int % 16)]
    } else {
        seq![c]
    }
}

/// The characters of a text inside a JSON string literal.
pub open spec fn escaped(text: Seq<char>) -> Seq<char>
    decreases text.len(),
{
    if text.len() == 0 {
        Seq::empty()
    } else {
        escaped(text.drop_last()) + escaped_char(text.last())
    }
}

/// The JSON string literal of a text, in UTF-8.
pub open spec fn json_text(text: Seq<char>) -> Seq<u8> {
    seq![QUOTE] + encode_utf8(escaped(text)) + seq![QUOTE]
}

/// The JSON number of a byte: its decimal digits.
pub open spec fn json_byte(byte: u8) -> Seq<u8> {
    text::decimal(byte as nat).map_values(|digit: char| digit as u8)
}

/// The numbers of a JSON array from the `i`-th on, each but the first behind a comma.
pub open spec fn json_numbers(bytes: Seq<u8>, i: int) -> Seq<u8>
    decreases bytes.len() - i,
{
    if 0 <= i < bytes.len() {
        (if i > 0 {
            seq![COMMA]
        } else {
            Seq::empty()
        }) + json_byte(bytes[i]) + json_numbers(bytes, i + 1)
    } else {
        Seq::empty()
    }
}

/// The JSON array of some bytes: their numbers in square brackets.
pub open spec fn json_digest(digest: Seq<u8>) -> Seq<u8> {
    seq![OPEN_LIST] + json_numbers(digest, 0) + seq![CLOSE_LIST]
}

/// The text that `serde_json` reads at the start of `input`, and the number of bytes it took.
pub uninterp spec fn json_text_at(input: Seq<u8>) -> Option<(Seq<char>, nat)>;

/// The `u8` that `serde_json` reads at the start of `input`, and the number of bytes it took.
pub uninterp spec fn json_byte_at(input: Seq<u8>) -> Option<(u8, nat)>;

/// The `[u8; 32]` that `serde_json` reads at the start of `input`, and the number of bytes it took.
pub uninterp spec fn json_digest_at(input: Seq<u8>) -> Option<(Seq<u8>, nat)>;

/// The number of bytes that a JSON value at the start of `input` takes, whatever it is.
pub uninterp spec fn json_any_at(input: Seq<u8>) -> Option<nat>;

/// `out` is a string literal from which `text` is read, whatever follows.
pub open spec fn reads_as_text(out: Seq<u8>, text: Seq<char>) -> bool {
    &&& out.len() > 0
    &&& out[0] == QUOTE
    &&& forall|rest: Seq<u8>| #[trigger] json_text_at(out + rest) == Some((text, out.len()))
}

/// `out` is a number from which `byte` is read, where a comma or a closing brace follows.
pub open spec fn reads_as_byte(out: Seq<u8>, byte: u8) -> bool {
    &&& out.len() > 0
    &&& forall|rest: Seq<u8>|
        rest.len() > 0 && (rest[0] == COMMA || rest[0] == CLOSE_OBJECT)
            ==> #[trigger] json_byte_at(out + rest) == Some((byte, out.len()))
}

/// `out` is an array from which `digest` is read, whatever follows.
pub open spec fn reads_as_digest(out: Seq<u8>, digest: Seq<u8>) -> bool {
    &&& out.len() > 0
    &&& forall|rest: Seq<u8>| #[trigger] json_digest_at(out + rest) == Some((digest, out.len()))
}

/// `serde_json::to_vec` on a string: its characters in quotes, escaped as above, from which
/// `serde_json` reads the same text, whatever follows the closing quote.
#[verifier::external_body]
fn write_text(text: &str) -> (out: Vec<u8>)
    ensures
        out@ == json_text(text@),
        reads_as_text(out@, text@),
{
    serde_json::to_vec(text).expect("a string has a JSON form")
}

/// `serde_json::to_vec` on a `u8`: its decimal digits, from which `serde_json` reads the same number
/// where a comma or a closing brace follows.
#[verifier::external_body]
fn write_byte(byte: u8) -> (out: Vec<u8>)
    ensures
        out@ == json_byte(byte),
        reads_as_byte(out@, byte),
{
    serde_json::to_vec(&byte).expect("a number has a JSON form")
}

/// `serde_json::to_vec` on 32 bytes: their numbers in square brackets, with commas between and no
/// space, from which `serde_json` reads the same bytes, whatever follows the closing bracket.
#[verifier::external_body]
fn write_digest(digest: &[u8; 32]) -> (out: Vec<u8>)
    ensures
        out@ == json_digest(digest@),
        reads_as_digest(out@, digest@),
{
    serde_json::to_vec(digest).expect("an array has a JSON form")
}

/// The first `String` of a `serde_json::StreamDeserializer` over `input`, with its byte offset
/// after it. It has taken at least one byte, and none beyond the input.
#[verifier::external_body]
fn read_text(input: &[u8]) -> (out: Option<(String, usize)>)
    ensures
        match out {
            Some((text, taken)) => json_text_at(input@) == Some((text@, taken as nat)) && 0 < taken
                <= input@.len(),
            None => json_text_at(input@) is None,
        },
{
    let mut stream = serde_json::Deserializer::from_slice(input).into_iter::<String>();
    match stream.next() {
        Some(Ok(text)) => Some((text, stream.byte_offset())),
        _ => None,
    }
}

/// The first `u8` of a `serde_json::StreamDeserializer` over `input`, with its byte offset after
/// it. It has taken at least one byte, and none beyond the input.
#[verifier::external_body]
fn read_byte(input: &[u8]) -> (out: Option<(u8, usize)>)
    ensures
        match out {
            Some((byte, taken)) => json_byte_at(input@) == Some((byte, taken as nat)) && 0 < taken
                <= input@.len(),
            None => json_byte_at(input@) is None,
        },
{
    let mut stream = serde_json::Deserializer::from_slice(input).into_iter::<u8>();
    match stream.next() {
        Some(Ok(byte)) => Some((byte, stream.byte_offset())),
        _ => None,
    }
}

/// The first `[u8; 32]` of a `serde_json::StreamDeserializer` over `input`, with its byte offset
/// after it. It has taken at least one byte, and none beyond the input.
#[verifier::external_body]
fn read_digest(input: &[u8]) -> (out: Option<([u8; 32], usize)>)
    ensures
        match out {
            Some((digest, taken)) => json_digest_at(input@) == Some((digest@, taken as nat)) && 0
                < taken <= input@.len(),
            None => json_digest_at(input@) is None,
        },
{
    let mut stream = serde_json::Deserializer::from_slice(input).into_iter::<[u8; 32]>();
    match stream.next() {
        Some(Ok(digest)) => Some((digest, stream.byte_offset())),
        _ => None,
    }
}

/// The byte offset of a `serde_json::StreamDeserializer` over `input` after its first
/// `serde::de::IgnoredAny`, which takes any JSON value. It has taken at least one byte, and none
/// beyond the input.
#[verifier::external_body]
fn read_any(input: &[u8]) -> (out: Option<usize>)
    ensures
        match out {
            Some(taken) => json_any_at(input@) == Some(taken as nat) && 0 < taken <= input@.len(),
            None => json_any_at(input@) is None,
        },
{
    let mut stream = serde_json::Deserializer::from_slice(input)
        .into_iter::<serde::de::IgnoredAny>();
    match stream.next() {
        Some(Ok(_)) => Some(stream.byte_offset()),
        _ => None,
    }
}

// ---------------------------------------------------------------------------------------------
// Reading: the grammar
// ---------------------------------------------------------------------------------------------

/// The four whitespace bytes of JSON.
pub open spec fn is_space(byte: u8) -> bool {
    byte == 0x20 || byte == 0x0a || byte == 0x09 || byte == 0x0d
}

/// The first position from `at` on that holds no whitespace.
pub open spec fn after_space(input: Seq<u8>, at: int) -> int
    decreases input.len() - at,
{
    if 0 <= at < input.len() && is_space(input[at]) {
        after_space(input, at + 1)
    } else {
        at
    }
}

/// Whether `byte` stands at `at`.
pub open spec fn stands(input: Seq<u8>, at: int, byte: u8) -> bool {
    0 <= at < input.len() && input[at] == byte
}

pub open spec fn from(input: Seq<u8>, at: int) -> Seq<u8> {
    input.subrange(at, input.len() as int)
}

/// The value of kind `kind` that starts at `at`, and the position after it.
pub open spec fn value_at(kind: Kind, input: Seq<u8>, at: int) -> Option<(Item, int)> {
    match kind {
        Kind::Text => match json_text_at(from(input, at)) {
            Some((text, taken)) => Some((Item::Text(text), at + taken)),
            None => None,
        },
        Kind::Byte => match json_byte_at(from(input, at)) {
            Some((byte, taken)) => Some((Item::Byte(byte), at + taken)),
            None => None,
        },
        Kind::Digest => match json_digest_at(from(input, at)) {
            Some((digest, taken)) => Some((Item::Digest(digest), at + taken)),
            None => None,
        },
    }
}

/// The place of the field `name` in the list, from `i` on.
pub open spec fn place_from(shape: Shape, name: Seq<char>, i: int) -> Option<int>
    decreases shape.len() - i,
{
    if 0 <= i < shape.len() {
        if shape[i].0 == name {
            Some(i)
        } else {
            place_from(shape, name, i + 1)
        }
    } else {
        None
    }
}

/// One member, `"name": value`, whose name starts at `at`: what is known after it of each field,
/// and the position after it.
pub open spec fn member_at(
    shape: Shape,
    input: Seq<u8>,
    at: int,
    known: Seq<Option<Item>>,
) -> Option<(Seq<Option<Item>>, int)> {
    if !stands(input, at, QUOTE) {
        None
    } else {
        match json_text_at(from(input, at)) {
            None => None,
            Some((name, taken)) => {
                let colon = after_space(input, at + taken);
                if !stands(input, colon, COLON) {
                    None
                } else {
                    match place_from(shape, name, 0) {
                        Some(i) => if known[i] is Some {
                            None
                        } else {
                            match value_at(shape[i].1, input, colon + 1) {
                                Some((item, end)) => Some((known.update(i, Some(item)), end)),
                                None => None,
                            }
                        },
                        None => match json_any_at(from(input, colon + 1)) {
                            Some(taken) => Some((known, colon + 1 + taken)),
                            None => None,
                        },
                    }
                }
            },
        }
    }
}

/// The members of an object up to its closing brace, read from `at` on. `first` says that no
/// member stands before.
pub open spec fn members_at(
    shape: Shape,
    input: Seq<u8>,
    at: int,
    first: bool,
    known: Seq<Option<Item>>,
) -> Option<(Seq<Option<Item>>, int)>
    decreases input.len() - at,
{
    let here = after_space(input, at);
    if stands(input, here, CLOSE_OBJECT) {
        Some((known, here + 1))
    } else if !first && !stands(input, here, COMMA) {
        None
    } else {
        let start = if first {
            here
        } else {
            after_space(input, here + 1)
        };
        match member_at(shape, input, start, known) {
            Some((more, end)) => if at < end <= input.len() {
                members_at(shape, input, end, false, more)
            } else {
                None
            },
            None => None,
        }
    }
}

/// The values of an array up to its closing bracket, read from `at` on, for the fields from `i`
/// on.
pub open spec fn elements_at(shape: Shape, input: Seq<u8>, at: int, i: int) -> Option<
    (Seq<Item>, int),
>
    decreases shape.len() - i,
{
    let here = after_space(input, at);
    if !(0 <= i < shape.len()) {
        if stands(input, here, CLOSE_LIST) {
            Some((Seq::empty(), here + 1))
        } else {
            None
        }
    } else if stands(input, here, CLOSE_LIST) || (i > 0 && !stands(input, here, COMMA)) {
        None
    } else {
        let start = if i == 0 {
            here
        } else {
            after_space(input, here + 1)
        };
        match value_at(shape[i].1, input, start) {
            Some((item, end)) => match elements_at(shape, input, end, i + 1) {
                Some((items, close)) => Some((seq![item] + items, close)),
                None => None,
            },
            None => None,
        }
    }
}

/// The items of `known`, if none is missing.
pub open spec fn complete(known: Seq<Option<Item>>) -> Option<Seq<Item>> {
    if forall|i: int| 0 <= i < known.len() ==> (#[trigger] known[i]) is Some {
        Some(known.map_values(|item: Option<Item>| item->0))
    } else {
        None
    }
}

/// The record that starts at `at`, and the position after it.
pub open spec fn record_at(shape: Shape, input: Seq<u8>, at: int) -> Option<(Seq<Item>, int)> {
    let here = after_space(input, at);
    if stands(input, here, OPEN_OBJECT) {
        match members_at(shape, input, here + 1, true, Seq::new(shape.len(), |i: int| None)) {
            Some((known, end)) => match complete(known) {
                Some(items) => Some((items, end)),
                None => None,
            },
            None => None,
        }
    } else if stands(input, here, OPEN_LIST) {
        elements_at(shape, input, here + 1, 0)
    } else {
        None
    }
}

/// Whether nothing but whitespace follows from `at` on.
pub open spec fn only_space(input: Seq<u8>, at: int) -> bool {
    after_space(input, at) >= input.len()
}

/// The record that makes up the whole input.
pub open spec fn record_of(shape: Shape, input: Seq<u8>) -> Option<Seq<Item>> {
    match record_at(shape, input, 0) {
        Some((items, end)) => if only_space(input, end) {
            Some(items)
        } else {
            None
        },
        None => None,
    }
}

/// The name and the position of the value in `{"name": value`, the start of a tagged value.
pub open spec fn tag_at(input: Seq<u8>, at: int) -> Option<(Seq<char>, int)> {
    let open = after_space(input, at);
    let quote = after_space(input, open + 1);
    if !stands(input, open, OPEN_OBJECT) || !stands(input, quote, QUOTE) {
        None
    } else {
        match json_text_at(from(input, quote)) {
            Some((name, taken)) => {
                let colon = after_space(input, quote + taken);
                if stands(input, colon, COLON) {
                    Some((name, colon + 1))
                } else {
                    None
                }
            },
            None => None,
        }
    }
}

/// The record in `{"name": record}`, given the position of the record, if the input ends there.
pub open spec fn tagged_record(shape: Shape, input: Seq<u8>, at: int) -> Option<Seq<Item>> {
    match record_at(shape, input, at) {
        Some((items, end)) => {
            let close = after_space(input, end);
            if stands(input, close, CLOSE_OBJECT) && only_space(input, close + 1) {
                Some(items)
            } else {
                None
            }
        },
        None => None,
    }
}

pub proof fn lemma_after_space(input: Seq<u8>, at: int)
    requires
        0 <= at <= input.len(),
    ensures
        at <= after_space(input, at) <= input.len(),
    decreases input.len() - at,
{
    if at < input.len() && is_space(input[at]) {
        lemma_after_space(input, at + 1);
    }
}

fn pass_space(input: &[u8], at: usize) -> (end: usize)
    requires
        at <= input@.len(),
    ensures
        end == after_space(input@, at as int),
        at <= end <= input@.len(),
{
    let mut here: usize = at;
    while here < input.len() && (input[here] == 0x20 || input[here] == 0x0a || input[here] == 0x09
        || input[here] == 0x0d)
        invariant
            at <= here <= input@.len(),
            after_space(input@, here as int) == after_space(input@, at as int),
        decreases input@.len() - here,
    {
        here = here + 1;
    }
    here
}

fn holds_at(input: &[u8], at: usize, byte: u8) -> (found: bool)
    ensures
        found == stands(input@, at as int, byte),
        found ==> at < usize::MAX,
{
    at < input.len() && input[at] == byte
}

fn read_value(kind: Kind, input: &[u8], at: usize) -> (out: Option<(Value, usize)>)
    requires
        at <= input@.len(),
    ensures
        match out {
            Some((value, end)) => value_at(kind, input@, at as int) == Some((value@, end as int))
                && at < end <= input@.len() && has_kind(value@, kind),
            None => value_at(kind, input@, at as int) is None,
        },
{
    let rest = slice_subrange(input, at, input.len());
    match kind {
        Kind::Text => match read_text(rest) {
            Some((text, taken)) => Some((Value::Text(text), at + taken)),
            None => None,
        },
        Kind::Byte => match read_byte(rest) {
            Some((byte, taken)) => Some((Value::Byte(byte), at + taken)),
            None => None,
        },
        Kind::Digest => match read_digest(rest) {
            Some((digest, taken)) => Some((Value::Digest(digest), at + taken)),
            None => None,
        },
    }
}

/// The mathematical values of what is known of each field.
pub open spec fn known_items(known: Seq<Option<Value>>) -> Seq<Option<Item>> {
    known.map_values(
        |slot: Option<Value>|
            match slot {
                Some(value) => Some(value@),
                None => None,
            },
    )
}

fn find_field(fields: &Vec<Field>, name: &String) -> (place: Option<usize>)
    ensures
        match place {
            Some(i) => place_from(shape_of(fields@), name@, 0) == Some(i as int) && i
                < fields@.len(),
            None => place_from(shape_of(fields@), name@, 0) is None,
        },
{
    let mut i: usize = 0;
    while i < fields.len()
        invariant
            0 <= i <= fields@.len(),
            place_from(shape_of(fields@), name@, 0) == place_from(
                shape_of(fields@),
                name@,
                i as int,
            ),
        decreases fields@.len() - i,
    {
        if fields[i].name == *name {
            return Some(i);
        }
        i = i + 1;
    }
    None
}

fn read_member(
    fields: &Vec<Field>,
    input: &[u8],
    at: usize,
    known: &mut Vec<Option<Value>>,
) -> (out: Option<usize>)
    requires
        at <= input@.len(),
        known_fit(shape_of(fields@), known_items(old(known)@)),
    ensures
        known_fit(shape_of(fields@), known_items(final(known)@)),
        match out {
            Some(end) => member_at(
                shape_of(fields@),
                input@,
                at as int,
                known_items(old(known)@),
            ) == Some((known_items(final(known)@), end as int)) && at < end <= input@.len(),
            None => member_at(
                shape_of(fields@),
                input@,
                at as int,
                known_items(old(known)@),
            ) is None,
        },
{
    if !holds_at(input, at, QUOTE) {
        return None;
    }
    let (name, taken) = match read_text(slice_subrange(input, at, input.len())) {
        Some(read) => read,
        None => {
            return None;
        },
    };
    let colon = pass_space(input, at + taken);
    if !holds_at(input, colon, COLON) {
        return None;
    }
    let start: usize = colon + 1;
    match find_field(fields, &name) {
        Some(i) => {
            if known[i].is_some() {
                return None;
            }
            match read_value(fields[i].kind, input, start) {
                Some((value, end)) => {
                    known.set(i, Some(value));
                    assert(known_items(known@) =~= known_items(old(known)@).update(
                        i as int,
                        Some(value@),
                    ));
                    Some(end)
                },
                None => None,
            }
        },
        None => match read_any(slice_subrange(input, start, input.len())) {
            Some(taken) => Some(start + taken),
            None => None,
        },
    }
}

fn read_members(fields: &Vec<Field>, input: &[u8], at: usize) -> (out: Option<
    (Vec<Option<Value>>, usize),
>)
    requires
        at <= input@.len(),
    ensures
        ({
            let blank = Seq::new(shape_of(fields@).len(), |i: int| None::<Item>);
            match out {
                Some((known, end)) => members_at(shape_of(fields@), input@, at as int, true, blank)
                    == Some((known_items(known@), end as int)) && known_fit(
                    shape_of(fields@),
                    known_items(known@),
                ) && end <= input@.len(),
                None => members_at(shape_of(fields@), input@, at as int, true, blank) is None,
            }
        }),
{
    let ghost shape = shape_of(fields@);
    let ghost blank = Seq::new(shape.len(), |i: int| None::<Item>);
    let mut known: Vec<Option<Value>> = Vec::new();
    while known.len() < fields.len()
        invariant
            known@.len() <= fields@.len(),
            forall|j: int| 0 <= j < known@.len() ==> (#[trigger] known@[j]) is None,
        decreases fields@.len() - known@.len(),
    {
        known.push(None);
    }
    assert(known_items(known@) =~= blank);
    let mut first: bool = true;
    let mut here: usize = at;
    loop
        invariant
            here <= input@.len(),
            shape == shape_of(fields@),
            known_fit(shape, known_items(known@)),
            members_at(shape, input@, at as int, true, blank) == members_at(
                shape,
                input@,
                here as int,
                first,
                known_items(known@),
            ),
            blank == Seq::new(shape_of(fields@).len(), |i: int| None::<Item>),
        decreases input@.len() - here,
    {
        let mut start: usize = pass_space(input, here);
        if holds_at(input, start, CLOSE_OBJECT) {
            return Some((known, start + 1));
        }
        if !first {
            if !holds_at(input, start, COMMA) {
                return None;
            }
            start = pass_space(input, start + 1);
        }
        match read_member(fields, input, start, &mut known) {
            Some(end) => {
                here = end;
                first = false;
            },
            None => {
                return None;
            },
        }
    }
}

fn read_elements(fields: &Vec<Field>, input: &[u8], at: usize) -> (out: Option<
    (Vec<Value>, usize),
>)
    requires
        at <= input@.len(),
    ensures
        match out {
            Some((values, end)) => elements_at(shape_of(fields@), input@, at as int, 0) == Some(
                (items_of(values@), end as int),
            ) && kinds_fit(shape_of(fields@), items_of(values@)) && end <= input@.len(),
            None => elements_at(shape_of(fields@), input@, at as int, 0) is None,
        },
{
    let ghost shape = shape_of(fields@);
    let mut values: Vec<Value> = Vec::new();
    let mut here: usize = at;
    let mut i: usize = 0;
    assert(match elements_at(shape, input@, here as int, 0) {
        Some((items, end)) => items =~= items_of(values@) + items,
        None => true,
    });
    while i < fields.len()
        invariant
            i <= fields@.len(),
            here <= input@.len(),
            shape == shape_of(fields@),
            values@.len() == i,
            forall|j: int|
                0 <= j < i ==> has_kind((#[trigger] values@[j])@, fields@[j].kind),
            elements_at(shape, input@, at as int, 0) == (match elements_at(
                shape,
                input@,
                here as int,
                i as int,
            ) {
                Some((items, end)) => Some((items_of(values@) + items, end)),
                None => None,
            }),
        decreases fields@.len() - i,
    {
        let mut start: usize = pass_space(input, here);
        if holds_at(input, start, CLOSE_LIST) {
            return None;
        }
        if i > 0 {
            if !holds_at(input, start, COMMA) {
                return None;
            }
            start = pass_space(input, start + 1);
        }
        match read_value(fields[i].kind, input, start) {
            Some((value, end)) => {
                let ghost before = items_of(values@);
                let ghost item = value@;
                values.push(value);
                here = end;
                proof {
                    assert(items_of(values@) =~= before.push(item));
                    match elements_at(shape, input@, here as int, i + 1) {
                        Some((items, close)) => {
                            assert(before + (seq![item] + items) =~= before.push(item) + items);
                        },
                        None => {},
                    }
                }
            },
            None => {
                return None;
            },
        }
        i = i + 1;
    }
    let close = pass_space(input, here);
    if holds_at(input, close, CLOSE_LIST) {
        assert(items_of(values@) + Seq::<Item>::empty() =~= items_of(values@));
        Some((values, close + 1))
    } else {
        None
    }
}

fn all_known(known: Vec<Option<Value>>) -> (out: Option<Vec<Value>>)
    ensures
        match out {
            Some(values) => complete(known_items(known@)) == Some(items_of(values@)),
            None => complete(known_items(known@)) is None,
        },
{
    let ghost all = known_items(known@);
    let mut slots = known;
    let mut values: Vec<Value> = Vec::new();
    assert(all =~= all.subrange(0, all.len() as int));
    while slots.len() > 0
        invariant
            all == known_items(known@),
            values@.len() + slots@.len() == all.len(),
            known_items(slots@) =~= all.subrange(values@.len() as int, all.len() as int),
            forall|j: int|
                0 <= j < values@.len() ==> #[trigger] all[j] == Some(values@[j]@),
        decreases slots@.len(),
    {
        assert(all[values@.len() as int] == known_items(slots@)[0]);
        let ghost before = slots@;
        match slots.remove(0) {
            Some(value) => {
                values.push(value);
                assert(known_items(slots@) =~= known_items(before).subrange(
                    1,
                    before.len() as int,
                ));
            },
            None => {
                return None;
            },
        }
    }
    assert(all.map_values(|item: Option<Item>| item->0) =~= items_of(values@));
    Some(values)
}

/// Reads the record that starts at `at`, with the position after it.
fn read_record_at(fields: &Vec<Field>, input: &[u8], at: usize) -> (out: Option<
    (Vec<Value>, usize),
>)
    requires
        at <= input@.len(),
    ensures
        match out {
            Some((values, end)) => record_at(shape_of(fields@), input@, at as int) == Some(
                (items_of(values@), end as int),
            ) && kinds_fit(shape_of(fields@), items_of(values@)) && end <= input@.len(),
            None => record_at(shape_of(fields@), input@, at as int) is None,
        },
{
    let open = pass_space(input, at);
    if holds_at(input, open, OPEN_OBJECT) {
        match read_members(fields, input, open + 1) {
            Some((known, end)) => match all_known(known) {
                Some(values) => Some((values, end)),
                None => None,
            },
            None => None,
        }
    } else if holds_at(input, open, OPEN_LIST) {
        read_elements(fields, input, open + 1)
    } else {
        None
    }
}

/// Reads the record that makes up the whole input.
pub fn read_record(fields: &Vec<Field>, input: &[u8]) -> (out: Option<Vec<Value>>)
    ensures
        match out {
            Some(values) => record_of(shape_of(fields@), input@) == Some(items_of(values@))
                && kinds_fit(shape_of(fields@), items_of(values@)),
            None => record_of(shape_of(fields@), input@) is None,
        },
{
    match read_record_at(fields, input, 0) {
        Some((values, end)) => if pass_space(input, end) >= input.len() {
            Some(values)
        } else {
            None
        },
        None => None,
    }
}

/// Reads `{"name":`, and gives the name and the position after the colon.
pub fn read_tag(input: &[u8]) -> (out: Option<(String, usize)>)
    ensures
        match out {
            Some((name, at)) => tag_at(input@, 0) == Some((name@, at as int)) && at
                <= input@.len(),
            None => tag_at(input@, 0) is None,
        },
{
    let open = pass_space(input, 0);
    if !holds_at(input, open, OPEN_OBJECT) {
        return None;
    }
    let quote = pass_space(input, open + 1);
    if !holds_at(input, quote, QUOTE) {
        return None;
    }
    match read_text(slice_subrange(input, quote, input.len())) {
        Some((name, taken)) => {
            let colon = pass_space(input, quote + taken);
            if holds_at(input, colon, COLON) {
                Some((name, colon + 1))
            } else {
                None
            }
        },
        None => None,
    }
}

/// Reads the record of a tagged value, from the position that `read_tag` gave.
pub fn read_tagged_record(fields: &Vec<Field>, input: &[u8], at: usize) -> (out: Option<
    Vec<Value>,
>)
    requires
        at <= input@.len(),
    ensures
        match out {
            Some(values) => tagged_record(shape_of(fields@), input@, at as int) == Some(
                items_of(values@),
            ) && kinds_fit(shape_of(fields@), items_of(values@)),
            None => tagged_record(shape_of(fields@), input@, at as int) is None,
        },
{
    match read_record_at(fields, input, at) {
        Some((values, end)) => {
            let close = pass_space(input, end);
            if holds_at(input, close, CLOSE_OBJECT) && pass_space(input, close + 1) >= input.len() {
                Some(values)
            } else {
                None
            }
        },
        None => None,
    }
}

// ---------------------------------------------------------------------------------------------
// Writing, and reading back what was written
// ---------------------------------------------------------------------------------------------

pub open spec fn item_bytes(item: Item) -> Seq<u8> {
    match item {
        Item::Text(text) => json_text(text),
        Item::Byte(byte) => json_byte(byte),
        Item::Digest(digest) => json_digest(digest),
    }
}

pub open spec fn member_bytes(name: Seq<char>, item: Item) -> Seq<u8> {
    json_text(name) + seq![COLON] + item_bytes(item)
}

/// The members from the `i`-th field on, each but the first behind a comma.
pub open spec fn members_bytes(shape: Shape, items: Seq<Item>, i: int) -> Seq<u8>
    decreases shape.len() - i,
{
    if 0 <= i < shape.len() {
        (if i > 0 {
            seq![COMMA]
        } else {
            Seq::empty()
        }) + member_bytes(shape[i].0, items[i]) + members_bytes(shape, items, i + 1)
    } else {
        Seq::empty()
    }
}

/// A record, as an object.
pub open spec fn record_bytes(shape: Shape, items: Seq<Item>) -> Seq<u8> {
    seq![OPEN_OBJECT] + members_bytes(shape, items, 0) + seq![CLOSE_OBJECT]
}

/// A record under a name, as an object with one member.
pub open spec fn tagged_bytes(name: Seq<char>, shape: Shape, items: Seq<Item>) -> Seq<u8> {
    seq![OPEN_OBJECT] + json_text(name) + seq![COLON] + record_bytes(shape, items) + seq![
        CLOSE_OBJECT,
    ]
}

/// A value is read from what is written for it.
pub open spec fn reads_back(item: Item) -> bool {
    match item {
        Item::Text(text) => reads_as_text(json_text(text), text),
        Item::Byte(byte) => reads_as_byte(json_byte(byte), byte),
        Item::Digest(digest) => reads_as_digest(json_digest(digest), digest),
    }
}

/// The names are distinct, and there is an item of the right kind for each.
pub open spec fn fits(shape: Shape, items: Seq<Item>) -> bool {
    kinds_fit(shape, items) && distinct_names(shape)
}

pub open spec fn distinct_names(shape: Shape) -> bool {
    forall|i: int, j: int|
        0 <= i < j < shape.len() ==> (#[trigger] shape[i]).0 != (#[trigger] shape[j]).0
}

/// Every name and every value of the record is read from what is written for it.
pub open spec fn all_read_back(shape: Shape, items: Seq<Item>) -> bool {
    &&& forall|i: int|
        0 <= i < shape.len() ==> reads_as_text(
            json_text((#[trigger] shape[i]).0),
            shape[i].0,
        )
    &&& forall|i: int| 0 <= i < items.len() ==> reads_back(#[trigger] items[i])
}

/// What is known after the first `n` fields have been read.
pub open spec fn known_first(items: Seq<Item>, n: int) -> Seq<Option<Item>> {
    Seq::new(
        items.len(),
        |i: int|
            if i < n {
                Some(items[i])
            } else {
                None
            },
    )
}

proof fn lemma_place(shape: Shape, i: int, k: int)
    requires
        distinct_names(shape),
        0 <= k <= i < shape.len(),
    ensures
        place_from(shape, shape[i].0, k) == Some(i),
    decreases i - k,
{
    if k < i {
        assert(shape[k].0 != shape[i].0);
        lemma_place(shape, i, k + 1);
    }
}

proof fn lemma_split(input: Seq<u8>, at: int, head: Seq<u8>, tail: Seq<u8>)
    requires
        0 <= at <= input.len(),
        from(input, at) == head + tail,
    ensures
        at + head.len() <= input.len(),
        from(input, at + head.len()) == tail,
        head.len() > 0 ==> stands(input, at, head[0]),
        head.len() > 0 && !is_space(head[0]) ==> after_space(input, at) == at,
{
    assert(from(input, at).len() == head.len() + tail.len());
    assert(from(input, at + head.len()) =~= tail) by {
        assert forall|k: int| 0 <= k < tail.len() implies from(input, at + head.len())[k]
            == tail[k] by {
            assert(from(input, at)[head.len() + k] == tail[k]);
        }
    }
    if head.len() > 0 {
        assert(from(input, at)[0] == head[0]);
    }
}

proof fn lemma_members(
    shape: Shape,
    items: Seq<Item>,
    input: Seq<u8>,
    at: int,
    i: int,
    tail: Seq<u8>,
)
    requires
        fits(shape, items),
        all_read_back(shape, items),
        0 <= i <= shape.len(),
        0 <= at <= input.len(),
        from(input, at) == members_bytes(shape, items, i) + (seq![CLOSE_OBJECT] + tail),
    ensures
        members_at(shape, input, at, i == 0, known_first(items, i)) == Some(
            (
                known_first(items, shape.len() as int),
                at + members_bytes(shape, items, i).len() + 1,
            ),
        ),
    decreases shape.len() - i,
{
    let close = seq![CLOSE_OBJECT] + tail;
    if i == shape.len() {
        assert(from(input, at) =~= close);
        lemma_split(input, at, seq![CLOSE_OBJECT], tail);
    } else {
        let name = json_text(shape[i].0);
        let value = item_bytes(items[i]);
        let more = members_bytes(shape, items, i + 1);
        let comma = if i > 0 {
            seq![COMMA]
        } else {
            Seq::empty()
        };
        assert(reads_as_text(json_text(shape[i].0), shape[i].0));
        assert(reads_back(items[i]));
        assert(has_kind(items[i], shape[i].1));
        let after_value = more + close;
        let after_colon = value + after_value;
        let after_name = seq![COLON] + after_colon;
        let after_comma = name + after_name;
        assert(from(input, at) =~= comma + after_comma);
        lemma_split(input, at, comma, after_comma);
        let start = at + comma.len();
        lemma_split(input, start, name, after_name);
        let colon = start + name.len();
        lemma_split(input, colon, seq![COLON], after_colon);
        lemma_split(input, colon + 1, value, after_value);
        let end = colon + 1 + value.len();
        // What follows the value is a comma or the closing brace.
        assert(after_value.len() > 0 && (after_value[0] == COMMA || after_value[0]
            == CLOSE_OBJECT)) by {
            if i + 1 < shape.len() {
                assert(more =~= seq![COMMA] + (member_bytes(shape[i + 1].0, items[i + 1])
                    + members_bytes(shape, items, i + 2)));
            } else {
                assert(after_value =~= close);
            }
        }
        assert(value_at(shape[i].1, input, colon + 1) == Some((items[i], end)));
        lemma_place(shape, i, 0);
        let known = known_first(items, i);
        assert(known.update(i, Some(items[i])) =~= known_first(items, i + 1));
        assert(member_at(shape, input, start, known) == Some((known_first(items, i + 1), end)));
        lemma_members(shape, items, input, end, i + 1, tail);
        assert(members_bytes(shape, items, i).len() == comma.len() + name.len() + 1 + value.len()
            + more.len());
    }
}

/// A record is read from where it was written.
proof fn lemma_record(shape: Shape, items: Seq<Item>, input: Seq<u8>, at: int, tail: Seq<u8>)
    requires
        fits(shape, items),
        all_read_back(shape, items),
        0 <= at <= input.len(),
        from(input, at) == record_bytes(shape, items) + tail,
    ensures
        record_at(shape, input, at) == Some((items, at + record_bytes(shape, items).len())),
{
    let members = members_bytes(shape, items, 0);
    assert(from(input, at) =~= seq![OPEN_OBJECT] + (members + (seq![CLOSE_OBJECT] + tail)));
    lemma_split(input, at, seq![OPEN_OBJECT], members + (seq![CLOSE_OBJECT] + tail));
    lemma_members(shape, items, input, at + 1, 0, tail);
    assert(known_first(items, 0) =~= Seq::new(shape.len(), |i: int| None::<Item>));
    let known = known_first(items, shape.len() as int);
    assert(known.map_values(|item: Option<Item>| item->0) =~= items);
}

/// A whole input that is one written record is read as that record.
pub proof fn lemma_record_of(shape: Shape, items: Seq<Item>)
    requires
        fits(shape, items),
        all_read_back(shape, items),
    ensures
        record_of(shape, record_bytes(shape, items)) == Some(items),
{
    let input = record_bytes(shape, items);
    assert(from(input, 0) =~= input + Seq::<u8>::empty());
    lemma_record(shape, items, input, 0, Seq::empty());
}

/// A whole input that is one written tagged record is read as that name and that record.
pub proof fn lemma_tagged(name: Seq<char>, shape: Shape, items: Seq<Item>)
    requires
        fits(shape, items),
        all_read_back(shape, items),
        reads_as_text(json_text(name), name),
    ensures
        ({
            let input = tagged_bytes(name, shape, items);
            let at = 2 + json_text(name).len();
            &&& tag_at(input, 0) == Some((name, at as int))
            &&& tagged_record(shape, input, at as int) == Some(items)
        }),
{
    let input = tagged_bytes(name, shape, items);
    let text = json_text(name);
    let record = record_bytes(shape, items);
    let after_colon = record + seq![CLOSE_OBJECT];
    let after_name = seq![COLON] + after_colon;
    let after_open = text + after_name;
    assert(from(input, 0) =~= seq![OPEN_OBJECT] + after_open);
    lemma_split(input, 0, seq![OPEN_OBJECT], after_open);
    lemma_split(input, 1, text, after_name);
    let colon: int = 1 + text.len() as int;
    lemma_split(input, colon, seq![COLON], after_colon);
    lemma_record(shape, items, input, colon + 1, seq![CLOSE_OBJECT]);
    lemma_split(input, colon + 1, record, seq![CLOSE_OBJECT]);
    let close = colon + 1 + record.len();
    assert(seq![CLOSE_OBJECT] =~= seq![CLOSE_OBJECT] + Seq::<u8>::empty());
    lemma_split(input, close, seq![CLOSE_OBJECT], Seq::empty());
}

fn write_value(value: &Value) -> (out: Vec<u8>)
    ensures
        out@ == item_bytes(value@),
        reads_back(value@),
{
    match value {
        Value::Text(text) => write_text(text.as_str()),
        Value::Byte(byte) => write_byte(*byte),
        Value::Digest(digest) => write_digest(digest),
    }
}

/// Writes a record, as an object with its members in the order of the field list. Reading it
/// gives the values back.
pub fn write_record(fields: &Vec<Field>, values: &Vec<Value>) -> (out: Vec<u8>)
    requires
        fits(shape_of(fields@), items_of(values@)),
    ensures
        out@ == record_bytes(shape_of(fields@), items_of(values@)),
        all_read_back(shape_of(fields@), items_of(values@)),
        record_of(shape_of(fields@), out@) == Some(items_of(values@)),
{
    let ghost shape = shape_of(fields@);
    let ghost items = items_of(values@);
    let mut out: Vec<u8> = Vec::new();
    out.push(OPEN_OBJECT);
    let mut i: usize = 0;
    assert(seq![OPEN_OBJECT] + members_bytes(shape, items, 0) =~= out@ + members_bytes(
        shape,
        items,
        0,
    ));
    while i < fields.len()
        invariant
            0 <= i <= fields@.len(),
            shape == shape_of(fields@),
            items == items_of(values@),
            fields@.len() == values@.len(),
            out@ + members_bytes(shape, items, i as int) == seq![OPEN_OBJECT] + members_bytes(
                shape,
                items,
                0,
            ),
            forall|k: int|
                0 <= k < i ==> reads_as_text(json_text((#[trigger] shape[k]).0), shape[k].0),
            forall|k: int| 0 <= k < i ==> reads_back(#[trigger] items[k]),
        decreases fields@.len() - i,
    {
        let ghost before = out@;
        if i > 0 {
            out.push(COMMA);
        }
        let mut name = write_text(fields[i].name.as_str());
        let mut value = write_value(&values[i]);
        let ghost name_bytes = name@;
        let ghost value_bytes = value@;
        out.append(&mut name);
        out.push(COLON);
        out.append(&mut value);
        proof {
            let comma = if i > 0 {
                seq![COMMA]
            } else {
                Seq::empty()
            };
            let more = members_bytes(shape, items, i + 1);
            assert(shape[i as int].0 == fields@[i as int].name@);
            assert(items[i as int] == values@[i as int]@);
            assert(out@ =~= before + comma + name_bytes + seq![COLON] + value_bytes);
            assert(out@ + more =~= before + (comma + (name_bytes + seq![COLON] + value_bytes)
                + more));
        }
        i = i + 1;
    }
    assert(out@ + members_bytes(shape, items, i as int) =~= out@);
    out.push(CLOSE_OBJECT);
    assert(out@ =~= record_bytes(shape, items));
    proof {
        lemma_record_of(shape, items);
    }
    out
}

/// Writes a record under a name, as an object with one member. Reading it gives the name and the
/// values back.
pub fn write_tagged(name: &str, fields: &Vec<Field>, values: &Vec<Value>) -> (out: Vec<u8>)
    requires
        fits(shape_of(fields@), items_of(values@)),
    ensures
        out@ == tagged_bytes(name@, shape_of(fields@), items_of(values@)),
        ({
            let at = 2 + json_text(name@).len();
            &&& tag_at(out@, 0) == Some((name@, at as int))
            &&& tagged_record(shape_of(fields@), out@, at as int) == Some(items_of(values@))
        }),
{
    let mut text = write_text(name);
    let mut record = write_record(fields, values);
    let mut out: Vec<u8> = Vec::new();
    out.push(OPEN_OBJECT);
    out.append(&mut text);
    out.push(COLON);
    out.append(&mut record);
    out.push(CLOSE_OBJECT);
    proof {
        assert(out@ =~= tagged_bytes(name@, shape_of(fields@), items_of(values@)));
        lemma_tagged(name@, shape_of(fields@), items_of(values@));
    }
    out
}

// ---------------------------------------------------------------------------------------------
// Laws
// ---------------------------------------------------------------------------------------------

/// Whether some bytes are white space alone.
pub open spec fn all_space(bytes: Seq<u8>) -> bool {
    forall|i: int| 0 <= i < bytes.len() ==> is_space(#[trigger] bytes[i])
}

/// A member as it may stand in an object: its name and its value, with space before the name, between
/// the name and the colon, and behind the value.
pub struct Member {
    pub before: Seq<u8>,
    pub name: Seq<char>,
    pub middle: Seq<u8>,
    pub value: Seq<u8>,
    pub after: Seq<u8>,
}

/// Whether a value may end where these bytes follow.
pub open spec fn ends_value(rest: Seq<u8>) -> bool {
    rest.len() > 0 && (rest[0] == COMMA || rest[0] == CLOSE_OBJECT || is_space(rest[0]))
}

/// Whether the parts of a member are what they should be: its name is read as that name, its value as
/// the item of the field of that name, or as any value if there is no such field, and between them is
/// nothing but space.
pub open spec fn readable(shape: Shape, items: Seq<Item>, m: Member) -> bool {
    &&& all_space(m.before)
    &&& all_space(m.middle)
    &&& all_space(m.after)
    &&& m.value.len() > 0
    &&& reads_as_text(json_text(m.name), m.name)
    &&& match place_from(shape, m.name, 0) {
        Some(i) => forall|rest: Seq<u8>|
            ends_value(rest) ==> #[trigger] value_at(shape[i].1, m.value + rest, 0) == Some(
                (items[i], m.value.len() as int),
            ),
        None => forall|rest: Seq<u8>|
            ends_value(rest) ==> #[trigger] json_any_at(m.value + rest) == Some(m.value.len()),
    }
}

/// The members from the `k`-th on, up to the closing brace, and what follows it; with the space behind
/// the member before them.
pub open spec fn rest_bytes(members: Seq<Member>, k: int, tail: Seq<u8>) -> Seq<u8>
    decreases members.len() - k,
{
    let gap = if 0 < k <= members.len() {
        members[k - 1].after
    } else {
        Seq::empty()
    };
    if 0 <= k < members.len() {
        let m = members[k];
        let comma = if k > 0 {
            seq![COMMA]
        } else {
            Seq::empty()
        };
        gap + (comma + (m.before + (json_text(m.name) + (m.middle + (seq![COLON] + (m.value
            + rest_bytes(members, k + 1, tail)))))))
    } else {
        gap + (seq![CLOSE_OBJECT] + tail)
    }
}

/// What is known of each field after the first `k` members.
spec fn found(shape: Shape, items: Seq<Item>, members: Seq<Member>, k: int) -> Seq<Option<Item>>
    decreases k,
{
    if k <= 0 {
        Seq::new(shape.len(), |i: int| None)
    } else {
        let before = found(shape, items, members, k - 1);
        match place_from(shape, members[k - 1].name, 0) {
            Some(i) => before.update(i, Some(items[i])),
            None => before,
        }
    }
}

proof fn lemma_place_from(shape: Shape, name: Seq<char>, k: int)
    requires
        0 <= k <= shape.len(),
    ensures
        match place_from(shape, name, k) {
            Some(i) => k <= i < shape.len() && shape[i].0 == name,
            None => forall|i: int| k <= i < shape.len() ==> (#[trigger] shape[i]).0 != name,
        },
    decreases shape.len() - k,
{
    if k < shape.len() && shape[k].0 != name {
        lemma_place_from(shape, name, k + 1);
    }
}

/// Whether a field is named by one of the first `k` members.
pub open spec fn is_named(shape: Shape, members: Seq<Member>, k: int, i: int) -> bool {
    exists|j: int| 0 <= j < k && (#[trigger] members[j]).name == shape[i].0
}

proof fn lemma_found(shape: Shape, items: Seq<Item>, members: Seq<Member>, k: int)
    requires
        distinct_names(shape),
        0 <= k <= members.len(),
    ensures
        found(shape, items, members, k).len() == shape.len(),
        forall|i: int|
            0 <= i < shape.len() ==> #[trigger] found(shape, items, members, k)[i] == if is_named(
                shape,
                members,
                k,
                i,
            ) {
                Some(items[i])
            } else {
                None
            },
    decreases k,
{
    if k > 0 {
        lemma_found(shape, items, members, k - 1);
        let name = members[k - 1].name;
        lemma_place_from(shape, name, 0);
        assert forall|i: int| 0 <= i < shape.len() implies #[trigger] found(
            shape,
            items,
            members,
            k,
        )[i] == if is_named(shape, members, k, i) {
            Some(items[i])
        } else {
            None
        } by {
            let before = found(shape, items, members, k - 1);
            assert(before[i] == if is_named(shape, members, k - 1, i) {
                Some(items[i])
            } else {
                None
            });
            if is_named(shape, members, k - 1, i) {
                let j = choose|j: int| 0 <= j < k - 1 && (#[trigger] members[j]).name == shape[i].0;
                assert(members[j].name == shape[i].0);
            }
            if name == shape[i].0 {
                assert(members[k - 1].name == shape[i].0);
                lemma_place(shape, i, 0);
            } else if is_named(shape, members, k, i) {
                let j = choose|j: int| 0 <= j < k && (#[trigger] members[j]).name == shape[i].0;
                assert(j < k - 1);
            }
            if let Some(p) = place_from(shape, name, 0) {
                if p != i {
                    assert(shape[p].0 != shape[i].0) by {
                        if p < i {
                            assert(shape[p].0 != shape[i].0);
                        } else {
                            assert(shape[i].0 != shape[p].0);
                        }
                    }
                }
            }
        }
    }
}

/// Space is passed over, up to the first byte that is none.
proof fn lemma_pass(input: Seq<u8>, at: int, space: Seq<u8>, tail: Seq<u8>)
    requires
        0 <= at <= input.len(),
        from(input, at) == space + tail,
        all_space(space),
        tail.len() == 0 || !is_space(tail[0]),
    ensures
        at + space.len() <= input.len(),
        after_space(input, at) == at + space.len(),
        from(input, at + space.len()) == tail,
    decreases space.len(),
{
    if space.len() == 0 {
        assert(space + tail =~= tail);
        if tail.len() > 0 {
            assert(from(input, at)[0] == tail[0]);
        } else {
            assert(from(input, at).len() == 0);
        }
    } else {
        let rest = space.drop_first();
        assert(space + tail =~= seq![space[0]] + (rest + tail));
        lemma_split(input, at, seq![space[0]], rest + tail);
        assert forall|i: int| 0 <= i < rest.len() implies is_space(#[trigger] rest[i]) by {
            assert(rest[i] == space[i + 1]);
        }
        lemma_pass(input, at + 1, rest, tail);
    }
}

/// White space of JSON is passed over and nothing else is: what lies between is space, and what
/// follows is not.
pub proof fn law_only_space_is_passed_over(input: Seq<u8>, at: int)
    requires
        0 <= at <= input.len(),
    ensures
        at <= after_space(input, at) <= input.len(),
        all_space(input.subrange(at, after_space(input, at))),
        after_space(input, at) < input.len() ==> !is_space(input[after_space(input, at)]),
    decreases input.len() - at,
{
    if at < input.len() && is_space(input[at]) {
        law_only_space_is_passed_over(input, at + 1);
        let end = after_space(input, at);
        let later = input.subrange(at + 1, end);
        assert forall|i: int| 0 <= i < end - at implies is_space(
            #[trigger] input.subrange(at, end)[i],
        ) by {
            if i > 0 {
                assert(later[i - 1] == input.subrange(at, end)[i]);
            }
        }
    }
}

proof fn lemma_rest_ends_value(members: Seq<Member>, k: int, tail: Seq<u8>)
    requires
        0 < k <= members.len(),
        all_space(members[k - 1].after),
    ensures
        ends_value(rest_bytes(members, k, tail)),
{
    let gap = members[k - 1].after;
    let rest = rest_bytes(members, k, tail);
    if gap.len() > 0 {
        assert(rest[0] == gap[0]);
    } else if k < members.len() {
        assert(rest[0] == COMMA);
    } else {
        assert(rest[0] == CLOSE_OBJECT);
    }
}

proof fn lemma_loose_member(
    shape: Shape,
    items: Seq<Item>,
    m: Member,
    input: Seq<u8>,
    start: int,
    known: Seq<Option<Item>>,
    rest: Seq<u8>,
)
    requires
        readable(shape, items, m),
        ends_value(rest),
        0 <= start <= input.len(),
        from(input, start) == json_text(m.name) + (m.middle + (seq![COLON] + (m.value + rest))),
        place_from(shape, m.name, 0) matches Some(i) ==> 0 <= i < known.len() && known[i] is None,
    ensures
        member_at(shape, input, start, known) == Some(
            (
                match place_from(shape, m.name, 0) {
                    Some(i) => known.update(i, Some(items[i])),
                    None => known,
                },
                input.len() - rest.len(),
            ),
        ),
        start < input.len() - rest.len() <= input.len(),
{
    let name = json_text(m.name);
    let after_colon = m.value + rest;
    let after_name = m.middle + (seq![COLON] + after_colon);
    assert(name[0] == QUOTE);
    lemma_split(input, start, name, after_name);
    assert(json_text_at(name + after_name) == Some((m.name, name.len())));
    let end_name = start + name.len();
    lemma_pass(input, end_name, m.middle, seq![COLON] + after_colon);
    let colon = end_name + m.middle.len();
    lemma_split(input, colon, seq![COLON], after_colon);
    lemma_split(input, colon + 1, m.value, rest);
    let end = colon + 1 + m.value.len();
    assert(from(input, end).len() == input.len() - end);
    assert(from(input, colon + 1) == after_colon);
    assert(from(after_colon, 0) =~= after_colon);
    match place_from(shape, m.name, 0) {
        Some(i) => {
            assert(value_at(shape[i].1, after_colon, 0) == Some(
                (items[i], m.value.len() as int),
            ));
            assert(value_at(shape[i].1, input, colon + 1) == Some((items[i], end)));
        },
        None => {
            assert(json_any_at(after_colon) == Some(m.value.len()));
        },
    }
}

proof fn lemma_loose_members(
    shape: Shape,
    items: Seq<Item>,
    members: Seq<Member>,
    input: Seq<u8>,
    at: int,
    k: int,
    tail: Seq<u8>,
)
    requires
        distinct_names(shape),
        forall|j: int| 0 <= j < members.len() ==> readable(shape, items, #[trigger] members[j]),
        forall|i: int, j: int|
            0 <= i < j < members.len() ==> (#[trigger] members[i]).name != (
            #[trigger] members[j]).name,
        0 <= k <= members.len(),
        0 <= at <= input.len(),
        from(input, at) == rest_bytes(members, k, tail),
    ensures
        members_at(shape, input, at, k == 0, found(shape, items, members, k)) == Some(
            (found(shape, items, members, members.len() as int), input.len() - tail.len()),
        ),
    decreases members.len() - k,
{
    let gap = if k > 0 {
        members[k - 1].after
    } else {
        Seq::empty()
    };
    if k > 0 {
        assert(readable(shape, items, members[k - 1]));
    }
    let known = found(shape, items, members, k);
    if k == members.len() {
        let close = seq![CLOSE_OBJECT] + tail;
        assert(close[0] == CLOSE_OBJECT);
        lemma_pass(input, at, gap, close);
        lemma_split(input, at + gap.len(), seq![CLOSE_OBJECT], tail);
        assert(from(input, at + gap.len() + 1).len() == tail.len());
    } else {
        let m = members[k];
        assert(readable(shape, items, m));
        let rest = rest_bytes(members, k + 1, tail);
        lemma_rest_ends_value(members, k + 1, tail);
        let named = json_text(m.name) + (m.middle + (seq![COLON] + (m.value + rest)));
        assert(json_text(m.name)[0] == QUOTE);
        assert(named[0] == QUOTE);
        let here = if k > 0 {
            assert(from(input, at) =~= gap + (seq![COMMA] + (m.before + named)));
            lemma_pass(input, at, gap, seq![COMMA] + (m.before + named));
            let comma = at + gap.len();
            lemma_split(input, comma, seq![COMMA], m.before + named);
            lemma_pass(input, comma + 1, m.before, named);
            comma
        } else {
            assert(from(input, at) =~= m.before + named);
            lemma_pass(input, at, m.before, named);
            at + m.before.len()
        };
        let start = if k > 0 {
            here + 1 + m.before.len()
        } else {
            here
        };
        lemma_split(input, start, json_text(m.name), m.middle + (seq![COLON] + (m.value + rest)));
        lemma_found(shape, items, members, k);
        lemma_place_from(shape, m.name, 0);
        if let Some(i) = place_from(shape, m.name, 0) {
            if is_named(shape, members, k, i) {
                let j = choose|j: int| 0 <= j < k && (#[trigger] members[j]).name == shape[i].0;
                assert(members[j].name != members[k].name);
            }
        }
        lemma_loose_member(shape, items, m, input, start, known, rest);
        let end = input.len() - rest.len();
        assert(from(input, end) =~= rest) by {
            assert(named =~= json_text(m.name) + (m.middle + (seq![COLON] + m.value)) + rest);
            lemma_split(
                input,
                start,
                json_text(m.name) + (m.middle + (seq![COLON] + m.value)),
                rest,
            );
        }
        lemma_loose_members(shape, items, members, input, end, k + 1, tail);
    }
}

/// Whether every field is named by one of the members.
pub open spec fn all_named(shape: Shape, members: Seq<Member>) -> bool {
    forall|i: int|
        0 <= i < shape.len() ==> #[trigger] is_named(shape, members, members.len() as int, i)
}

/// Whether the members are readable, and none is named twice.
pub open spec fn members_readable(shape: Shape, items: Seq<Item>, members: Seq<Member>) -> bool {
    &&& distinct_names(shape)
    &&& items.len() == shape.len()
    &&& forall|j: int| 0 <= j < members.len() ==> readable(shape, items, #[trigger] members[j])
    &&& forall|i: int, j: int|
        0 <= i < j < members.len() ==> (#[trigger] members[i]).name != (
        #[trigger] members[j]).name
}

proof fn lemma_loose_record(
    shape: Shape,
    items: Seq<Item>,
    members: Seq<Member>,
    input: Seq<u8>,
    at: int,
    lead: Seq<u8>,
    tail: Seq<u8>,
)
    requires
        members_readable(shape, items, members),
        all_space(lead),
        0 <= at <= input.len(),
        from(input, at) == lead + (seq![OPEN_OBJECT] + rest_bytes(members, 0, tail)),
    ensures
        record_at(shape, input, at) == if all_named(shape, members) {
            Some((items, input.len() - tail.len()))
        } else {
            None
        },
        0 <= input.len() - tail.len() <= input.len(),
        from(input, input.len() - tail.len()) == tail,
{
    let rest = rest_bytes(members, 0, tail);
    let n = members.len() as int;
    lemma_pass(input, at, lead, seq![OPEN_OBJECT] + rest);
    let open = at + lead.len() as int;
    lemma_split(input, open, seq![OPEN_OBJECT], rest);
    lemma_loose_members(shape, items, members, input, open + 1, 0, tail);
    lemma_found(shape, items, members, n);
    let known = found(shape, items, members, n);
    assert(found(shape, items, members, 0) =~= Seq::new(shape.len(), |i: int| None::<Item>));
    if all_named(shape, members) {
        assert forall|i: int| 0 <= i < known.len() implies (#[trigger] known[i]) is Some by {
            assert(is_named(shape, members, n, i));
        }
        assert(known.map_values(|item: Option<Item>| item->0) =~= items);
    } else {
        let i = choose|i: int| 0 <= i < shape.len() && !#[trigger] is_named(shape, members, n, i);
        assert(known[i] is None);
    }
    lemma_rest_tail(members, 0, tail);
    let end = input.len() - tail.len();
    assert(from(input, open + 1).len() == input.len() - open - 1);
    let back = rest.skip(rest.len() - tail.len());
    assert(from(input, end) =~= tail) by {
        assert forall|j: int| 0 <= j < tail.len() implies from(input, end)[j] == tail[j] by {
            assert(back[j] == tail[j]);
            assert(from(input, open + 1)[rest.len() - tail.len() + j] == tail[j]);
        }
    }
}

proof fn lemma_only_space(input: Seq<u8>, at: int, tail: Seq<u8>)
    requires
        0 <= at <= input.len(),
        from(input, at) == tail,
    ensures
        only_space(input, at) <==> all_space(tail),
{
    law_only_space_is_passed_over(input, at);
    if all_space(tail) {
        assert(tail =~= tail + Seq::<u8>::empty());
        lemma_pass(input, at, tail, Seq::empty());
        assert(from(input, at).len() == input.len() - at);
    } else {
        let j = choose|j: int| 0 <= j < tail.len() && !is_space(#[trigger] tail[j]);
        assert(from(input, at)[j] == tail[j]);
        if after_space(input, at) >= input.len() {
            assert(input.subrange(at, after_space(input, at))[j] == tail[j]);
        }
    }
}

/// A record is read from an object whatever the order of its members is, whatever space stands around
/// them, and whatever other members stand among them, as long as each is named once: the items are
/// those of the fields by name. If one of the fields is not named, or if anything but space follows
/// the object, there is no record.
pub proof fn law_record_is_read_by_names(
    shape: Shape,
    items: Seq<Item>,
    members: Seq<Member>,
    lead: Seq<u8>,
    tail: Seq<u8>,
)
    requires
        members_readable(shape, items, members),
        all_space(lead),
    ensures
        record_of(shape, lead + (seq![OPEN_OBJECT] + rest_bytes(members, 0, tail))) == if all_named(
            shape,
            members,
        ) && all_space(tail) {
            Some(items)
        } else {
            None
        },
{
    let input = lead + (seq![OPEN_OBJECT] + rest_bytes(members, 0, tail));
    assert(from(input, 0) =~= input);
    lemma_loose_record(shape, items, members, input, 0, lead, tail);
    lemma_only_space(input, input.len() - tail.len(), tail);
}

/// The same of a record under a name: it is read from an object whose only member has that name and
/// that record, whatever space stands around; without the closing brace, or with anything but space
/// behind it, there is no record.
pub proof fn law_tagged_record_is_read_by_names(
    name: Seq<char>,
    shape: Shape,
    items: Seq<Item>,
    members: Seq<Member>,
    outer: Member,
    lead: Seq<u8>,
    tail: Seq<u8>,
)
    requires
        members_readable(shape, items, members),
        reads_as_text(json_text(name), name),
        all_space(outer.before),
        all_space(outer.middle),
        all_space(outer.after),
        all_space(lead),
    ensures
        ({
            let inside = outer.after + (seq![CLOSE_OBJECT] + tail);
            let record = outer.before + (seq![OPEN_OBJECT] + rest_bytes(members, 0, inside));
            let input = lead + (seq![OPEN_OBJECT] + (lead + (json_text(name) + (outer.middle + (
            seq![COLON] + record)))));
            &&& tag_at(input, 0) == Some((name, input.len() - record.len()))
            &&& tagged_record(shape, input, input.len() - record.len()) == if all_named(
                shape,
                members,
            ) && all_space(tail) {
                Some(items)
            } else {
                None
            }
        }),
{
    let inside = outer.after + (seq![CLOSE_OBJECT] + tail);
    let record = outer.before + (seq![OPEN_OBJECT] + rest_bytes(members, 0, inside));
    let text = json_text(name);
    let named = text + (outer.middle + (seq![COLON] + record));
    let input = lead + (seq![OPEN_OBJECT] + (lead + named));
    assert(text[0] == QUOTE);
    assert(named[0] == QUOTE);
    assert(from(input, 0) =~= input);
    lemma_pass(input, 0, lead, seq![OPEN_OBJECT] + (lead + named));
    let open = lead.len() as int;
    lemma_split(input, open, seq![OPEN_OBJECT], lead + named);
    lemma_pass(input, open + 1, lead, named);
    let quote = open + 1 + lead.len();
    lemma_split(input, quote, text, outer.middle + (seq![COLON] + record));
    lemma_pass(input, quote + text.len(), outer.middle, seq![COLON] + record);
    let colon = quote + text.len() + outer.middle.len();
    lemma_split(input, colon, seq![COLON], record);
    let at = colon + 1;
    assert(from(input, at).len() == input.len() - at);
    lemma_loose_record(shape, items, members, input, at, outer.before, inside);
    let end = input.len() - inside.len();
    lemma_pass(input, end, outer.after, seq![CLOSE_OBJECT] + tail);
    lemma_split(input, end + outer.after.len(), seq![CLOSE_OBJECT], tail);
    lemma_only_space(input, end + outer.after.len() + 1, tail);
}

/// A field that is named a second time is refused.
pub proof fn law_repeated_field_is_refused(
    shape: Shape,
    input: Seq<u8>,
    at: int,
    known: Seq<Option<Item>>,
    i: int,
    taken: nat,
)
    requires
        distinct_names(shape),
        0 <= i < shape.len(),
        known.len() == shape.len(),
        known[i] is Some,
        json_text_at(from(input, at)) == Some((shape[i].0, taken)),
    ensures
        member_at(shape, input, at, known) is None,
{
    lemma_place(shape, i, 0);
}

proof fn lemma_rest_tail(members: Seq<Member>, k: int, tail: Seq<u8>)
    requires
        0 <= k <= members.len(),
    ensures
        rest_bytes(members, k, tail).len() >= tail.len(),
        rest_bytes(members, k, tail).skip(rest_bytes(members, k, tail).len() - tail.len()) == tail,
    decreases members.len() - k,
{
    let rest = rest_bytes(members, k, tail);
    if k < members.len() {
        lemma_rest_tail(members, k + 1, tail);
        let later = rest_bytes(members, k + 1, tail);
        assert forall|j: int| 0 <= j < tail.len() implies rest[rest.len() - tail.len() + j]
            == tail[j] by {
            assert(later.skip(later.len() - tail.len())[j] == tail[j]);
        }
        assert(rest.skip(rest.len() - tail.len()) =~= tail);
    } else {
        assert(rest.skip(rest.len() - tail.len()) =~= tail);
    }
}

}
