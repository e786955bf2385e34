//! Tickets: what a peer hands out so that others can find it.
use vstd::prelude::*;
use crate::text;
use crate::wire;
use crate::wire::{read_record, write_record, Field, Kind, Value};

verus! {

/// Current ticket format version. Bump when the wire format changes.
pub const TICKET_VERSION: u8 = 1;

/// Versioned ticket for peer bootstrap. Base64-encoded JSON.
/// Contains only public info: endpoint address and room name. NOT a secret.
#[derive(Debug)]
pub struct Ticket {
    pub v: u8,
    pub endpoint_addr: String,
    pub room: String,
}

/// The mathematical content of a ticket.
pub struct TicketView {
    pub v: u8,
    pub endpoint_addr: Seq<char>,
    pub room: Seq<char>,
}

/// Why a text is no ticket.
#[derive(Clone, Copy, Debug, PartialEq, Eq, Structural)]
pub enum TicketError {
    InvalidEncoding,
    InvalidJson,
    UnsupportedVersion(u8),
}

impl View for Ticket {
    type V = TicketView;

    open spec fn view(&self) -> TicketView {
        TicketView { v: self.v, endpoint_addr: self.endpoint_addr@, room: self.room@ }
    }
}

// ---------------------------------------------------------------------------------------------
// Base64
// ---------------------------------------------------------------------------------------------

/// The error of a base64 decoder.
#[verifier::external_type_specification]
#[verifier::external_body]
pub struct ExDecodeError(base64::DecodeError);

/// The character of the standard base64 alphabet for six bits.
pub open spec fn base64_char(bits: int) -> char {
    if bits < 26 {
        ('A' as int + bits) as char
    } else if bits < 52 {
        ('a' as int + bits - 26) as char
    } else if bits < 62 {
        ('0' as int + bits - 52) as char
    } else if bits == 62 {
        '+'
    } else {
        '/'
    }
}

/// The four characters of a group of three bytes, which are 24 bits.
pub open spec fn base64_group(a: int, b: int, c: int) -> Seq<char> {
    seq![
        base64_char(a / 4),
        base64_char(a % 4 * 16 + b / 16),
        base64_char(b % 16 * 4 + c / 64),
        base64_char(c % 64),
    ]
}

/// The standard base64 text of some bytes: group by group, with padding in place of what the last
/// group lacks.
pub open spec fn base64_text(bytes: Seq<u8>) -> Seq<char>
    decreases bytes.len(),
{
    if bytes.len() == 0 {
        Seq::empty()
    } else if bytes.len() == 1 {
        base64_group(bytes[0] as int, 0, 0).take(2) + seq!['=', '=']
    } else if bytes.len() == 2 {
        base64_group(bytes[0] as int, bytes[1] as int, 0).take(3) + seq!['=']
    } else {
        base64_group(bytes[0] as int, bytes[1] as int, bytes[2] as int) + base64_text(
            bytes.skip(3),
        )
    }
}

/// The bytes that a standard base64 text stands for, if it is one.
pub uninterp spec fn base64_bytes(text: Seq<char>) -> Option<Seq<u8>>;

/// `base64::Engine::encode` of the engine `STANDARD`: the standard alphabet, with padding. The same
/// engine decodes the text to the bytes it was made from.
#[verifier::external_body]
fn encode_base64(bytes: &[u8]) -> (out: String)
    ensures
        out@ == base64_text(bytes@),
        base64_bytes(out@) == Some(bytes@),
{
    base64::Engine::encode(&base64::engine::general_purpose::STANDARD, bytes)
}

/// `base64::Engine::decode` of the engine `STANDARD`.
#[verifier::external_body]
fn decode_base64(text: &str) -> (out: Result<Vec<u8>, base64::DecodeError>)
    ensures
        match out {
            Ok(bytes) => base64_bytes(text@) == Some(bytes@),
            Err(_) => base64_bytes(text@) is None,
        },
{
    base64::Engine::decode(&base64::engine::general_purpose::STANDARD, text)
}

// ---------------------------------------------------------------------------------------------
// The format
// ---------------------------------------------------------------------------------------------

/// The fields of a ticket, in the order in which they are written.
pub open spec fn ticket_shape() -> wire::Shape {
    seq![("v"@, Kind::Byte), ("endpoint_addr"@, Kind::Text), ("room"@, Kind::Text)]
}

pub open spec fn ticket_items(ticket: TicketView) -> Seq<wire::Item> {
    seq![
        wire::Item::Byte(ticket.v),
        wire::Item::Text(ticket.endpoint_addr),
        wire::Item::Text(ticket.room),
    ]
}

/// The ticket that the values of its fields make.
pub open spec fn ticket_from(items: Seq<wire::Item>) -> TicketView {
    TicketView { v: items[0]->Byte_0, endpoint_addr: items[1]->Text_0, room: items[2]->Text_0 }
}

/// The JSON of a ticket.
pub open spec fn ticket_json(ticket: TicketView) -> Seq<u8> {
    wire::record_bytes(ticket_shape(), ticket_items(ticket))
}

/// The text of a ticket: base64 of its JSON.
pub open spec fn ticket_text(ticket: TicketView) -> Seq<char> {
    base64_text(ticket_json(ticket))
}

/// A ticket of the current version, or the error that names its version.
pub open spec fn supported(ticket: TicketView) -> Result<TicketView, TicketError> {
    if ticket.v == TICKET_VERSION {
        Ok(ticket)
    } else {
        Err(TicketError::UnsupportedVersion(ticket.v))
    }
}

/// The ticket in a JSON document.
pub open spec fn ticket_in_json(json: Seq<u8>) -> Result<TicketView, TicketError> {
    match wire::record_of(ticket_shape(), json) {
        Some(items) => supported(ticket_from(items)),
        None => Err(TicketError::InvalidJson),
    }
}

/// The ticket in a text.
pub open spec fn ticket_in(text: Seq<char>) -> Result<TicketView, TicketError> {
    match base64_bytes(text) {
        Some(json) => ticket_in_json(json),
        None => Err(TicketError::InvalidEncoding),
    }
}

/// `result` is `expected`, with the ticket taken by its view.
pub open spec fn is_result(
    result: Result<Ticket, TicketError>,
    expected: Result<TicketView, TicketError>,
) -> bool {
    match result {
        Ok(ticket) => expected == Ok::<TicketView, TicketError>(ticket@),
        Err(error) => expected == Err::<TicketView, TicketError>(error),
    }
}

/// The message of an error.
pub open spec fn error_text(error: TicketError) -> Seq<char> {
    match error {
        TicketError::InvalidEncoding => "invalid base64 encoding"@,
        TicketError::InvalidJson => "invalid ticket JSON"@,
        TicketError::UnsupportedVersion(v) => "unsupported ticket version "@ + text::decimal(
            v as nat,
        ),
    }
}

/// The length of a base64 text: four characters for every three bytes that have begun.
pub proof fn lemma_base64_len(bytes: Seq<u8>)
    ensures
        base64_text(bytes).len() == 4 * ((bytes.len() + 2) / 3),
    decreases bytes.len(),
{
    if bytes.len() > 2 {
        lemma_base64_len(bytes.skip(3));
    }
}

/// The text of a ticket is not empty.
pub proof fn lemma_ticket_text(ticket: TicketView)
    ensures
        ticket_text(ticket).len() > 0,
{
    lemma_base64_len(ticket_json(ticket));
}

proof fn lemma_ticket_shape(ticket: TicketView)
    ensures
        wire::fits(ticket_shape(), ticket_items(ticket)),
{
    reveal_strlit("v");
    reveal_strlit("endpoint_addr");
    reveal_strlit("room");
    assert("v"@.len() == 1);
    assert("endpoint_addr"@.len() == 13);
    assert("room"@.len() == 4);
}

fn ticket_fields() -> (fields: Vec<Field>)
    ensures
        wire::shape_of(fields@) == ticket_shape(),
{
    let fields = vec![
        Field { name: "v".to_owned(), kind: Kind::Byte },
        Field { name: "endpoint_addr".to_owned(), kind: Kind::Text },
        Field { name: "room".to_owned(), kind: Kind::Text },
    ];
    assert(wire::shape_of(fields@) =~= ticket_shape());
    fields
}

impl Clone for Ticket {
    fn clone(&self) -> (copy: Self)
        ensures
            copy@ == self@,
    {
        Ticket { v: self.v, endpoint_addr: self.endpoint_addr.clone(), room: self.room.clone() }
    }
}

impl TicketError {
    /// What went wrong, in words.
    pub fn message(&self) -> (message: String)
        ensures
            message@ == error_text(*self),
    {
        match self {
            TicketError::InvalidEncoding => "invalid base64 encoding".to_owned(),
            TicketError::InvalidJson => "invalid ticket JSON".to_owned(),
            TicketError::UnsupportedVersion(v) => {
                let mut message = "unsupported ticket version ".to_owned();
                message.append(text::decimal_text(*v as u64).as_str());
                message
            },
        }
    }
}

impl Ticket {
    /// A ticket of the current version.
    pub fn new(endpoint_addr: String, room: String) -> (ticket: Self)
        ensures
            ticket.v == TICKET_VERSION,
            ticket.endpoint_addr == endpoint_addr,
            ticket.room == room,
    {
        Self { v: TICKET_VERSION, endpoint_addr, room }
    }

    /// Encode ticket as base64(JSON). Decoding the text gives the ticket back, if it is of the
    /// current version, and the error that names its version, if it is of another.
    pub fn encode(&self) -> (encoded: String)
        ensures
            encoded@ == ticket_text(self@),
            ticket_in(encoded@) == supported(self@),
            encoded@.len() == 4 * ((ticket_json(self@).len() + 2) / 3),
            encoded@.len() > 0,
    {
        let fields = ticket_fields();
        let values = vec![
            Value::Byte(self.v),
            Value::Text(self.endpoint_addr.clone()),
            Value::Text(self.room.clone()),
        ];
        proof {
            lemma_ticket_shape(self@);
            assert(wire::items_of(values@) =~= ticket_items(self@));
        }
        let json = write_record(&fields, &values);
        proof {
            lemma_base64_len(json@);
            lemma_ticket_text(self@);
        }
        encode_base64(json.as_slice())
    }

    /// Decode ticket from base64(JSON). Validates version.
    pub fn decode(encoded: &str) -> (result: Result<Self, TicketError>)
        ensures
            is_result(result, ticket_in(encoded@)),
    {
        match decode_base64(encoded) {
            Ok(json) => Self::from_json(json.as_slice()),
            Err(_) => Err(TicketError::InvalidEncoding),
        }
    }

    /// Reads a ticket from its JSON. Validates version.
    pub fn from_json(json: &[u8]) -> (result: Result<Self, TicketError>)
        ensures
            is_result(result, ticket_in_json(json@)),
    {
        let fields = ticket_fields();
        match read_record(&fields, json) {
            Some(values) => {
                Self::from_values(values).checked()
            },
            None => Err(TicketError::InvalidJson),
        }
    }

    fn from_values(values: Vec<Value>) -> (ticket: Self)
        requires
            wire::kinds_fit(ticket_shape(), wire::items_of(values@)),
        ensures
            ticket@ == ticket_from(wire::items_of(values@)),
    {
        let ghost items = wire::items_of(values@);
        assert(wire::has_kind(items[0], ticket_shape()[0].1));
        assert(wire::has_kind(items[1], ticket_shape()[1].1));
        assert(wire::has_kind(items[2], ticket_shape()[2].1));
        Self {
            v: values[0].byte(),
            endpoint_addr: values[1].text().clone(),
            room: values[2].text().clone(),
        }
    }

    /// The ticket itself, if it is of the current version.
    pub fn checked(self) -> (result: Result<Self, TicketError>)
        ensures
            is_result(result, supported(self@)),
    {
        if self.v != TICKET_VERSION {
            Err(TicketError::UnsupportedVersion(self.v))
        } else {
            Ok(self)
        }
    }
}

/// A ticket of the current version is taken as it is; of any other version the error names just
/// that version.
pub proof fn law_version_is_checked(ticket: TicketView)
    ensures
        ticket.v == 1 ==> supported(ticket) == Ok::<TicketView, TicketError>(ticket),
        ticket.v != 1 ==> supported(ticket) == Err::<TicketView, TicketError>(
            TicketError::UnsupportedVersion(ticket.v),
        ),
{
}

/// A text is a ticket if it is base64 of a JSON record with the three fields, of the current
/// version; it is then the ticket with the values of these fields. Else the error says which of the
/// three it lacks.
pub proof fn law_ticket_is_what_its_fields_say(text: Seq<char>)
    ensures
        base64_bytes(text) is None ==> ticket_in(text) == Err::<TicketView, TicketError>(
            TicketError::InvalidEncoding,
        ),
        base64_bytes(text) matches Some(json) ==> {
            &&& wire::record_of(ticket_shape(), json) is None ==> ticket_in(text) == Err::<
                TicketView,
                TicketError,
            >(TicketError::InvalidJson)
            &&& wire::record_of(ticket_shape(), json) matches Some(items) ==> {
                &&& ticket_in(text) is Ok <==> items[0]->Byte_0 == 1
                &&& ticket_in(text) matches Ok(found) ==> found.v == 1 && found.endpoint_addr
                    == items[1]->Text_0 && found.room == items[2]->Text_0
                &&& ticket_in(text) matches Err(error) ==> error
                    == TicketError::UnsupportedVersion(items[0]->Byte_0)
            }
        },
{
}

/// The layout of a ticket: an object with the version, the endpoint and the room.
/// They stand in that order, with nothing between them but what JSON asks for.
pub proof fn law_ticket_layout(ticket: TicketView)
    ensures
        ticket_json(ticket) == seq![wire::OPEN_OBJECT] + wire::json_text("v"@) + seq![wire::COLON]
            + wire::json_byte(ticket.v) + seq![wire::COMMA] + wire::json_text("endpoint_addr"@)
            + seq![wire::COLON] + wire::json_text(ticket.endpoint_addr) + seq![wire::COMMA]
            + wire::json_text("room"@) + seq![wire::COLON] + wire::json_text(ticket.room) + seq![
            wire::CLOSE_OBJECT,
        ],
{
    let shape = ticket_shape();
    let items = ticket_items(ticket);
    reveal_with_fuel(wire::members_bytes, 4);
    assert(wire::members_bytes(shape, items, 3) =~= Seq::<u8>::empty());
    assert(ticket_json(ticket) =~= seq![wire::OPEN_OBJECT] + wire::json_text("v"@) + seq![
        wire::COLON,
    ] + wire::json_byte(ticket.v) + seq![wire::COMMA] + wire::json_text("endpoint_addr"@) + seq![
        wire::COLON,
    ] + wire::json_text(ticket.endpoint_addr) + seq![wire::COMMA] + wire::json_text("room"@)
        + seq![wire::COLON] + wire::json_text(ticket.room) + seq![wire::CLOSE_OBJECT]);
}

/// Errors are told apart, and that of a version names the version.
pub proof fn law_errors_are_told_apart(v: u8)
    ensures
        error_text(TicketError::InvalidEncoding) != error_text(TicketError::InvalidJson),
        text::occurs_in(
            text::decimal(v as nat),
            error_text(TicketError::UnsupportedVersion(v)),
        ),
        text::number_of(text::decimal(v as nat)) == v,
{
    reveal_strlit("invalid base64 encoding");
    reveal_strlit("invalid ticket JSON");
    assert(error_text(TicketError::InvalidEncoding).len() != error_text(
        TicketError::InvalidJson,
    ).len());
    text::law_decimal(v as nat);
    let digits = text::decimal(v as nat);
    text::lemma_occurs("unsupported ticket version "@, digits, Seq::empty());
    assert("unsupported ticket version "@ + digits + Seq::<char>::empty() =~= error_text(
        TicketError::UnsupportedVersion(v),
    ));
}

}
