//! Identifiers: 128-bit values, written as hyphenated UUIDs.

use vstd::arithmetic::power::pow;
use vstd::prelude::*;

verus! {

/// The namespace of names that are URLs.
pub const NAMESPACE_URL: u128 = 0x6ba7b811_9dad_11d1_80b4_00c04fd430c8;

/// The namespace of names that are object identifiers.
pub const NAMESPACE_OID: u128 = 0x6ba7b812_9dad_11d1_80b4_00c04fd430c8;

/// The lower-case hexadecimal digit of `d`.
pub open spec fn hex_char(d: int) -> char {
    if d < 10 {
        crate::text::digit_char(d as nat)
    } else if d == 10 {
        'a'
    } else if d == 11 {
        'b'
    } else if d == 12 {
        'c'
    } else if d == 13 {
        'd'
    } else if d == 14 {
        'e'
    } else {
        'f'
    }
}

/// The hexadecimal digit of `value` at `place`, counted from the most significant
/// of its 32 digits.
pub open spec fn hex_digit_at(value: u128, place: int) -> int {
    (value as int / pow(16, (31 - place) as nat)) % 16
}

/// `value` as 32 lower-case hexadecimal digits in groups of 8, 4, 4, 4 and 12.
pub open spec fn hyphenated(value: u128) -> Seq<char> {
    Seq::new(
        36,
        |i: int|
            if i == 8 || i == 13 || i == 18 || i == 23 {
                '-'
            } else if i < 8 {
                hex_char(hex_digit_at(value, i))
            } else if i < 13 {
                hex_char(hex_digit_at(value, i - 1))
            } else if i < 18 {
                hex_char(hex_digit_at(value, i - 2))
            } else if i < 23 {
                hex_char(hex_digit_at(value, i - 3))
            } else {
                hex_char(hex_digit_at(value, i - 4))
            },
    )
}

/// What `uuid::Uuid::try_parse` makes of a text.
pub uninterp spec fn parsed_uuid(text: Seq<char>) -> Option<u128>;

/// The version 5 UUID of a name in a namespace.
pub uninterp spec fn named_uuid(namespace: u128, name: Seq<u8>) -> u128;

/// Whether `value` is laid out as a version 7 UUID: its digits of version and variant
/// say so.
pub open spec fn is_version_7(value: u128) -> bool {
    hex_digit_at(value, 12) == 7 && 8 <= hex_digit_at(value, 16) <= 11
}

/// Whether `text` is the hyphenated form of a version 7 UUID.
pub open spec fn is_fresh_text(text: Seq<char>) -> bool {
    exists|value: u128| is_version_7(value) && text == #[trigger] hyphenated(value)
}

/// `uuid::Uuid::now_v7`: a fresh version 7 identifier. Nothing more is claimed of its
/// value, which depends on the clock and on chance; in particular not that it differs
/// from every other.
#[verifier::external_body]
pub(crate) fn fresh_uuid() -> (value: u128)
    ensures
        is_version_7(value),
{
    uuid::Uuid::now_v7().as_u128()
}

/// `uuid::Uuid`'s `Display`: the hyphenated lower-case form, which `try_parse`
/// reads back to the same value.
#[verifier::external_body]
pub(crate) fn uuid_text(value: u128) -> (text: String)
    ensures
        text@ == hyphenated(value),
        parsed_uuid(text@) == Some(value),
{
    uuid::Uuid::from_u128(value).to_string()
}

/// `uuid::Uuid::try_parse`, which also backs its `FromStr`: the value of a text in
/// one of the accepted forms, and nothing for any other text.
#[verifier::external_body]
pub(crate) fn parse_uuid(text: &str) -> (value: Option<u128>)
    ensures
        value == parsed_uuid(text@),
{
    uuid::Uuid::try_parse(text).ok().map(|value| value.as_u128())
}

/// `uuid::Uuid::new_v5`: the identifier that a namespace and a name determine.
#[verifier::external_body]
pub(crate) fn name_uuid(namespace: u128, name: &[u8]) -> (value: u128)
    ensures
        value == named_uuid(namespace, name@),
{
    uuid::Uuid::new_v5(&uuid::Uuid::from_u128(namespace), name).as_u128()
}

/// Identity of a task.
#[derive(Debug, Clone, Copy, PartialEq, Eq, Hash, Structural)]
pub struct TaskId {
    value: u128,
}

impl TaskId {
    /// The 128-bit value.
    pub closed spec fn bits(self) -> u128 {
        self.value
    }

    /// A fresh identifier.
    pub fn generate() -> (id: TaskId)
        ensures
            is_version_7(id.bits()),
    {
        TaskId { value: fresh_uuid() }
    }

    /// The identifier with the given value.
    pub fn from_u128(value: u128) -> (id: TaskId)
        ensures
            id.bits() == value,
    {
        TaskId { value }
    }

    /// The value of the identifier.
    pub fn as_u128(&self) -> (value: u128)
        ensures
            value == self.bits(),
    {
        self.value
    }

    /// The hyphenated form.
    pub fn to_string(&self) -> (text: String)
        ensures
            text@ == hyphenated(self.bits()),
            parsed_uuid(text@) == Some(self.bits()),
    {
        uuid_text(self.value)
    }

    /// The identifier that a text names, if it names one.
    pub fn parse(text: &str) -> (id: Option<TaskId>)
        ensures
            id is Some <==> parsed_uuid(text@) is Some,
            id matches Some(found) ==> parsed_uuid(text@) == Some(found.bits()),
    {
        match parse_uuid(text) {
            Some(value) => Some(TaskId { value }),
            None => None,
        }
    }
}

/// Identity of one event of a task.
#[derive(Debug, Clone, Copy, PartialEq, Eq, Hash, Structural)]
pub struct EventId {
    value: u128,
}

impl EventId {
    /// The 128-bit value.
    pub closed spec fn bits(self) -> u128 {
        self.value
    }

    /// A fresh identifier.
    pub fn generate() -> (id: EventId)
        ensures
            is_version_7(id.bits()),
    {
        EventId { value: fresh_uuid() }
    }

    /// The identifier with the given value.
    pub fn from_u128(value: u128) -> (id: EventId)
        ensures
            id.bits() == value,
    {
        EventId { value }
    }

    /// The value of the identifier.
    pub fn as_u128(&self) -> (value: u128)
        ensures
            value == self.bits(),
    {
        self.value
    }

    /// The hyphenated form.
    pub fn to_string(&self) -> (text: String)
        ensures
            text@ == hyphenated(self.bits()),
            parsed_uuid(text@) == Some(self.bits()),
    {
        uuid_text(self.value)
    }

    /// The identifier that a text names, if it names one.
    pub fn parse(text: &str) -> (id: Option<EventId>)
        ensures
            id is Some <==> parsed_uuid(text@) is Some,
            id matches Some(found) ==> parsed_uuid(text@) == Some(found.bits()),
    {
        match parse_uuid(text) {
            Some(value) => Some(EventId { value }),
            None => None,
        }
    }
}

/// Identity of one delivery attempt.
#[derive(Debug, Clone, Copy, PartialEq, Eq, Hash, Structural)]
pub struct DeliveryId {
    value: u128,
}

impl DeliveryId {
    /// The 128-bit value.
    pub closed spec fn bits(self) -> u128 {
        self.value
    }

    /// A fresh identifier.
    pub fn generate() -> (id: DeliveryId)
        ensures
            is_version_7(id.bits()),
    {
        DeliveryId { value: fresh_uuid() }
    }

    /// The identifier with the given value.
    pub fn from_u128(value: u128) -> (id: DeliveryId)
        ensures
            id.bits() == value,
    {
        DeliveryId { value }
    }

    /// The value of the identifier.
    pub fn as_u128(&self) -> (value: u128)
        ensures
            value == self.bits(),
    {
        self.value
    }

    /// The hyphenated form.
    pub fn to_string(&self) -> (text: String)
        ensures
            text@ == hyphenated(self.bits()),
            parsed_uuid(text@) == Some(self.bits()),
    {
        uuid_text(self.value)
    }

    /// The identifier that a text names, if it names one.
    pub fn parse(text: &str) -> (id: Option<DeliveryId>)
        ensures
            id is Some <==> parsed_uuid(text@) is Some,
            id matches Some(found) ==> parsed_uuid(text@) == Some(found.bits()),
    {
        match parse_uuid(text) {
            Some(value) => Some(DeliveryId { value }),
            None => None,
        }
    }
}

/// Identity of an agent endpoint.
#[derive(Debug, Clone, Copy, PartialEq, Eq, Hash, Structural)]
pub struct EndpointId {
    value: u128,
}

impl EndpointId {
    /// The 128-bit value.
    pub closed spec fn bits(self) -> u128 {
        self.value
    }

    /// A fresh identifier.
    pub fn generate() -> (id: EndpointId)
        ensures
            is_version_7(id.bits()),
    {
        EndpointId { value: fresh_uuid() }
    }

    /// The identifier with the given value.
    pub fn from_u128(value: u128) -> (id: EndpointId)
        ensures
            id.bits() == value,
    {
        EndpointId { value }
    }

    /// The value of the identifier.
    pub fn as_u128(&self) -> (value: u128)
        ensures
            value == self.bits(),
    {
        self.value
    }

    /// The hyphenated form.
    pub fn to_string(&self) -> (text: String)
        ensures
            text@ == hyphenated(self.bits()),
            parsed_uuid(text@) == Some(self.bits()),
    {
        uuid_text(self.value)
    }

    /// The identifier that a text names, if it names one.
    pub fn parse(text: &str) -> (id: Option<EndpointId>)
        ensures
            id is Some <==> parsed_uuid(text@) is Some,
            id matches Some(found) ==> parsed_uuid(text@) == Some(found.bits()),
    {
        match parse_uuid(text) {
            Some(value) => Some(EndpointId { value }),
            None => None,
        }
    }
}

/// Identity of a conversation.
#[derive(Debug, Clone, Copy, PartialEq, Eq, Hash, Structural)]
pub struct ConversationId {
    value: u128,
}

impl ConversationId {
    /// The 128-bit value.
    pub closed spec fn bits(self) -> u128 {
        self.value
    }

    /// A fresh identifier.
    pub fn generate() -> (id: ConversationId)
        ensures
            is_version_7(id.bits()),
    {
        ConversationId { value: fresh_uuid() }
    }

    /// The identifier with the given value.
    pub fn from_u128(value: u128) -> (id: ConversationId)
        ensures
            id.bits() == value,
    {
        ConversationId { value }
    }

    /// The value of the identifier.
    pub fn as_u128(&self) -> (value: u128)
        ensures
            value == self.bits(),
    {
        self.value
    }

    /// The hyphenated form.
    pub fn to_string(&self) -> (text: String)
        ensures
            text@ == hyphenated(self.bits()),
            parsed_uuid(text@) == Some(self.bits()),
    {
        uuid_text(self.value)
    }

    /// The identifier that a text names, if it names one.
    pub fn parse(text: &str) -> (id: Option<ConversationId>)
        ensures
            id is Some <==> parsed_uuid(text@) is Some,
            id matches Some(found) ==> parsed_uuid(text@) == Some(found.bits()),
    {
        match parse_uuid(text) {
            Some(value) => Some(ConversationId { value }),
            None => None,
        }
    }
}

} // verus!
