//! JSON values: a tree of plain data, read from text and written to it.

use vstd::prelude::*;
use vstd::string::*;

use crate::text::same_text;
use crate::text::white_space;

verus! {

/// How deep lists and objects nest in a text that can be read.
pub const MAX_DEPTH: usize = 127;

/// What a JSON value is: an object is a map, so the order of its members and the
/// members that later ones replaced are not part of it.
pub ghost enum JsonView {
    Null,
    Bool(bool),
    Number(serde_json::Number),
    Text(Seq<char>),
    List(Seq<JsonView>),
    Object(Map<Seq<char>, JsonView>),
}

/// A JSON value. Where an object names one member twice, the later one counts.
#[derive(Debug, PartialEq)]
pub enum Json {
    Null,
    Bool(bool),
    Number(serde_json::Number),
    Text(String),
    List(Vec<Json>),
    Object(Vec<(String, Json)>),
}

/// `serde_json::Value`, handed through unread.
#[verifier::external_type_specification]
#[verifier::external_body]
pub struct ExValue(serde_json::Value);

/// `serde_json::Number`, handed through unread.
#[verifier::external_type_specification]
#[verifier::external_body]
pub struct ExNumber(serde_json::Number);

/// The tree that a `serde_json::Value` holds.
pub uninterp spec fn content(value: serde_json::Value) -> JsonView;

/// What `serde_json::Number::as_i64` gives for a number.
pub uninterp spec fn integer_value(number: serde_json::Number) -> Option<int>;

/// What `serde_json::Number::as_u64` gives for a number.
pub uninterp spec fn unsigned_value(number: serde_json::Number) -> Option<int>;

/// The number that `serde_json::Number::from` makes of an `i64`.
pub uninterp spec fn integer_number(value: int) -> serde_json::Number;

/// What `serde_json::from_str` makes of a text: the value, or the message of its
/// error.
pub uninterp spec fn parsed_json(text: Seq<char>) -> Result<JsonView, Seq<char>>;

/// What `serde_json::to_string` writes for a value.
pub uninterp spec fn rendered_json(value: JsonView) -> Seq<char>;

/// `serde_json::from_str::<Value>`. The outcome depends on the text alone; on
/// failure it is the error's message.
#[verifier::external_body]
fn read_value(text: &str) -> (value: Result<serde_json::Value, String>)
    ensures
        match value {
            Ok(value) => parsed_json(text@) == Ok::<JsonView, Seq<char>>(content(value)),
            Err(detail) => parsed_json(text@) == Err::<JsonView, Seq<char>>(detail@),
        },
{
    serde_json::from_str::<serde_json::Value>(text).map_err(|error| error.to_string())
}

/// `serde_json::Value`, taken apart variant by variant into the library's tree.
#[verifier::external_body]
fn from_value(value: serde_json::Value) -> (json: Json)
    ensures
        json@ == content(value),
{
    match value {
        serde_json::Value::Null => Json::Null,
        serde_json::Value::Bool(flag) => Json::Bool(flag),
        serde_json::Value::Number(number) => Json::Number(number),
        serde_json::Value::String(text) => Json::Text(text),
        serde_json::Value::Array(items) => {
            Json::List(items.into_iter().map(from_value).collect())
        }
        serde_json::Value::Object(members) => Json::Object(
            members.into_iter().map(|member| (member.0, from_value(member.1))).collect(),
        ),
    }
}

/// The same tree as a `serde_json::Value`. A later member replaces an earlier one
/// of the same name, as `serde_json::Map` does when it is collected.
#[verifier::external_body]
fn to_value(json: &Json) -> (value: serde_json::Value)
    ensures
        content(value) == json@,
{
    match json {
        Json::Null => serde_json::Value::Null,
        Json::Bool(flag) => serde_json::Value::Bool(*flag),
        Json::Number(number) => serde_json::Value::Number(number.clone()),
        Json::Text(text) => serde_json::Value::String(text.clone()),
        Json::List(items) => serde_json::Value::Array(items.iter().map(to_value).collect()),
        Json::Object(members) => serde_json::Value::Object(
            members.iter().map(|member| (member.0.clone(), to_value(&member.1))).collect(),
        ),
    }
}

/// `serde_json::to_string`: the compact text of a value. It never fails for a
/// `Value`, whose keys are strings and whose numbers are finite. Compact output
/// holds no newline (control characters are escaped) and neither starts nor ends
/// with whitespace. `serde_json::from_str` reads back what was written where every
/// number is an integer that an `i64` or a `u64` holds, no object has the member that
/// marks raw JSON (`RESERVED_MEMBER`), and lists and objects nest at most 127 deep,
/// which is as deep as it reads.
#[verifier::external_body]
fn write_value(value: &serde_json::Value) -> (text: String)
    ensures
        text@ == rendered_json(content(*value)),
        one_line(text@),
        reads_back(content(*value), text@),
{
    serde_json::to_string(value).unwrap_or_default()
}

/// `serde_json::Number::as_i64`: the number as an `i64`, where it is one.
#[verifier::external_body]
fn integer_of(number: &serde_json::Number) -> (value: Option<i64>)
    ensures
        match value {
            Some(value) => integer_value(*number) == Some(value as int),
            None => integer_value(*number) is None,
        },
{
    number.as_i64()
}

/// `serde_json::Number::as_u64`: the number as a `u64`, where it is one.
#[verifier::external_body]
fn unsigned_of(number: &serde_json::Number) -> (value: Option<u64>)
    ensures
        match value {
            Some(value) => unsigned_value(*number) == Some(value as int),
            None => unsigned_value(*number) is None,
        },
{
    number.as_u64()
}

/// `serde_json::Number::from(i64)`: the number that `as_i64` reads as `value`.
#[verifier::external_body]
fn number_of(value: i64) -> (number: serde_json::Number)
    ensures
        number == integer_number(value as int),
        integer_value(number) == Some(value as int),
{
    serde_json::Number::from(value)
}

/// `serde_json::Number::clone`: the same number.
pub assume_specification[ <serde_json::Number as Clone>::clone ](
    number: &serde_json::Number,
) -> (copy: serde_json::Number)
    ensures
        copy == *number,
;

/// A text on one line that starts and ends with something visible.
pub open spec fn one_line(text: Seq<char>) -> bool {
    &&& text.len() > 0
    &&& !white_space(text[0])
    &&& !white_space(text.last())
    &&& forall|i: int| 0 <= i < text.len() ==> text[i] != '\n'
}

/// The member name that `serde_json` keeps for itself: an object that starts with it is
/// read as the JSON in that member's text.
pub const RESERVED_MEMBER: &'static str = "$serde_json::private::RawValue";

/// Whether every number in `value` is an integer that an `i64` or a `u64` holds, no
/// object has the reserved member, and lists and objects nest at most `depth` deep.
pub open spec fn restorable(value: JsonView, depth: nat) -> bool
    decreases depth,
{
    match value {
        JsonView::Number(number) => integer_value(number) is Some || unsigned_value(number) is Some,
        JsonView::List(items) => depth > 0 && forall|i: int|
            0 <= i < items.len() ==> restorable(#[trigger] items[i], (depth - 1) as nat),
        JsonView::Object(members) => depth > 0 && !members.contains_key(RESERVED_MEMBER@)
            && forall|key: Seq<char>|
            members.contains_key(key) ==> restorable(#[trigger] members[key], (depth - 1) as nat),
        _ => true,
    }
}

/// `text` is read as `value` again, where `value` is restorable.
pub open spec fn reads_back(value: JsonView, text: Seq<char>) -> bool {
    restorable(value, MAX_DEPTH as nat) ==> parsed_json(text) == Ok::<JsonView, Seq<char>>(value)
}

/// The members in order, a later one replacing an earlier one of the same name.
pub open spec fn table(members: Seq<(Seq<char>, JsonView)>) -> Map<Seq<char>, JsonView>
    decreases members.len(),
{
    if members.len() == 0 {
        Map::empty()
    } else {
        table(members.drop_last()).insert(members.last().0, members.last().1)
    }
}

/// The members of an object as data, in order.
pub open spec fn pairs(members: Seq<(String, Json)>) -> Seq<(Seq<char>, JsonView)> {
    Seq::new(members.len(), |i: int| (members[i].0@, members[i].1@))
}

/// The items of a list as data.
pub open spec fn items_view(items: Seq<Json>) -> Seq<JsonView> {
    Seq::new(items.len(), |i: int| items[i]@)
}

/// What a list is made of.
pub proof fn lemma_list(items: Vec<Json>)
    ensures
        Json::List(items)@ == JsonView::List(items_view(items@)),
{
    assert(Json::List(items)@->List_0 =~= items_view(items@));
}

/// What an object is made of.
pub proof fn lemma_object(members: Vec<(String, Json)>)
    ensures
        Json::Object(members)@ == JsonView::Object(table(pairs(members@))),
{
    assert(Json::Object(members).entries() =~= pairs(members@));
}

impl JsonView {
    /// The member `key` of an object.
    pub open spec fn field(self, key: Seq<char>) -> Option<JsonView> {
        match self {
            JsonView::Object(members) => if members.contains_key(key) {
                Some(members[key])
            } else {
                None
            },
            _ => None,
        }
    }

    /// The text, of a text.
    pub open spec fn text(self) -> Option<Seq<char>> {
        match self {
            JsonView::Text(text) => Some(text),
            _ => None,
        }
    }

    /// The integer, of a number that is one.
    pub open spec fn integer(self) -> Option<int> {
        match self {
            JsonView::Number(number) => integer_value(number),
            _ => None,
        }
    }

    /// The integer, of a number that a `u64` holds.
    pub open spec fn unsigned(self) -> Option<int> {
        match self {
            JsonView::Number(number) => unsigned_value(number),
            _ => None,
        }
    }
}

impl Json {
    /// The value as data.
    pub open spec fn view(&self) -> JsonView
        decreases self, 1nat,
    {
        match self {
            Json::Null => JsonView::Null,
            Json::Bool(flag) => JsonView::Bool(*flag),
            Json::Number(number) => JsonView::Number(*number),
            Json::Text(text) => JsonView::Text(text@),
            Json::List(items) => JsonView::List(
                Seq::new(
                    items@.len(),
                    |i: int|
                        if 0 <= i < items@.len() {
                            items[i].view()
                        } else {
                            JsonView::Null
                        },
                ),
            ),
            Json::Object(_) => JsonView::Object(table(self.entries())),
        }
    }

    /// The members of an object as data, in order.
    pub open spec fn entries(&self) -> Seq<(Seq<char>, JsonView)>
        decreases self, 0nat,
    {
        match self {
            Json::Object(members) => Seq::new(
                members@.len(),
                |i: int|
                    if 0 <= i < members@.len() {
                        (members[i].0@, members[i].1.view())
                    } else {
                        (Seq::empty(), JsonView::Null)
                    },
            ),
            _ => Seq::empty(),
        }
    }

    /// The null value.
    pub fn null() -> (json: Json)
        ensures
            json@ == JsonView::Null,
    {
        Json::Null
    }

    /// A text value.
    pub fn text(text: &str) -> (json: Json)
        ensures
            json@ == JsonView::Text(text@),
    {
        Json::Text(text.to_owned())
    }

    /// An integer value.
    pub fn integer(value: i64) -> (json: Json)
        ensures
            json@ == JsonView::Number(integer_number(value as int)),
            json@.integer() == Some(value as int),
    {
        Json::Number(number_of(value))
    }

    /// The object without members.
    pub fn empty_object() -> (json: Json)
        ensures
            json@ == JsonView::Object(Map::empty()),
    {
        let members: Vec<(String, Json)> = Vec::new();
        proof {
            lemma_object(members);
        }
        Json::Object(members)
    }

    /// A list of values.
    pub fn list(items: Vec<Json>) -> (json: Json)
        ensures
            json@ == JsonView::List(items_view(items@)),
    {
        proof {
            lemma_list(items);
        }
        Json::List(items)
    }

    /// The object with the member `key`, in place of one it may have had.
    pub fn with(self, key: &str, value: Json) -> (json: Json)
        requires
            self@ is Object,
        ensures
            json@ == JsonView::Object(self@->Object_0.insert(key@, value@)),
    {
        match self {
            Json::Object(members) => {
                let ghost before = members;
                let mut members = members;
                members.push((key.to_owned(), value));
                proof {
                    lemma_object(before);
                    lemma_object(members);
                    assert(pairs(members@).drop_last() =~= pairs(before@));
                }
                Json::Object(members)
            },
            other => other,
        }
    }

    /// The member `key`, where the value is an object that has one.
    pub fn get(&self, key: &str) -> (found: Option<&Json>)
        ensures
            match found {
                Some(json) => self@.field(key@) == Some(json@),
                None => self@.field(key@) is None,
            },
    {
        match self {
            Json::Object(members) => {
                let mut left: usize = members.len();
                proof {
                    lemma_object(*members);
                    assert(members@.take(left as int) =~= members@);
                }
                while left > 0
                    invariant
                        left <= members@.len(),
                        self@ == JsonView::Object(table(pairs(members@))),
                        self@.field(key@) == JsonView::Object(
                            table(pairs(members@.take(left as int))),
                        ).field(key@),
                    decreases left,
                {
                    let ghost rest = pairs(members@.take(left as int));
                    proof {
                        assert(rest.drop_last() =~= pairs(members@.take(left - 1)));
                        assert(rest.last() == (members@[left - 1].0@, members@[left - 1].1@));
                    }
                    left = left - 1;
                    if same_text(members[left].0.as_str(), key) {
                        return Some(&members[left].1);
                    }
                }
                None
            },
            _ => None,
        }
    }

    /// The text, where the value is one.
    pub fn as_text(&self) -> (text: Option<&String>)
        ensures
            match text {
                Some(text) => self@.text() == Some(text@),
                None => self@.text() is None,
            },
    {
        match self {
            Json::Text(text) => Some(text),
            _ => None,
        }
    }

    /// The integer, where the value is a number that an `i64` holds.
    pub fn as_integer(&self) -> (value: Option<i64>)
        ensures
            match value {
                Some(value) => self@.integer() == Some(value as int),
                None => self@.integer() is None,
            },
    {
        match self {
            Json::Number(number) => integer_of(number),
            _ => None,
        }
    }

    /// The integer, where the value is a number that a `u64` holds.
    pub fn as_unsigned(&self) -> (value: Option<u64>)
        ensures
            match value {
                Some(value) => self@.unsigned() == Some(value as int),
                None => self@.unsigned() is None,
            },
    {
        match self {
            Json::Number(number) => unsigned_of(number),
            _ => None,
        }
    }

    /// Whether the value is an object.
    pub fn is_object(&self) -> (yes: bool)
        ensures
            yes == (self@ is Object),
    {
        match self {
            Json::Object(_) => true,
            _ => false,
        }
    }

    /// The same value once more.
    pub fn duplicate(&self) -> (copy: Json)
        ensures
            copy@ == self@,
        decreases self,
    {
        match self {
            Json::Null => Json::Null,
            Json::Bool(flag) => Json::Bool(*flag),
            Json::Number(number) => Json::Number(number.clone()),
            Json::Text(text) => Json::Text(text.clone()),
            Json::List(items) => {
                let mut copies: Vec<Json> = Vec::new();
                let mut i: usize = 0;
                while i < items.len()
                    invariant
                        i <= items@.len(),
                        *self == Json::List(*items),
                        copies@.len() == i,
                        forall|k: int| 0 <= k < i ==> copies@[k]@ == #[trigger] items@[k]@,
                    decreases items@.len() - i,
                {
                    assert(decreases_to!(*items => items[i as int]));
                    assert(decreases_to!(*self => self->List_0));
                    copies.push(items[i].duplicate());
                    i = i + 1;
                }
                proof {
                    lemma_list(*items);
                    lemma_list(copies);
                    assert(items_view(copies@) =~= items_view(items@));
                }
                Json::List(copies)
            },
            Json::Object(members) => {
                let mut copies: Vec<(String, Json)> = Vec::new();
                let mut i: usize = 0;
                while i < members.len()
                    invariant
                        i <= members@.len(),
                        *self == Json::Object(*members),
                        copies@.len() == i,
                        forall|k: int|
                            0 <= k < i ==> copies@[k].0@ == (#[trigger] members@[k]).0@
                                && copies@[k].1@ == members@[k].1@,
                    decreases members@.len() - i,
                {
                    assert(decreases_to!(*members => members[i as int]));
                    assert(decreases_to!(*self => self->Object_0));
                    assert(decreases_to!(members[i as int] => members[i as int].1));
                    copies.push((members[i].0.clone(), members[i].1.duplicate()));
                    i = i + 1;
                }
                proof {
                    lemma_object(*members);
                    lemma_object(copies);
                    assert(pairs(copies@) =~= pairs(members@));
                }
                Json::Object(copies)
            },
        }
    }

    /// Read one value from `text`. The error is a description of what is wrong.
    pub fn parse(text: &str) -> (read: Result<Json, String>)
        ensures
            match read {
                Ok(json) => parsed_json(text@) == Ok::<JsonView, Seq<char>>(json@),
                Err(detail) => parsed_json(text@) == Err::<JsonView, Seq<char>>(detail@),
            },
    {
        match read_value(text) {
            Ok(value) => Ok(from_value(value)),
            Err(detail) => Err(detail),
        }
    }

    /// The value as compact text on one line.
    pub fn render(&self) -> (text: String)
        ensures
            text@ == rendered_json(self@),
            one_line(text@),
            reads_back(self@, text@),
    {
        write_value(&to_value(self))
    }
}

} // verus!
