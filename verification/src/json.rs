//! JSON documents: their mathematical model, the calls into `serde_json` that
//! read and write them, and readers for the fields that the dashboard needs.

use vstd::prelude::*;
use crate::doubles::{conversion_is_exact, conversion_keeps_the_sign, nearest_double, spells};
use crate::price::Price;

verus! {

/// A number of a JSON document, told apart as `serde_json` does.
pub enum JsonNumber {
    /// An integer that is not negative.
    Natural(u64),
    /// A negative integer.
    Negative(i64),
    /// Any other number, by the bits of its double.
    Double(u64),
}

/// A JSON document. An object's members stand in the order in which the map
/// that holds them hands them out.
pub enum Json {
    Null,
    Bool(bool),
    Number(JsonNumber),
    Text(Seq<char>),
    Array(Seq<Json>),
    Object(Seq<(Seq<char>, Json)>),
}

/// The value of the first member under a key.
pub open spec fn lookup(members: Seq<(Seq<char>, Json)>, key: Seq<char>) -> Option<Json>
    decreases members.len(),
{
    if members.len() == 0 {
        None
    } else if members[0].0 == key {
        Some(members[0].1)
    } else {
        lookup(members.drop_first(), key)
    }
}

impl Json {
    /// The value under a key, where the document is an object that has the key.
    pub open spec fn field(self, key: Seq<char>) -> Option<Json> {
        match self {
            Json::Object(members) => lookup(members, key),
            _ => None,
        }
    }

    /// The text, where the document is a text.
    pub open spec fn text(self) -> Option<Seq<char>> {
        match self {
            Json::Text(s) => Some(s),
            _ => None,
        }
    }

    /// The integer, where the document is one that fits in 64 bits with a sign.
    pub open spec fn integer(self) -> Option<i64> {
        match self {
            Json::Number(JsonNumber::Natural(n)) => if n <= i64::MAX {
                Some(n as i64)
            } else {
                None
            },
            Json::Number(JsonNumber::Negative(n)) => Some(n),
            _ => None,
        }
    }

    /// The integer of any size, where the document is one.
    pub open spec fn whole(self) -> Option<int> {
        match self {
            Json::Number(JsonNumber::Natural(n)) => Some(n as int),
            Json::Number(JsonNumber::Negative(n)) => Some(n as int),
            _ => None,
        }
    }

    /// The price, where the document is a number; an integer counts as the double
    /// nearest to it.
    pub open spec fn price(self) -> Option<Price> {
        match self {
            Json::Number(JsonNumber::Natural(n)) => Some(Price { bits: nearest_double(n as int) }),
            Json::Number(JsonNumber::Negative(n)) => Some(Price { bits: nearest_double(n as int) }),
            Json::Number(JsonNumber::Double(bits)) => Some(Price { bits }),
            _ => None,
        }
    }

    /// The elements, where the document is an array.
    pub open spec fn elements(self) -> Option<Seq<Json>> {
        match self {
            Json::Array(items) => Some(items),
            _ => None,
        }
    }

    /// The members, where the document is an object.
    pub open spec fn members(self) -> Option<Seq<(Seq<char>, Json)>> {
        match self {
            Json::Object(members) => Some(members),
            _ => None,
        }
    }

    /// The price under a key of the object under another key.
    pub open spec fn price_at(self, outer: Seq<char>, inner: Seq<char>) -> Option<Price> {
        match self.field(outer) {
            Some(j) => j.price_under(inner),
            None => None,
        }
    }

    /// The integer under a key of the object under another key.
    pub open spec fn integer_at(self, outer: Seq<char>, inner: Seq<char>) -> Option<i64> {
        match self.field(outer) {
            Some(j) => match j.field(inner) {
                Some(k) => k.integer(),
                None => None,
            },
            None => None,
        }
    }

    /// The price under a key.
    pub open spec fn price_under(self, key: Seq<char>) -> Option<Price> {
        match self.field(key) {
            Some(j) => j.price(),
            None => None,
        }
    }

    /// The text under a key.
    pub open spec fn text_under(self, key: Seq<char>) -> Option<Seq<char>> {
        match self.field(key) {
            Some(j) => j.text(),
            None => None,
        }
    }
}

/// The type of a parsed document.
#[verifier::external_type_specification]
#[verifier::external_body]
pub struct ExValue(serde_json::Value);

/// The type of a parser's complaint.
#[verifier::external_type_specification]
#[verifier::external_body]
pub struct ExError(serde_json::Error);

/// Text or bytes that spell no document of the kind that was asked for.
#[derive(Debug)]
pub struct Malformed {
    /// What the parser says of it.
    pub cause: serde_json::Error,
}

/// What a `serde_json::Value` holds: the tree of its maps, arrays and scalars.
pub uninterp spec fn contents(value: serde_json::Value) -> Json;

/// The documents of a run of values.
pub open spec fn contents_of(values: Seq<serde_json::Value>) -> Seq<Json> {
    values.map_values(|v: serde_json::Value| contents(v))
}

/// The document that bytes spell, where `serde_json::from_slice` accepts them.
pub uninterp spec fn document(bytes: Seq<u8>) -> Option<Json>;

/// The array that a text spells, where `serde_json::from_str` accepts it as one.
pub uninterp spec fn array_text(text: Seq<char>) -> Option<Seq<Json>>;

/// The compact text that `serde_json` writes for a document.
pub uninterp spec fn compact(json: Json) -> Seq<char>;

/// `serde_json::from_slice` into a value: succeeds where the bytes spell a
/// document, and gives that document.
#[verifier::external_body]
pub(crate) fn parse_document(bytes: &[u8]) -> (r: Result<serde_json::Value, serde_json::Error>)
    ensures
        document(bytes@) == (match r {
            Ok(value) => Some(contents(value)),
            Err(_) => None,
        }),
{
    serde_json::from_slice(bytes)
}

/// `serde_json::from_str` into a vector of values: succeeds where the text
/// spells an array, and gives its elements in order.
#[verifier::external_body]
pub(crate) fn parse_array(text: &str) -> (r: Result<Vec<serde_json::Value>, serde_json::Error>)
    ensures
        array_text(text@) == (match r {
            Ok(values) => Some(contents_of(values@)),
            Err(_) => None,
        }),
{
    serde_json::from_str(text)
}

/// `serde_json::Value::get` with a text key: the value under the key, where the
/// value is an object that has it.
#[verifier::external_body]
pub(crate) fn get<'a>(value: &'a serde_json::Value, key: &str) -> (r: Option<&'a serde_json::Value>)
    ensures
        contents(*value).field(key@) == (match r {
            Some(v) => Some(contents(*v)),
            None => None,
        }),
{
    value.get(key)
}

/// `serde_json::Value::as_str`: the text of a text value.
#[verifier::external_body]
pub(crate) fn as_text<'a>(value: &'a serde_json::Value) -> (r: Option<&'a str>)
    ensures
        contents(*value).text() == (match r {
            Some(s) => Some(s@),
            None => None,
        }),
{
    value.as_str()
}

/// `serde_json::Value::as_i64`: the integer of a value that is one and fits.
#[verifier::external_body]
pub(crate) fn as_integer(value: &serde_json::Value) -> (r: Option<i64>)
    ensures
        r == contents(*value).integer(),
{
    value.as_i64()
}

/// `serde_json::Value::as_f64`: the double of a number, by its bits. A double is
/// given as it is, an integer by Rust's cast, which takes the nearest double and,
/// of two that are equally near, the one whose last bit is clear.
#[verifier::external_body]
pub(crate) fn as_double(value: &serde_json::Value) -> (r: Option<u64>)
    ensures
        r == (match contents(*value) {
            Json::Number(JsonNumber::Natural(n)) => Some(nearest_double(n as int)),
            Json::Number(JsonNumber::Negative(n)) => Some(nearest_double(n as int)),
            Json::Number(JsonNumber::Double(bits)) => Some(bits),
            _ => None,
        }),
{
    match value.as_f64() {
        Some(double) => Some(double.to_bits()),
        None => None,
    }
}

/// `serde_json::Value::as_array`: the elements of an array, in order.
#[verifier::external_body]
pub(crate) fn as_elements<'a>(value: &'a serde_json::Value) -> (r: Option<
    &'a Vec<serde_json::Value>,
>)
    ensures
        contents(*value).elements() == (match r {
            Some(items) => Some(contents_of(items@)),
            None => None,
        }),
{
    value.as_array()
}

/// What a list of members stands for.
pub open spec fn members_of(entries: Seq<(&String, &serde_json::Value)>) -> Seq<
    (Seq<char>, Json),
> {
    entries.map_values(|e: (&String, &serde_json::Value)| (e.0@, contents(*e.1)))
}

/// No two members have the same key.
pub open spec fn distinct_keys(members: Seq<(Seq<char>, Json)>) -> bool {
    forall|i: int, j: int|
        0 <= i < members.len() && 0 <= j < members.len() && i != j ==> (#[trigger] members[i]).0
            != (#[trigger] members[j]).0
}

/// `serde_json::Value::as_object`, and the iterator of the map it gives: the
/// members of an object, each key once.
#[verifier::external_body]
pub(crate) fn as_members<'a>(value: &'a serde_json::Value) -> (r: Option<
    Vec<(&'a String, &'a serde_json::Value)>,
>)
    ensures
        contents(*value).members() == (match r {
            Some(entries) => Some(members_of(entries@)),
            None => None,
        }),
        r matches Some(entries) ==> distinct_keys(members_of(entries@)),
{
    match value.as_object() {
        Some(map) => Some(map.iter().collect()),
        None => None,
    }
}

/// `serde_json::Value::to_string`: the compact text of the document.
#[verifier::external_body]
pub(crate) fn to_compact(value: &serde_json::Value) -> (r: String)
    ensures
        r@ == compact(contents(*value)),
{
    value.to_string()
}

/// `serde_json::Value::String`: the value that holds a text.
#[verifier::external_body]
pub(crate) fn text_value(text: &str) -> (r: serde_json::Value)
    ensures
        contents(r) == Json::Text(text@),
{
    serde_json::Value::String(text.to_owned())
}

/// `serde_json::Value::Array`: the value that holds the elements in order.
#[verifier::external_body]
pub(crate) fn array_value(items: Vec<serde_json::Value>) -> (r: serde_json::Value)
    ensures
        contents(r) == Json::Array(contents_of(items@)),
{
    serde_json::Value::Array(items)
}

/// The first characters of the keys ascend, so the keys are distinct and in
/// alphabetic order.
pub open spec fn ascending(entries: Seq<(String, serde_json::Value)>) -> bool {
    &&& forall|i: int| 0 <= i < entries.len() ==> (#[trigger] entries[i]).0@.len() > 0
    &&& forall|i: int, j: int|
        0 <= i < j < entries.len() ==> (#[trigger] entries[i]).0@[0] < (#[trigger] entries[j]).0@[0]
}

/// `serde_json::Value::Object` of a map collected from the entries: the value
/// that holds them as members. The map keeps its members in the order of their
/// keys, which is the order in which they are given.
#[verifier::external_body]
pub(crate) fn object_value(entries: Vec<(String, serde_json::Value)>) -> (r: serde_json::Value)
    requires
        ascending(entries@),
    ensures
        contents(r) == Json::Object(
            entries@.map_values(|e: (String, serde_json::Value)| (e.0@, contents(e.1))),
        ),
{
    serde_json::Value::Object(entries.into_iter().collect())
}

/// The price under a key.
pub(crate) fn read_price(value: &serde_json::Value, key: &str) -> (r: Option<Price>)
    ensures
        r == contents(*value).price_under(key@),
{
    match get(value, key) {
        Some(v) => match as_double(v) {
            Some(bits) => Some(Price { bits }),
            None => None,
        },
        None => None,
    }
}

/// The text under a key.
pub(crate) fn read_text<'a>(value: &'a serde_json::Value, key: &str) -> (r: Option<&'a str>)
    ensures
        contents(*value).text_under(key@) == (match r {
            Some(s) => Some(s@),
            None => None,
        }),
{
    match get(value, key) {
        Some(v) => as_text(v),
        None => None,
    }
}

/// The price under a key of the object under another key.
pub(crate) fn read_price_at(value: &serde_json::Value, outer: &str, inner: &str) -> (r: Option<Price>)
    ensures
        r == contents(*value).price_at(outer@, inner@),
{
    match get(value, outer) {
        Some(v) => read_price(v, inner),
        None => None,
    }
}

/// The integer under a key of the object under another key.
pub(crate) fn read_integer_at(value: &serde_json::Value, outer: &str, inner: &str) -> (r: Option<i64>)
    ensures
        r == contents(*value).integer_at(outer@, inner@),
{
    match get(value, outer) {
        Some(v) => match get(v, inner) {
            Some(w) => as_integer(w),
            None => None,
        },
        None => None,
    }
}

/// An integer is a price of its own sign, and zero only where it is zero.
pub proof fn integer_prices_keep_their_sign(json: Json, n: int)
    requires
        json.whole() == Some(n),
    ensures
        json.price() matches Some(p) && (p.positive() <==> n > 0) && (p.zero() <==> n == 0),
{
    conversion_keeps_the_sign(n);
}

/// The value under a key is that of the first member that has the key, whatever the
/// other members hold.
pub proof fn first_member_is_found(members: Seq<(Seq<char>, Json)>, key: Seq<char>, i: int)
    requires
        0 <= i < members.len(),
        members[i].0 == key,
        forall|j: int| 0 <= j < i ==> (#[trigger] members[j]).0 != key,
    ensures
        lookup(members, key) == Some(members[i].1),
    decreases members.len(),
{
    if i > 0 {
        let rest = members.drop_first();
        assert(members[0].0 != key);
        assert(rest[i - 1] == members[i]);
        assert forall|j: int| 0 <= j < i - 1 implies (#[trigger] rest[j]).0 != key by {
            assert(rest[j] == members[j + 1]);
        }
        first_member_is_found(rest, key, i - 1);
    }
}

/// No value is found under a key that no member has.
pub proof fn missing_keys_are_not_found(members: Seq<(Seq<char>, Json)>, key: Seq<char>)
    requires
        forall|i: int| 0 <= i < members.len() ==> (#[trigger] members[i]).0 != key,
    ensures
        lookup(members, key) is None,
    decreases members.len(),
{
    if members.len() > 0 {
        let rest = members.drop_first();
        assert(members[0].0 != key);
        assert forall|j: int| 0 <= j < rest.len() implies (#[trigger] rest[j]).0 != key by {
            assert(rest[j] == members[j + 1]);
        }
        missing_keys_are_not_found(rest, key);
    }
}

/// Where each key stands once, the value under the key of a member is that member's,
/// wherever it stands.
pub proof fn each_member_is_found(members: Seq<(Seq<char>, Json)>, i: int)
    requires
        distinct_keys(members),
        0 <= i < members.len(),
    ensures
        Json::Object(members).field(members[i].0) == Some(members[i].1),
{
    first_member_is_found(members, members[i].0, i);
}

/// Only an object has fields, only a text has a text, only an array has elements and
/// only an object has members, and each gives what it holds.
pub proof fn documents_give_what_they_hold(
    text: Seq<char>,
    items: Seq<Json>,
    members: Seq<(Seq<char>, Json)>,
    json: Json,
    key: Seq<char>,
)
    ensures
        Json::Text(text).text() == Some(text),
        Json::Array(items).elements() == Some(items),
        Json::Object(members).members() == Some(members),
        json.text() is Some <==> json is Text,
        json.elements() is Some <==> json is Array,
        json.members() is Some <==> json is Object,
        Json::Object(members).field(key) == lookup(members, key),
        json.field(key) is Some ==> json is Object,
{
}

/// A number is a price, and nothing else is: one that is a double is the price of
/// those very bits, whatever they are, and an integer up to the size at which every
/// integer is a double is the price that equals it.
pub proof fn numbers_are_prices(json: Json, bits: u64, n: u64, m: i64)
    ensures
        json.price() is Some <==> json is Number,
        Json::Number(JsonNumber::Double(bits)).price() == Some(Price { bits }),
        0 < n <= 0x20_0000_0000_0000 ==> (Json::Number(JsonNumber::Natural(n)).price() matches Some(
            p,
        ) && spells(p.bits, n as nat)),
        -0x20_0000_0000_0000 <= m < 0 ==> (Json::Number(JsonNumber::Negative(m)).price()
            matches Some(p) && p.bits >= 0x8000_0000_0000_0000 && spells(
            (p.bits - 0x8000_0000_0000_0000) as u64,
            (-m) as nat,
        )),
        Json::Number(JsonNumber::Natural(0)).price() == Some(Price { bits: 0 }),
{
    if 0 < n <= 0x20_0000_0000_0000 {
        conversion_is_exact(n as int);
    }
    if -0x20_0000_0000_0000 <= m < 0 {
        conversion_is_exact(-m);
    }
}

/// An integer that fits in 64 bits with a sign is given as it is, and no other
/// document is an integer.
pub proof fn integers_are_given_as_they_are(json: Json)
    ensures
        match json {
            Json::Number(JsonNumber::Natural(n)) => if n <= 0x7fff_ffff_ffff_ffff {
                json.integer() matches Some(v) && v == n
            } else {
                json.integer() is None
            },
            Json::Number(JsonNumber::Negative(n)) => json.integer() == Some(n),
            _ => json.integer() is None,
        },
{
}

/// What is read under a key is told by the value under that key alone: its price
/// where it is a number, its text where it is a text, and nothing where the key is
/// missing or holds a value of another kind.
pub proof fn readings_look_under_their_key(json: Json, key: Seq<char>, value: Json)
    requires
        json.field(key) == Some(value),
    ensures
        json.price_under(key) == value.price(),
        json.text_under(key) == value.text(),
        value !is Number ==> json.price_under(key) is None,
        value !is Text ==> json.text_under(key) is None,
{
}

/// Nothing is read under a key that is missing, nor at a pair of keys of which one
/// is.
pub proof fn missing_keys_give_nothing(json: Json, key: Seq<char>, inner: Seq<char>)
    requires
        json.field(key) matches Some(value) ==> value.field(inner) is None,
    ensures
        json.field(key) is None ==> json.price_under(key) is None && json.text_under(key) is None,
        json.price_at(key, inner) is None,
        json.integer_at(key, inner) is None,
{
}

/// What is read at a pair of keys is told by the value there alone.
pub proof fn readings_look_at_their_keys(
    json: Json,
    outer: Seq<char>,
    object: Json,
    inner: Seq<char>,
    value: Json,
)
    requires
        json.field(outer) == Some(object),
        object.field(inner) == Some(value),
    ensures
        json.price_at(outer, inner) == value.price(),
        json.integer_at(outer, inner) == value.integer(),
{
}

/// Each value stands at the place of the document that it holds, and each entry at that
/// of the member.
pub proof fn contents_stand_in_place(
    values: Seq<serde_json::Value>,
    entries: Seq<(&String, &serde_json::Value)>,
    i: int,
)
    ensures
        contents_of(values).len() == values.len(),
        0 <= i < values.len() ==> contents_of(values)[i] == contents(values[i]),
        members_of(entries).len() == entries.len(),
        0 <= i < entries.len() ==> members_of(entries)[i].0 == entries[i].0@ && members_of(
            entries,
        )[i].1 == contents(*entries[i].1),
{
}

} // verus!
