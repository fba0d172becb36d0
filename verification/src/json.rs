//! JSON values: what they hold, and the calls into `serde_json` that read and build them.
use serde_json::Value;
use vstd::prelude::*;
use vstd::string::*;

verus! {

/// `serde_json::Value`, of which nothing is known but what the calls below say.
#[verifier::external_type_specification]
#[verifier::external_body]
pub struct ExternalValue(serde_json::Value);

/// What a JSON value holds.
pub enum JsonView {
    Null,
    Bool(bool),
    /// An integer that is not negative.
    Unsigned(u64),
    /// A negative integer.
    Negative(i64),
    /// Any other number, as the bits of a double.
    Double(u64),
    Text(Seq<char>),
    List(Seq<JsonView>),
    Object(Map<Seq<char>, JsonView>),
}

impl JsonView {
    /// Whether the value is a number.
    pub open spec fn is_number(self) -> bool {
        self is Unsigned || self is Negative || self is Double
    }

    /// The member of an object under a key.
    pub open spec fn member(self, key: Seq<char>) -> Option<JsonView> {
        match self {
            JsonView::Object(members) => if members.dom().contains(key) {
                Some(members[key])
            } else {
                None
            },
            _ => None,
        }
    }

    /// The characters of a text.
    pub open spec fn text(self) -> Option<Seq<char>> {
        match self {
            JsonView::Text(characters) => Some(characters),
            _ => None,
        }
    }

    /// The text of a member of an object.
    pub open spec fn text_member(self, key: Seq<char>) -> Option<Seq<char>> {
        match self.member(key) {
            Some(member) => member.text(),
            None => None,
        }
    }
}

/// What a value of `serde_json` holds.
pub uninterp spec fn json_content(value: Value) -> JsonView;

/// What `serde_json` reads from bytes; nothing where they are no JSON text that it accepts.
pub uninterp spec fn parsed_json(bytes: Seq<u8>) -> Option<JsonView>;

/// The text that `serde_json` writes for a value.
pub uninterp spec fn rendered_json(value: JsonView) -> Seq<char>;

/// The bits of the double that `serde_json` makes of a number.
pub uninterp spec fn double_bits(value: JsonView) -> Option<u64>;

/// What a list of values holds.
pub open spec fn contents(values: Seq<Value>) -> Seq<JsonView> {
    values.map_values(|value: Value| json_content(value))
}

/// The members of an object given as a list, where later ones replace earlier ones.
pub open spec fn members_of(members: Seq<(String, Value)>) -> Map<Seq<char>, JsonView>
    decreases members.len(),
{
    if members.len() == 0 {
        Map::empty()
    } else {
        members_of(members.drop_last()).insert(
            members.last().0@,
            json_content(members.last().1),
        )
    }
}

/// Calls `serde_json::from_slice`. Trusted: whether the bytes are accepted, and what is read from
/// them, depends on the bytes alone.
#[verifier::external_body]
pub(crate) fn parse_json(bytes: &[u8]) -> (value: Option<Value>)
    ensures
        match value {
            Some(parsed) => parsed_json(bytes@) == Some(json_content(parsed)),
            None => parsed_json(bytes@) is None,
        },
{
    serde_json::from_slice(bytes).ok()
}

/// Whether a key is written as it stands: it holds no quotes, backslashes and control characters.
pub open spec fn is_plain_key(key: Seq<char>) -> bool {
    forall|i: int|
        0 <= i < key.len() ==> (#[trigger] key[i]) >= ' ' && key[i] != '"' && key[i] != '\\'
}

/// An object with one member that is true or false.
pub open spec fn flag_object(key: Seq<char>, flag: bool) -> JsonView {
    JsonView::Object(Map::empty().insert(key, JsonView::Bool(flag)))
}

/// The text of an object with one member that is true or false.
pub open spec fn flag_text(key: Seq<char>, flag: bool) -> Seq<char> {
    "{\""@ + key + "\":"@ + if flag {
        "true"@
    } else {
        "false"@
    } + "}"@
}

/// Calls `Value::to_string`. Trusted: the text depends on what the value holds alone, and an object with
/// one member that is true or false is written without spaces, under its key in quotes.
#[verifier::external_body]
pub(crate) fn render_json(value: &Value) -> (rendered: String)
    ensures
        rendered@ == rendered_json(json_content(*value)),
        forall|key: Seq<char>, flag: bool|
            is_plain_key(key) && json_content(*value) == flag_object(key, flag) ==> rendered@
                == #[trigger] flag_text(key, flag),
{
    value.to_string()
}

/// Calls `Value::get` with a text. Trusted: it gives the member of an object under that key, and
/// nothing for a missing key or a value that is no object.
#[verifier::external_body]
pub(crate) fn member<'a>(value: &'a Value, key: &str) -> (member: Option<&'a Value>)
    ensures
        match member {
            Some(found) => json_content(*value).member(key@) == Some(json_content(*found)),
            None => json_content(*value).member(key@) is None,
        },
{
    value.get(key)
}

/// Calls `Value::as_str`. Trusted: it gives the characters of a text, and nothing for other values.
#[verifier::external_body]
pub(crate) fn as_text(value: &Value) -> (characters: Option<&str>)
    ensures
        match characters {
            Some(found) => json_content(*value).text() == Some(found@),
            None => json_content(*value).text() is None,
        },
{
    value.as_str()
}

/// Calls `Value::as_u64`. Trusted: it gives an integer that is not negative, and nothing for other
/// values.
#[verifier::external_body]
pub(crate) fn as_unsigned(value: &Value) -> (number: Option<u64>)
    ensures
        number == match json_content(*value) {
            JsonView::Unsigned(found) => Some(found),
            _ => None::<u64>,
        },
{
    value.as_u64()
}

/// Calls `Value::as_f64`. Trusted: it gives a double for every number and nothing for other values;
/// which one depends on what the value holds alone, and a double is given as it is.
#[verifier::external_body]
pub(crate) fn as_double_bits(value: &Value) -> (bits: Option<u64>)
    ensures
        bits == double_bits(json_content(*value)),
        bits is Some <==> json_content(*value).is_number(),
        json_content(*value) is Double ==> bits == Some(json_content(*value)->Double_0),
{
    value.as_f64().map(|number| number.to_bits())
}

/// Calls `Value::as_array`. Trusted: it gives the values of a list in order, and nothing for other
/// values.
#[verifier::external_body]
pub(crate) fn as_list(value: &Value) -> (list: Option<&Vec<Value>>)
    ensures
        match list {
            Some(found) => json_content(*value) == JsonView::List(contents(found@)),
            None => json_content(*value) !is List,
        },
{
    value.as_array()
}

/// Calls `Value::clone`. Trusted: the copy holds what the value holds.
#[verifier::external_body]
pub(crate) fn copy_value(value: &Value) -> (copy: Value)
    ensures
        json_content(copy) == json_content(*value),
{
    value.clone()
}

/// Makes `Value::Null`. Trusted: it holds nothing.
#[verifier::external_body]
pub(crate) fn null_value() -> (value: Value)
    ensures
        json_content(value) == JsonView::Null,
{
    Value::Null
}

/// Calls `Value::from` with a truth value. Trusted: the value holds it.
#[verifier::external_body]
pub(crate) fn bool_value(truth: bool) -> (value: Value)
    ensures
        json_content(value) == JsonView::Bool(truth),
{
    Value::from(truth)
}

/// Calls `Value::from` with an integer. Trusted: the value holds it.
#[verifier::external_body]
pub(crate) fn unsigned_value(number: u64) -> (value: Value)
    ensures
        json_content(value) == JsonView::Unsigned(number),
{
    Value::from(number)
}

/// Calls `Value::from` with a text. Trusted: the value holds its characters.
#[verifier::external_body]
pub(crate) fn text_value(characters: &str) -> (value: Value)
    ensures
        json_content(value) == JsonView::Text(characters@),
{
    Value::from(characters)
}

/// Calls `Value::from` with a vector. Trusted: the value holds the values in order.
#[verifier::external_body]
pub(crate) fn list_value(values: Vec<Value>) -> (value: Value)
    ensures
        json_content(value) == JsonView::List(contents(values@)),
{
    Value::from(values)
}

/// Calls `Map::from_iter` and makes an object of it. Trusted: the object holds the members, later
/// ones in place of earlier ones under the same key.
#[verifier::external_body]
pub(crate) fn object_value(members: Vec<(String, Value)>) -> (value: Value)
    ensures
        json_content(value) == JsonView::Object(members_of(members@)),
{
    Value::Object(members.into_iter().collect())
}

/// Calls `Value::index_mut` with a text and assigns to it. Trusted: the object holds the new member
/// in place of an earlier one under that key, and else what it held.
#[verifier::external_body]
pub(crate) fn set_member(value: &mut Value, key: &str, member: Value)
    requires
        json_content(*old(value)) is Object,
    ensures
        json_content(*final(value)) == JsonView::Object(
            json_content(*old(value))->Object_0.insert(key@, json_content(member)),
        ),
{
    value[key] = member;
}

/// A member is found in an object under its key and nowhere else, and its text is read where it is one.
pub proof fn members_are_found_under_their_key(
    members: Map<Seq<char>, JsonView>,
    key: Seq<char>,
    characters: Seq<char>,
)
    ensures
        members.dom().contains(key) ==> JsonView::Object(members).member(key) == Some(members[key]),
        !members.dom().contains(key) ==> JsonView::Object(members).member(key) is None,
        JsonView::List(Seq::empty()).member(key) is None,
        JsonView::Text(characters).member(key) is None,
        JsonView::Null.member(key) is None,
        JsonView::Object(members.insert(key, JsonView::Text(characters))).text_member(key) == Some(
            characters,
        ),
        JsonView::Object(members.insert(key, JsonView::Null)).text_member(key) is None,
        JsonView::Object(members.insert(key, JsonView::Bool(true))).text_member(key) is None,
{
}

/// A list of members makes an object in which each stands under its key, later ones in place of earlier
/// ones of the same key.
pub proof fn later_members_replace_earlier_ones(
    members: Seq<(String, Value)>,
    key: String,
    value: Value,
    other: Seq<char>,
)
    ensures
        members_of(Seq::empty()).dom() == Set::<Seq<char>>::empty(),
        members_of(members.push((key, value))).dom().contains(key@),
        members_of(members.push((key, value)))[key@] == json_content(value),
        other != key@ ==> {
            &&& members_of(members.push((key, value))).dom().contains(other) <==> members_of(
                members,
            ).dom().contains(other)
            &&& members_of(members).dom().contains(other) ==> members_of(
                members.push((key, value)),
            )[other] == members_of(members)[other]
        },
{
    assert(members.push((key, value)).drop_last() =~= members);
}

/// What is said of a list of values is what each of them holds, in order.
pub proof fn values_show_what_they_hold(values: Seq<Value>, i: int)
    ensures
        contents(values).len() == values.len(),
        0 <= i < values.len() ==> contents(values)[i] == json_content(values[i]),
{
}

} // verus!
