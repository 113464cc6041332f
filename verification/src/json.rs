//! JSON values, their text and their meaning.
//!
//! Values are built, printed and read by `serde_json`. The items in this module that call it
//! state what they rely on.

use vstd::prelude::*;
use vstd::utf8::*;

verus! {

/// A JSON value.
pub enum Json {
    /// A string.
    Text(Seq<char>),
    /// An integer.
    Integer(int),
    /// A boolean.
    Boolean(bool),
    /// An object, by the names of its members.
    Object(Map<Seq<char>, Json>),
    /// A number that is no integer, an array, or null.
    Other,
}

/// A string, or an object whose members are strings.
pub open spec fn flat(value: Json) -> bool {
    match value {
        Json::Text(_) => true,
        Json::Object(members) => forall|name: Seq<char>| #[trigger]
            members.dom().contains(name) ==> members[name] is Text,
        _ => false,
    }
}

/// A string, or an object whose members are flat.
pub open spec fn shallow(value: Json) -> bool {
    match value {
        Json::Text(_) => true,
        Json::Object(members) => forall|name: Seq<char>| #[trigger]
            members.dom().contains(name) ==> flat(members[name]),
        _ => false,
    }
}

/// The members of an empty object.
pub open spec fn no_members() -> Map<Seq<char>, Json> {
    Map::empty()
}

/// `serde_json::Value`: a JSON value.
#[verifier::external_type_specification]
#[verifier::external_body]
pub struct ExValue(serde_json::Value);

/// `serde_json::Map`: the members of a JSON object.
#[verifier::external_type_specification]
#[verifier::external_body]
#[verifier::reject_recursive_types(K)]
#[verifier::reject_recursive_types(V)]
pub struct ExMap<K, V>(serde_json::Map<K, V>);

/// The JSON value that a `serde_json::Value` holds.
pub uninterp spec fn json_of(value: serde_json::Value) -> Json;

/// The members that a `serde_json::Map` holds.
pub uninterp spec fn members_of(object: serde_json::Map<String, serde_json::Value>) -> Map<
    Seq<char>,
    Json,
>;

/// The compact text of a shallow JSON value, as the `Display` of `serde_json::Value` prints it.
pub uninterp spec fn json_text(value: Json) -> Seq<char>;

/// The JSON value that `serde_json::from_slice` reads from `bytes`, if they are a JSON text.
pub uninterp spec fn json_read(bytes: Seq<u8>) -> Option<Json>;

/// `serde_json::Map::new`: no members.
#[verifier::external_body]
pub(crate) fn new_object() -> (res: serde_json::Map<String, serde_json::Value>)
    ensures
        members_of(res) == no_members(),
{
    serde_json::Map::new()
}

/// `serde_json::Map::insert`: the member `name` is now `value`, whatever it was before; the
/// others stay as they are.
#[verifier::external_body]
pub(crate) fn set_member(
    object: &mut serde_json::Map<String, serde_json::Value>,
    name: String,
    value: serde_json::Value,
)
    ensures
        members_of(*final(object)) == members_of(*old(object)).insert(name@, json_of(value)),
{
    object.insert(name, value);
}

/// `serde_json::Map::get`: the member `name`, if there is one.
#[verifier::external_body]
pub(crate) fn member<'a>(
    object: &'a serde_json::Map<String, serde_json::Value>,
    name: &str,
) -> (res: Option<&'a serde_json::Value>)
    ensures
        res is Some <==> members_of(*object).dom().contains(name@),
        res matches Some(value) ==> json_of(*value) == members_of(*object)[name@],
{
    object.get(name)
}

/// `serde_json::Value::as_str`: the text of a string, and nothing for any other value.
pub assume_specification[ serde_json::Value::as_str ](value: &serde_json::Value) -> (res: Option<
    &str,
>)
    ensures
        json_of(*value) matches Json::Text(text) ==> res is Some && res->0@ == text,
        !(json_of(*value) is Text) ==> res is None,
;

/// `serde_json::Value::as_i64`: an integer that fits, and nothing for any other value.
pub assume_specification[ serde_json::Value::as_i64 ](value: &serde_json::Value) -> (res: Option<
    i64,
>)
    ensures
        json_of(*value) matches Json::Integer(n) ==> (if i64::MIN <= n <= i64::MAX {
            res is Some && res->0 == n
        } else {
            res is None
        }),
        !(json_of(*value) is Integer) ==> res is None,
;

/// `serde_json::Value::as_bool`: the value of a boolean, and nothing for any other value.
pub assume_specification[ serde_json::Value::as_bool ](value: &serde_json::Value) -> (res: Option<
    bool,
>)
    ensures
        json_of(*value) matches Json::Boolean(b) ==> res == Some(b),
        !(json_of(*value) is Boolean) ==> res is None,
;

/// `serde_json::Value::String`: a string value.
#[verifier::external_body]
pub(crate) fn text_value(text: String) -> (res: serde_json::Value)
    ensures
        json_of(res) == Json::Text(text@),
{
    serde_json::Value::String(text)
}

/// `serde_json::Value::Object`: an object with the given members.
#[verifier::external_body]
pub(crate) fn object_value(object: serde_json::Map<String, serde_json::Value>) -> (res:
    serde_json::Value)
    ensures
        json_of(res) == Json::Object(members_of(object)),
{
    serde_json::Value::Object(object)
}

/// The `Display` of `serde_json::Value`: the compact JSON text of a value. The text holds no
/// control characters, since strings are printed with those escaped and nothing is printed
/// between tokens. `serde_json::from_slice` reads the value back from the bytes of its text. This
/// holds of `serde_json` without its features `raw_value` and `arbitrary_precision`: with these it
/// takes an object that begins with a name of its own for something else.
#[verifier::external_body]
pub(crate) fn value_text(value: &serde_json::Value) -> (res: String)
    requires
        shallow(json_of(*value)),
    ensures
        res@ == json_text(json_of(*value)),
        forall|i: int| 0 <= i < res@.len() ==> #[trigger] res@[i] >= ' ',
        json_read(encode_utf8(res@)) == Some(json_of(*value)),
{
    value.to_string()
}

/// `serde_json::from_slice` into a `serde_json::Value`: reads one JSON text, and nothing when
/// the bytes are not one.
#[verifier::external_body]
pub(crate) fn read_value(bytes: &[u8]) -> (res: Option<serde_json::Value>)
    ensures
        res is Some <==> json_read(bytes@) is Some,
        res matches Some(value) ==> json_read(bytes@) == Some(json_of(value)),
{
    serde_json::from_slice(bytes).ok()
}

} // verus!
