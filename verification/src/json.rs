use vstd::prelude::*;

verus! {

/// A JSON document as this library holds it. Numbers carry exactly what the
/// feeds use of them: their value as an unsigned 64-bit integer, when they
/// have one.
#[derive(Debug)]
pub enum JsonValue {
    Null,
    Bool(bool),
    Num(Option<u64>),
    Str(String),
    Arr(Vec<JsonValue>),
    Obj(Vec<(String, JsonValue)>),
}

#[verifier::external_type_specification]
#[verifier::external_body]
pub struct ExValue(serde_json::Value);

#[verifier::external_type_specification]
#[verifier::external_body]
pub struct ExJsonError(serde_json::Error);

/// What `serde_json` makes of these bytes: the parsed document, or nothing
/// when they are not one well-formed JSON document. A function of the bytes
/// alone.
pub uninterp spec fn json_tree_of(bytes: Seq<u8>) -> Option<JsonValue>;

/// Relies on `serde_json::Value`: tells its six variants apart, moving each
/// payload into this library's tree. Object keys keep the map's own order;
/// numbers keep their `as_u64` reading.
#[verifier::external_body]
fn tree_of_value(v: serde_json::Value) -> JsonValue {
    match v {
        serde_json::Value::Null => JsonValue::Null,
        serde_json::Value::Bool(b) => JsonValue::Bool(b),
        serde_json::Value::Number(n) => JsonValue::Num(n.as_u64()),
        serde_json::Value::String(s) => JsonValue::Str(s),
        serde_json::Value::Array(a) => JsonValue::Arr(
            a.into_iter().map(tree_of_value).collect(),
        ),
        serde_json::Value::Object(m) => JsonValue::Obj(
            m.into_iter().map(|p| (p.0, tree_of_value(p.1))).collect(),
        ),
    }
}

/// Relies on `serde_json::from_slice`: parses one JSON document, succeeding
/// exactly on well-formed input and returning the parsed tree, a function of
/// the bytes alone.
#[verifier::external_body]
pub(crate) fn parse_json(bytes: &[u8]) -> (r: Result<JsonValue, serde_json::Error>)
    ensures
        r is Ok <==> json_tree_of(bytes@) is Some,
        r matches Ok(t) ==> json_tree_of(bytes@) == Some(t),
    {
    match serde_json::from_slice::<serde_json::Value>(bytes) {
        Ok(v) => Ok(tree_of_value(v)),
        Err(e) => Err(e),
    }
}

/// The value under `key` in a JSON object: the first pair carrying that
/// key. Nothing on any other kind of value.
pub open spec fn spec_get(v: JsonValue, key: Seq<char>) -> Option<JsonValue> {
    match v {
        JsonValue::Obj(pairs) => spec_get_from(pairs@, key, 0),
        _ => None,
    }
}

pub open spec fn spec_get_from(
    pairs: Seq<(String, JsonValue)>,
    key: Seq<char>,
    i: int,
) -> Option<JsonValue>
    decreases pairs.len() - i when 0 <= i
{
    if i >= pairs.len() {
        None
    } else if pairs[i].0@ == key {
        Some(pairs[i].1)
    } else {
        spec_get_from(pairs, key, i + 1)
    }
}

fn str_equals(a: &String, b: &str) -> (r: bool)
    ensures
        r == (a@ == b@),
{
    let owned = b.to_owned();
    *a == owned
}

fn get_from<'a>(pairs: &'a Vec<(String, JsonValue)>, key: &str, i: usize) -> (r: Option<
    &'a JsonValue,
>)
    requires
        i <= pairs@.len(),
    ensures
        r matches Some(x) ==> spec_get_from(pairs@, key@, i as int) == Some(*x),
        r is None ==> spec_get_from(pairs@, key@, i as int) is None,
    decreases pairs@.len() - i,
{
    if i == pairs.len() {
        None
    } else if str_equals(&pairs[i].0, key) {
        Some(&pairs[i].1)
    } else {
        get_from(pairs, key, i + 1)
    }
}

/// Looks a key up in a JSON object, empty-handed on non-objects and absent
/// keys.
pub fn get_field<'a>(v: &'a JsonValue, key: &str) -> (r: Option<&'a JsonValue>)
    ensures
        r matches Some(x) ==> spec_get(*v, key@) == Some(*x),
        r is None ==> spec_get(*v, key@) is None,
{
    match v {
        JsonValue::Obj(pairs) => get_from(pairs, key, 0),
        _ => None,
    }
}

} // verus!
