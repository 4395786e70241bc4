//! JSON texts, read and written by `serde_json`.
//!
//! An object is known here by its leaves: strings, unsigned integers and
//! booleans; any other value counts as `Other`.
use vstd::prelude::*;

verus! {

/// A leaf of a JSON object.
pub enum JsonLeaf {
    Text(String),
    Number(u64),
    Flag(bool),
}

/// A leaf of a JSON object, as a value.
pub enum LeafView {
    Text(Seq<char>),
    Number(u64),
    Flag(bool),
    /// An array, an object, null, or a number that is no unsigned integer.
    Other,
}

impl View for JsonLeaf {
    type V = LeafView;

    open spec fn view(&self) -> LeafView {
        match self {
            JsonLeaf::Text(s) => LeafView::Text(s@),
            JsonLeaf::Number(n) => LeafView::Number(*n),
            JsonLeaf::Flag(b) => LeafView::Flag(*b),
        }
    }
}

/// A JSON value of `serde_json`; opaque.
#[verifier::external_type_specification]
#[verifier::external_body]
pub struct ExValue(serde_json::Value);

/// The object type of `serde_json`; opaque.
#[verifier::external_type_specification]
#[verifier::external_body]
#[verifier::reject_recursive_types(K)]
#[verifier::reject_recursive_types(V)]
pub struct ExObject<K, V>(serde_json::Map<K, V>);

/// What a `serde_json` object holds.
pub uninterp spec fn object_of(m: serde_json::Map<String, serde_json::Value>) -> Map<
    Seq<char>,
    LeafView,
>;

/// What `serde_json::from_str` reads from a text: the object that it spells,
/// where it is a JSON object.
pub uninterp spec fn json_object(text: Seq<char>) -> Option<Map<Seq<char>, LeafView>>;

/// The text in which `serde_json` displays an object.
pub uninterp spec fn object_text(object: Map<Seq<char>, LeafView>) -> Seq<char>;

/// The string that `serde_json::from_str` reads from a text, where it is a
/// JSON string.
pub uninterp spec fn json_string(text: Seq<char>) -> Option<Seq<char>>;

/// Every value of the object is a leaf that this module can write.
pub open spec fn leaves_only(object: Map<Seq<char>, LeafView>) -> bool {
    forall|k: Seq<char>| #[trigger] object.contains_key(k) ==> object[k] != LeafView::Other
}

/// The object without members.
pub open spec fn no_members() -> Map<Seq<char>, LeafView> {
    Map::empty()
}

/// `serde_json::Map::new`: the object without members.
#[verifier::external_body]
pub(crate) fn new_object() -> (r: serde_json::Map<String, serde_json::Value>)
    ensures
        object_of(r) == no_members(),
{
    serde_json::Map::new()
}

/// `serde_json::Map::insert`: sets one member, in place of what it held under
/// that key.
#[verifier::external_body]
pub(crate) fn put(
    m: &mut serde_json::Map<String, serde_json::Value>,
    key: &str,
    leaf: JsonLeaf,
)
    ensures
        object_of(*final(m)) == object_of(*old(m)).insert(key@, leaf@),
{
    let value = match leaf {
        JsonLeaf::Text(s) => serde_json::Value::String(s),
        JsonLeaf::Number(n) => serde_json::Value::from(n),
        JsonLeaf::Flag(b) => serde_json::Value::Bool(b),
    };
    m.insert(key.to_owned(), value);
}

/// The unsigned integer under a key.
pub open spec fn number_under(object: Map<Seq<char>, LeafView>, key: Seq<char>) -> Option<u64> {
    if object.contains_key(key) {
        match object[key] {
            LeafView::Number(n) => Some(n),
            _ => None,
        }
    } else {
        None
    }
}

/// The string under a key.
pub open spec fn text_under(
    object: Map<Seq<char>, LeafView>,
    key: Seq<char>,
) -> Option<Seq<char>> {
    if object.contains_key(key) {
        match object[key] {
            LeafView::Text(s) => Some(s),
            _ => None,
        }
    } else {
        None
    }
}

/// `serde_json::Map::get` with `Value::as_u64`: the member under `key`, where
/// it is an unsigned integer.
#[verifier::external_body]
pub(crate) fn number_at(
    m: &serde_json::Map<String, serde_json::Value>,
    key: &str,
) -> (r: Option<u64>)
    ensures
        r == number_under(object_of(*m), key@),
{
    m.get(key)?.as_u64()
}

/// `serde_json::Map::get` with `Value::as_str`: the member under `key`, where
/// it is a string.
#[verifier::external_body]
pub(crate) fn text_at(
    m: &serde_json::Map<String, serde_json::Value>,
    key: &str,
) -> (r: Option<String>)
    ensures
        r is Some <==> text_under(object_of(*m), key@) is Some,
        r matches Some(s) ==> text_under(object_of(*m), key@) == Some(s@),
{
    m.get(key)?.as_str().map(str::to_owned)
}

/// `serde_json::from_str` into a `Value`: the object that the text spells. An
/// empty text spells none.
#[verifier::external_body]
pub(crate) fn parse_object(text: &str) -> (r: Option<
    serde_json::Map<String, serde_json::Value>,
>)
    ensures
        r is Some <==> json_object(text@) is Some,
        r matches Some(m) ==> json_object(text@) == Some(object_of(m)),
        text@.len() == 0 ==> r is None,
{
    match serde_json::from_str(text).ok()? {
        serde_json::Value::Object(m) => Some(m),
        _ => None,
    }
}

/// The `Display` of `serde_json::Value`: the object's text, which
/// `serde_json::from_str` reads back as the same object. The order of the
/// members in the text is left unsaid.
#[verifier::external_body]
pub(crate) fn render(m: serde_json::Map<String, serde_json::Value>) -> (r: String)
    requires
        leaves_only(object_of(m)),
    ensures
        r@ == object_text(object_of(m)),
        json_object(r@) == Some(object_of(m)),
{
    serde_json::Value::Object(m).to_string()
}

/// A string literal without escapes: quotes around characters that are no
/// quote, no backslash and no control character.
pub open spec fn is_plain_literal(text: Seq<char>) -> bool {
    &&& text.len() >= 2
    &&& text.first() == '"'
    &&& text.last() == '"'
    &&& forall|i: int|
        0 < i < text.len() - 1 ==> (#[trigger] text[i]) != '"' && text[i] != '\\' && text[i] >= ' '
}

/// `serde_json::from_str` into a `String`: the string that the text spells. An
/// empty text spells none; a literal without escapes spells what stands
/// between its quotes.
#[verifier::external_body]
pub(crate) fn parse_string(text: &str) -> (r: Option<String>)
    ensures
        r is Some <==> json_string(text@) is Some,
        r matches Some(s) ==> json_string(text@) == Some(s@),
        text@.len() == 0 ==> r is None,
        is_plain_literal(text@) ==> r is Some && r->0@ == text@.subrange(1, text@.len() - 1),
{
    serde_json::from_str(text).ok()
}

/// JSON white space.
pub open spec fn is_blank(c: char) -> bool {
    c == ' ' || c == '\n' || c == '\t' || c == '\r'
}

/// `text` without leading JSON white space.
pub open spec fn stripped_start(text: Seq<char>) -> Seq<char>
    decreases text.len(),
{
    if text.len() > 0 && is_blank(text.first()) {
        stripped_start(text.drop_first())
    } else {
        text
    }
}

/// `text` without trailing JSON white space.
pub open spec fn stripped_end(text: Seq<char>) -> Seq<char>
    decreases text.len(),
{
    if text.len() > 0 && is_blank(text.last()) {
        stripped_end(text.drop_last())
    } else {
        text
    }
}

/// The boolean that a text spells: `true` or `false`, with white space around
/// it or not.
pub open spec fn bool_spelled(text: Seq<char>) -> Option<bool> {
    let word = stripped_end(stripped_start(text));
    if word == "true"@ {
        Some(true)
    } else if word == "false"@ {
        Some(false)
    } else {
        None
    }
}

/// `serde_json::from_str` into a `bool`.
#[verifier::external_body]
pub(crate) fn parse_bool(text: &str) -> (r: Option<bool>)
    ensures
        r == bool_spelled(text@),
{
    serde_json::from_str(text).ok()
}

/// A value where there is one, else the default.
pub fn string_or(value: Option<String>, default: &str) -> (r: String)
    ensures
        r@ == match value {
            Some(s) => s@,
            None => default@,
        },
{
    match value {
        Some(s) => s,
        None => default.to_string(),
    }
}

/// A configured string; the default where the stored text spells none.
pub fn config_string(raw: &str, default: &str) -> (r: String)
    ensures
        r@ == match json_string(raw@) {
            Some(s) => s,
            None => default@,
        },
        raw@.len() == 0 ==> r@ == default@,
        is_plain_literal(raw@) ==> r@ == raw@.subrange(1, raw@.len() - 1),
{
    string_or(parse_string(raw), default)
}

/// A configured switch; the default where the stored text spells none.
pub fn config_bool(raw: &str, default: bool) -> (r: bool)
    ensures
        r == match bool_spelled(raw@) {
            Some(b) => b,
            None => default,
        },
{
    match parse_bool(raw) {
        Some(b) => b,
        None => default,
    }
}

/// What a timer tick's object says: the timer and its tag.
pub open spec fn tick_said(object: Map<Seq<char>, LeafView>) -> Option<(u64, Seq<char>)> {
    match (number_under(object, "interval"@), text_under(object, "payload"@)) {
        (Some(id), Some(tag)) => Some((id, tag)),
        _ => None,
    }
}

/// What a timer tick's object says: the timer and its tag.
pub fn tick_of(object: &serde_json::Map<String, serde_json::Value>) -> (r: Option<(u64, String)>)
    ensures
        r is Some <==> tick_said(object_of(*object)) is Some,
        r matches Some((id, tag)) ==> tick_said(object_of(*object)) == Some((id, tag@)),
{
    let id: u64 = match number_at(object, "interval") {
        Some(id) => id,
        None => {
            return None;
        },
    };
    match text_at(object, "payload") {
        Some(tag) => Some((id, tag)),
        None => None,
    }
}

/// Reads a timer tick's payload, `{"interval":<id>,"payload":"<tag>"}`.
pub fn parse_tick(payload: &str) -> (r: Option<(u64, String)>)
    ensures
        r matches Some((id, tag)) ==> json_object(payload@) is Some && tick_said(
            json_object(payload@)->0,
        ) == Some((id, tag@)),
        r is None ==> json_object(payload@) is None || tick_said(json_object(payload@)->0) is None,
        payload@.len() == 0 ==> r is None,
{
    match parse_object(payload) {
        Some(object) => tick_of(&object),
        None => None,
    }
}

} // verus!
