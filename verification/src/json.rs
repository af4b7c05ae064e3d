//! What the directive logic reads from JSON text, and the JSON text that it
//! has serde_json write.
//!
//! serde_json does the parsing and the printing; the library only sees the
//! outline of a parsed document (`JsonShape`) and the printed text.  A
//! printed object of one string member is stated in full; the other printed
//! texts are named as functions of the arguments they were made from.

use vstd::prelude::*;

verus! {

/// One member of a parsed JSON object: its key, and its value when that
/// value is a JSON string.
#[derive(Debug, Clone, PartialEq, Eq)]
pub struct JsonField {
    pub key: String,
    pub string_value: Option<String>,
}

/// The outline of a JSON text: not JSON at all, an object with its members
/// (in the order serde_json keeps them), or some other JSON value.
#[derive(Debug, Clone, PartialEq, Eq)]
pub enum JsonShape {
    Invalid,
    Object(Vec<JsonField>),
    Other,
}

/// The outline of a JSON text, with strings as characters.
pub enum JsonShapeView {
    Invalid,
    Object(Seq<(Seq<char>, Option<Seq<char>>)>),
    Other,
}

/// The characters of a field.
pub open spec fn field_view(f: JsonField) -> (Seq<char>, Option<Seq<char>>) {
    (
        f.key@,
        match f.string_value {
            Some(s) => Some(s@),
            None => None,
        },
    )
}

impl View for JsonShape {
    type V = JsonShapeView;

    open spec fn view(&self) -> JsonShapeView {
        match self {
            JsonShape::Invalid => JsonShapeView::Invalid,
            JsonShape::Object(fields) => JsonShapeView::Object(
                fields@.map_values(|f: JsonField| field_view(f)),
            ),
            JsonShape::Other => JsonShapeView::Other,
        }
    }
}

/// The outline of the JSON value that serde_json parses from `text`.
pub uninterp spec fn json_shape_of(text: Seq<char>) -> JsonShapeView;

/// The compact text that serde_json prints for the value it parses from
/// `text` (`None` when either step fails).
pub uninterp spec fn json_compact_of(text: Seq<char>) -> Option<Seq<char>>;

/// The compact text that serde_json prints for the object parsed from
/// `text` once the member `from` is removed and re-inserted under the key
/// `to` (`None` when `text` is no JSON object, lacks `from`, or printing
/// fails).
pub uninterp spec fn json_renamed_of(text: Seq<char>, from: Seq<char>, to: Seq<char>) -> Option<
    Seq<char>,
>;

/// The lowercase hexadecimal digits.
pub open spec fn hex_digits() -> Seq<char> {
    seq!['0', '1', '2', '3', '4', '5', '6', '7', '8', '9', 'a', 'b', 'c', 'd', 'e', 'f']
}

/// How serde_json writes one character inside a JSON string: `"` and `\`
/// behind a backslash, the short escapes `\b \t \n \f \r`, any other
/// control character below U+0020 as `\u00` and two lowercase hex digits,
/// and every other character as it is.
pub open spec fn json_escaped_char(c: char) -> Seq<char> {
    if c == '"' {
        seq!['\\', '"']
    } else if c == '\\' {
        seq!['\\', '\\']
    } else if c == '\u{8}' {
        seq!['\\', 'b']
    } else if c == '\t' {
        seq!['\\', 't']
    } else if c == '\n' {
        seq!['\\', 'n']
    } else if c == '\u{c}' {
        seq!['\\', 'f']
    } else if c == '\r' {
        seq!['\\', 'r']
    } else if (c as int) < 0x20 {
        seq!['\\', 'u', '0', '0', hex_digits()[(c as int) / 16], hex_digits()[(c as int) % 16]]
    } else {
        seq![c]
    }
}

/// The escaped characters of a JSON string, without the quotes.
pub open spec fn json_string_body(s: Seq<char>) -> Seq<char>
    decreases s.len(),
{
    if s.len() == 0 {
        Seq::empty()
    } else {
        json_string_body(s.drop_last()) + json_escaped_char(s.last())
    }
}

/// The JSON string that serde_json writes for `s`.
pub open spec fn json_string(s: Seq<char>) -> Seq<char> {
    seq!['"'] + json_string_body(s) + seq!['"']
}

/// The compact text that serde_json prints for the object with the single
/// member `key` whose value is the JSON string `value`.
pub open spec fn json_single_field_of(key: Seq<char>, value: Seq<char>) -> Seq<char> {
    seq!['{'] + json_string(key) + seq![':'] + json_string(value) + seq!['}']
}

/// Parses `text` with `serde_json::from_str::<serde_json::Value>` and
/// reports its outline: `Invalid` on a parse error, the members of an
/// object (keys, and string values), or `Other`.  The contract claims only
/// that the outline is a function of `text`, named `json_shape_of`.
#[verifier::external_body]
pub(crate) fn json_shape(text: &str) -> (out: JsonShape)
    ensures
        out@ == json_shape_of(text@),
{
    match serde_json::from_str::<serde_json::Value>(text) {
        Err(_) => JsonShape::Invalid,
        Ok(serde_json::Value::Object(map)) => JsonShape::Object(
            map.into_iter().map(|(key, value)| JsonField {
                key,
                string_value: match value {
                    serde_json::Value::String(s) => Some(s),
                    _ => None,
                },
            }).collect(),
        ),
        Ok(_) => JsonShape::Other,
    }
}

/// Parses `text` with `serde_json::from_str::<serde_json::Value>` and prints
/// the value again with `serde_json::to_string`.  The contract claims only
/// that the result is a function of `text`, named `json_compact_of`.
#[verifier::external_body]
pub(crate) fn json_compact(text: &str) -> (out: Option<String>)
    ensures
        out matches Some(s) ==> json_compact_of(text@) == Some(s@),
        out is None ==> json_compact_of(text@) is None,
{
    serde_json::from_str::<serde_json::Value>(text).ok().and_then(
        |value| serde_json::to_string(&value).ok(),
    )
}

/// Parses `text` as a `serde_json::Map`, moves the member `from` to the key
/// `to` with `Map::remove` and `Map::insert`, and prints the map with
/// `serde_json::to_string`.  The contract claims only that the result is a
/// function of the three arguments, named `json_renamed_of`.
#[verifier::external_body]
pub(crate) fn json_compact_renamed(text: &str, from: &str, to: &str) -> (out: Option<String>)
    ensures
        out matches Some(s) ==> json_renamed_of(text@, from@, to@) == Some(s@),
        out is None ==> json_renamed_of(text@, from@, to@) is None,
{
    let mut map: serde_json::Map<String, serde_json::Value> = serde_json::from_str(text).ok()?;
    let value = map.remove(from)?;
    map.insert(to.to_string(), value);
    serde_json::to_string(&map).ok()
}

/// Prints, with serde_json, the object whose only member is `key` with the
/// string `value` (what `serde_json::json!({ key: value }).to_string()`
/// gives).  The contract claims the compact form that serde_json's
/// `Display for Value` writes: `{`, the key and the value each as a JSON
/// string escaped by serde_json's `ESCAPE` table (`json_string`), a `:`
/// between them, and `}`.
#[verifier::external_body]
pub(crate) fn json_single_field(key: &str, value: &str) -> (out: String)
    ensures
        out@ == json_single_field_of(key@, value@),
{
    let mut map = serde_json::Map::new();
    map.insert(key.to_string(), serde_json::Value::String(value.to_string()));
    serde_json::Value::Object(map).to_string()
}

/// The value of the first member named `key`: `Some(Some(s))` for a string
/// value `s`, `Some(None)` for another value, `None` when there is no such
/// member.
pub open spec fn field_value(fields: Seq<(Seq<char>, Option<Seq<char>>)>, key: Seq<char>) -> Option<
    Option<Seq<char>>,
>
    decreases fields.len(),
{
    if fields.len() == 0 {
        None
    } else if fields[0].0 == key {
        Some(fields[0].1)
    } else {
        field_value(fields.drop_first(), key)
    }
}

/// Looks a member up by key.
pub fn find_field(fields: &Vec<JsonField>, key: &str) -> (out: Option<Option<String>>)
    ensures
        out matches Some(v) ==> field_value(fields@.map_values(|f: JsonField| field_view(f)), key@)
            == Some(match v {
            Some(s) => Some(s@),
            None => None,
        }),
        out is None ==> field_value(fields@.map_values(|f: JsonField| field_view(f)), key@) is None,
{
    let ghost all = fields@.map_values(|f: JsonField| field_view(f));
    let key_string = key.to_owned();
    let mut i: usize = 0;
    assert(all.subrange(0, all.len() as int) == all);
    while i < fields.len()
        invariant
            i <= fields.len(),
            key_string@ == key@,
            all == fields@.map_values(|f: JsonField| field_view(f)),
            field_value(all, key@) == field_value(all.subrange(i as int, all.len() as int), key@),
        decreases fields.len() - i,
    {
        let ghost rest = all.subrange(i as int, all.len() as int);
        assert(rest[0] == field_view(fields@[i as int]));
        if fields[i].key == key_string {
            return Some(
                match &fields[i].string_value {
                    Some(s) => Some(s.clone()),
                    None => None,
                },
            );
        }
        assert(rest.drop_first() == all.subrange(i + 1, all.len() as int));
        i += 1;
    }
    None
}

} // verus!
