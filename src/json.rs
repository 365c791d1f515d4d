//! Reading and writing JSON text through serde_json.
//!
//! Values are addressed by JSON pointers (RFC 6901): `"/a/0/b"` is member `b`
//! of item 0 of member `a`, and `""` is the whole document.
use vstd::prelude::*;

verus! {

/// The string found at `pointer` in the JSON document `text`, if `text` parses
/// and holds a string there.
pub uninterp spec fn json_str_at(text: Seq<char>, pointer: Seq<char>) -> Option<Seq<char>>;

/// The length of the array found at `pointer` in the JSON document `text`, if
/// `text` parses and holds an array there.
pub uninterp spec fn json_array_len_at(text: Seq<char>, pointer: Seq<char>) -> Option<nat>;

/// The diagnostic of serde_json's parser for `text`, `None` when `text` is a
/// JSON document.
pub uninterp spec fn json_error_of(text: Seq<char>) -> Option<Seq<char>>;

/// The JSON string literal that serde_json writes for `s`.
pub uninterp spec fn json_quoted(s: Seq<char>) -> Seq<char>;

/// The JSON object text that serde_json writes, pretty-printed, for the
/// members `keys[i]: values[i]`.
pub uninterp spec fn json_object_text(keys: Seq<Seq<char>>, values: Seq<Seq<char>>) -> Seq<char>;

/// The JSON array text that serde_json writes for one object per row, with the
/// members `keys[i]: row[i]`.
pub uninterp spec fn json_rows_text(keys: Seq<Seq<char>>, rows: Seq<Seq<Seq<char>>>) -> Seq<char>;

/// The text that a byte sequence holds, when it is valid UTF-8.
pub uninterp spec fn utf8_decoded(bytes: Seq<u8>) -> Option<Seq<char>>;

/// The views of some strings.
pub open spec fn string_views(v: Seq<String>) -> Seq<Seq<char>> {
    v.map_values(|k: String| k@)
}

/// The views of some rows of strings.
pub open spec fn row_views(rows: Seq<Vec<String>>) -> Seq<Seq<Seq<char>>> {
    rows.map_values(|r: Vec<String>| string_views(r@))
}

/// The decimal digit `d`.
pub open spec fn digit(d: nat) -> char {
    "0123456789"@[d as int]
}

/// `n` written in decimal, without leading zeros.
pub open spec fn decimal(n: nat) -> Seq<char>
    decreases n,
{
    if n < 10 {
        seq![digit(n)]
    } else {
        decimal(n / 10).push(digit(n % 10))
    }
}

/// A key that a pointer can name without escapes.
pub open spec fn plain_key(k: Seq<char>) -> bool {
    forall|i: int| 0 <= i < k.len() ==> k[i] != '/' && k[i] != '~'
}

/// No key occurs twice.
pub open spec fn distinct_keys(keys: Seq<Seq<char>>) -> bool {
    forall|i: int, j: int| 0 <= i < j < keys.len() ==> keys[i] != keys[j]
}

/// The pointer to member `key` of the top-level object.
pub open spec fn member_pointer(key: Seq<char>) -> Seq<char> {
    "/"@ + key
}

/// The pointer to member `key` of item `index` of the top-level array.
pub open spec fn item_pointer(index: nat, key: Seq<char>) -> Seq<char> {
    "/"@ + decimal(index) + "/"@ + key
}

/// Relies on `serde_json::from_str` into a `Value`, `Value::pointer` and
/// `Value::as_str`: the string at `pointer`, when the text parses and holds one.
#[verifier::external_body]
pub(crate) fn str_at(text: &str, pointer: &str) -> (r: Option<String>)
    ensures
        r matches Some(v) ==> json_str_at(text@, pointer@) == Some(v@),
        r is None ==> json_str_at(text@, pointer@) is None,
{
    let doc: serde_json::Value = serde_json::from_str(text).ok()?;
    doc.pointer(pointer)?.as_str().map(String::from)
}

/// Relies on `serde_json::from_str` into a `Value`, `Value::pointer` and
/// `Value::as_array`: the length of the array at `pointer`, when the text
/// parses and holds one.
#[verifier::external_body]
pub(crate) fn array_len_at(text: &str, pointer: &str) -> (r: Option<usize>)
    ensures
        r matches Some(n) ==> json_array_len_at(text@, pointer@) == Some(n as nat),
        r is None ==> json_array_len_at(text@, pointer@) is None,
{
    let doc: serde_json::Value = serde_json::from_str(text).ok()?;
    doc.pointer(pointer)?.as_array().map(Vec::len)
}

/// Relies on `serde_json::from_str` into a `Value`: the error's message when
/// the text is not a JSON document.
#[verifier::external_body]
pub(crate) fn parse_error(text: &str) -> (r: Option<String>)
    ensures
        r matches Some(m) ==> json_error_of(text@) == Some(m@),
        r is None ==> json_error_of(text@) is None,
{
    serde_json::from_str::<serde_json::Value>(text).err().map(|e| e.to_string())
}

/// Relies on `serde_json::to_string` of a `str`, which cannot fail: its JSON
/// string literal.
#[verifier::external_body]
pub(crate) fn quote(s: &str) -> (r: Option<String>)
    ensures
        r is Some,
        r matches Some(t) ==> t@ == json_quoted(s@),
{
    serde_json::to_string(s).ok()
}

/// Relies on `String::from_utf8`: the text, when the bytes are valid UTF-8.
#[verifier::external_body]
pub(crate) fn utf8_text(bytes: &Vec<u8>) -> (r: Option<String>)
    ensures
        r matches Some(s) ==> utf8_decoded(bytes@) == Some(s@),
        r is None ==> utf8_decoded(bytes@) is None,
{
    String::from_utf8(bytes.clone()).ok()
}

/// Relies on the `Display` of `usize` (through `to_string`): its decimal digits.
#[verifier::external_body]
pub(crate) fn decimal_text(n: usize) -> (r: String)
    ensures
        r@ == decimal(n as nat),
{
    n.to_string()
}

/// Relies on `serde_json::to_string_pretty` of a map from string keys to
/// strings, which cannot fail: a JSON object whose members read back as the
/// given strings.
#[verifier::external_body]
pub(crate) fn object_json(keys: &Vec<String>, values: &Vec<String>) -> (r: Option<String>)
    requires
        keys@.len() == values@.len(),
        distinct_keys(string_views(keys@)),
    ensures
        r is Some,
        r matches Some(t) ==> t@ == json_object_text(string_views(keys@), string_views(values@)),
        r matches Some(t) ==> forall|i: int|
            0 <= i < keys@.len() && plain_key(#[trigger] keys@[i]@) ==> json_str_at(
                t@,
                member_pointer(keys@[i]@),
            ) == Some(values@[i]@),
{
    let fields: std::collections::BTreeMap<&str, &str> =
        keys.iter().map(String::as_str).zip(values.iter().map(String::as_str)).collect();
    serde_json::to_string_pretty(&fields).ok()
}

/// Relies on `serde_json::to_string` of a list of maps from string keys to
/// strings, which cannot fail: a JSON array of objects, one for each row, whose members read back
/// as the row's strings.
#[verifier::external_body]
pub(crate) fn rows_json(keys: &Vec<String>, rows: &Vec<Vec<String>>) -> (r: Option<String>)
    requires
        distinct_keys(string_views(keys@)),
        forall|j: int| 0 <= j < rows@.len() ==> (#[trigger] rows@[j])@.len() == keys@.len(),
    ensures
        r is Some,
        r matches Some(t) ==> t@ == json_rows_text(string_views(keys@), row_views(rows@)),
        r matches Some(t) ==> {
            &&& json_array_len_at(t@, ""@) == Some(rows@.len())
            &&& forall|j: int, i: int|
                0 <= j < rows@.len() && 0 <= i < keys@.len() && plain_key(keys@[i]@)
                    ==> json_str_at(t@, item_pointer(j as nat, keys@[i]@)) == Some(
                    (#[trigger] rows@[j]@[i])@,
                )
        },
{
    let items: Vec<std::collections::BTreeMap<&str, &str>> = rows.iter().map(|row|
        keys.iter().map(String::as_str).zip(row.iter().map(String::as_str)).collect()
    ).collect();
    serde_json::to_string(&items).ok()
}

} // verus!
