//! JSON values, as the `serde_json` and `json5` crates make them.
//!
//! A value is known by its compact text, the one that `to_string` gives: two values
//! with the same compact text are the same value.
use vstd::prelude::*;

verus! {

/// `serde_json::Value`, opaque.
#[verifier::external_type_specification]
#[verifier::external_body]
pub struct ExValue(serde_json::Value);

/// The compact text of a value.
pub uninterp spec fn json_text(value: serde_json::Value) -> Seq<char>;

/// The compact text of the value that a JSON text stands for; nothing where it is no JSON.
pub uninterp spec fn json_parsed(text: Seq<char>) -> Option<Seq<char>>;

/// The compact text of the value that a JSON5 text stands for.
pub uninterp spec fn json5_parsed(text: Seq<char>) -> Option<Seq<char>>;

/// The compact text of the member under a key; nothing where the value is no object or
/// has no such key.
pub uninterp spec fn json_member(value: Seq<char>, key: Seq<char>) -> Option<Seq<char>>;

/// The string that a value is; nothing where it is no string.
pub uninterp spec fn json_string(value: Seq<char>) -> Option<Seq<char>>;

/// A hexadecimal digit, in lower case.
pub open spec fn hex_digit(n: int) -> char {
    if n < 10 {
        (48 + n) as char
    } else {
        (87 + n) as char
    }
}

/// How a character is written in a JSON string.
pub open spec fn escaped(c: char) -> Seq<char> {
    if c == '"' {
        seq!['\\', '"']
    } else if c == '\\' {
        seq!['\\', '\\']
    } else if c == '\u{8}' {
        seq!['\\', 'b']
    } else if c == '\t' {
        seq!['\\', 't']
    } else if c == '\n' {
        seq!['\\', 'n']
    } else if c == '\u{c}' {
        seq!['\\', 'f']
    } else if c == '\r' {
        seq!['\\', 'r']
    } else if (c as int) < 32 {
        seq!['\\', 'u', '0', '0', hex_digit(c as int / 16), hex_digit(c as int % 16)]
    } else {
        seq![c]
    }
}

/// How the characters of a text are written in a JSON string.
pub open spec fn all_escaped(s: Seq<char>) -> Seq<char>
    decreases s.len(),
{
    if s.len() == 0 {
        Seq::empty()
    } else {
        all_escaped(s.drop_last()) + escaped(s.last())
    }
}

/// The compact text of the string value `s`.
pub open spec fn json_quoted(s: Seq<char>) -> Seq<char> {
    seq!['"'] + all_escaped(s) + seq!['"']
}

/// A text without quotation marks, backslashes and control characters stands in a JSON string
/// as it is.
pub proof fn law_plain_text_is_quoted_as_it_is(s: Seq<char>)
    requires
        forall|i: int|
            0 <= i < s.len() ==> #[trigger] s[i] != '"' && s[i] != '\\' && s[i] as int >= 32,
    ensures
        json_quoted(s) == seq!['"'] + s + seq!['"'],
{
    lemma_plain(s);
}

proof fn lemma_plain(s: Seq<char>)
    requires
        forall|i: int|
            0 <= i < s.len() ==> #[trigger] s[i] != '"' && s[i] != '\\' && s[i] as int >= 32,
    ensures
        all_escaped(s) == s,
    decreases s.len(),
{
    if s.len() > 0 {
        lemma_plain(s.drop_last());
        assert(s.last() == s[s.len() - 1]);
        assert(s.drop_last() + seq![s.last()] =~= s);
    }
}

/// Whether one text comes before another: they differ first where it ends, or where it has
/// the lesser character.
pub open spec fn comes_before(a: Seq<char>, b: Seq<char>) -> bool {
    exists|k: int| differ_first(a, b, k)
}

/// Whether two texts are alike up to a place, and the first ends there or has the lesser
/// character there.
pub open spec fn differ_first(a: Seq<char>, b: Seq<char>, k: int) -> bool {
    &&& 0 <= k <= a.len()
    &&& k < b.len()
    &&& forall|i: int| 0 <= i < k ==> a[i] == b[i]
    &&& k == a.len() || (a[k] as int) < b[k] as int
}

/// Whether each key comes before the next.
pub open spec fn keys_rise(members: Seq<(Seq<char>, Seq<char>)>) -> bool {
    forall|i: int|
        0 < i < members.len() ==> comes_before(members[i - 1].0, (#[trigger] members[i]).0)
}

/// Keys and values, one after the other, with commas between them.
pub open spec fn listed(members: Seq<(Seq<char>, Seq<char>)>) -> Seq<char>
    decreases members.len(),
{
    if members.len() == 0 {
        Seq::empty()
    } else {
        let one = json_quoted(members.last().0) + seq![':'] + members.last().1;
        if members.len() == 1 {
            one
        } else {
            listed(members.drop_last()) + seq![','] + one
        }
    }
}

/// The compact text of an object with keys and values in this order.
pub open spec fn object_text(members: Seq<(Seq<char>, Seq<char>)>) -> Seq<char> {
    seq!['{'] + listed(members) + seq!['}']
}

/// Whether no key is given twice.
pub open spec fn keys_differ(members: Seq<(Seq<char>, Seq<char>)>) -> bool {
    forall|i: int, j: int|
        0 <= i < j < members.len() ==> (#[trigger] members[i]).0 != (#[trigger] members[j]).0
}

/// The text of a value with line breaks and indentation.
pub uninterp spec fn json_pretty(value: Seq<char>) -> Seq<char>;

/// `serde_json::from_str` reads a JSON text into a value. Claimed is that the text alone
/// decides whether it is JSON and which value it stands for.
#[verifier::external_body]
pub(crate) fn parse(text: &str) -> (r: Option<serde_json::Value>)
    ensures
        match r {
            Some(value) => json_parsed(text@) == Some(json_text(value)),
            None => json_parsed(text@) is None,
        },
{
    serde_json::from_str(text).ok()
}

/// `json5::from_str` reads a JSON5 text into a value, or says why it cannot. Claimed is which
/// value comes where one comes. Nothing is claimed of a text that is not read: whether a text
/// with deep nesting is read rests on how much of the stack is left, and what is said of it
/// on more than the text.
#[verifier::external_body]
pub(crate) fn parse_json5(text: &str) -> (r: Result<serde_json::Value, String>)
    ensures
        r matches Ok(value) ==> json5_parsed(text@) == Some(json_text(value)),
{
    json5::from_str(text).map_err(|e| e.to_string())
}

/// `serde_json::Value::get` finds the member of an object under a key. Claimed is that
/// the value and the key decide whether there is one and which it is.
#[verifier::external_body]
pub(crate) fn member(value: &serde_json::Value, key: &str) -> (r: Option<serde_json::Value>)
    ensures
        match r {
            Some(found) => json_member(json_text(*value), key@) == Some(json_text(found)),
            None => json_member(json_text(*value), key@) is None,
        },
{
    value.get(key).cloned()
}

/// `serde_json::Value::as_str` gives the string that a value is.
#[verifier::external_body]
pub(crate) fn as_string(value: &serde_json::Value) -> (r: Option<String>)
    ensures
        match r {
            Some(s) => json_string(json_text(*value)) == Some(s@),
            None => json_string(json_text(*value)) is None,
        },
{
    value.as_str().map(|s| s.to_string())
}

/// `serde_json::Value::String` makes a string value, which is the string it was made from. Its
/// text is the string between quotation marks, with a backslash before those marks and
/// backslashes in it, and with control characters written as escapes.
#[verifier::external_body]
pub(crate) fn string_value(s: &str) -> (r: serde_json::Value)
    ensures
        json_text(r) == json_quoted(s@),
        json_string(json_text(r)) == Some(s@),
{
    serde_json::Value::String(s.to_string())
}

/// `serde_json::Value::Null` is the null value, with the text `null`; it is no string and
/// has no members.
#[verifier::external_body]
pub(crate) fn null_value() -> (r: serde_json::Value)
    ensures
        json_text(r) == "null"@,
        json_string(json_text(r)) is None,
        forall|key: Seq<char>| json_member(json_text(r), key) is None,
{
    serde_json::Value::Null
}

/// The texts of a list of keys and values.
pub open spec fn member_texts(members: Seq<(String, serde_json::Value)>) -> Seq<
    (Seq<char>, Seq<char>),
> {
    Seq::new(members.len(), |i: int| (members[i].0@, json_text(members[i].1)))
}

/// The value that is given with a key, if there is one.
pub open spec fn value_under(members: Seq<(Seq<char>, Seq<char>)>, key: Seq<char>) -> Option<
    Seq<char>,
>
    decreases members.len(),
{
    if members.len() == 0 {
        None
    } else if members.last().0 == key {
        Some(members.last().1)
    } else {
        value_under(members.drop_last(), key)
    }
}

/// `serde_json::Map`, collected from keys and values, makes an object. Each key is to come
/// before the next, so none is given twice. Claimed is that the object's text has the keys in
/// that order, with nothing between keys, values and marks, and that `serde_json::Value::get`
/// finds under a key the value that was given with it.
#[verifier::external_body]
pub(crate) fn object_value(members: Vec<(String, serde_json::Value)>) -> (r: serde_json::Value)
    requires
        keys_rise(member_texts(members@)),
    ensures
        json_text(r) == object_text(member_texts(members@)),
        forall|key: Seq<char>| #[trigger]
            json_member(json_text(r), key) == value_under(member_texts(members@), key),
{
    serde_json::Value::Object(members.into_iter().collect())
}

/// The texts of a list of keys and strings.
pub open spec fn string_texts(members: Seq<(String, String)>) -> Seq<(Seq<char>, Seq<char>)> {
    Seq::new(members.len(), |i: int| (members[i].0@, json_quoted(members[i].1@)))
}

/// The characters of a list of keys and strings.
pub open spec fn strings_of(members: Seq<(String, String)>) -> Seq<(Seq<char>, Seq<char>)> {
    Seq::new(members.len(), |i: int| (members[i].0@, members[i].1@))
}

/// `collect_map` of a `serde_json::Serializer` writes keys and strings as an object. Claimed is
/// that they stand in the order given, with nothing between keys, strings and marks, and that
/// `serde_json::from_str` reads the text as an object with these strings under these keys and
/// with nothing under any other. No key is to be given twice. Writing to a vector cannot fail,
/// and what is written is UTF-8.
#[verifier::external_body]
pub(crate) fn write_strings(members: Vec<(String, String)>) -> (r: String)
    requires
        keys_differ(string_texts(members@)),
    ensures
        r@ == object_text(string_texts(members@)),
        match json_parsed(r@) {
            Some(value) => forall|key: Seq<char>|
                match value_under(strings_of(members@), key) {
                    Some(s) => #[trigger] json_member(value, key) == Some(json_quoted(s))
                        && json_string(json_member(value, key)->0) == Some(s),
                    None => json_member(value, key) is None,
                },
            None => false,
        },
{
    let mut text: Vec<u8> = Vec::new();
    let _ = serde::Serializer::collect_map(&mut serde_json::Serializer::new(&mut text), members);
    String::from_utf8(text).unwrap_or_default()
}

/// `to_string` of a `serde_json::Value` gives its compact text.
#[verifier::external_body]
pub(crate) fn compact(value: &serde_json::Value) -> (r: String)
    ensures
        r@ == json_text(*value),
{
    value.to_string()
}

/// `serde_json::to_string_pretty` lays a value out with line breaks and indentation. Of a
/// `serde_json::Value` it cannot fail, for every key of an object is a string.
#[verifier::external_body]
pub(crate) fn pretty(value: &serde_json::Value) -> (r: String)
    ensures
        r@ == json_pretty(json_text(*value)),
{
    serde_json::to_string_pretty(value).unwrap_or_default()
}

} // verus!
