//! The JSON facts the library needs, each taken from `serde_json`.
//!
//! JSON values travel through the library as their text. What the logic reads
//! of such a text is asked of `serde_json` here; the results are named, since
//! they are functions of the text alone, and the contracts speak of the names.
use vstd::prelude::*;
use vstd::utf8::encode_utf8;

verus! {

/// Whether `text` parses as a JSON object, as `serde_json::from_str` into a
/// `serde_json::Map<String, Value>` decides it.
pub uninterp spec fn is_json_object(text: Seq<char>) -> bool;

/// Whether `text` parses as a JSON value, as `serde_json::from_str` into a
/// `serde_json::Value` decides it.
pub uninterp spec fn is_json_value(text: Seq<char>) -> bool;

/// The string held under `key` by the JSON object that `text` parses to:
/// `None` when `text` is no JSON object, when `key` is absent, or when the
/// member under `key` is not a JSON string.
pub uninterp spec fn json_string_member(text: Seq<char>, key: Seq<char>) -> Option<Seq<char>>;

/// The hexadecimal digit of `n` (below 16), in lower case.
pub open spec fn hex_digit(n: int) -> char {
    seq!['0', '1', '2', '3', '4', '5', '6', '7', '8', '9', 'a', 'b', 'c', 'd', 'e', 'f'][n]
}

/// How `serde_json` writes one character inside a string literal: the quote
/// and the backslash behind a backslash; backspace, tab, line feed, form
/// feed and carriage return as `\b`, `\t`, `\n`, `\f`, `\r`; the other
/// characters below U+0020 as `\u00` and two lower-case hex digits; every
/// other character as itself.
pub open spec fn json_escaped_char(c: char) -> Seq<char> {
    if c == '"' {
        seq!['\\', '"']
    } else if c == '\\' {
        seq!['\\', '\\']
    } else if c == '\u{8}' {
        seq!['\\', 'b']
    } else if c == '\t' {
        seq!['\\', 't']
    } else if c == '\n' {
        seq!['\\', 'n']
    } else if c == '\u{c}' {
        seq!['\\', 'f']
    } else if c == '\r' {
        seq!['\\', 'r']
    } else if (c as u32) < 0x20 {
        seq!['\\', 'u', '0', '0', hex_digit(((c as u32) / 16) as int), hex_digit(((c as u32) % 16) as int)]
    } else {
        seq![c]
    }
}

/// The characters of `s`, each written as `json_escaped_char` writes it.
pub open spec fn json_escaped(s: Seq<char>) -> Seq<char>
    decreases s.len(),
{
    if s.len() == 0 {
        Seq::empty()
    } else {
        json_escaped(s.drop_last()) + json_escaped_char(s.last())
    }
}

/// The JSON string literal that `serde_json` writes for the string `s`: its
/// escaped characters between double quotes. Opaque: proofs that need the
/// literal's shape reveal it.
#[verifier::opaque]
pub open spec fn json_quoted(s: Seq<char>) -> Seq<char> {
    seq!['"'] + json_escaped(s) + seq!['"']
}

/// The string found at the JSON Pointer `pointer` (RFC 6901) in the JSON value
/// that `text` parses to: `None` when `text` does not parse, when nothing is
/// found there, or when what is found is not a JSON string.
pub uninterp spec fn json_string_at(text: Seq<char>, pointer: Seq<char>) -> Option<Seq<char>>;

/// `serde_json::from_str::<serde_json::Map<String, Value>>`: whether the text
/// is a JSON object. The contract claims that the answer is a function of the
/// text alone, named `is_json_object`.
#[verifier::external_body]
pub(crate) fn parses_as_json_object(text: &str) -> (r: bool)
    ensures
        r == is_json_object(text@),
{
    serde_json::from_str::<serde_json::Map<String, serde_json::Value>>(text).is_ok()
}

/// `serde_json::from_str::<serde_json::Value>`: whether the text is JSON. The
/// contract claims that the answer is a function of the text alone, named
/// `is_json_value`.
#[verifier::external_body]
pub(crate) fn parses_as_json(text: &str) -> (r: bool)
    ensures
        r == is_json_value(text@),
{
    serde_json::from_str::<serde_json::Value>(text).is_ok()
}

/// `serde_json::from_str` into an object, then `Map::get(key)` read as a JSON
/// string. The contract claims that the result is a function of the text and
/// the key, named `json_string_member`, and that a `Some` only comes from a
/// text that parses as an object.
#[verifier::external_body]
pub(crate) fn string_member(text: &str, key: &str) -> (r: Option<String>)
    ensures
        r.deep_view() == json_string_member(text@, key@),
        r is Some ==> is_json_object(text@),
{
    match serde_json::from_str::<serde_json::Map<String, serde_json::Value>>(text) {
        Ok(map) => match map.get(key) {
            Some(serde_json::Value::String(s)) => Some(s.clone()),
            _ => None,
        },
        Err(_) => None,
    }
}

/// `serde_json::to_string` of a string: its JSON literal, escaped as
/// `format_escaped_str_contents` and the compact formatter's
/// `write_char_escape` write it (`json_quoted`). Serializing a `str` does
/// not fail.
#[verifier::external_body]
pub(crate) fn quote(s: &str) -> (r: String)
    ensures
        r@ == json_quoted(s@),
{
    serde_json::to_string(s).unwrap_or_default()
}

/// `serde_json::from_str::<Value>` then `Value::pointer`, read as a string. The contract claims that the result is a function of the
/// text and the pointer, named `json_string_at`.
#[verifier::external_body]
pub(crate) fn string_at(text: &str, pointer: &str) -> (r: Option<String>)
    ensures
        r.deep_view() == json_string_at(text@, pointer@),
{
    match serde_json::from_str::<serde_json::Value>(text) {
        Ok(v) => match v.pointer(pointer) {
            Some(serde_json::Value::String(s)) => Some(s.clone()),
            _ => None,
        },
        Err(_) => None,
    }
}

/// Whether the value at the JSON Pointer `pointer` in the JSON value `text`
/// parses to is an array; false when `text` does not parse.
pub uninterp spec fn json_array_at(text: Seq<char>, pointer: Seq<char>) -> bool;

/// `serde_json::from_str::<Value>` then `Value::pointer`, asked whether it
/// found an array.
/// The contract claims that the answer is a function of the text and the
/// pointer, named `json_array_at`.
#[verifier::external_body]
pub(crate) fn array_at(text: &str, pointer: &str) -> (r: bool)
    ensures
        r == json_array_at(text@, pointer@),
{
    match serde_json::from_str::<serde_json::Value>(text) {
        Ok(v) => match v.pointer(pointer) {
            Some(serde_json::Value::Array(_)) => true,
            _ => false,
        },
        Err(_) => false,
    }
}

/// The encoding of joined texts is the joined encodings.
pub proof fn lemma_encode_concat(a: Seq<char>, b: Seq<char>)
    ensures
        encode_utf8(a + b) == encode_utf8(a) + encode_utf8(b),
        encode_utf8(a + b).len() == encode_utf8(a).len() + encode_utf8(b).len(),
    decreases a.len(),
{
    if a.len() == 0 {
        assert(a + b =~= b);
        assert(encode_utf8(a) =~= Seq::<u8>::empty());
        assert(encode_utf8(a) + encode_utf8(b) =~= encode_utf8(b));
    } else {
        assert((a + b)[0] == a[0]);
        assert((a + b).drop_first() =~= a.drop_first() + b);
        lemma_encode_concat(a.drop_first(), b);
        assert(encode_utf8(a + b) =~= encode_utf8(a) + encode_utf8(b));
    }
}

/// Every character takes at least one byte.
pub proof fn lemma_encode_len_at_least(s: Seq<char>)
    ensures
        encode_utf8(s).len() >= s.len(),
    decreases s.len(),
{
    if s.len() > 0 {
        lemma_encode_len_at_least(s.drop_first());
    }
}

/// Escaping never makes a text shorter in bytes.
pub proof fn lemma_escaped_not_shorter(t: Seq<char>)
    ensures
        encode_utf8(json_escaped(t)).len() >= encode_utf8(t).len(),
    decreases t.len(),
{
    if t.len() > 0 {
        let init = t.drop_last();
        let c = t.last();
        lemma_escaped_not_shorter(init);
        assert(t =~= init + seq![c]);
        lemma_encode_concat(init, seq![c]);
        lemma_encode_concat(json_escaped(init), json_escaped_char(c));
        lemma_encode_len_at_least(json_escaped_char(c));
        assert(seq![c].drop_first() =~= Seq::<char>::empty());
        assert(encode_utf8(seq![c]) == vstd::utf8::encode_scalar(c as u32) + encode_utf8(Seq::<char>::empty()));
        if json_escaped_char(c) != seq![c] {
            assert(c == '"' || c == '\\' || c == '\u{8}' || c == '\t' || c == '\n' || c == '\u{c}' || c == '\r'
                || (c as u32) < 0x20);
            assert((c as u32) <= 0x7F);
            assert(encode_utf8(seq![c]).len() == 1);
            assert(json_escaped_char(c).len() >= 2);
        }
    }
}

/// A quoted text takes at least the bytes of the text, and two more.
pub proof fn lemma_quoted_not_shorter(t: Seq<char>)
    ensures
        encode_utf8(json_quoted(t)).len() >= encode_utf8(t).len() + 2,
{
    reveal(json_quoted);
    lemma_escaped_not_shorter(t);
    lemma_encode_concat(seq!['"'] + json_escaped(t), seq!['"']);
    lemma_encode_concat(seq!['"'], json_escaped(t));
    lemma_encode_len_at_least(seq!['"']);
}

} // verus!
