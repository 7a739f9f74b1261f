//! Reading a value out of the text of a `.env` file.
use vstd::prelude::*;
use crate::text::{chars_of, find_char, first_index_of, slice_chars, spec_trim, str_eq, string_from_chars, trim};

verus! {

/// `v` without one pair of surrounding `q` quotes, when it has them.
pub open spec fn unquoted(v: Seq<char>, q: char) -> Seq<char> {
    if v.len() >= 2 && v[0] == q && v.last() == q {
        v.subrange(1, v.len() - 1)
    } else {
        v
    }
}

/// The value a line gives for `key`: the line, trimmed, is neither empty
/// nor a `#` comment, holds a `=`, and the trimmed text before the first `=`
/// is `key`; the value is the trimmed text after it, without one pair of
/// double quotes and then one pair of single quotes.
pub open spec fn line_value(line: Seq<char>, key: Seq<char>) -> Option<Seq<char>> {
    let t = spec_trim(line);
    if t.len() == 0 || t[0] == '#' {
        None
    } else {
        match first_index_of(t, '=') {
            None => None,
            Some(p) => if 0 <= p < t.len() && spec_trim(t.take(p)) == key {
                Some(unquoted(unquoted(spec_trim(t.skip(p + 1)), '"'), '\''))
            } else {
                None
            },
        }
    }
}

/// The value of `key` in the text of a `.env` file: that of the first line,
/// in order, that gives one.
pub open spec fn env_lookup(text: Seq<char>, key: Seq<char>) -> Option<Seq<char>>
    decreases text.len(),
{
    match first_index_of(text, '\n') {
        None => line_value(text, key),
        Some(p) => if 0 <= p < text.len() {
            match line_value(text.take(p), key) {
                Some(v) => Some(v),
                None => env_lookup(text.skip(p + 1), key),
            }
        } else {
            None
        },
    }
}

/// The lines of a `.env` text are read in order: a line that gives a value
/// for `key` decides, whatever follows it; a line that gives none leaves the
/// answer to the lines after it.
pub proof fn lemma_env_lines(line: Seq<char>, rest: Seq<char>, key: Seq<char>)
    requires
        forall|i: int| 0 <= i < line.len() ==> line[i] != '\n',
    ensures
        line_value(line, key) is Some ==> env_lookup(line + "\n"@ + rest, key) == line_value(line, key),
        line_value(line, key) is None ==> env_lookup(line + "\n"@ + rest, key) == env_lookup(rest, key),
{
    reveal_strlit("\n");
    let text = line + "\n"@ + rest;
    let p = line.len() as int;
    assert(text[p] == '\n');
    assert forall|q: int| 0 <= q < p implies text[q] != '\n' by {
        assert(text[q] == line[q]);
    }
    crate::text::lemma_first_index_of(text, '\n', p);
    assert(text.take(p) =~= line);
    assert(text.skip(p + 1) =~= rest);
}

/// `v` without one pair of surrounding `q` quotes, when it has them.
fn strip_quotes(v: Vec<char>, q: char) -> (r: Vec<char>)
    ensures
        r@ == unquoted(v@, q),
{
    let n = v.len();
    if n >= 2 && v[0] == q && v[n - 1] == q {
        slice_chars(v.as_slice(), 1, n - 1)
    } else {
        v
    }
}

/// The value one line gives for `key`.
fn value_of_line(line: &[char], key: &str) -> (r: Option<String>)
    ensures
        r.deep_view() == line_value(line@, key@),
{
    let t = trim(line);
    if t.len() == 0 || t[0] == '#' {
        return None;
    }
    match find_char(t.as_slice(), '=') {
        None => None,
        Some(p) => {
            let before_eq = slice_chars(t.as_slice(), 0, p);
            assert(before_eq@ =~= t@.take(p as int));
            let k = trim(before_eq.as_slice());
            let ks = string_from_chars(k.as_slice());
            if !str_eq(ks.as_str(), key) {
                return None;
            }
            let after_eq = slice_chars(t.as_slice(), p + 1, t.len());
            assert(after_eq@ =~= t@.skip(p + 1));
            let v = trim(after_eq.as_slice());
            let v = strip_quotes(strip_quotes(v, '"'), '\'');
            Some(string_from_chars(v.as_slice()))
        },
    }
}

/// The value of `key` in the lines of `cs` from position `start` on.
fn lookup_from(cs: &Vec<char>, start: usize, key: &str) -> (r: Option<String>)
    requires
        start <= cs@.len(),
    ensures
        r.deep_view() == env_lookup(cs@.skip(start as int), key@),
    decreases cs@.len() - start,
{
    let rest = slice_chars(cs.as_slice(), start, cs.len());
    assert(rest@ =~= cs@.skip(start as int));
    match find_char(rest.as_slice(), '\n') {
        None => value_of_line(rest.as_slice(), key),
        Some(p) => {
            let line = slice_chars(rest.as_slice(), 0, p);
            assert(line@ =~= rest@.take(p as int));
            match value_of_line(line.as_slice(), key) {
                Some(v) => Some(v),
                None => {
                    assert(cs@.skip(start as int).skip(p + 1) =~= cs@.skip(start + p + 1));
                    lookup_from(cs, start + p + 1, key)
                },
            }
        },
    }
}

/// The value of `key` in the text of a `.env` file: blank lines and `#`
/// comments are passed over, the first line of the form `key = value` gives
/// the value, trimmed and without surrounding quotes.
pub fn env_file_value(contents: &str, key: &str) -> (r: Option<String>)
    ensures
        r.deep_view() == env_lookup(contents@, key@),
{
    let cs = chars_of(contents);
    assert(cs@.skip(0) =~= cs@);
    lookup_from(&cs, 0, key)
}

} // verus!
