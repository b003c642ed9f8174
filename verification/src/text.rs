//! Small helpers on strings and lists of strings, stated over character sequences.

use vstd::prelude::*;

verus! {

/// The characters of an optional string.
pub open spec fn opt_text(value: Option<String>) -> Option<Seq<char>> {
    match value {
        Some(text) => Some(text@),
        None => None,
    }
}

/// `list` with `item` added at the end unless it is already there.
pub open spec fn with_item<T>(list: Seq<T>, item: T) -> Seq<T> {
    if list.contains(item) {
        list
    } else {
        list.push(item)
    }
}

/// Whether two string slices hold the same characters.
pub fn text_eq(a: &str, b: &str) -> (same: bool)
    ensures
        same == (a@ == b@),
{
    let left = a.to_owned();
    let right = b.to_owned();
    left == right
}

/// `a` followed by `b`.
pub fn text_concat(a: &str, b: &str) -> (joined: String)
    ensures
        joined@ == a@ + b@,
{
    let mut joined = a.to_owned();
    joined.append(b);
    joined
}

/// A copy of an optional string.
pub fn clone_opt_text(value: &Option<String>) -> (copy: Option<String>)
    ensures
        copy == *value,
{
    match value {
        Some(text) => Some(text.clone()),
        None => None,
    }
}

/// The characters of `s`, one by one.
pub fn chars_of(s: &str) -> (chars: Vec<char>)
    ensures
        chars@ == s@,
{
    let mut chars: Vec<char> = Vec::new();
    for c in it: s.chars()
        invariant
            it.seq() == s@,
            chars@ == it.seq().take(it.index() as int),
    {
        chars.push(c);
    }
    chars
}

/// Whether `list` holds a string with the characters of `item`.
pub fn contains_text(list: &Vec<String>, item: &str) -> (found: bool)
    ensures
        found == list.deep_view().contains(item@),
{
    let mut i: usize = 0;
    while i < list.len()
        invariant
            i <= list.len(),
            forall|k: int| 0 <= k < i ==> list.deep_view()[k] != item@,
        decreases list.len() - i,
    {
        if text_eq(list[i].as_str(), item) {
            assert(list.deep_view()[i as int] == item@);
            return true;
        }
        i += 1;
    }
    false
}

/// Adds `item` to `list` unless a string with the same characters is there.
pub fn insert_text(list: &mut Vec<String>, item: String)
    ensures
        final(list).deep_view() == with_item(old(list).deep_view(), item@),
{
    if !contains_text(list, item.as_str()) {
        list.push(item);
        assert(list.deep_view() =~= old(list).deep_view().push(item@));
    }
}

/// A copy of a list of strings.
pub fn clone_texts(list: &Vec<String>) -> (copy: Vec<String>)
    ensures
        copy.deep_view() == list.deep_view(),
{
    let mut copy: Vec<String> = Vec::new();
    let mut i: usize = 0;
    while i < list.len()
        invariant
            i <= list.len(),
            copy.len() == i,
            forall|k: int| 0 <= k < i ==> copy[k]@ == list[k]@,
        decreases list.len() - i,
    {
        copy.push(list[i].clone());
        i += 1;
    }
    assert(copy.deep_view() =~= list.deep_view());
    copy
}

/// Whether `v` holds `x`.
pub fn contains_index(v: &Vec<usize>, x: usize) -> (found: bool)
    ensures
        found == v@.contains(x),
{
    let mut i: usize = 0;
    while i < v.len()
        invariant
            i <= v.len(),
            forall|k: int| 0 <= k < i ==> v[k] != x,
        decreases v.len() - i,
    {
        if v[i] == x {
            return true;
        }
        i += 1;
    }
    false
}

/// Whether the two characters `{}` stand at `at` in `text`.
pub open spec fn placeholder_at(text: Seq<char>, at: int) -> bool {
    0 <= at && at + 1 < text.len() && text[at] == '{' && text[at + 1] == '}'
}

/// Whether `text` holds `{}` somewhere.
pub open spec fn has_placeholder(text: Seq<char>) -> bool {
    exists|at: int| placeholder_at(text, at)
}

/// `text[from..]` with every `{}` replaced by `input`, read from left to right.
pub open spec fn filled(text: Seq<char>, from: int, input: Seq<char>) -> Seq<char>
    decreases text.len() - from,
{
    if from < 0 || from >= text.len() {
        Seq::empty()
    } else if placeholder_at(text, from) {
        input + filled(text, from + 2, input)
    } else {
        seq![text[from]] + filled(text, from + 1, input)
    }
}

/// `pattern` with every `{}` replaced by `input`, and whether there was one.
pub fn fill_placeholders(pattern: &str, input: &str) -> (result: (String, bool))
    ensures
        result.0@ == filled(pattern@, 0, input@),
        result.1 == has_placeholder(pattern@),
{
    let chars = chars_of(pattern);
    let n = chars.len();
    let mut out = String::new();
    let mut found = false;
    let mut start: usize = 0;
    let mut i: usize = 0;
    while i < n
        invariant
            chars@ == pattern@,
            n == chars.len(),
            start <= i <= n,
            out@ + pattern@.subrange(start as int, i as int) + filled(pattern@, i as int, input@)
                == filled(pattern@, 0, input@),
            found == exists|at: int| at < i && placeholder_at(pattern@, at),
        decreases n - i,
    {
        let ghost before = out@;
        let ghost piece = pattern@.subrange(start as int, i as int);
        if i + 1 < n && chars[i] == '{' && chars[i + 1] == '}' {
            assert(placeholder_at(pattern@, i as int));
            out.append(pattern.substring_char(start, i));
            out.append(input);
            assert(out@ + pattern@.subrange(i + 2, i + 2) + filled(pattern@, i + 2, input@)
                =~= before + piece + (input@ + filled(pattern@, i + 2, input@)));
            found = true;
            i += 2;
            start = i;
        } else {
            assert(!placeholder_at(pattern@, i as int));
            assert(before + pattern@.subrange(start as int, i + 1) + filled(
                pattern@,
                i + 1,
                input@,
            ) =~= before + piece + (seq![pattern@[i as int]] + filled(pattern@, i + 1, input@)));
            assert forall|at: int| at < i + 1 && placeholder_at(pattern@, at) implies at < i by {}
            i += 1;
        }
    }
    let ghost before = out@;
    out.append(pattern.substring_char(start, n));
    assert(out@ =~= before + pattern@.subrange(start as int, n as int) + filled(
        pattern@,
        n as int,
        input@,
    ));
    (out, found)
}

} // verus!
