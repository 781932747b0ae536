//! Strings: equality, copying, trimming and splitting.

use vstd::prelude::*;
use vstd::utf8::{encode_utf8, encode_utf8_decode_utf8};

pub mod laws;

verus! {

/// Two strings with the same UTF-8 encoding have the same characters.
pub proof fn utf8_encoding_is_injective(a: Seq<char>, b: Seq<char>)
    requires
        encode_utf8(a) == encode_utf8(b),
    ensures
        a == b,
{
    encode_utf8_decode_utf8(a);
    encode_utf8_decode_utf8(b);
}

/// Whether two strings hold the same characters.
pub fn str_eq(a: &str, b: &str) -> (res: bool)
    ensures
        res == (a@ == b@),
{
    let x = a.as_bytes();
    let y = b.as_bytes();
    if x.len() != y.len() {
        return false;
    }
    let mut i: usize = 0;
    while i < x.len()
        invariant
            x@ == encode_utf8(a@),
            y@ == encode_utf8(b@),
            x@.len() == y@.len(),
            i <= x@.len(),
            forall|j: int| 0 <= j < i ==> x@[j] == y@[j],
        decreases x@.len() - i,
    {
        if x[i] != y[i] {
            return false;
        }
        i = i + 1;
    }
    proof {
        assert(x@ =~= y@);
        utf8_encoding_is_injective(a@, b@);
    }
    true
}

/// The characters of a list of strings.
pub open spec fn strings_view(list: Seq<String>) -> Seq<Seq<char>> {
    list.map_values(|s: String| s@)
}

/// The characters of an optional string.
pub open spec fn opt_string_view(s: Option<String>) -> Option<Seq<char>> {
    match s {
        Some(s) => Some(s@),
        None => None,
    }
}

/// The characters of an optional list of strings.
pub open spec fn opt_strings_view(list: Option<Vec<String>>) -> Option<Seq<Seq<char>>> {
    match list {
        Some(list) => Some(strings_view(list@)),
        None => None,
    }
}

/// Copies an optional string.
pub fn clone_opt_string(s: &Option<String>) -> (res: Option<String>)
    ensures
        res == *s,
{
    match s {
        Some(s) => Some(s.clone()),
        None => None,
    }
}

/// Copies a list of strings.
pub fn clone_strings(list: &Vec<String>) -> (res: Vec<String>)
    ensures
        res@ == list@,
{
    let mut res: Vec<String> = Vec::new();
    let mut i: usize = 0;
    while i < list.len()
        invariant
            i <= list@.len(),
            res@ == list@.take(i as int),
        decreases list@.len() - i,
    {
        res.push(list[i].clone());
        i = i + 1;
        assert(list@.take(i as int) =~= list@.take(i - 1).push(list@[i - 1]));
    }
    assert(list@.take(i as int) =~= list@);
    res
}

/// Copies an optional list of strings.
pub fn clone_opt_strings(list: &Option<Vec<String>>) -> (res: Option<Vec<String>>)
    ensures
        opt_strings_view(res) == opt_strings_view(*list),
{
    match list {
        Some(list) => Some(clone_strings(list)),
        None => None,
    }
}

/// Whether a list of strings holds `text`.
pub fn strings_contain(list: &Vec<String>, text: &str) -> (res: bool)
    ensures
        res == strings_view(list@).contains(text@),
{
    let mut i: usize = 0;
    while i < list.len()
        invariant
            i <= list@.len(),
            forall|j: int| 0 <= j < i ==> list@[j]@ != text@,
        decreases list@.len() - i,
    {
        if str_eq(list[i].as_str(), text) {
            assert(strings_view(list@)[i as int] == text@);
            return true;
        }
        i = i + 1;
    }
    assert forall|j: int| 0 <= j < strings_view(list@).len() implies strings_view(list@)[j] != text@ by {
        assert(strings_view(list@)[j] == list@[j]@);
    }
    false
}

/// A character with the Unicode property White_Space.
pub open spec fn is_white_space(c: char) -> bool {
    ||| '\u{9}' <= c <= '\u{d}'
    ||| c == ' '
    ||| c == '\u{85}'
    ||| c == '\u{a0}'
    ||| c == '\u{1680}'
    ||| '\u{2000}' <= c <= '\u{200a}'
    ||| c == '\u{2028}'
    ||| c == '\u{2029}'
    ||| c == '\u{202f}'
    ||| c == '\u{205f}'
    ||| c == '\u{3000}'
}

/// The text without the white space at its start.
pub open spec fn trimmed_start(text: Seq<char>) -> Seq<char>
    decreases text.len(),
{
    if text.len() > 0 && is_white_space(text.first()) {
        trimmed_start(text.drop_first())
    } else {
        text
    }
}

/// The text without the white space at its end.
pub open spec fn trimmed_end(text: Seq<char>) -> Seq<char>
    decreases text.len(),
{
    if text.len() > 0 && is_white_space(text.last()) {
        trimmed_end(text.drop_last())
    } else {
        text
    }
}

/// The text without the white space around it.
pub open spec fn trimmed(text: Seq<char>) -> Seq<char> {
    trimmed_end(trimmed_start(text))
}

/// Whether a character is white space.
fn white_space(c: char) -> (res: bool)
    ensures
        res == is_white_space(c),
{
    ('\u{9}' <= c && c <= '\u{d}') || c == ' ' || c == '\u{85}' || c == '\u{a0}'
        || c == '\u{1680}' || ('\u{2000}' <= c && c <= '\u{200a}') || c == '\u{2028}'
        || c == '\u{2029}' || c == '\u{202f}' || c == '\u{205f}' || c == '\u{3000}'
}

/// Where the white space at the start ends, the trimmed text starts.
proof fn start_is_trimmed(text: Seq<char>, n: int)
    requires
        0 <= n <= text.len(),
        forall|j: int| 0 <= j < n ==> is_white_space(#[trigger] text[j]),
        n < text.len() ==> !is_white_space(text[n]),
    ensures
        trimmed_start(text) == text.skip(n),
    decreases n,
{
    if n > 0 {
        assert(is_white_space(text[0]));
        let rest = text.drop_first();
        assert forall|j: int| 0 <= j < n - 1 implies is_white_space(#[trigger] rest[j]) by {
            assert(is_white_space(text[j + 1]));
        }
        start_is_trimmed(rest, n - 1);
        assert(rest.skip(n - 1) =~= text.skip(n));
    } else {
        assert(text.skip(0) =~= text);
    }
}

/// Where the white space at the end starts, the trimmed text ends.
proof fn end_is_trimmed(text: Seq<char>, n: int)
    requires
        0 <= n <= text.len(),
        forall|j: int| n <= j < text.len() ==> is_white_space(#[trigger] text[j]),
        n > 0 ==> !is_white_space(text[n - 1]),
    ensures
        trimmed_end(text) == text.take(n),
    decreases text.len() - n,
{
    if n < text.len() {
        assert(is_white_space(text[text.len() - 1]));
        end_is_trimmed(text.drop_last(), n);
        assert(text.drop_last().take(n) =~= text.take(n));
    } else {
        assert(text.take(n) =~= text);
    }
}

/// The text without the white space around it.
pub fn trim(text: &str) -> (res: &str)
    ensures
        res@ == trimmed(text@),
{
    let ghost all = text@;
    let len = text.unicode_len();
    // Where the first character that is no white space stands, and where the
    // part up to the last one ends; `end` is 0 while there was none.
    let mut start: usize = 0;
    let mut end: usize = 0;
    let mut i: usize = 0;
    for c in it: text.chars()
        invariant
            it.seq() == all,
            all == text@,
            len == all.len(),
            i == it.index(),
            start <= end <= i <= len,
            end == 0 ==> forall|j: int| 0 <= j < i ==> is_white_space(#[trigger] all[j]),
            end > 0 ==> {
                &&& start < end
                &&& !is_white_space(all[start as int])
                &&& !is_white_space(all[end - 1])
                &&& forall|j: int| 0 <= j < start ==> is_white_space(#[trigger] all[j])
                &&& forall|j: int| end <= j < i ==> is_white_space(#[trigger] all[j])
            },
    {
        i = i + 1;
        if !white_space(c) {
            if end == 0 {
                start = i - 1;
            }
            end = i;
        }
    }
    proof {
        if end == 0 {
            start_is_trimmed(all, len as int);
            assert(all.skip(len as int) =~= all.subrange(0, 0));
            assert(trimmed(all) =~= all.subrange(0, 0));
        } else {
            start_is_trimmed(all, start as int);
            let rest = all.skip(start as int);
            assert forall|j: int| end - start <= j < rest.len() implies is_white_space(
                #[trigger] rest[j],
            ) by {
                assert(is_white_space(all[j + start]));
            }
            end_is_trimmed(rest, end - start);
            assert(rest.take(end - start) =~= all.subrange(start as int, end as int));
        }
    }
    text.substring_char(start, end)
}

/// The parts of a text between its commas; there is one more part than there
/// are commas.
pub open spec fn comma_parts(text: Seq<char>) -> Seq<Seq<char>>
    decreases text.len(),
{
    if text.len() == 0 {
        seq![Seq::empty()]
    } else {
        let before = comma_parts(text.drop_last());
        if text.last() == ',' {
            before.push(Seq::empty())
        } else {
            before.drop_last().push(before.last().push(text.last()))
        }
    }
}

/// The characters of a list of string slices.
pub open spec fn strs_view(list: Seq<&str>) -> Seq<Seq<char>> {
    list.map_values(|s: &str| s@)
}

/// The parts of a text between its commas.
pub fn split_commas(text: &str) -> (res: Vec<&str>)
    ensures
        strs_view(res@) == comma_parts(text@),
        res@.len() > 0,
{
    let ghost all = text@;
    let mut parts: Vec<&str> = Vec::new();
    let mut start: usize = 0;
    let mut i: usize = 0;
    let len = text.unicode_len();
    assert(all.subrange(0, 0) =~= Seq::empty());
    assert(comma_parts(all.take(0)) =~= strs_view(parts@).push(all.subrange(0, 0)));
    for c in it: text.chars()
        invariant
            it.seq() == all,
            all == text@,
            len == all.len(),
            i == it.index(),
            start <= i <= len,
            comma_parts(all.take(i as int)) == strs_view(parts@).push(
                all.subrange(start as int, i as int),
            ),
    {
        let ghost before = parts@;
        let ghost current = all.subrange(start as int, i as int);
        assert(all.take(i + 1).drop_last() =~= all.take(i as int));
        assert(strs_view(before).push(current).drop_last() =~= strs_view(before));
        i = i + 1;
        if c == ',' {
            let part = text.substring_char(start, i - 1);
            parts.push(part);
            start = i;
            assert(strs_view(parts@) =~= strs_view(before).push(current));
            assert(all.subrange(start as int, i as int) =~= Seq::empty());
        } else {
            assert(all.subrange(start as int, i as int) =~= current.push(c));
        }
    }
    assert(all.take(i as int) =~= all);
    let ghost before = parts@;
    let last = text.substring_char(start, len);
    parts.push(last);
    assert(strs_view(parts@) =~= strs_view(before).push(last@));
    parts
}

} // verus!
