//! What holds of trimmed and split texts.

use crate::text::{comma_parts, is_white_space, trimmed, trimmed_end, trimmed_start};
use vstd::prelude::*;

verus! {

/// The text without the white space at its start is the part from its first
/// other character on.
proof fn start_of_trimmed(text: Seq<char>) -> (start: int)
    ensures
        0 <= start <= text.len(),
        trimmed_start(text) == text.skip(start),
        forall|j: int| 0 <= j < start ==> is_white_space(#[trigger] text[j]),
        start < text.len() ==> !is_white_space(text[start]),
    decreases text.len(),
{
    if text.len() > 0 && is_white_space(text.first()) {
        let rest = text.drop_first();
        let n = start_of_trimmed(rest);
        assert(rest.skip(n) =~= text.skip(n + 1));
        assert forall|j: int| 0 <= j < n + 1 implies is_white_space(#[trigger] text[j]) by {
            if j > 0 {
                assert(is_white_space(rest[j - 1]));
            }
        }
        if n + 1 < text.len() {
            assert(rest[n] == text[n + 1]);
        }
        n + 1
    } else {
        assert(text.skip(0) =~= text);
        0
    }
}

/// The text without the white space at its end is the part up to its last other
/// character.
proof fn end_of_trimmed(text: Seq<char>) -> (end: int)
    ensures
        0 <= end <= text.len(),
        trimmed_end(text) == text.take(end),
        forall|j: int| end <= j < text.len() ==> is_white_space(#[trigger] text[j]),
        end > 0 ==> !is_white_space(text[end - 1]),
    decreases text.len(),
{
    if text.len() > 0 && is_white_space(text.last()) {
        let rest = text.drop_last();
        let n = end_of_trimmed(rest);
        assert(rest.take(n) =~= text.take(n));
        assert forall|j: int| n <= j < text.len() implies is_white_space(#[trigger] text[j]) by {
            if j < rest.len() {
                assert(is_white_space(rest[j]));
            }
        }
        n
    } else {
        assert(text.take(text.len() as int) =~= text);
        text.len() as int
    }
}

/// A trimmed text is what stands between the white space at the two ends: all
/// before it and all after it is white space, and it neither starts nor ends
/// with any.
pub proof fn trimming_takes_off_both_ends(text: Seq<char>) -> (ends: (int, int))
    ensures
        0 <= ends.0 <= ends.1 <= text.len(),
        trimmed(text) == text.subrange(ends.0, ends.1),
        forall|j: int| 0 <= j < ends.0 ==> is_white_space(#[trigger] text[j]),
        forall|j: int| ends.1 <= j < text.len() ==> is_white_space(#[trigger] text[j]),
        ends.0 < ends.1 ==> !is_white_space(text[ends.0]) && !is_white_space(text[ends.1 - 1]),
{
    let start = start_of_trimmed(text);
    let rest = text.skip(start);
    let end = end_of_trimmed(rest);
    assert(rest.take(end) =~= text.subrange(start, start + end));
    assert forall|j: int| start + end <= j < text.len() implies is_white_space(
        #[trigger] text[j],
    ) by {
        assert(is_white_space(rest[j - start]));
    }
    if end > 0 {
        assert(rest[end - 1] == text[start + end - 1]);
    }
    (start, start + end)
}

/// A text that neither starts nor ends with white space is trimmed already.
pub proof fn bare_text_is_trimmed(text: Seq<char>)
    requires
        text.len() > 0 ==> !is_white_space(text.first()) && !is_white_space(text.last()),
    ensures
        trimmed(text) == text,
{
}

/// Blanks, tabs and line ends are white space; printable ASCII characters are
/// not.
pub proof fn printable_characters_are_no_white_space(c: char)
    ensures
        c == ' ' || c == '\t' || c == '\n' || c == '\r' ==> is_white_space(c),
        '!' <= c <= '~' ==> !is_white_space(c),
{
}

/// Parts, with commas between them.
pub open spec fn comma_joined(parts: Seq<Seq<char>>) -> Seq<char>
    decreases parts.len(),
{
    if parts.len() == 0 {
        Seq::empty()
    } else if parts.len() == 1 {
        parts[0]
    } else {
        comma_joined(parts.drop_last()) + seq![','] + parts.last()
    }
}

/// The parts of a text hold no comma, and joined with commas they make up the
/// text again. There is at least one.
pub proof fn parts_make_up_the_text(text: Seq<char>)
    ensures
        comma_parts(text).len() >= 1,
        comma_joined(comma_parts(text)) == text,
        forall|i: int|
            0 <= i < comma_parts(text).len() ==> !(#[trigger] comma_parts(text)[i]).contains(','),
    decreases text.len(),
{
    if text.len() == 0 {
        assert(comma_joined(comma_parts(text)) =~= text);
    } else {
        let init = text.drop_last();
        let before = comma_parts(init);
        let parts = comma_parts(text);
        parts_make_up_the_text(init);
        if text.last() == ',' {
            assert(parts.drop_last() =~= before);
            assert(comma_joined(parts) =~= text);
        } else {
            let last = before.last().push(text.last());
            assert(parts.drop_last() =~= before.drop_last());
            assert(parts.last() == last);
            assert(!before[before.len() - 1].contains(','));
            assert(!last.contains(',')) by {
                if last.contains(',') {
                    let j = choose|j: int| 0 <= j < last.len() && last[j] == ',';
                    assert(before.last()[j] == ',');
                }
            }
            if before.len() == 1 {
                assert(parts[0] =~= init.push(text.last()));
            } else {
                let head = comma_joined(before.drop_last()) + seq![','];
                assert(head + last =~= (head + before.last()).push(text.last()));
            }
            assert(init.push(text.last()) =~= text);
            assert(comma_joined(parts) =~= text);
            assert forall|i: int| 0 <= i < parts.len() implies !(#[trigger] parts[i]).contains(
                ',',
            ) by {
                if i < parts.len() - 1 {
                    assert(parts[i] == before[i]);
                }
            }
        }
    }
}

/// A text without a comma is its only part.
pub proof fn text_without_comma_is_one_part(text: Seq<char>)
    requires
        !text.contains(','),
    ensures
        comma_parts(text) == seq![text],
    decreases text.len(),
{
    if text.len() > 0 {
        let init = text.drop_last();
        assert(text[text.len() - 1] != ',') by {
            if text[text.len() - 1] == ',' {
                assert(text.contains(','));
            }
        }
        assert(!init.contains(',')) by {
            if init.contains(',') {
                let j = choose|j: int| 0 <= j < init.len() && init[j] == ',';
                assert(text[j] == ',');
            }
        }
        text_without_comma_is_one_part(init);
        assert(init.push(text.last()) =~= text);
        assert(comma_parts(text) =~= seq![text]);
    } else {
        assert(text =~= Seq::empty());
    }
}

} // verus!
