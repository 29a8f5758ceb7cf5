//! Small helpers on text.
use vstd::prelude::*;
use std::ops::Range;

verus! {

/// As many characters of `text` as `range.end` says, from the character at
/// `range.start` on; fewer where `text` ends before, and none where it
/// ends at or before `range.start`.
pub open spec fn slice_by_char(text: Seq<char>, start: nat, end: nat) -> Seq<char> {
    if start >= text.len() {
        Seq::empty()
    } else if start + end >= text.len() {
        text.subrange(start as int, text.len() as int)
    } else {
        text.subrange(start as int, (start + end) as int)
    }
}

/// The characters of `text` that `range` selects, counted in characters,
/// not in bytes. The end of the range counts from its start.
pub fn get_slice_by_char(text: &str, range: Range<usize>) -> (slice: &str)
    requires
        range.end > 0 || range.start >= text@.len(),
    ensures
        slice@ == slice_by_char(text@, range.start as nat, range.end as nat),
{
    let len = text.unicode_len();
    if range.start >= len {
        let empty = "";
        proof {
            reveal_strlit("");
            assert(empty@ =~= Seq::<char>::empty());
        }
        return empty;
    }
    if range.end >= len - range.start {
        text.substring_char(range.start, len)
    } else {
        text.substring_char(range.start, range.start + range.end)
    }
}

} // verus!
