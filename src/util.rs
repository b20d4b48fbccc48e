//! Display widths of the characters the game draws.
use vstd::prelude::*;
use vstd::string::StrSliceExecFns;

verus! {

/// The display width of a character. Every glyph the game uses (ASCII,
/// box drawing, blocks, arrows) takes one column.
pub fn char_width(_ch: char) -> (r: usize)
    ensures
        r == 1,
{
    1
}

/// The display width of a string: the sum of its characters' widths.
pub fn str_width(s: &str) -> (r: usize)
    ensures
        r == s@.len(),
{
    let len = s.unicode_len();
    let mut total: usize = 0;
    for ch in it: s.chars()
        invariant
            total == it.index(),
            it.seq() == s@,
            len == s@.len(),
    {
        total += char_width(ch);
    }
    total
}

} // verus!
