use vstd::prelude::*;
use unicode_width::UnicodeWidthStr;

verus! {

/// The display width in columns that the width-measurement crate assigns
/// to a sequence of characters. It is computed from the characters alone,
/// so the same text always measures the same number of columns.
pub uninterp spec fn width_of(s: Seq<char>) -> nat;

/// Relies on unicode_width's `UnicodeWidthStr::width`: the string's
/// displayed width in columns, a pure function of its characters; the
/// width of the empty string is zero, since a string's width is the sum
/// of the widths of its parts.
#[verifier::external_body]
pub(crate) fn text_width(s: &str) -> (r: usize)
    ensures
        r == width_of(s@),
        s@.len() == 0 ==> r == 0,
{
    s.width()
}

} // verus!
