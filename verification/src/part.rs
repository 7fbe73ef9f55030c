use vstd::prelude::*;

verus! {

/// The mathematical content of a measured unit: its rendered text, the
/// number of terminal columns it occupies, and the tab it stands for.
#[verifier::ext_equal]
pub struct PartView {
    pub part: Seq<char>,
    pub len: nat,
    pub tab_idx: Option<usize>,
}

/// An indivisible renderable unit: pre-styled text, its display width in
/// columns, and the index of the source tab it corresponds to (`None` for
/// the mode prefix). The layout engine never inspects the text, only the
/// width.
pub struct Part {
    pub part: String,
    pub len: usize,
    pub tab_idx: Option<usize>,
}

impl View for Part {
    type V = PartView;

    open spec fn view(&self) -> PartView {
        PartView { part: self.part@, len: self.len as nat, tab_idx: self.tab_idx }
    }
}

impl Clone for Part {
    fn clone(&self) -> (r: Part)
        ensures
            r@ == self@,
    {
        Part { part: self.part.clone(), len: self.len, tab_idx: self.tab_idx }
    }
}

impl Default for Part {
    /// A zero-width unit with empty content and no source index: the
    /// absent collapse indicator.
    fn default() -> (r: Part)
        ensures
            r@ == (PartView { part: Seq::<char>::empty(), len: 0, tab_idx: None::<usize> }),
    {
        Part { part: String::new(), len: 0, tab_idx: None }
    }
}

/// The views of a sequence of units.
pub open spec fn part_views(s: Seq<Part>) -> Seq<PartView> {
    s.map_values(|p: Part| p@)
}

/// Total width in columns of a sequence of units.
pub open spec fn width_sum(s: Seq<PartView>) -> int
    decreases s.len(),
{
    if s.len() == 0 {
        0
    } else {
        s[0].len + width_sum(s.drop_first())
    }
}

/// The widths of a sequence of units.
pub open spec fn lens_of(s: Seq<PartView>) -> Seq<nat> {
    s.map_values(|p: PartView| p.len)
}

} // verus!
