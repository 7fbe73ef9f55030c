use vstd::prelude::*;
use crate::ansi::{color_code, painted};
use crate::host::{InputMode, Palette, PluginCapabilities, ThemeHue};
use crate::measure::width_of;
use crate::numfmt::{dec_rep, lemma_num_digits_small, num_digits};
use crate::part::{lens_of, width_sum, PartView};

verus! {

/// Hidden counts at or above this threshold are shown as "+many" instead
/// of the literal number.
pub const MAX_COLLAPSE_COUNT: usize = 10000;

/// The separator glyph: a plain one-column blank when the host reports
/// arrow fonts, the arrow glyph otherwise; either way a single unit one
/// column wide.
pub open spec fn sep_glyph(arrow_fonts: bool) -> Seq<char> {
    if arrow_fonts {
        " "@
    } else {
        "\u{e0b0}"@
    }
}

/// The text of a collapse indicator for `count` hidden tabs on the given
/// side: an arrow decoration, a plus sign, and the count (or "many").
pub open spec fn ind_text(count: nat, left: bool) -> Seq<char> {
    let num: Seq<char> = if count < MAX_COLLAPSE_COUNT as nat {
        dec_rep(count)
    } else {
        "many"@
    };
    if left {
        " \u{2190} +"@ + num + " "@
    } else {
        " +"@ + num + " \u{2192} "@
    }
}

/// Width in columns of the indicator text: five plus the digit count in
/// numeral form, nine in the "+many" form. Every character of the text,
/// the arrows included, occupies one column.
pub open spec fn ind_text_len(count: nat) -> nat {
    if count < MAX_COLLAPSE_COUNT as nat {
        5 + num_digits(count)
    } else {
        9
    }
}

/// Width of a collapse indicator for `count` hidden tabs, bracketed by
/// two separator glyphs of width `sw`; zero when nothing is hidden. The
/// value is clamped at the machine maximum, exactly as the executable
/// accounting saturates.
pub open spec fn ind_len(count: nat, sw: nat) -> nat {
    if count == 0 {
        0
    } else if ind_text_len(count) + 2 * sw > usize::MAX {
        usize::MAX as nat
    } else {
        (ind_text_len(count) + 2 * sw) as nat
    }
}

/// An upper bound on every indicator width for a given separator width.
pub open spec fn ind_cap(sw: nat) -> int {
    if 9 + 2 * sw > usize::MAX {
        usize::MAX as int
    } else {
        (9 + 2 * sw) as int
    }
}

pub proof fn lemma_ind_len_le(count: nat, sw: nat)
    ensures
        0 <= ind_len(count, sw) <= ind_cap(sw),
{
    if count != 0 && count < MAX_COLLAPSE_COUNT as nat {
        lemma_num_digits_small(count);
    }
}

/// Clamp at zero: a negative leftover means no further growth, never a
/// fault.
pub open spec fn clamp0(x: int) -> int {
    if x < 0 {
        0
    } else {
        x
    }
}

/// Sum of a sequence of widths.
pub open spec fn sum_lens(s: Seq<nat>) -> int
    decreases s.len(),
{
    if s.len() == 0 {
        0
    } else {
        s[0] + sum_lens(s.drop_first())
    }
}

pub proof fn lemma_sum_lens_concat(a: Seq<nat>, b: Seq<nat>)
    ensures
        sum_lens(a + b) == sum_lens(a) + sum_lens(b),
    decreases a.len(),
{
    if a.len() == 0 {
        assert(a + b =~= b);
    } else {
        assert((a + b).drop_first() =~= a.drop_first() + b);
        lemma_sum_lens_concat(a.drop_first(), b);
    }
}

pub proof fn lemma_sum_lens_single(x: nat)
    ensures
        sum_lens(seq![x]) == x,
{
    reveal_with_fuel(sum_lens, 2);
    assert(seq![x].drop_first() =~= Seq::<nat>::empty());
}

/// Greedy expansion of the window's right boundary: the next tab is
/// admitted while its width, plus the indicator for what would remain
/// hidden after it, fits in the remaining half-budget.
pub open spec fn grow_right(ls: Seq<nat>, sw: nat, j: int, r: int) -> (int, int)
    decreases ls.len() - j,
{
    if j < ls.len() && ls[j] + ind_len((ls.len() - j - 1) as nat, sw) <= r {
        grow_right(ls, sw, j + 1, r - ls[j])
    } else {
        (j, r)
    }
}

/// Greedy expansion of the window's left boundary, symmetric to
/// `grow_right`.
pub open spec fn grow_left(ls: Seq<nat>, sw: nat, i: int, l: int) -> (int, int)
    decreases i,
{
    if 0 < i && i <= ls.len() && ls[i - 1] + ind_len((i - 1) as nat, sw) <= l {
        grow_left(ls, sw, i - 1, l - ls[i - 1])
    } else {
        (i, l)
    }
}

pub proof fn lemma_grow_right(ls: Seq<nat>, sw: nat, j0: int, r0: int)
    requires
        0 <= j0 <= ls.len(),
        0 <= r0,
    ensures
        ({
            let (j, r) = grow_right(ls, sw, j0, r0);
            &&& j0 <= j <= ls.len()
            &&& 0 <= r <= r0
            &&& r0 - r == sum_lens(ls.subrange(j0, j))
            &&& (j > j0 ==> r >= ind_len((ls.len() - j) as nat, sw))
            &&& (j == j0 ==> r == r0)
        }),
    decreases ls.len() - j0,
{
    if j0 < ls.len() && ls[j0] + ind_len((ls.len() - j0 - 1) as nat, sw) <= r0 {
        lemma_grow_right(ls, sw, j0 + 1, r0 - ls[j0]);
        let (j, r) = grow_right(ls, sw, j0 + 1, r0 - ls[j0]);
        assert(ls.subrange(j0, j) =~= seq![ls[j0]] + ls.subrange(j0 + 1, j));
        lemma_sum_lens_concat(seq![ls[j0]], ls.subrange(j0 + 1, j));
        lemma_sum_lens_single(ls[j0]);
    } else {
        assert(ls.subrange(j0, j0) =~= Seq::<nat>::empty());
    }
}

pub proof fn lemma_grow_left(ls: Seq<nat>, sw: nat, i0: int, l0: int)
    requires
        0 <= i0 <= ls.len(),
        0 <= l0,
    ensures
        ({
            let (i, l) = grow_left(ls, sw, i0, l0);
            &&& 0 <= i <= i0
            &&& 0 <= l <= l0
            &&& l0 - l == sum_lens(ls.subrange(i, i0))
            &&& (i < i0 ==> l >= ind_len(i as nat, sw))
            &&& (i == i0 ==> l == l0)
        }),
    decreases i0,
{
    if 0 < i0 && i0 <= ls.len() && ls[i0 - 1] + ind_len((i0 - 1) as nat, sw) <= l0 {
        lemma_grow_left(ls, sw, i0 - 1, l0 - ls[i0 - 1]);
        let (i, l) = grow_left(ls, sw, i0 - 1, l0 - ls[i0 - 1]);
        assert(ls.subrange(i, i0) =~= ls.subrange(i, i0 - 1) + seq![ls[i0 - 1]]);
        lemma_sum_lens_concat(ls.subrange(i, i0 - 1), seq![ls[i0 - 1]]);
        lemma_sum_lens_single(ls[i0 - 1]);
    } else {
        assert(ls.subrange(i0, i0) =~= Seq::<nat>::empty());
    }
}

/// The visible window around the active tab: three balanced expansion
/// passes — grow right, grow left with the budget the right pass left
/// over, then grow right again with whatever the left pass freed. Every
/// subtraction is clamped at zero.
pub open spec fn window(ls: Seq<nat>, active: int, budget: int, sw: nat) -> (int, int) {
    let n = ls.len() as int;
    let r0 = (budget + 1) / 2;
    let p1 = grow_right(ls, sw, active + 1, r0);
    let l0 = clamp0(budget / 2 + p1.1 - ind_len((n - p1.0) as nat, sw));
    let p2 = grow_left(ls, sw, active, l0);
    let r2 = clamp0(p2.1 + ind_len((n - p1.0) as nat, sw) - ind_len(p2.0 as nat, sw));
    let p3 = grow_right(ls, sw, p1.0, r2);
    (p2.0, p3.0)
}

/// The window always contains the active tab and stays inside the tabs.
pub proof fn lemma_window_bounds(ls: Seq<nat>, active: int, budget: int, sw: nat)
    requires
        0 <= active < ls.len(),
        0 <= budget,
    ensures
        ({
            let (i, j) = window(ls, active, budget, sw);
            0 <= i <= active && active < j <= ls.len()
        }),
{
    let n = ls.len() as int;
    let r0 = (budget + 1) / 2;
    lemma_grow_right(ls, sw, active + 1, r0);
    let p1 = grow_right(ls, sw, active + 1, r0);
    let l0 = clamp0(budget / 2 + p1.1 - ind_len((n - p1.0) as nat, sw));
    lemma_grow_left(ls, sw, active, l0);
    let p2 = grow_left(ls, sw, active, l0);
    let r2 = clamp0(p2.1 + ind_len((n - p1.0) as nat, sw) - ind_len(p2.0 as nat, sw));
    lemma_grow_right(ls, sw, p1.0, r2);
}

/// The unit standing in for `count` hidden tabs on one side: a separator,
/// the indicator text, a separator, painted in the theme's colors, and
/// carrying the index of the nearest hidden tab.
pub open spec fn collapsed_view(
    count: nat,
    tab_index: usize,
    palette: Palette,
    sep: Seq<char>,
    left: bool,
) -> PartView {
    if count == 0 {
        PartView { part: Seq::<char>::empty(), len: 0, tab_idx: None }
    } else {
        let tc = if palette.theme_hue == ThemeHue::Dark {
            palette.white
        } else {
            palette.black
        };
        let sc = if palette.theme_hue == ThemeHue::Dark {
            palette.black
        } else {
            palette.white
        };
        PartView {
            part: painted(color_code(sc), color_code(palette.orange), false, sep) + painted(
                color_code(tc),
                color_code(palette.orange),
                true,
                ind_text(count, left),
            ) + painted(color_code(palette.orange), color_code(sc), false, sep),
            len: ind_len(count, width_of(sep)),
            tab_idx: Some(tab_index),
        }
    }
}

/// The two-character abbreviation each interaction mode is shown as.
pub open spec fn mode_text(mode: InputMode) -> Seq<char> {
    match mode {
        InputMode::EnterSearch => "ES"@,
        InputMode::Locked => "L "@,
        InputMode::Move => "M "@,
        InputMode::Normal => "N "@,
        InputMode::Pane => "P "@,
        InputMode::Prompt => "PR"@,
        InputMode::RenamePane => "RP"@,
        InputMode::RenameTab => "RT"@,
        InputMode::Resize => "R "@,
        InputMode::Search => "SR"@,
        InputMode::Scroll => "SC"@,
        InputMode::Session => "SS"@,
        InputMode::Tab => "T "@,
        InputMode::Tmux => "TM"@,
    }
}

/// The prefix unit: the mode abbreviation, bold, the theme hue's black
/// or white swatch on the mode's background color; always two columns
/// wide, never collapsible, and without a source index.
pub open spec fn prefix_view(mode: InputMode, palette: Palette) -> PartView {
    let bg = if mode == InputMode::Locked {
        palette.magenta
    } else if mode == InputMode::Normal {
        palette.green
    } else {
        palette.orange
    };
    let fg = if palette.theme_hue == ThemeHue::Dark {
        palette.black
    } else {
        palette.white
    };
    PartView { part: painted(color_code(fg), color_code(bg), true, mode_text(mode)), len: 2, tab_idx: None }
}

/// The laid-out strip, as a function of the inputs alone: the degenerate
/// cases first, then the prefix, a left indicator when tabs are hidden on
/// the left, the visible window, and a right indicator when tabs are
/// hidden on the right.
pub open spec fn line_model(
    tabs: Seq<PartView>,
    active: int,
    cols: int,
    palette: Palette,
    capabilities: PluginCapabilities,
    mode: InputMode,
) -> Seq<PartView> {
    let pre = prefix_view(mode, palette);
    let sep = sep_glyph(capabilities.arrow_fonts);
    let sw = width_of(sep);
    if pre.len > cols {
        Seq::<PartView>::empty()
    } else if pre.len + tabs[active].len > cols {
        seq![pre]
    } else {
        let n = tabs.len() as int;
        let budget = cols - pre.len - tabs[active].len;
        let w = window(lens_of(tabs), active, budget, sw);
        seq![pre] + (if w.0 > 0 {
            seq![collapsed_view(w.0 as nat, (w.0 - 1) as usize, palette, sep, true)]
        } else {
            Seq::<PartView>::empty()
        }) + tabs.subrange(w.0, w.1) + (if w.1 < n {
            seq![collapsed_view((n - w.1) as nat, w.1 as usize, palette, sep, false)]
        } else {
            Seq::<PartView>::empty()
        })
    }
}

pub proof fn lemma_width_sum_concat(a: Seq<PartView>, b: Seq<PartView>)
    ensures
        width_sum(a + b) == width_sum(a) + width_sum(b),
    decreases a.len(),
{
    if a.len() == 0 {
        assert(a + b =~= b);
    } else {
        assert((a + b).drop_first() =~= a.drop_first() + b);
        lemma_width_sum_concat(a.drop_first(), b);
    }
}

pub proof fn lemma_width_sum_single(p: PartView)
    ensures
        width_sum(seq![p]) == p.len,
{
    reveal_with_fuel(width_sum, 2);
    assert(seq![p].drop_first() =~= Seq::<PartView>::empty());
}

/// The width of a run of units is the sum of their recorded widths.
pub proof fn lemma_width_sum_lens(s: Seq<PartView>)
    ensures
        width_sum(s) == sum_lens(lens_of(s)),
    decreases s.len(),
{
    if s.len() > 0 {
        assert(lens_of(s).drop_first() =~= lens_of(s.drop_first()));
        lemma_width_sum_lens(s.drop_first());
    }
}

/// Budget bound: whenever the degenerate cases do not trigger and the
/// budget beyond the prefix and the active tab leaves room for two
/// collapse indicators, the total width of the laid-out strip never
/// exceeds the column budget. (With less slack than two indicators the
/// three-pass balancing can emit indicators it never budgeted for.)
pub proof fn lemma_budget_bound(
    tabs: Seq<PartView>,
    active: int,
    cols: int,
    palette: Palette,
    capabilities: PluginCapabilities,
    mode: InputMode,
)
    requires
        0 <= active < tabs.len(),
        prefix_view(mode, palette).len + tabs[active].len <= cols,
        2 * ind_cap(width_of(sep_glyph(capabilities.arrow_fonts))) <= cols - prefix_view(
            mode,
            palette,
        ).len - tabs[active].len,
    ensures
        width_sum(line_model(tabs, active, cols, palette, capabilities, mode)) <= cols,
{
    let pre = prefix_view(mode, palette);
    let sep = sep_glyph(capabilities.arrow_fonts);
    let sw = width_of(sep);
    let ls = lens_of(tabs);
    let n = ls.len() as int;
    let budget = cols - pre.len - tabs[active].len;
    let cap = ind_cap(sw);
    let r0 = (budget + 1) / 2;
    assert(budget / 2 + (budget + 1) / 2 == budget);
    assert(budget / 2 >= cap);
    lemma_grow_right(ls, sw, active + 1, r0);
    let p1 = grow_right(ls, sw, active + 1, r0);
    let j1 = p1.0;
    let r1 = p1.1;
    let ir1 = ind_len((n - j1) as nat, sw);
    lemma_ind_len_le((n - j1) as nat, sw);
    assert(r1 >= ir1);
    let l0 = clamp0(budget / 2 + r1 - ir1);
    assert(l0 == budget / 2 + r1 - ir1);
    lemma_grow_left(ls, sw, active, l0);
    let p2 = grow_left(ls, sw, active, l0);
    let i2 = p2.0;
    let l2 = p2.1;
    let il = ind_len(i2 as nat, sw);
    lemma_ind_len_le(i2 as nat, sw);
    assert(l2 >= il);
    let r2 = clamp0(l2 + ir1 - il);
    assert(r2 == l2 + ir1 - il);
    lemma_grow_right(ls, sw, j1, r2);
    let p3 = grow_right(ls, sw, j1, r2);
    let j3 = p3.0;
    let r3 = p3.1;
    let ir3 = ind_len((n - j3) as nat, sw);
    assert(r3 >= ir3);
    let out = line_model(tabs, active, cols, palette, capabilities, mode);
    let lft = if i2 > 0 {
        seq![collapsed_view(i2 as nat, (i2 - 1) as usize, palette, sep, true)]
    } else {
        Seq::<PartView>::empty()
    };
    let rgt = if j3 < n {
        seq![collapsed_view((n - j3) as nat, j3 as usize, palette, sep, false)]
    } else {
        Seq::<PartView>::empty()
    };
    assert(out == seq![pre] + lft + tabs.subrange(i2, j3) + rgt);
    lemma_width_sum_concat(seq![pre] + lft + tabs.subrange(i2, j3), rgt);
    lemma_width_sum_concat(seq![pre] + lft, tabs.subrange(i2, j3));
    lemma_width_sum_concat(seq![pre], lft);
    lemma_width_sum_single(pre);
    if i2 > 0 {
        lemma_width_sum_single(collapsed_view(i2 as nat, (i2 - 1) as usize, palette, sep, true));
        assert(width_sum(lft) == il);
    } else {
        assert(width_sum(lft) == 0 && il == 0);
    }
    if j3 < n {
        lemma_width_sum_single(collapsed_view((n - j3) as nat, j3 as usize, palette, sep, false));
        assert(width_sum(rgt) == ir3);
    } else {
        assert(width_sum(rgt) == 0 && ir3 == 0);
    }
    lemma_width_sum_lens(tabs.subrange(i2, j3));
    assert(lens_of(tabs.subrange(i2, j3)) =~= ls.subrange(i2, j3));
    assert(ls.subrange(i2, j3) =~= ls.subrange(i2, active) + ls.subrange(active, j3));
    assert(ls.subrange(active, j3) =~= ls.subrange(active, active + 1) + ls.subrange(
        active + 1,
        j3,
    ));
    assert(ls.subrange(active + 1, j3) =~= ls.subrange(active + 1, j1) + ls.subrange(j1, j3));
    lemma_sum_lens_concat(ls.subrange(i2, active), ls.subrange(active, j3));
    lemma_sum_lens_concat(ls.subrange(active, active + 1), ls.subrange(active + 1, j3));
    lemma_sum_lens_concat(ls.subrange(active + 1, j1), ls.subrange(j1, j3));
    assert(ls.subrange(active, active + 1) =~= seq![ls[active]]);
    lemma_sum_lens_single(ls[active]);
    assert(ls[active] == tabs[active].len);
    assert(r0 - r1 == sum_lens(ls.subrange(active + 1, j1)));
    assert(l0 - l2 == sum_lens(ls.subrange(i2, active)));
    assert(r2 - r3 == sum_lens(ls.subrange(j1, j3)));
    assert(width_sum(out) == pre.len + il + sum_lens(ls.subrange(i2, j3)) + ir3);
    assert(width_sum(out) <= cols);
}

/// Active visibility: whenever the prefix and the active tab fit
/// together, the active tab's unit appears in the output.
pub proof fn lemma_active_visible(
    tabs: Seq<PartView>,
    active: int,
    cols: int,
    palette: Palette,
    capabilities: PluginCapabilities,
    mode: InputMode,
)
    requires
        0 <= active < tabs.len(),
        prefix_view(mode, palette).len + tabs[active].len <= cols,
    ensures
        ({
            let out = line_model(tabs, active, cols, palette, capabilities, mode);
            exists|k: int| 0 <= k < out.len() && out[k] == tabs[active]
        }),
{
    let pre = prefix_view(mode, palette);
    let sep = sep_glyph(capabilities.arrow_fonts);
    let sw = width_of(sep);
    let ls = lens_of(tabs);
    let n = ls.len() as int;
    let budget = cols - pre.len - tabs[active].len;
    lemma_window_bounds(ls, active, budget, sw);
    let w = window(ls, active, budget, sw);
    let out = line_model(tabs, active, cols, palette, capabilities, mode);
    let lft = if w.0 > 0 {
        seq![collapsed_view(w.0 as nat, (w.0 - 1) as usize, palette, sep, true)]
    } else {
        Seq::<PartView>::empty()
    };
    let rgt = if w.1 < n {
        seq![collapsed_view((n - w.1) as nat, w.1 as usize, palette, sep, false)]
    } else {
        Seq::<PartView>::empty()
    };
    assert(out == seq![pre] + lft + tabs.subrange(w.0, w.1) + rgt);
    let k = 1 + lft.len() + (active - w.0);
    assert(out[k] == tabs.subrange(w.0, w.1)[active - w.0]);
    assert(out[k] == tabs[active]);
    assert(0 <= k < out.len());
}

/// Indicator correctness: the prefix comes first; a left indicator
/// appears exactly when the window starts past the first tab, and it
/// encodes the hidden count `i`; symmetrically on the right with
/// `n - j`; nothing but the window stands between them.
pub proof fn lemma_indicator_correctness(
    tabs: Seq<PartView>,
    active: int,
    cols: int,
    palette: Palette,
    capabilities: PluginCapabilities,
    mode: InputMode,
)
    requires
        0 <= active < tabs.len(),
        prefix_view(mode, palette).len + tabs[active].len <= cols,
    ensures
        ({
            let pre = prefix_view(mode, palette);
            let sep = sep_glyph(capabilities.arrow_fonts);
            let n = tabs.len() as int;
            let budget = cols - pre.len - tabs[active].len;
            let w = window(lens_of(tabs), active, budget, width_of(sep));
            let out = line_model(tabs, active, cols, palette, capabilities, mode);
            &&& out.len() == 1 + (if w.0 > 0 { 1 as int } else { 0 as int }) + (w.1 - w.0) + (
            if w.1 < n { 1 as int } else { 0 as int })
            &&& out[0] == pre
            &&& (w.0 > 0 ==> out[1] == collapsed_view(w.0 as nat, (w.0 - 1) as usize, palette, sep, true))
            &&& (w.0 == 0 ==> out[1] == tabs[0])
            &&& (w.1 < n ==> out.last() == collapsed_view((n - w.1) as nat, w.1 as usize, palette, sep, false))
            &&& (w.1 == n ==> out.last() == tabs[n - 1])
        }),
{
    let pre = prefix_view(mode, palette);
    let sep = sep_glyph(capabilities.arrow_fonts);
    let sw = width_of(sep);
    let ls = lens_of(tabs);
    let n = ls.len() as int;
    let budget = cols - pre.len - tabs[active].len;
    lemma_window_bounds(ls, active, budget, sw);
    let w = window(ls, active, budget, sw);
    let out = line_model(tabs, active, cols, palette, capabilities, mode);
    let lft = if w.0 > 0 {
        seq![collapsed_view(w.0 as nat, (w.0 - 1) as usize, palette, sep, true)]
    } else {
        Seq::<PartView>::empty()
    };
    let rgt = if w.1 < n {
        seq![collapsed_view((n - w.1) as nat, w.1 as usize, palette, sep, false)]
    } else {
        Seq::<PartView>::empty()
    };
    assert(out == seq![pre] + lft + tabs.subrange(w.0, w.1) + rgt);
    if w.0 == 0 {
        assert(out[1] == tabs.subrange(w.0, w.1)[0]);
    }
    if w.1 == n {
        assert(out.last() == tabs.subrange(w.0, w.1)[w.1 - w.0 - 1]);
    }
}

/// Determinism: the layout is a function of its inputs alone, so two
/// renders from identical snapshots are identical.
pub proof fn lemma_layout_deterministic(
    tabs1: Seq<PartView>,
    tabs2: Seq<PartView>,
    active: int,
    cols: int,
    palette: Palette,
    capabilities: PluginCapabilities,
    mode: InputMode,
)
    requires
        tabs1 == tabs2,
    ensures
        line_model(tabs1, active, cols, palette, capabilities, mode) == line_model(
            tabs2,
            active,
            cols,
            palette,
            capabilities,
            mode,
        ),
{
}

/// Degenerate boundary: a single tab that fits is laid out as the
/// prefix and that tab, with no indicators.
pub proof fn lemma_single_tab_fits(
    tabs: Seq<PartView>,
    cols: int,
    palette: Palette,
    capabilities: PluginCapabilities,
    mode: InputMode,
)
    requires
        tabs.len() == 1,
        prefix_view(mode, palette).len + tabs[0].len <= cols,
    ensures
        line_model(tabs, 0, cols, palette, capabilities, mode) == seq![
            prefix_view(mode, palette),
            tabs[0],
        ],
{
    let pre = prefix_view(mode, palette);
    let sep = sep_glyph(capabilities.arrow_fonts);
    let sw = width_of(sep);
    let ls = lens_of(tabs);
    let budget = cols - pre.len - tabs[0].len;
    let r0 = (budget + 1) / 2;
    assert(grow_right(ls, sw, 1, r0) == (1 as int, r0));
    let l0 = clamp0(budget / 2 + r0 - ind_len(0, sw));
    assert(grow_left(ls, sw, 0, l0) == (0 as int, l0));
    let r2 = clamp0(l0 + ind_len(0, sw) - ind_len(0, sw));
    assert(grow_right(ls, sw, 1, r2) == (1 as int, r2));
    assert(window(ls, 0, budget, sw) == (0 as int, 1 as int));
    assert(tabs.subrange(0, 1) =~= seq![tabs[0]]);
    assert(line_model(tabs, 0, cols, palette, capabilities, mode) =~= seq![pre, tabs[0]]);
}

pub proof fn lemma_sum_lens_nonneg(s: Seq<nat>)
    ensures
        sum_lens(s) >= 0,
    decreases s.len(),
{
    if s.len() > 0 {
        lemma_sum_lens_nonneg(s.drop_first());
    }
}

/// A right budget that covers every remaining tab and one indicator
/// admits them all.
proof fn lemma_grow_right_exhausts(ls: Seq<nat>, sw: nat, j0: int, r0: int)
    requires
        0 <= j0 <= ls.len(),
        sum_lens(ls.subrange(j0, ls.len() as int)) + ind_cap(sw) <= r0,
    ensures
        grow_right(ls, sw, j0, r0).0 == ls.len(),
    decreases ls.len() - j0,
{
    let n = ls.len() as int;
    if j0 < n {
        assert(ls.subrange(j0, n) =~= seq![ls[j0]] + ls.subrange(j0 + 1, n));
        lemma_sum_lens_concat(seq![ls[j0]], ls.subrange(j0 + 1, n));
        lemma_sum_lens_single(ls[j0]);
        lemma_sum_lens_nonneg(ls.subrange(j0 + 1, n));
        lemma_ind_len_le((n - j0 - 1) as nat, sw);
        assert(ls[j0] + ind_len((n - j0 - 1) as nat, sw) <= r0);
        lemma_grow_right_exhausts(ls, sw, j0 + 1, r0 - ls[j0]);
    }
}

/// A left budget that covers every earlier tab and one indicator admits
/// them all.
proof fn lemma_grow_left_exhausts(ls: Seq<nat>, sw: nat, i0: int, l0: int)
    requires
        0 <= i0 <= ls.len(),
        sum_lens(ls.subrange(0, i0)) + ind_cap(sw) <= l0,
    ensures
        grow_left(ls, sw, i0, l0).0 == 0,
    decreases i0,
{
    if i0 > 0 {
        assert(ls.subrange(0, i0) =~= ls.subrange(0, i0 - 1) + seq![ls[i0 - 1]]);
        lemma_sum_lens_concat(ls.subrange(0, i0 - 1), seq![ls[i0 - 1]]);
        lemma_sum_lens_single(ls[i0 - 1]);
        lemma_sum_lens_nonneg(ls.subrange(0, i0 - 1));
        lemma_ind_len_le((i0 - 1) as nat, sw);
        assert(ls[i0 - 1] + ind_len((i0 - 1) as nat, sw) <= l0);
        lemma_grow_left_exhausts(ls, sw, i0 - 1, l0 - ls[i0 - 1]);
    }
}

/// Growth at the generous end: once the columns cover the prefix, every
/// tab and two indicators' worth of slack, the whole row is shown — the
/// prefix then every tab, with no indicators. (Below that, growing the
/// budget need not grow the visible count: the three-pass balancing
/// favors the right side, and one more column can let the right pass
/// claim a wide tab that starves the left pass.)
pub proof fn lemma_generous_budget_shows_all(
    tabs: Seq<PartView>,
    active: int,
    cols: int,
    palette: Palette,
    capabilities: PluginCapabilities,
    mode: InputMode,
)
    requires
        0 <= active < tabs.len(),
        prefix_view(mode, palette).len + sum_lens(lens_of(tabs)) + 2 * ind_cap(
            width_of(sep_glyph(capabilities.arrow_fonts)),
        ) <= cols,
    ensures
        line_model(tabs, active, cols, palette, capabilities, mode) == seq![
            prefix_view(mode, palette),
        ] + tabs,
{
    let pre = prefix_view(mode, palette);
    let sep = sep_glyph(capabilities.arrow_fonts);
    let sw = width_of(sep);
    let ls = lens_of(tabs);
    let n = ls.len() as int;
    let cap = ind_cap(sw);
    assert(ls =~= ls.subrange(0, active) + ls.subrange(active, n));
    lemma_sum_lens_concat(ls.subrange(0, active), ls.subrange(active, n));
    assert(ls.subrange(active, n) =~= seq![ls[active]] + ls.subrange(active + 1, n));
    lemma_sum_lens_concat(seq![ls[active]], ls.subrange(active + 1, n));
    lemma_sum_lens_single(ls[active]);
    lemma_sum_lens_nonneg(ls.subrange(0, active));
    lemma_sum_lens_nonneg(ls.subrange(active + 1, n));
    assert(sum_lens(ls) == sum_lens(ls.subrange(0, active)) + ls[active] + sum_lens(
        ls.subrange(active + 1, n),
    ));
    assert(ls[active] == tabs[active].len);
    lemma_ind_len_le(0, sw);
    assert(pre.len + tabs[active].len <= cols);
    let budget = cols - pre.len - tabs[active].len;
    assert(budget >= 2 * cap);
    let r0 = (budget + 1) / 2;
    assert(budget / 2 + (budget + 1) / 2 == budget);
    assert(r0 >= cap);
    lemma_grow_right(ls, sw, active + 1, r0);
    let p1 = grow_right(ls, sw, active + 1, r0);
    let j1 = p1.0;
    let r1 = p1.1;
    let ir1 = ind_len((n - j1) as nat, sw);
    lemma_ind_len_le((n - j1) as nat, sw);
    assert(r1 >= ir1);
    let l0 = clamp0(budget / 2 + r1 - ir1);
    assert(l0 == budget - (r0 - r1) - ir1);
    assert(ls.subrange(active + 1, n) =~= ls.subrange(active + 1, j1) + ls.subrange(j1, n));
    lemma_sum_lens_concat(ls.subrange(active + 1, j1), ls.subrange(j1, n));
    lemma_sum_lens_nonneg(ls.subrange(j1, n));
    assert(sum_lens(ls.subrange(0, active)) + cap <= l0);
    lemma_grow_left_exhausts(ls, sw, active, l0);
    lemma_grow_left(ls, sw, active, l0);
    let p2 = grow_left(ls, sw, active, l0);
    assert(p2.0 == 0);
    let l2 = p2.1;
    assert(l0 - l2 == sum_lens(ls.subrange(0, active)));
    let r2 = clamp0(l2 + ir1 - ind_len(0, sw));
    assert(r2 == l2 + ir1);
    assert(sum_lens(ls.subrange(j1, n)) + cap <= r2);
    lemma_grow_right_exhausts(ls, sw, j1, r2);
    assert(window(ls, active, budget, sw) == (0 as int, n));
    assert(tabs.subrange(0, n) =~= tabs);
    assert(line_model(tabs, active, cols, palette, capabilities, mode) =~= seq![pre] + tabs);
}

} // verus!
