use vstd::prelude::*;
use crate::ansi::paint;
use crate::host::{InputMode, Palette, PluginCapabilities, ThemeHue};
use crate::layout::{
    clamp0, collapsed_view, grow_left, grow_right, ind_len, ind_text_len, lemma_grow_left,
    lemma_grow_right, line_model, mode_text, prefix_view, sep_glyph, window, MAX_COLLAPSE_COUNT,
};
use crate::measure::{text_width, width_of};
use crate::numfmt::{count_digits, lemma_num_digits_small};
use crate::part::{lens_of, part_views, Part, PartView};
use crate::tab::{collapsed, separator};

verus! {

fn mode_abbrev(mode: InputMode) -> (r: &'static str)
    ensures
        r@ == mode_text(mode),
{
    match mode {
        InputMode::EnterSearch => "ES",
        InputMode::Locked => "L ",
        InputMode::Move => "M ",
        InputMode::Normal => "N ",
        InputMode::Pane => "P ",
        InputMode::Prompt => "PR",
        InputMode::RenamePane => "RP",
        InputMode::RenameTab => "RT",
        InputMode::Resize => "R ",
        InputMode::Search => "SR",
        InputMode::Scroll => "SC",
        InputMode::Session => "SS",
        InputMode::Tab => "T ",
        InputMode::Tmux => "TM",
    }
}

/// The prefix unit for the current mode: its two-character abbreviation,
/// bold, on the mode's background color; reserved first and never
/// collapsed.
pub fn prefix(mode: InputMode, palette: Palette) -> (r: Part)
    ensures
        r@ == prefix_view(mode, palette),
{
    let txt = mode_abbrev(mode);
    let bg = if mode == InputMode::Locked {
        palette.magenta
    } else if mode == InputMode::Normal {
        palette.green
    } else {
        palette.orange
    };
    let fg = match palette.theme_hue {
        ThemeHue::Dark => palette.black,
        ThemeHue::Light => palette.white,
    };
    let r = Part { part: paint(fg, bg, true, txt), len: 2, tab_idx: None };
    proof {
        assert(r@ =~= prefix_view(mode, palette));
    }
    r
}

/// Width of the collapse indicator for `count` hidden tabs and the given
/// separator width, saturating exactly as the model clamps.
fn indicator_len(count: usize, sep_w: usize) -> (r: usize)
    ensures
        r == ind_len(count as nat, sep_w as nat),
{
    if count == 0 {
        return 0;
    }
    let text_len: usize = if count < MAX_COLLAPSE_COUNT {
        let d = count_digits(count);
        proof {
            lemma_num_digits_small(count as nat);
        }
        5 + d
    } else {
        9
    };
    assert(text_len == ind_text_len(count as nat));
    text_len.saturating_add(sep_w.saturating_add(sep_w))
}

/// Whether the tab at `j` is admitted on the right: its width plus the
/// indicator for what would remain hidden after it must fit.
fn right_fits(all_tabs: &Vec<Part>, j: usize, avail: usize, sep_w: usize) -> (r: bool)
    requires
        j < all_tabs@.len(),
    ensures
        r <==> lens_of(part_views(all_tabs@))[j as int] + ind_len(
            (all_tabs@.len() - j - 1) as nat,
            sep_w as nat,
        ) <= avail,
{
    let w = all_tabs[j].len;
    if w > avail {
        return false;
    }
    let ind = indicator_len(all_tabs.len() - j - 1, sep_w);
    ind <= avail - w
}

/// Whether the tab at `i - 1` is admitted on the left, symmetrically.
fn left_fits(all_tabs: &Vec<Part>, i: usize, avail: usize, sep_w: usize) -> (r: bool)
    requires
        0 < i <= all_tabs@.len(),
    ensures
        r <==> lens_of(part_views(all_tabs@))[i - 1] + ind_len((i - 1) as nat, sep_w as nat)
            <= avail,
{
    let w = all_tabs[i - 1].len;
    if w > avail {
        return false;
    }
    let ind = indicator_len(i - 1, sep_w);
    ind <= avail - w
}

/// Lays out the strip: the degenerate cases first, then the prefix, the
/// maximal contiguous window of tabs around the active one that the
/// balanced three-pass expansion admits, bracketed by collapse
/// indicators for whatever stays hidden. The result is exactly the
/// mathematical layout model of the inputs.
pub fn line(
    all_tabs: &Vec<Part>,
    active_tab_idx: usize,
    cols: usize,
    palette: Palette,
    capabilities: PluginCapabilities,
    mode: InputMode,
) -> (res: Vec<Part>)
    requires
        active_tab_idx < all_tabs@.len(),
    ensures
        part_views(res@) == line_model(
            part_views(all_tabs@),
            active_tab_idx as int,
            cols as int,
            palette,
            capabilities,
            mode,
        ),
{
    let ghost tabs_v = part_views(all_tabs@);
    let ghost ls = lens_of(tabs_v);
    let prefix_part = prefix(mode, palette);
    if prefix_part.len > cols {
        let res: Vec<Part> = Vec::new();
        proof {
            assert(part_views(res@) =~= line_model(
                tabs_v,
                active_tab_idx as int,
                cols as int,
                palette,
                capabilities,
                mode,
            ));
        }
        return res;
    }
    let active_len = all_tabs[active_tab_idx].len;
    if active_len > cols - prefix_part.len {
        let mut res: Vec<Part> = Vec::new();
        res.push(prefix_part);
        proof {
            assert(part_views(res@) =~= line_model(
                tabs_v,
                active_tab_idx as int,
                cols as int,
                palette,
                capabilities,
                mode,
            ));
        }
        return res;
    }
    let tab_cnt = all_tabs.len();
    let tab_separator = separator(capabilities);
    let sep_w = text_width(tab_separator);
    let ghost sw = width_of(sep_glyph(capabilities.arrow_fonts));
    let budget = cols - prefix_part.len - active_len;
    let mut i = active_tab_idx;
    let mut j = active_tab_idx + 1;
    let mut len_right = (budget + 1) / 2;
    let ghost r0 = len_right as int;
    let ghost j_start = j as int;
    while j < tab_cnt && right_fits(all_tabs, j, len_right, sep_w)
        invariant
            active_tab_idx + 1 <= j <= tab_cnt,
            tab_cnt == all_tabs@.len(),
            tabs_v == part_views(all_tabs@),
            ls == lens_of(tabs_v),
            sw == sep_w as nat,
            j_start == active_tab_idx + 1,
            grow_right(ls, sw, j as int, len_right as int) == grow_right(ls, sw, j_start, r0),
        decreases tab_cnt - j,
    {
        let w = all_tabs[j].len;
        len_right -= w;
        j += 1;
    }
    proof {
        assert(grow_right(ls, sw, j as int, len_right as int) == (j as int, len_right as int));
    }
    let ghost j1 = j as int;
    let ghost r1 = len_right as int;

    let ind_r = indicator_len(tab_cnt - j, sep_w);
    proof {
        lemma_grow_right(ls, sw, j_start, r0);
        assert(budget as int / 2 + (budget as int + 1) / 2 == budget as int);
    }
    let half = budget / 2;
    let sum_lr = half + len_right;
    let mut len_left = if sum_lr >= ind_r {
        sum_lr - ind_r
    } else {
        0
    };
    let ghost l0 = len_left as int;
    proof {
        assert(l0 == clamp0(budget as int / 2 + r1 - ind_len((tab_cnt - j1) as nat, sw)));
    }
    let ghost i_start = i as int;
    while i != 0 && left_fits(all_tabs, i, len_left, sep_w)
        invariant
            i <= active_tab_idx,
            active_tab_idx < tab_cnt,
            tab_cnt == all_tabs@.len(),
            tabs_v == part_views(all_tabs@),
            ls == lens_of(tabs_v),
            sw == sep_w as nat,
            i_start == active_tab_idx as int,
            grow_left(ls, sw, i as int, len_left as int) == grow_left(ls, sw, i_start, l0),
        decreases i,
    {
        let w = all_tabs[i - 1].len;
        i -= 1;
        len_left -= w;
    }
    proof {
        assert(grow_left(ls, sw, i as int, len_left as int) == (i as int, len_left as int));
    }
    let ghost i2 = i as int;
    let ghost l2 = len_left as int;

    let ind_l = indicator_len(i, sep_w);
    proof {
        lemma_grow_left(ls, sw, i_start, l0);
        assert(len_left + ind_r <= usize::MAX);
    }
    let t = len_left + ind_r;
    len_right = if t >= ind_l {
        t - ind_l
    } else {
        0
    };
    let ghost r2 = len_right as int;
    proof {
        assert(r2 == clamp0(l2 + ind_len((tab_cnt - j1) as nat, sw) - ind_len(i2 as nat, sw)));
    }
    let ghost j3_start = j as int;
    let ghost r2_0 = len_right as int;
    while j < tab_cnt && right_fits(all_tabs, j, len_right, sep_w)
        invariant
            j3_start <= j <= tab_cnt,
            tab_cnt == all_tabs@.len(),
            tabs_v == part_views(all_tabs@),
            ls == lens_of(tabs_v),
            sw == sep_w as nat,
            grow_right(ls, sw, j as int, len_right as int) == grow_right(ls, sw, j3_start, r2_0),
        decreases tab_cnt - j,
    {
        let w = all_tabs[j].len;
        len_right -= w;
        j += 1;
    }
    proof {
        assert(grow_right(ls, sw, j as int, len_right as int) == (j as int, len_right as int));
        assert(window(ls, active_tab_idx as int, budget as int, sw) == (i as int, j as int));
        lemma_grow_right(ls, sw, j3_start, r2_0);
        assert((i as int) <= (active_tab_idx as int) && (active_tab_idx as int) < (j as int) && (j as int) <= (tab_cnt as int));
    }

    let ghost sep = sep_glyph(capabilities.arrow_fonts);
    let mut parts: Vec<Part> = Vec::new();
    parts.push(prefix_part);
    if i != 0 {
        parts.push(collapsed(i, i - 1, palette, tab_separator, true));
    }
    let ghost head = part_views(parts@);
    proof {
        if i != 0 {
            assert(head =~= seq![prefix_view(mode, palette)] + seq![
                collapsed_view(i as nat, (i - 1) as usize, palette, sep, true),
            ]);
        } else {
            assert(head =~= seq![prefix_view(mode, palette)] + Seq::<PartView>::empty());
        }
    }
    let mut k = i;
    while k < j
        invariant
            i <= k <= j <= tab_cnt,
            tab_cnt == all_tabs@.len(),
            tabs_v == part_views(all_tabs@),
            part_views(parts@) == head + tabs_v.subrange(i as int, k as int),
        decreases j - k,
    {
        let item = all_tabs[k].clone();
        let ghost prev = parts@;
        proof {
            assert(item@ == tabs_v[k as int]);
        }
        parts.push(item);
        k += 1;
        proof {
            assert(part_views(parts@) =~= part_views(prev) + seq![tabs_v[k - 1]]);
            assert(tabs_v.subrange(i as int, k as int) =~= tabs_v.subrange(i as int, k - 1)
                + seq![tabs_v[k - 1]]);
            assert(part_views(parts@) =~= head + tabs_v.subrange(i as int, k as int));
        }
    }
    proof {
        assert(k == j);
        assert(tabs_v.subrange(i as int, i as int) =~= Seq::<PartView>::empty());
    }
    if j < tab_cnt {
        let ghost prev = parts@;
        parts.push(collapsed(tab_cnt - j, j, palette, tab_separator, false));
        proof {
            assert(part_views(parts@) =~= part_views(prev) + seq![
                collapsed_view((tab_cnt - j) as nat, j, palette, sep, false),
            ]);
        }
    }
    proof {
        let model = line_model(tabs_v, active_tab_idx as int, cols as int, palette, capabilities, mode);
        assert(tabs_v[active_tab_idx as int].len == active_len as nat);
        assert(prefix_view(mode, palette).len == 2);
        let lft = if i as int > 0 {
            seq![collapsed_view(i as nat, (i - 1) as usize, palette, sep, true)]
        } else {
            Seq::<PartView>::empty()
        };
        let rgt = if (j as int) < tab_cnt as int {
            seq![collapsed_view((tab_cnt - j) as nat, j as usize, palette, sep, false)]
        } else {
            Seq::<PartView>::empty()
        };
        assert(model == seq![prefix_view(mode, palette)] + lft
            + tabs_v.subrange(i as int, j as int) + rgt);
        assert(part_views(parts@) =~= model);
    }
    parts
}

} // verus!
