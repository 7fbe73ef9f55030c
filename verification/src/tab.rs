use vstd::prelude::*;
use crate::ansi::{color_code, paint, painted};
use crate::host::{
    client_colors, client_id_to_colors, MultiplayerColors, Palette, PluginCapabilities, TabInfo,
    TabInfoView, ThemeHue,
};
use crate::layout::{
    collapsed_view, ind_len, ind_text, ind_text_len, sep_glyph, MAX_COLLAPSE_COUNT,
};
use crate::measure::{text_width, width_of};
use crate::numfmt::{lemma_dec_rep_len, push_decimal};
use crate::part::{Part, PartView};

verus! {

/// The separator glyph for the host's capabilities: a plain one-column
/// blank when arrow fonts are reported, the arrow glyph otherwise.
pub fn separator(capabilities: PluginCapabilities) -> (r: &'static str)
    ensures
        r@ == sep_glyph(capabilities.arrow_fonts),
{
    if capabilities.arrow_fonts {
        " "
    } else {
        "\u{e0b0}"
    }
}

/// The indicator text has one column per character: the decoration, the
/// plus sign and the count (or "many"), padded by spaces.
proof fn lemma_ind_text_len(count: nat, left: bool)
    ensures
        ind_text(count, left).len() == ind_text_len(count),
{
    reveal_strlit(" \u{2190} +");
    reveal_strlit(" +");
    reveal_strlit(" ");
    reveal_strlit(" \u{2192} ");
    reveal_strlit("many");
    if count < MAX_COLLAPSE_COUNT as nat {
        lemma_dec_rep_len(count);
    }
}

/// Builds the collapse indicator unit for `count` hidden tabs on one
/// side: a separator, the "+N" text, a separator, with exact width
/// accounting; a zero-width default unit when nothing is hidden. The
/// carried index is that of the boundary tab the indicator stands for.
pub fn collapsed(
    tab_count: usize,
    tab_index: usize,
    palette: Palette,
    separator: &str,
    left: bool,
) -> (r: Part)
    ensures
        r@ == collapsed_view(tab_count as nat, tab_index, palette, separator@, left),
{
    if tab_count == 0 {
        return Part::default();
    }
    let mut more_text = if left {
        String::from_str(" \u{2190} +")
    } else {
        String::from_str(" +")
    };
    if tab_count < MAX_COLLAPSE_COUNT {
        push_decimal(&mut more_text, tab_count);
    } else {
        more_text.append("many");
    }
    if left {
        more_text.append(" ");
    } else {
        more_text.append(" \u{2192} ");
    }
    proof {
        assert(more_text@ =~= ind_text(tab_count as nat, left));
        lemma_ind_text_len(tab_count as nat, left);
    }
    let text_len = more_text.as_str().unicode_len();
    let sep_w = text_width(separator);
    let len = text_len.saturating_add(sep_w.saturating_add(sep_w));
    proof {
        assert(len == ind_len(tab_count as nat, width_of(separator@)));
    }
    let (text_color, sep_color) = match palette.theme_hue {
        ThemeHue::Dark => (palette.white, palette.black),
        ThemeHue::Light => (palette.black, palette.white),
    };
    let sep_left = paint(sep_color, palette.orange, false, separator);
    let body = paint(text_color, palette.orange, true, more_text.as_str());
    let sep_right = paint(palette.orange, sep_color, false, separator);
    let content = sep_left.concat(body.as_str()).concat(sep_right.as_str());
    let r = Part { part: content, len, tab_idx: Some(tab_index) };
    proof {
        assert(r@ =~= collapsed_view(tab_count as nat, tab_index, palette, separator@, left));
    }
    r
}

/// The painted one-column cursor markers for the clients that share
/// focus on a tab, in order; clients outside the player table leave no
/// marker.
pub open spec fn cursors_text(clients: Seq<u16>, colors: MultiplayerColors) -> Seq<char>
    decreases clients.len(),
{
    if clients.len() == 0 {
        Seq::<char>::empty()
    } else {
        let rest = cursors_text(clients.drop_first(), colors);
        match client_colors(clients[0], colors) {
            Some(pair) => painted(color_code(pair.1), color_code(pair.0), false, " "@) + rest,
            None => rest,
        }
    }
}

/// How many of the clients leave a cursor marker.
pub open spec fn cursors_count(clients: Seq<u16>, colors: MultiplayerColors) -> nat
    decreases clients.len(),
{
    if clients.len() == 0 {
        0
    } else {
        (match client_colors(clients[0], colors) {
            Some(pair) => 1 as nat,
            None => 0 as nat,
        }) + cursors_count(clients.drop_first(), colors)
    }
}

/// The background a tab unit is drawn on: green when active, the hue's
/// contrast swatch for an alternate tab, the theme foreground otherwise.
pub open spec fn tab_bg(tab: TabInfoView, is_alternate_tab: bool, palette: Palette) -> crate::host::PaletteColor {
    if tab.active {
        palette.green
    } else if is_alternate_tab {
        if palette.theme_hue == ThemeHue::Dark {
            palette.white
        } else {
            palette.black
        }
    } else {
        palette.fg
    }
}

/// The text color of a tab unit: the hue's black or white swatch.
pub open spec fn tab_fg(palette: Palette) -> crate::host::PaletteColor {
    if palette.theme_hue == ThemeHue::Dark {
        palette.black
    } else {
        palette.white
    }
}

/// The width the accounting assigns to a rendered tab unit: the text's
/// measured width, two separators, two padding columns, and — when the
/// unit carries a cursor section — its columns, saturating at the
/// machine maximum. The width is exact: it counts every column the
/// content occupies.
pub open spec fn rendered_len(text: Seq<char>, sep: Seq<char>, extra: nat) -> nat {
    let total = width_of(text) + 2 * width_of(sep) + 2 + extra;
    if total > usize::MAX {
        usize::MAX as nat
    } else {
        total as nat
    }
}

/// A fully rendered tab unit: separators bracketing the padded, painted
/// name, with the cursor section of the other focused clients spliced in
/// before the closing separator.
pub open spec fn rendered_view(
    text: Seq<char>,
    tab: TabInfoView,
    is_alternate_tab: bool,
    palette: Palette,
    sep: Seq<char>,
) -> PartView {
    let bg = tab_bg(tab, is_alternate_tab, palette);
    let fg = tab_fg(palette);
    let left_sep = painted(color_code(fg), color_code(bg), false, sep);
    let body = painted(color_code(fg), color_code(bg), true, " "@ + text + " "@);
    let right_sep = painted(color_code(bg), color_code(fg), false, sep);
    let clients = tab.other_focused_clients;
    let colors = palette.multiplayer_user_colors;
    let content = if clients.len() == 0 {
        left_sep + body + right_sep
    } else {
        left_sep + body + painted(color_code(fg), color_code(bg), true, "["@) + cursors_text(
            clients,
            colors,
        ) + painted(color_code(fg), color_code(bg), true, "]"@) + right_sep
    };
    let extra = if clients.len() == 0 {
        0 as nat
    } else {
        2 + cursors_count(clients, colors)
    };
    PartView {
        part: content,
        len: rendered_len(text, sep, extra),
        tab_idx: Some(tab.position),
    }
}

/// Builds the cursor section: the concatenated markers and their count.
fn cursors(clients: &Vec<u16>, colors: MultiplayerColors) -> (r: (String, usize))
    ensures
        r.0@ == cursors_text(clients@, colors),
        r.1 == cursors_count(clients@, colors),
{
    let mut s = String::new();
    let mut count: usize = 0;
    let mut k: usize = 0;
    proof {
        assert(clients@.skip(0) =~= clients@);
    }
    while k < clients.len()
        invariant
            k <= clients@.len(),
            count <= k,
            cursors_text(clients@, colors) == s@ + cursors_text(clients@.skip(k as int), colors),
            cursors_count(clients@, colors) == count + cursors_count(
                clients@.skip(k as int),
                colors,
            ),
        decreases clients@.len() - k,
    {
        proof {
            assert(clients@.skip(k as int).drop_first() =~= clients@.skip(k as int + 1));
            assert(clients@.skip(k as int)[0] == clients@[k as int]);
        }
        match client_id_to_colors(clients[k], colors) {
            Some(pair) => {
                let marker = paint(pair.1, pair.0, false, " ");
                s.append(marker.as_str());
                count += 1;
            },
            None => {},
        }
        k += 1;
    }
    proof {
        assert(clients@.skip(clients@.len() as int) =~= Seq::<u16>::empty());
        assert(s@ =~= cursors_text(clients@, colors));
    }
    (s, count)
}

/// Renders one tab unit from its display text and description; the unit's
/// width is the measured text width plus separators and padding, plus the
/// cursor section's columns (its two brackets and one per marked client)
/// when other clients share focus.
pub fn render(
    text: &str,
    tab: &TabInfo,
    is_alternate_tab: bool,
    palette: Palette,
    separator: &str,
) -> (r: Part)
    ensures
        r@ == rendered_view(text@, tab@, is_alternate_tab, palette, separator@),
{
    let bg_color = if tab.active {
        palette.green
    } else if is_alternate_tab {
        match palette.theme_hue {
            ThemeHue::Dark => palette.white,
            ThemeHue::Light => palette.black,
        }
    } else {
        palette.fg
    };
    let fg_color = match palette.theme_hue {
        ThemeHue::Dark => palette.black,
        ThemeHue::Light => palette.white,
    };
    let left_separator = paint(fg_color, bg_color, false, separator);
    let right_separator = paint(bg_color, fg_color, false, separator);
    let mut padded = String::from_str(" ");
    padded.append(text);
    padded.append(" ");
    proof {
        assert(padded@ =~= " "@ + text@ + " "@);
    }
    let body = paint(fg_color, bg_color, true, padded.as_str());
    let tw = text_width(text);
    let sw = text_width(separator);
    let base_len = tw.saturating_add(sw.saturating_add(sw)).saturating_add(2);
    let (content, len) = if tab.other_focused_clients.len() == 0 {
        (left_separator.concat(body.as_str()).concat(right_separator.as_str()), base_len)
    } else {
        let (cursor_section, cursor_n) = cursors(&tab.other_focused_clients, palette.multiplayer_user_colors);
        let open_mark = paint(fg_color, bg_color, true, "[");
        let close_mark = paint(fg_color, bg_color, true, "]");
        let joined = left_separator.concat(body.as_str()).concat(open_mark.as_str()).concat(
            cursor_section.as_str(),
        ).concat(close_mark.as_str()).concat(right_separator.as_str());
        (joined, base_len.saturating_add(2).saturating_add(cursor_n))
    };
    let r = Part { part: content, len, tab_idx: Some(tab.position) };
    proof {
        assert(r@ =~= rendered_view(text@, tab@, is_alternate_tab, palette, separator@));
    }
    r
}

/// The display name of a tab: its name, with the sync marker appended
/// when input is synced across its panes.
pub open spec fn sync_name(name: Seq<char>, sync: bool) -> Seq<char> {
    if sync {
        name + " (Sync)"@
    } else {
        name
    }
}

/// The unit `style` produces for a tab: the sync-marked name rendered
/// with the capability-chosen separator; alternate-tab shading applies
/// only when arrow fonts are reported.
pub open spec fn styled_view(
    name: Seq<char>,
    tab: TabInfoView,
    is_alternate_tab: bool,
    palette: Palette,
    capabilities: PluginCapabilities,
) -> PartView {
    rendered_view(
        sync_name(name, tab.is_sync_panes_active),
        tab,
        capabilities.arrow_fonts && is_alternate_tab,
        palette,
        sep_glyph(capabilities.arrow_fonts),
    )
}

/// Renders one tab from its name, adding the sync marker and choosing
/// the separator from the host's capabilities.
pub fn style(
    tabname: &str,
    tab: &TabInfo,
    is_alternate_tab: bool,
    palette: Palette,
    capabilities: PluginCapabilities,
) -> (r: Part)
    ensures
        r@ == styled_view(tabname@, tab@, is_alternate_tab, palette, capabilities),
{
    let mut text = String::from_str(tabname);
    if tab.is_sync_panes_active {
        text.append(" (Sync)");
    }
    proof {
        assert(text@ == sync_name(tabname@, tab@.is_sync_panes_active));
    }
    let sepr = separator(capabilities);
    render(
        text.as_str(),
        tab,
        capabilities.arrow_fonts && is_alternate_tab,
        palette,
        sepr,
    )
}

} // verus!
