use compact_bar::host::{
    InputMode, MultiplayerColors, Palette, PaletteColor, PluginCapabilities, TabInfo, ThemeHue,
};
use compact_bar::line::prefix;
use compact_bar::part::Part;
use compact_bar::tab::{collapsed, render, separator, style};

fn palette() -> Palette {
    Palette {
        theme_hue: ThemeHue::Dark,
        fg: PaletteColor::EightBit(7),
        black: PaletteColor::EightBit(16),
        white: PaletteColor::EightBit(255),
        green: PaletteColor::Rgb(0, 200, 0),
        magenta: PaletteColor::Rgb(200, 0, 200),
        orange: PaletteColor::Rgb(255, 165, 0),
        multiplayer_user_colors: MultiplayerColors {
            player_1: PaletteColor::EightBit(5),
            player_2: PaletteColor::EightBit(4),
            player_3: PaletteColor::EightBit(6),
            player_4: PaletteColor::EightBit(3),
            player_5: PaletteColor::EightBit(2),
            player_6: PaletteColor::EightBit(1),
            player_7: PaletteColor::EightBit(8),
            player_8: PaletteColor::EightBit(9),
            player_9: PaletteColor::EightBit(10),
            player_10: PaletteColor::EightBit(11),
        },
    }
}

fn caps() -> PluginCapabilities {
    // arrow_fonts off selects the one-column arrow separator glyph
    PluginCapabilities { arrow_fonts: false }
}

fn unit(width: usize, idx: usize) -> Part {
    Part { part: format!("tab{idx}"), len: width, tab_idx: Some(idx) }
}

fn widths(parts: &[Part]) -> usize {
    parts.iter().map(|p| p.len).sum()
}

fn lay(
    tabs: &Vec<Part>,
    active: usize,
    cols: usize,
    mode: InputMode,
) -> Vec<Part> {
    compact_bar::line::line(tabs, active, cols, palette(), caps(), mode)
}

#[test]
fn three_tabs_all_fit() {
    let tabs = vec![unit(4, 0), unit(4, 1), unit(4, 2)];
    let out = lay(&tabs, 1, 20, InputMode::Normal);
    assert_eq!(out.len(), 4);
    assert_eq!(out[0].len, 2);
    assert_eq!(out[0].tab_idx, None);
    for k in 0..3 {
        assert_eq!(out[k + 1].part, tabs[k].part);
        assert_eq!(out[k + 1].len, tabs[k].len);
        assert_eq!(out[k + 1].tab_idx, tabs[k].tab_idx);
    }
    assert_eq!(widths(&out), 14);
}

#[test]
fn tight_budget_keeps_active_between_indicators() {
    // prefix + active = 6 <= 6, zero spare budget: neither side admits a
    // tab, and the hidden sides are bracketed by indicators.
    let tabs = vec![unit(4, 0), unit(4, 1), unit(4, 2)];
    let out = lay(&tabs, 1, 6, InputMode::Normal);
    assert_eq!(out.len(), 4);
    assert_eq!(out[0].tab_idx, None);
    assert_eq!(out[1].tab_idx, Some(0));
    assert_eq!(out[2].part, tabs[1].part);
    assert_eq!(out[3].tab_idx, Some(2));
}

#[test]
fn budget_bound_with_slack() {
    // budget after prefix and active tab is 23 >= 2 * (9 + 2): the
    // proved bound applies and the total width stays within the columns.
    let tabs: Vec<Part> = (0..10).map(|k| unit(5, k)).collect();
    let out = lay(&tabs, 5, 30, InputMode::Normal);
    assert!(widths(&out) <= 30);
}

#[test]
fn prefix_alone_too_wide_renders_nothing() {
    let tabs = vec![unit(4, 0)];
    let out = lay(&tabs, 0, 1, InputMode::Normal);
    assert!(out.is_empty());
}

#[test]
fn active_tab_too_wide_renders_prefix_only() {
    let tabs = vec![unit(10, 0)];
    let out = lay(&tabs, 0, 4, InputMode::Normal);
    assert_eq!(out.len(), 1);
    assert_eq!(out[0].len, 2);
    assert_eq!(out[0].tab_idx, None);
}

#[test]
fn indicator_counts_and_boundary_indices() {
    // 5 tabs of width 3, active 2, 16 columns: only the active tab is
    // visible, two tabs are hidden on each side.
    let tabs: Vec<Part> = (0..5).map(|k| unit(3, k)).collect();
    let out = lay(&tabs, 2, 16, InputMode::Normal);
    assert_eq!(out.len(), 4);
    assert_eq!(out[1].tab_idx, Some(1));
    assert_eq!(out[1].len, 8);
    assert!(out[1].part.contains("+2"));
    assert!(out[1].part.contains("\u{2190}"));
    assert_eq!(out[2].part, tabs[2].part);
    assert_eq!(out[3].tab_idx, Some(3));
    assert_eq!(out[3].len, 8);
    assert!(out[3].part.contains("+2"));
    assert!(out[3].part.contains("\u{2192}"));
}

#[test]
fn layout_is_deterministic() {
    let tabs: Vec<Part> = (0..7).map(|k| unit(3 + k % 3, k)).collect();
    let a = lay(&tabs, 3, 25, InputMode::Pane);
    let b = lay(&tabs, 3, 25, InputMode::Pane);
    assert_eq!(a.len(), b.len());
    for k in 0..a.len() {
        assert_eq!(a[k].part, b[k].part);
        assert_eq!(a[k].len, b[k].len);
        assert_eq!(a[k].tab_idx, b[k].tab_idx);
    }
}

#[test]
fn separator_follows_capabilities() {
    // both variants are a single glyph one column wide
    assert_eq!(separator(PluginCapabilities { arrow_fonts: true }), " ");
    assert_eq!(separator(PluginCapabilities { arrow_fonts: false }), "\u{e0b0}");
}

#[test]
fn collapsed_zero_count_is_absent() {
    let p = collapsed(0, 7, palette(), "\u{e0b0}", true);
    assert_eq!(p.len, 0);
    assert_eq!(p.tab_idx, None);
    assert!(p.part.is_empty());
}

#[test]
fn collapsed_counts_digits_in_width() {
    // " <- +15 " is seven columns, plus one separator column each side.
    let p = collapsed(15, 0, palette(), "\u{e0b0}", true);
    assert_eq!(p.len, 9);
    assert!(p.part.contains("+15"));
    let q = collapsed(7, 4, palette(), "\u{e0b0}", false);
    assert_eq!(q.len, 8);
    assert!(q.part.contains("+7"));
    assert_eq!(q.tab_idx, Some(4));
}

#[test]
fn collapsed_switches_to_many_at_threshold() {
    let p = collapsed(10000, 0, palette(), "\u{e0b0}", false);
    assert_eq!(p.len, 11);
    assert!(p.part.contains("+many"));
    let q = collapsed(9999, 0, palette(), "\u{e0b0}", false);
    assert_eq!(q.len, 11);
    assert!(q.part.contains("+9999"));
}

#[test]
fn collapsed_output_is_styled() {
    let p = collapsed(3, 1, palette(), "\u{e0b0}", false);
    assert!(p.part.contains('\u{1b}'));
    assert_ne!(p.part, " +3 \u{2192} ");
}

#[test]
fn prefix_shows_mode_abbreviation() {
    let p = prefix(InputMode::Locked, palette());
    assert_eq!(p.len, 2);
    assert_eq!(p.tab_idx, None);
    assert!(p.part.contains("L "));
    let q = prefix(InputMode::EnterSearch, palette());
    assert!(q.part.contains("ES"));
    let r = prefix(InputMode::Tmux, palette());
    assert!(r.part.contains("TM"));
}

fn tab_info(name: &str, active: bool, position: usize) -> TabInfo {
    TabInfo {
        position,
        name: name.to_string(),
        active,
        is_sync_panes_active: false,
        other_focused_clients: Vec::new(),
    }
}

#[test]
fn render_measures_wide_characters() {
    // Two CJK characters occupy four columns: 4 + two separators + two
    // padding columns.
    let t = tab_info("\u{65e5}\u{672c}", false, 0);
    let p = render("\u{65e5}\u{672c}", &t, false, palette(), "\u{e0b0}");
    assert_eq!(p.len, 8);
    assert_eq!(p.tab_idx, Some(0));
}

#[test]
fn style_appends_sync_marker() {
    let mut t = tab_info("work", false, 2);
    t.is_sync_panes_active = true;
    let p = style("work", &t, false, palette(), caps());
    // "work (Sync)" is eleven columns + 2 separators + 2 padding
    assert_eq!(p.len, 15);
    assert!(p.part.contains("work (Sync)"));
}

#[test]
fn render_counts_marked_clients() {
    let mut t = tab_info("a", true, 0);
    t.other_focused_clients = vec![1, 2, 99];
    // width 1 + 2 separators + 2 padding + 2 brackets + 2 marked
    // clients (99 is outside the player table and leaves no marker)
    let p = render("a", &t, false, palette(), "\u{e0b0}");
    assert_eq!(p.len, 9);
}

#[test]
fn right_pass_priority_can_shrink_left_window() {
    // The three-pass balancing deliberately favors the right side: two
    // extra columns can let the first right pass claim a wide tab, which
    // shrinks the left half-budget below what the left side needed, so
    // a wider viewport here shows fewer tabs.
    let tabs = vec![unit(1, 0), unit(6, 1), unit(2, 2), unit(5, 3), unit(100, 4)];
    let narrow = lay(&tabs, 2, 28, InputMode::Normal);
    let wide = lay(&tabs, 2, 30, InputMode::Normal);
    let visible = |parts: &Vec<Part>| {
        parts
            .iter()
            .filter(|p| tabs.iter().any(|t| t.part == p.part))
            .count()
    };
    assert_eq!(visible(&narrow), 4);
    assert_eq!(visible(&wide), 2);
}

#[test]
fn single_fitting_tab_has_no_indicators() {
    let tabs = vec![unit(4, 0)];
    let out = lay(&tabs, 0, 20, InputMode::Normal);
    assert_eq!(out.len(), 2);
    assert_eq!(out[0].len, 2);
    assert_eq!(out[0].tab_idx, None);
    assert_eq!(out[1].part, tabs[0].part);
    assert_eq!(out[1].tab_idx, Some(0));
    assert_eq!(widths(&out), 6);
}

#[test]
fn generous_budget_shows_every_tab() {
    // 2 (prefix) + 30 (tabs) + 22 (two indicators of slack) columns:
    // the proved generous-budget law guarantees the whole row.
    let tabs: Vec<Part> = (0..10).map(|k| unit(3, k)).collect();
    let out = lay(&tabs, 7, 54, InputMode::Normal);
    assert_eq!(out.len(), 11);
    for k in 0..10 {
        assert_eq!(out[k + 1].part, tabs[k].part);
    }
    assert_eq!(widths(&out), 32);
}

#[test]
fn plain_separator_is_one_column() {
    // the capability-selected separator is one column wide in both
    // variants, so a tab's width does not depend on the glyph choice
    let t = tab_info("ab", false, 0);
    let plain = style("ab", &t, false, palette(), PluginCapabilities { arrow_fonts: true });
    let arrow = style("ab", &t, false, palette(), PluginCapabilities { arrow_fonts: false });
    assert_eq!(plain.len, 6);
    assert_eq!(plain.len, arrow.len);
}
