use compact_bar::host::{
    Event, InputMode, ModeInfo, Mouse, MultiplayerColors, Palette, PaletteColor,
    PluginCapabilities, StyleInfo, TabInfo, ThemeHue,
};
use compact_bar::part::Part;
use compact_bar::state::{resolve_click, State};

fn palette() -> Palette {
    Palette {
        theme_hue: ThemeHue::Dark,
        fg: PaletteColor::EightBit(7),
        black: PaletteColor::Rgb(10, 20, 30),
        white: PaletteColor::EightBit(255),
        green: PaletteColor::Rgb(0, 200, 0),
        magenta: PaletteColor::Rgb(200, 0, 200),
        orange: PaletteColor::Rgb(255, 165, 0),
        multiplayer_user_colors: MultiplayerColors {
            player_1: PaletteColor::EightBit(5),
            player_2: PaletteColor::EightBit(4),
            player_3: PaletteColor::EightBit(6),
            player_4: PaletteColor::EightBit(3),
            player_5: PaletteColor::EightBit(2),
            player_6: PaletteColor::EightBit(1),
            player_7: PaletteColor::EightBit(8),
            player_8: PaletteColor::EightBit(9),
            player_9: PaletteColor::EightBit(10),
            player_10: PaletteColor::EightBit(11),
        },
    }
}

fn mode_info(mode: InputMode) -> ModeInfo {
    ModeInfo {
        mode,
        style: StyleInfo { colors: palette() },
        capabilities: PluginCapabilities { arrow_fonts: false },
    }
}

fn tab(name: &str, active: bool, position: usize) -> TabInfo {
    TabInfo {
        position,
        name: name.to_string(),
        active,
        is_sync_panes_active: false,
        other_focused_clients: Vec::new(),
    }
}

#[test]
fn mode_update_requests_render_only_on_change() {
    let mut s = State::default();
    let mi = mode_info(InputMode::Pane);
    assert_eq!(s.update(Event::ModeUpdate(mi)), (true, None));
    assert_eq!(s.update(Event::ModeUpdate(mi)), (false, None));
}

#[test]
fn tab_update_tracks_active_tab() {
    let mut s = State::default();
    let tabs = vec![tab("a", false, 0), tab("b", true, 1)];
    assert_eq!(s.update(Event::TabUpdate(tabs.clone())), (true, None));
    assert_eq!(s.active_tab_idx, 1);
    assert_eq!(s.tabs.len(), 2);
    assert_eq!(s.update(Event::TabUpdate(tabs)), (false, None));
}

#[test]
fn tab_update_without_active_tab_is_ignored() {
    let mut s = State::default();
    let tabs = vec![tab("a", false, 0), tab("b", false, 1)];
    assert_eq!(s.update(Event::TabUpdate(tabs)), (false, None));
    assert_eq!(s.tabs.len(), 0);
}

#[test]
fn scroll_up_requests_next_tab() {
    let mut s = State::default();
    let tabs = vec![tab("a", true, 0), tab("b", false, 1), tab("c", false, 2)];
    s.update(Event::TabUpdate(tabs));
    assert_eq!(s.update(Event::Mouse(Mouse::ScrollUp(1))), (true, Some(2)));
    let tabs2 = vec![tab("a", false, 0), tab("b", false, 1), tab("c", true, 2)];
    s.update(Event::TabUpdate(tabs2));
    assert_eq!(s.update(Event::Mouse(Mouse::ScrollUp(1))), (true, Some(3)));
}

#[test]
fn scroll_down_requests_previous_tab() {
    let mut s = State::default();
    let tabs = vec![tab("a", true, 0), tab("b", false, 1), tab("c", false, 2)];
    s.update(Event::TabUpdate(tabs));
    assert_eq!(s.update(Event::Mouse(Mouse::ScrollDown(1))), (true, Some(1)));
    let tabs2 = vec![tab("a", false, 0), tab("b", false, 1), tab("c", true, 2)];
    s.update(Event::TabUpdate(tabs2));
    assert_eq!(s.update(Event::Mouse(Mouse::ScrollDown(1))), (true, Some(2)));
}

#[test]
fn repeated_click_at_same_column_is_ignored() {
    let mut s = State::default();
    assert_eq!(s.update(Event::Mouse(Mouse::LeftClick(0, 5))), (true, None));
    assert!(s.change_tab);
    s.change_tab = false;
    assert_eq!(s.update(Event::Mouse(Mouse::LeftClick(0, 5))), (false, None));
    assert!(!s.change_tab);
}

#[test]
fn other_events_change_nothing() {
    let mut s = State::default();
    assert_eq!(s.update(Event::Other), (false, None));
    assert_eq!(s.update(Event::Mouse(Mouse::Hover(0, 3))), (false, None));
}

#[test]
fn render_with_no_tabs_is_blank() {
    let mut s = State::default();
    let (out, switch) = s.render(1, 80);
    assert_eq!(out, "");
    assert_eq!(switch, None);
}

#[test]
fn render_emits_bar_and_fill_escape() {
    let mut s = State::default();
    s.update(Event::ModeUpdate(mode_info(InputMode::Normal)));
    s.update(Event::TabUpdate(vec![tab("ab", true, 0)]));
    let (out, switch) = s.render(1, 80);
    assert!(out.contains("ab"));
    // dark hue fills with the palette's black swatch, an RGB triple
    assert!(out.ends_with("\u{1b}[48;2;10;20;30m\u{1b}[0K"));
    assert_eq!(switch, None);
}

#[test]
fn render_is_deterministic() {
    let mut s = State::default();
    s.update(Event::ModeUpdate(mode_info(InputMode::Scroll)));
    s.update(Event::TabUpdate(vec![
        tab("one", true, 0),
        tab("two", false, 1),
        tab("three", false, 2),
    ]));
    let (a, _) = s.render(1, 40);
    let (b, _) = s.render(1, 40);
    assert_eq!(a, b);
}

#[test]
fn click_on_tab_requests_switch() {
    let mut s = State::default();
    s.update(Event::ModeUpdate(mode_info(InputMode::Normal)));
    s.update(Event::TabUpdate(vec![tab("ab", true, 0)]));
    // bar: prefix (2 columns), then the tab unit (6 columns)
    s.update(Event::Mouse(Mouse::LeftClick(0, 5)));
    let (_, switch) = s.render(1, 80);
    assert_eq!(switch, Some(1));
    assert!(!s.change_tab);
}

#[test]
fn click_on_prefix_requests_nothing() {
    let mut s = State::default();
    s.update(Event::ModeUpdate(mode_info(InputMode::Normal)));
    s.update(Event::TabUpdate(vec![tab("ab", true, 0)]));
    s.update(Event::Mouse(Mouse::LeftClick(0, 1)));
    let (_, switch) = s.render(1, 80);
    assert_eq!(switch, None);
}

#[test]
fn resolve_click_walks_cumulative_widths() {
    let parts = vec![
        Part { part: "p".to_string(), len: 2, tab_idx: None },
        Part { part: "a".to_string(), len: 4, tab_idx: Some(0) },
        Part { part: "b".to_string(), len: 4, tab_idx: Some(1) },
    ];
    assert_eq!(resolve_click(&parts, 0), None);
    assert_eq!(resolve_click(&parts, 2), Some(0));
    assert_eq!(resolve_click(&parts, 5), Some(0));
    assert_eq!(resolve_click(&parts, 6), Some(1));
    assert_eq!(resolve_click(&parts, 9), Some(1));
    assert_eq!(resolve_click(&parts, 10), None);
}

#[test]
fn renaming_active_tab_without_name_shows_placeholder() {
    let mut s = State::default();
    s.update(Event::ModeUpdate(mode_info(InputMode::RenameTab)));
    s.update(Event::TabUpdate(vec![tab("", true, 0)]));
    let (out, _) = s.render(1, 80);
    assert!(out.contains(" ? "));
}

#[test]
fn indexed_fill_color_uses_indexed_escape() {
    let mut s = State::default();
    let mut mi = mode_info(InputMode::Normal);
    mi.style.colors.black = PaletteColor::EightBit(16);
    s.update(Event::ModeUpdate(mi));
    s.update(Event::TabUpdate(vec![tab("x", true, 0)]));
    let (out, _) = s.render(1, 80);
    assert!(out.ends_with("\u{1b}[48;5;16m\u{1b}[0K"));
}

#[test]
fn pending_click_survives_blank_render() {
    let mut s = State::default();
    s.update(Event::Mouse(Mouse::LeftClick(0, 5)));
    let (out, switch) = s.render(1, 80);
    assert_eq!(out, "");
    assert_eq!(switch, None);
    assert!(s.change_tab);
    // the pending click fires at the first non-empty render
    s.update(Event::ModeUpdate(mode_info(InputMode::Normal)));
    s.update(Event::TabUpdate(vec![tab("ab", true, 0)]));
    let (_, switch) = s.render(1, 80);
    assert_eq!(switch, Some(1));
    assert!(!s.change_tab);
}
