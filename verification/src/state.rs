use vstd::prelude::*;
use crate::host::{
    tab_views, Event, InputMode, ModeInfo, Mouse, PaletteColor, TabInfo, TabInfoView, ThemeHue,
    tab_info_eq,
};
use crate::layout::line_model;
use crate::line::line;
use crate::numfmt::{dec_rep, push_decimal};
use crate::part::{part_views, Part, PartView};
use crate::tab::{style, styled_view};

verus! {

/// The strip's retained snapshot of host state, compared against each
/// incoming update to decide whether a redraw is needed.
pub struct State {
    pub tabs: Vec<TabInfo>,
    pub active_tab_idx: usize,
    pub mode_info: ModeInfo,
    pub mouse_click_pos: usize,
    pub change_tab: bool,
}

/// The mathematical content of the retained state.
#[verifier::ext_equal]
pub struct StateView {
    pub tabs: Seq<TabInfoView>,
    pub active_tab_idx: usize,
    pub mode_info: ModeInfo,
    pub mouse_click_pos: usize,
    pub change_tab: bool,
}

impl View for State {
    type V = StateView;

    open spec fn view(&self) -> StateView {
        StateView {
            tabs: tab_views(self.tabs@),
            active_tab_idx: self.active_tab_idx,
            mode_info: self.mode_info,
            mouse_click_pos: self.mouse_click_pos,
            change_tab: self.change_tab,
        }
    }
}

impl State {
    /// The retained active index points into the retained tabs whenever
    /// there are any.
    pub open spec fn wf(&self) -> bool {
        self@.tabs.len() > 0 ==> (self.active_tab_idx as int) < self@.tabs.len()
    }
}

impl Default for State {
    /// A fresh strip: no tabs, the default mode snapshot, no pending
    /// click.
    fn default() -> (r: State)
        ensures
            r@.tabs.len() == 0,
            r@.active_tab_idx == 0,
            r@.mode_info == crate::host::default_mode_info(),
            r@.mouse_click_pos == 0,
            r@.change_tab == false,
            r.wf(),
    {
        let r = State {
            tabs: Vec::new(),
            active_tab_idx: 0,
            mode_info: ModeInfo::default(),
            mouse_click_pos: 0,
            change_tab: false,
        };
        proof {
            assert(tab_views(r.tabs@) =~= Seq::<TabInfoView>::empty());
        }
        r
    }
}

/// The position of the first active tab at or after `k`, if any.
pub open spec fn first_active_from(tabs: Seq<TabInfoView>, k: int) -> Option<int>
    decreases tabs.len() - k,
{
    if k < 0 || k >= tabs.len() {
        None
    } else if tabs[k].active {
        Some(k)
    } else {
        first_active_from(tabs, k + 1)
    }
}

/// Finds the position of the first tab flagged active.
pub fn position_of_active(tabs: &Vec<TabInfo>) -> (r: Option<usize>)
    ensures
        match r {
            Some(k) => first_active_from(tab_views(tabs@), 0) == Some(k as int) && (k as int)
                < tabs@.len(),
            None => first_active_from(tab_views(tabs@), 0) == None::<int>,
        },
{
    let mut k: usize = 0;
    while k < tabs.len()
        invariant
            k <= tabs@.len(),
            first_active_from(tab_views(tabs@), 0) == first_active_from(
                tab_views(tabs@),
                k as int,
            ),
        decreases tabs@.len() - k,
    {
        if tabs[k].active {
            return Some(k);
        }
        k += 1;
    }
    None
}

/// Whether two tab lists carry the same content.
pub fn tabs_equal(a: &Vec<TabInfo>, b: &Vec<TabInfo>) -> (r: bool)
    ensures
        r <==> tab_views(a@) == tab_views(b@),
{
    if a.len() != b.len() {
        return false;
    }
    let mut k: usize = 0;
    while k < a.len()
        invariant
            k <= a@.len(),
            a@.len() == b@.len(),
            forall|m: int| 0 <= m < k ==> tab_views(a@)[m] == tab_views(b@)[m],
        decreases a@.len() - k,
    {
        if !tab_info_eq(&a[k], &b[k]) {
            proof {
                assert(tab_views(a@)[k as int] != tab_views(b@)[k as int]);
            }
            return false;
        }
        k += 1;
    }
    proof {
        assert(tab_views(a@) =~= tab_views(b@));
    }
    true
}

/// The 1-based tab a scroll up requests: two past the active one,
/// clamped to the tab count.
pub open spec fn scroll_up_target(active: int, n: int) -> int {
    if active + 2 <= n {
        active + 2
    } else {
        n
    }
}

/// The 1-based tab a scroll down requests: the active one, at least one.
pub open spec fn scroll_down_target(active: int) -> int {
    if active >= 1 {
        active
    } else {
        1
    }
}

impl State {
    /// Feeds one host event into the state. Returns whether the strip
    /// must re-render, and the 1-based tab the host should be asked to
    /// switch to, if any. Updates that change nothing request no redraw;
    /// a tab update without an active tab is ignored.
    pub fn update(&mut self, event: Event) -> (r: (bool, Option<usize>))
        requires
            old(self).wf(),
        ensures
            final(self).wf(),
            match event {
                Event::ModeUpdate(mi) => {
                    &&& r.1 == None::<usize>
                    &&& if old(self).mode_info == mi {
                        r.0 == false && final(self)@ == old(self)@
                    } else {
                        r.0 == true && final(self)@ == (StateView {
                            mode_info: mi,
                            ..old(self)@
                        })
                    }
                },
                Event::TabUpdate(tabs) => {
                    &&& r.1 == None::<usize>
                    &&& match first_active_from(tab_views(tabs@), 0) {
                        Some(a) => {
                            if old(self).active_tab_idx == a && tab_views(old(self).tabs@)
                                == tab_views(tabs@) {
                                r.0 == false && final(self)@ == old(self)@
                            } else {
                                r.0 == true && final(self)@ == (StateView {
                                    tabs: tab_views(tabs@),
                                    active_tab_idx: a as usize,
                                    ..old(self)@
                                })
                            }
                        },
                        None => r.0 == false && final(self)@ == old(self)@,
                    }
                },
                Event::Mouse(m) => match m {
                    Mouse::LeftClick(_line, col) => {
                        &&& r.1 == None::<usize>
                        &&& if old(self).mouse_click_pos == col {
                            r.0 == false && final(self)@ == old(self)@
                        } else {
                            r.0 == true && final(self)@ == (StateView {
                                mouse_click_pos: col,
                                change_tab: true,
                                ..old(self)@
                            })
                        }
                    },
                    Mouse::ScrollUp(_lines) => {
                        &&& r.0 == true
                        &&& final(self)@ == old(self)@
                        &&& r.1 == Some(
                            scroll_up_target(
                                old(self).active_tab_idx as int,
                                old(self)@.tabs.len() as int,
                            ) as usize,
                        )
                    },
                    Mouse::ScrollDown(_lines) => {
                        &&& r.0 == true
                        &&& final(self)@ == old(self)@
                        &&& r.1 == Some(
                            scroll_down_target(old(self).active_tab_idx as int) as usize,
                        )
                    },
                    _ => r == (false, None::<usize>) && final(self)@ == old(self)@,
                },
                Event::Other => r == (false, None::<usize>) && final(self)@ == old(self)@,
            },
    {
        match event {
            Event::ModeUpdate(mi) => {
                if self.mode_info == mi {
                    (false, None)
                } else {
                    self.mode_info = mi;
                    (true, None)
                }
            },
            Event::TabUpdate(tabs) => {
                match position_of_active(&tabs) {
                    Some(a) => {
                        if self.active_tab_idx == a && tabs_equal(&self.tabs, &tabs) {
                            (false, None)
                        } else {
                            self.active_tab_idx = a;
                            self.tabs = tabs;
                            (true, None)
                        }
                    },
                    None => (false, None),
                }
            },
            Event::Mouse(m) => match m {
                Mouse::LeftClick(_line, col) => {
                    if self.mouse_click_pos == col {
                        (false, None)
                    } else {
                        self.mouse_click_pos = col;
                        self.change_tab = true;
                        (true, None)
                    }
                },
                Mouse::ScrollUp(_lines) => {
                    let n = self.tabs.len();
                    let target = if n >= 2 && self.active_tab_idx <= n - 2 {
                        self.active_tab_idx + 2
                    } else {
                        n
                    };
                    (true, Some(target))
                },
                Mouse::ScrollDown(_lines) => {
                    let target = if self.active_tab_idx >= 1 {
                        self.active_tab_idx
                    } else {
                        1
                    };
                    (true, Some(target))
                },
                _ => (false, None),
            },
            Event::Other => (false, None),
        }
    }
}

/// The source index under a clicked column: the first unit whose width
/// range contains it, if any; its index may itself be absent (the
/// prefix).
pub open spec fn click_target(parts: Seq<PartView>, col: int) -> Option<usize>
    decreases parts.len(),
{
    if parts.len() == 0 {
        None
    } else if col < parts[0].len {
        parts[0].tab_idx
    } else {
        click_target(parts.drop_first(), col - parts[0].len)
    }
}

/// Walks the laid-out units' cumulative widths and yields the source
/// index of the unit under the clicked column.
pub fn resolve_click(parts: &Vec<Part>, click_col: usize) -> (r: Option<usize>)
    ensures
        r == click_target(part_views(parts@), click_col as int),
{
    let mut rem = click_col;
    let mut k: usize = 0;
    proof {
        assert(part_views(parts@).skip(0) =~= part_views(parts@));
    }
    while k < parts.len()
        invariant
            k <= parts@.len(),
            click_target(part_views(parts@), click_col as int) == click_target(
                part_views(parts@).skip(k as int),
                rem as int,
            ),
        decreases parts@.len() - k,
    {
        proof {
            assert(part_views(parts@).skip(k as int).drop_first() =~= part_views(parts@).skip(
                k as int + 1,
            ));
            assert(part_views(parts@).skip(k as int)[0] == part_views(parts@)[k as int]);
        }
        if rem < parts[k].len {
            return parts[k].tab_idx;
        }
        rem -= parts[k].len;
        k += 1;
    }
    proof {
        assert(part_views(parts@).skip(parts@.len() as int) =~= Seq::<PartView>::empty());
    }
    None
}

/// The display text of one tab: a question mark while the active tab is
/// being renamed and has no name yet, its name otherwise.
pub open spec fn display_name(tab: TabInfoView, mode: InputMode) -> Seq<char> {
    if tab.active && mode == InputMode::RenameTab && tab.name.len() == 0 {
        "?"@
    } else {
        tab.name
    }
}

/// The rendered units of all tabs, in order, alternate shading on the
/// odd positions.
pub open spec fn tab_parts_model(tabs: Seq<TabInfoView>, mode_info: ModeInfo) -> Seq<PartView> {
    Seq::new(
        tabs.len(),
        |k: int|
            styled_view(
                display_name(tabs[k], mode_info.mode),
                tabs[k],
                k % 2 == 1,
                mode_info.style.colors,
                mode_info.capabilities,
            ),
    )
}

/// The concatenated text of a sequence of units.
pub open spec fn parts_text(s: Seq<PartView>) -> Seq<char>
    decreases s.len(),
{
    if s.len() == 0 {
        Seq::<char>::empty()
    } else {
        s[0].part + parts_text(s.drop_first())
    }
}

/// The fill-to-end-of-line escape that follows the strip, in the theme's
/// background color.
pub open spec fn fill_suffix(palette: crate::host::Palette) -> Seq<char> {
    let c = if palette.theme_hue == ThemeHue::Dark {
        palette.black
    } else {
        palette.white
    };
    match c {
        PaletteColor::Rgb(r, g, b) => "\u{1b}[48;2;"@ + dec_rep(r as nat) + ";"@ + dec_rep(
            g as nat,
        ) + ";"@ + dec_rep(b as nat) + "m\u{1b}[0K"@,
        PaletteColor::EightBit(c8) => "\u{1b}[48;5;"@ + dec_rep(c8 as nat) + "m\u{1b}[0K"@,
    }
}

/// The laid-out units of the whole strip for a viewport width, after the
/// one-column margin the caller reserves.
pub open spec fn bar_model(s: StateView, cols: int) -> Seq<PartView> {
    line_model(
        tab_parts_model(s.tabs, s.mode_info),
        s.active_tab_idx as int,
        if cols >= 1 {
            cols - 1
        } else {
            0
        },
        s.mode_info.style.colors,
        s.mode_info.capabilities,
        s.mode_info.mode,
    )
}

/// Renders every tab into its unit, alternate shading on odd positions.
fn build_tab_parts(tabs: &Vec<TabInfo>, mode_info: ModeInfo) -> (r: Vec<Part>)
    ensures
        part_views(r@) == tab_parts_model(tab_views(tabs@), mode_info),
        r@.len() == tabs@.len(),
{
    let palette = mode_info.style.colors;
    let capabilities = mode_info.capabilities;
    let mode = mode_info.mode;
    let ghost model = tab_parts_model(tab_views(tabs@), mode_info);
    let mut tab_parts: Vec<Part> = Vec::new();
    let mut k: usize = 0;
    while k < tabs.len()
        invariant
            k <= tabs@.len(),
            tab_parts@.len() == k,
            model == tab_parts_model(tab_views(tabs@), mode_info),
            palette == mode_info.style.colors,
            capabilities == mode_info.capabilities,
            mode == mode_info.mode,
            forall|m: int| 0 <= m < k ==> part_views(tab_parts@)[m] == model[m],
        decreases tabs@.len() - k,
    {
        let t = &tabs[k];
        let is_alt = k % 2 == 1;
        let p = if t.active && mode == InputMode::RenameTab && t.name.as_str().is_empty() {
            style("?", t, is_alt, palette, capabilities)
        } else {
            style(t.name.as_str(), t, is_alt, palette, capabilities)
        };
        proof {
            reveal_strlit("?");
            assert(p@ == model[k as int]);
        }
        tab_parts.push(p);
        k += 1;
    }
    proof {
        assert(part_views(tab_parts@) =~= model);
    }
    tab_parts
}

/// Concatenates the units' texts and appends the background fill escape
/// in the theme's color.
fn compose_bar(bar_parts: &Vec<Part>, palette: crate::host::Palette) -> (r: String)
    ensures
        r@ == parts_text(part_views(bar_parts@)) + fill_suffix(palette),
{
    let mut bar = String::new();
    let mut m: usize = 0;
    proof {
        assert(part_views(bar_parts@).skip(0) =~= part_views(bar_parts@));
    }
    while m < bar_parts.len()
        invariant
            m <= bar_parts@.len(),
            parts_text(part_views(bar_parts@)) == bar@ + parts_text(
                part_views(bar_parts@).skip(m as int),
            ),
        decreases bar_parts@.len() - m,
    {
        proof {
            assert(part_views(bar_parts@).skip(m as int).drop_first() =~= part_views(
                bar_parts@,
            ).skip(m as int + 1));
            assert(part_views(bar_parts@).skip(m as int)[0] == part_views(bar_parts@)[m as int]);
        }
        bar.append(bar_parts[m].part.as_str());
        m += 1;
    }
    proof {
        assert(part_views(bar_parts@).skip(bar_parts@.len() as int) =~= Seq::<PartView>::empty());
        assert(bar@ == parts_text(part_views(bar_parts@)));
    }
    let fill_color = match palette.theme_hue {
        ThemeHue::Dark => palette.black,
        ThemeHue::Light => palette.white,
    };
    match fill_color {
        PaletteColor::Rgb(cr, cg, cb) => {
            bar.append("\u{1b}[48;2;");
            push_decimal(&mut bar, cr as usize);
            bar.append(";");
            push_decimal(&mut bar, cg as usize);
            bar.append(";");
            push_decimal(&mut bar, cb as usize);
            bar.append("m\u{1b}[0K");
        },
        PaletteColor::EightBit(c8) => {
            bar.append("\u{1b}[48;5;");
            push_decimal(&mut bar, c8 as usize);
            bar.append("m\u{1b}[0K");
        },
    }
    proof {
        assert(bar@ =~= parts_text(part_views(bar_parts@)) + fill_suffix(palette));
    }
    bar
}

impl State {
    /// Renders the strip for the given viewport: the full string to
    /// print (empty when there are no tabs, the concatenated units plus
    /// the background fill escape otherwise), and the 1-based tab a
    /// pending click requests, resolved against the laid-out units.
    /// A render of a non-empty strip clears the pending click; with no
    /// tabs nothing happens at all and a pending click stays pending.
    pub fn render(&mut self, _rows: usize, cols: usize) -> (r: (String, Option<usize>))
        requires
            old(self).wf(),
        ensures
            final(self).wf(),
            old(self)@.tabs.len() == 0 ==> final(self)@ == old(self)@ && r.0@ == Seq::<
                char,
            >::empty() && r.1 == None::<usize>,
            old(self)@.tabs.len() > 0 ==> final(self)@ == (StateView {
                change_tab: false,
                ..old(self)@
            }),
            old(self)@.tabs.len() > 0 ==> {
                let parts = bar_model(old(self)@, cols as int);
                &&& r.0@ == parts_text(parts) + fill_suffix(old(self).mode_info.style.colors)
                &&& r.1 == (if old(self).change_tab {
                    match click_target(parts, old(self).mouse_click_pos as int) {
                        Some(idx) => Some(
                            (if idx < usize::MAX {
                                idx + 1
                            } else {
                                usize::MAX as int
                            }) as usize,
                        ),
                        None => None::<usize>,
                    }
                } else {
                    None::<usize>
                })
            },
    {
        if self.tabs.len() == 0 {
            return (String::new(), None);
        }
        let tab_parts = build_tab_parts(&self.tabs, self.mode_info);
        let bar_parts = line(
            &tab_parts,
            self.active_tab_idx,
            cols.saturating_sub(1),
            self.mode_info.style.colors,
            self.mode_info.capabilities,
            self.mode_info.mode,
        );
        proof {
            assert(part_views(bar_parts@) == bar_model(old(self)@, cols as int));
        }
        let mut switch: Option<usize> = None;
        if self.change_tab {
            switch = match resolve_click(&bar_parts, self.mouse_click_pos) {
                Some(idx) => Some(idx.saturating_add(1)),
                None => None,
            };
        }
        self.change_tab = false;
        let bar = compose_bar(&bar_parts, self.mode_info.style.colors);
        proof {
            assert(self@ =~= (StateView { change_tab: false, ..old(self)@ }));
        }
        (bar, switch)
    }
}

} // verus!
