use vstd::prelude::*;

verus! {

/// Which color family a theme declares; decides which swatch is used as
/// the text color against a colored background.
#[derive(Clone, Copy, PartialEq, Eq, Structural, Debug)]
pub enum ThemeHue {
    Dark,
    Light,
}

/// A terminal color: a truecolor triple or an indexed color.
#[derive(Clone, Copy, PartialEq, Eq, Structural, Debug)]
pub enum PaletteColor {
    Rgb(u8, u8, u8),
    EightBit(u8),
}

/// The player colors used to mark the cursors of other clients that share
/// focus on a tab.
#[derive(Clone, Copy, PartialEq, Eq, Structural, Debug)]
pub struct MultiplayerColors {
    pub player_1: PaletteColor,
    pub player_2: PaletteColor,
    pub player_3: PaletteColor,
    pub player_4: PaletteColor,
    pub player_5: PaletteColor,
    pub player_6: PaletteColor,
    pub player_7: PaletteColor,
    pub player_8: PaletteColor,
    pub player_9: PaletteColor,
    pub player_10: PaletteColor,
}

/// The color swatches the tab strip reads from the current theme.
#[derive(Clone, Copy, PartialEq, Eq, Structural, Debug)]
pub struct Palette {
    pub theme_hue: ThemeHue,
    pub fg: PaletteColor,
    pub black: PaletteColor,
    pub white: PaletteColor,
    pub green: PaletteColor,
    pub magenta: PaletteColor,
    pub orange: PaletteColor,
    pub multiplayer_user_colors: MultiplayerColors,
}

/// The host's capability flags that the strip reads: whether the arrow
/// separator font is available.
#[derive(Clone, Copy, PartialEq, Eq, Structural, Debug)]
pub struct PluginCapabilities {
    pub arrow_fonts: bool,
}

/// The interaction modes the host reports; each is rendered as a fixed
/// two-character abbreviation in the strip's prefix.
#[derive(Clone, Copy, PartialEq, Eq, Structural, Debug)]
pub enum InputMode {
    Normal,
    Locked,
    Resize,
    Pane,
    Tab,
    Scroll,
    EnterSearch,
    Search,
    RenameTab,
    RenamePane,
    Session,
    Move,
    Prompt,
    Tmux,
}

/// The theme and capability snapshot delivered with a mode update.
#[derive(Clone, Copy, PartialEq, Eq, Structural, Debug)]
pub struct StyleInfo {
    pub colors: Palette,
}

/// The current interaction mode together with its style snapshot.
#[derive(Clone, Copy, PartialEq, Eq, Structural, Debug)]
pub struct ModeInfo {
    pub mode: InputMode,
    pub style: StyleInfo,
    pub capabilities: PluginCapabilities,
}

impl Default for ModeInfo {
    fn default() -> (r: ModeInfo)
        ensures
            r == default_mode_info(),
    {
        ModeInfo {
            mode: InputMode::Normal,
            style: StyleInfo { colors: make_default_palette() },
            capabilities: PluginCapabilities { arrow_fonts: true },
        }
    }
}

/// The mode snapshot a fresh strip starts from, before the host has sent
/// any update.
pub open spec fn default_mode_info() -> ModeInfo {
    ModeInfo {
        mode: InputMode::Normal,
        style: StyleInfo { colors: default_palette() },
        capabilities: PluginCapabilities { arrow_fonts: true },
    }
}

/// All swatches indexed color zero, dark hue: the neutral palette used
/// until the host sends a theme.
pub open spec fn default_palette() -> Palette {
    Palette {
        theme_hue: ThemeHue::Dark,
        fg: PaletteColor::EightBit(0),
        black: PaletteColor::EightBit(0),
        white: PaletteColor::EightBit(0),
        green: PaletteColor::EightBit(0),
        magenta: PaletteColor::EightBit(0),
        orange: PaletteColor::EightBit(0),
        multiplayer_user_colors: MultiplayerColors {
            player_1: PaletteColor::EightBit(0),
            player_2: PaletteColor::EightBit(0),
            player_3: PaletteColor::EightBit(0),
            player_4: PaletteColor::EightBit(0),
            player_5: PaletteColor::EightBit(0),
            player_6: PaletteColor::EightBit(0),
            player_7: PaletteColor::EightBit(0),
            player_8: PaletteColor::EightBit(0),
            player_9: PaletteColor::EightBit(0),
            player_10: PaletteColor::EightBit(0),
        },
    }
}

/// Builds the neutral palette as an executable value.
pub fn make_default_palette() -> (r: Palette)
    ensures
        r == default_palette(),
{
    Palette {
        theme_hue: ThemeHue::Dark,
        fg: PaletteColor::EightBit(0),
        black: PaletteColor::EightBit(0),
        white: PaletteColor::EightBit(0),
        green: PaletteColor::EightBit(0),
        magenta: PaletteColor::EightBit(0),
        orange: PaletteColor::EightBit(0),
        multiplayer_user_colors: MultiplayerColors {
            player_1: PaletteColor::EightBit(0),
            player_2: PaletteColor::EightBit(0),
            player_3: PaletteColor::EightBit(0),
            player_4: PaletteColor::EightBit(0),
            player_5: PaletteColor::EightBit(0),
            player_6: PaletteColor::EightBit(0),
            player_7: PaletteColor::EightBit(0),
            player_8: PaletteColor::EightBit(0),
            player_9: PaletteColor::EightBit(0),
            player_10: PaletteColor::EightBit(0),
        },
    }
}

/// One tab as the host describes it, reduced to the fields the strip
/// reads.
pub struct TabInfo {
    pub position: usize,
    pub name: String,
    pub active: bool,
    pub is_sync_panes_active: bool,
    pub other_focused_clients: Vec<u16>,
}

/// The mathematical content of a tab description.
#[verifier::ext_equal]
pub struct TabInfoView {
    pub position: usize,
    pub name: Seq<char>,
    pub active: bool,
    pub is_sync_panes_active: bool,
    pub other_focused_clients: Seq<u16>,
}

impl View for TabInfo {
    type V = TabInfoView;

    open spec fn view(&self) -> TabInfoView {
        TabInfoView {
            position: self.position,
            name: self.name@,
            active: self.active,
            is_sync_panes_active: self.is_sync_panes_active,
            other_focused_clients: self.other_focused_clients@,
        }
    }
}

impl Clone for TabInfo {
    fn clone(&self) -> (r: TabInfo)
        ensures
            r@ == self@,
    {
        let mut clients: Vec<u16> = Vec::new();
        let mut k: usize = 0;
        while k < self.other_focused_clients.len()
            invariant
                k <= self.other_focused_clients@.len(),
                clients@ == self.other_focused_clients@.subrange(0, k as int),
            decreases self.other_focused_clients@.len() - k,
        {
            clients.push(self.other_focused_clients[k]);
            k += 1;
            proof {
                assert(clients@ =~= self.other_focused_clients@.subrange(0, k as int));
            }
        }
        proof {
            assert(clients@ =~= self.other_focused_clients@);
        }
        TabInfo {
            position: self.position,
            name: self.name.clone(),
            active: self.active,
            is_sync_panes_active: self.is_sync_panes_active,
            other_focused_clients: clients,
        }
    }
}

/// The views of a sequence of tab descriptions.
pub open spec fn tab_views(s: Seq<TabInfo>) -> Seq<TabInfoView> {
    s.map_values(|t: TabInfo| t@)
}

/// Whether two tab descriptions carry the same content.
pub fn tab_info_eq(a: &TabInfo, b: &TabInfo) -> (r: bool)
    ensures
        r <==> a@ == b@,
{
    let names_equal = a.name == b.name;
    if a.position != b.position || !names_equal || a.active != b.active
        || a.is_sync_panes_active != b.is_sync_panes_active
        || a.other_focused_clients.len() != b.other_focused_clients.len() {
        return false;
    }
    let mut k: usize = 0;
    while k < a.other_focused_clients.len()
        invariant
            k <= a.other_focused_clients@.len(),
            a.other_focused_clients@.len() == b.other_focused_clients@.len(),
            forall|m: int| 0 <= m < k ==> a.other_focused_clients@[m] == b.other_focused_clients@[m],
        decreases a.other_focused_clients@.len() - k,
    {
        if a.other_focused_clients[k] != b.other_focused_clients[k] {
            return false;
        }
        k += 1;
    }
    proof {
        assert(a.other_focused_clients@ =~= b.other_focused_clients@);
    }
    true
}

/// The primary and secondary cursor colors a given client id is assigned,
/// or `None` when the id is outside the ten-player table.
pub open spec fn client_colors(client_id: u16, colors: MultiplayerColors) -> Option<
    (PaletteColor, PaletteColor),
> {
    let black = PaletteColor::EightBit(16);
    if client_id == 1 {
        Some((colors.player_1, black))
    } else if client_id == 2 {
        Some((colors.player_2, black))
    } else if client_id == 3 {
        Some((colors.player_3, black))
    } else if client_id == 4 {
        Some((colors.player_4, black))
    } else if client_id == 5 {
        Some((colors.player_5, black))
    } else if client_id == 6 {
        Some((colors.player_6, black))
    } else if client_id == 7 {
        Some((colors.player_7, black))
    } else if client_id == 8 {
        Some((colors.player_8, black))
    } else if client_id == 9 {
        Some((colors.player_9, black))
    } else if client_id == 10 {
        Some((colors.player_10, black))
    } else {
        None
    }
}

/// Maps a client id to its player colors, pairing each with the fixed
/// indexed black used behind cursors.
pub fn client_id_to_colors(client_id: u16, colors: MultiplayerColors) -> (r: Option<
    (PaletteColor, PaletteColor),
>)
    ensures
        r == client_colors(client_id, colors),
{
    let black = PaletteColor::EightBit(16);
    match client_id {
        1 => Some((colors.player_1, black)),
        2 => Some((colors.player_2, black)),
        3 => Some((colors.player_3, black)),
        4 => Some((colors.player_4, black)),
        5 => Some((colors.player_5, black)),
        6 => Some((colors.player_6, black)),
        7 => Some((colors.player_7, black)),
        8 => Some((colors.player_8, black)),
        9 => Some((colors.player_9, black)),
        10 => Some((colors.player_10, black)),
        _ => None,
    }
}

/// A mouse event, as delivered by the host: a line and column for click
/// events, a line count for scroll events.
pub enum Mouse {
    ScrollUp(usize),
    ScrollDown(usize),
    ScrollLeft(usize),
    ScrollRight(usize),
    LeftClick(isize, usize),
    RightClick(isize, usize),
    Hold(isize, usize),
    Release(isize, usize),
    Hover(isize, usize),
}

/// A host event the strip subscribes to; `Other` stands for every event
/// kind the strip ignores.
pub enum Event {
    ModeUpdate(ModeInfo),
    TabUpdate(Vec<TabInfo>),
    Mouse(Mouse),
    Other,
}

} // verus!
