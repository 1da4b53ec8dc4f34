//! The pause menu: its state, and how each frame's input moves it.
//!
//! The menu has four screens (main, controls, graphics, seed). Navigation
//! keys are throttled by a cooldown counted in frames. What needs floating
//! point (the interface scale, text layout, mouse hit-testing) is left to the
//! caller: it passes the clickable element under the mouse, the number of
//! rows that fit on the controls screen, and applies the interface scale
//! step and the typed frame rate that the menu hands back.
//!
//! This module holds the state, its view and invariant; the screens are
//! handled in the `menu_*` modules beside it.

use vstd::prelude::*;
use crate::menu_types::{
    GameAction, MainMenuItem, main_menu_items, ActiveScreen, ControlCol, FpsEditMode, MenuEvent,
    fps_preset, fps_preset_values, res_preset, res_preset_sizes, res_distance, game_action_label,
    find_nearest_fps_preset, find_nearest_res_preset, is_nearest_fps_preset, is_nearest_res_preset,
};
use crate::window_mode::{WindowMode, window_modes};
use crate::bindings::{
    KeyBind, KeyBindView, Binding, BindingView, bindings_view, duplicate_bindings, key_bind_label,
    gamepad_bind_label,
};
use crate::settings::{Settings, SettingsView, bindings_in_order};
use crate::text::{chars_of, string_from_chars, sub_chars};


verus! {

/// The pause menu's state, but for what needs floating point.
pub struct PauseMenu {
    pub active_screen: ActiveScreen,
    /// Highlighted entry of the main screen.
    pub main_row: usize,
    /// Highlighted row of the controls screen, or of the seed screen
    /// (0 the field, 1 apply, 2 random seed).
    pub selected_row: usize,
    pub control_col: ControlCol,
    /// The row and column waiting for a new key, if any.
    pub awaiting_rebind_key: Option<(usize, ControlCol)>,
    pub bindings: Vec<(GameAction, Binding)>,
    /// Highlighted row of the graphics screen: 0 resolution, 1 window mode,
    /// 2 interface scale, 3 frame-rate limit on/off, 4 frame-rate value,
    /// 5 frame-rate display.
    pub graphics_row: usize,
    pub res_preset_idx: usize,
    /// The resolution chosen, applied when confirmed.
    pub pending_width: u32,
    pub pending_height: u32,
    pub window_mode: WindowMode,
    pub fps_enabled: bool,
    pub fps_millis: u32,
    pub fps_edit_mode: FpsEditMode,
    pub fps_typing_buf: Vec<char>,
    pub fps_preset_idx: usize,
    pub seed_input: Vec<char>,
    /// Position of the text cursor in the seed, in characters.
    pub seed_cursor: usize,
    /// The whole seed is selected (typing replaces it).
    pub seed_selected: bool,
    /// First character of the seed shown in the field.
    pub seed_scroll: usize,
    /// The seed field has the keyboard.
    pub seed_focused: bool,
    pub show_fps: bool,
    /// First row shown on the controls screen.
    pub controls_scroll: usize,
    /// Frames before a navigation key acts again.
    pub nav_cooldown: u32,
    /// A resolution to apply.
    pub pending_resize: Option<(u32, u32)>,
    /// A window mode to apply.
    pub pending_window_mode: Option<WindowMode>,
    pub cursor_blink_visible: bool,
}

/// The menu's state as a value.
pub struct MenuState {
    pub screen: ActiveScreen,
    pub main_row: int,
    pub selected_row: int,
    pub control_col: ControlCol,
    pub awaiting: Option<(int, ControlCol)>,
    pub bindings: Seq<(GameAction, BindingView)>,
    pub graphics_row: int,
    pub res_idx: int,
    pub width: u32,
    pub height: u32,
    pub window_mode: WindowMode,
    pub fps_enabled: bool,
    pub fps_millis: u32,
    pub fps_mode: FpsEditMode,
    pub fps_buf: Seq<char>,
    pub fps_idx: int,
    pub seed: Seq<char>,
    pub cursor: int,
    pub seed_selected: bool,
    pub seed_scroll: int,
    pub seed_focused: bool,
    pub show_fps: bool,
    pub controls_scroll: int,
    pub cooldown: int,
    pub pending_resize: Option<(u32, u32)>,
    pub pending_window_mode: Option<WindowMode>,
    pub blink: bool,
}

/// The view of an optional row and column.
pub open spec fn awaiting_view(a: Option<(usize, ControlCol)>) -> Option<(int, ControlCol)> {
    match a {
        Some((r, c)) => Some((r as int, c)),
        None => None,
    }
}

impl View for PauseMenu {
    type V = MenuState;

    open spec fn view(&self) -> MenuState {
        MenuState {
            screen: self.active_screen,
            main_row: self.main_row as int,
            selected_row: self.selected_row as int,
            control_col: self.control_col,
            awaiting: awaiting_view(self.awaiting_rebind_key),
            bindings: bindings_view(self.bindings@),
            graphics_row: self.graphics_row as int,
            res_idx: self.res_preset_idx as int,
            width: self.pending_width,
            height: self.pending_height,
            window_mode: self.window_mode,
            fps_enabled: self.fps_enabled,
            fps_millis: self.fps_millis,
            fps_mode: self.fps_edit_mode,
            fps_buf: self.fps_typing_buf@,
            fps_idx: self.fps_preset_idx as int,
            seed: self.seed_input@,
            cursor: self.seed_cursor as int,
            seed_selected: self.seed_selected,
            seed_scroll: self.seed_scroll as int,
            seed_focused: self.seed_focused,
            show_fps: self.show_fps,
            controls_scroll: self.controls_scroll as int,
            cooldown: self.nav_cooldown as int,
            pending_resize: self.pending_resize,
            pending_window_mode: self.pending_window_mode,
            blink: self.cursor_blink_visible,
        }
    }
}

/// A menu event as a value.
pub enum EventView {
    Nothing,
    ApplySeed(Seq<char>),
    ApplySeedInMenu(Seq<char>),
    RandomSeed,
    Close,
    Quit,
}

impl View for MenuEvent {
    type V = EventView;

    open spec fn view(&self) -> EventView {
        match self {
            MenuEvent::Nothing => EventView::Nothing,
            MenuEvent::ApplySeed(s) => EventView::ApplySeed(s@),
            MenuEvent::ApplySeedInMenu(s) => EventView::ApplySeedInMenu(s@),
            MenuEvent::RandomSeed => EventView::RandomSeed,
            MenuEvent::Close => EventView::Close,
            MenuEvent::Quit => EventView::Quit,
        }
    }
}

impl MenuEvent {
    /// The event asks for nothing.
    pub fn is_nothing(&self) -> (r: bool)
        ensures
            r == (self@ is Nothing),
    {
        match self {
            MenuEvent::Nothing => true,
            _ => false,
        }
    }
}

/// Which of the clickable elements the caller keeps: all, those of the
/// main screen, or those of the main screen and no seed field.
#[derive(Debug, Clone, Copy, PartialEq, Eq, Structural)]
pub enum RectUpdate {
    Keep,
    MainOnly,
    MainOnlyNoField,
}

/// A step of the interface scale.
#[derive(Debug, Clone, Copy, PartialEq, Eq, Structural)]
pub enum ScaleStep {
    Up,
    Down,
}

/// The mouse wheel this frame: up (a delta above 0.1), down (below -0.1),
/// or neither.
#[derive(Debug, Clone, Copy, PartialEq, Eq, Structural)]
pub enum Scroll {
    Up,
    Down,
    Still,
}

/// What a frame of input asks of the caller.
pub struct MenuOutcome {
    pub event: MenuEvent,
    /// Clickable elements to drop.
    pub rects: RectUpdate,
    /// A step of the interface scale to apply.
    pub scale: Option<ScaleStep>,
    /// The text of a typed frame rate: the caller reads it as frames per
    /// second, bounds it to 1..9999 and hands the value in thousandths to
    /// `set_typed_fps`.
    pub fps_commit: Option<String>,
}

/// An outcome as a value.
pub struct OutcomeView {
    pub event: EventView,
    pub rects: RectUpdate,
    pub scale: Option<ScaleStep>,
    pub fps_commit: Option<Seq<char>>,
}

/// The view of an optional string.
pub open spec fn opt_string_view(s: Option<String>) -> Option<Seq<char>> {
    match s {
        Some(t) => Some(t@),
        None => None,
    }
}

impl View for MenuOutcome {
    type V = OutcomeView;

    open spec fn view(&self) -> OutcomeView {
        OutcomeView {
            event: self.event@,
            rects: self.rects,
            scale: self.scale,
            fps_commit: opt_string_view(self.fps_commit),
        }
    }
}

/// An outcome with only an event and the clickable elements to keep.
pub open spec fn outcome(event: EventView, rects: RectUpdate) -> OutcomeView {
    OutcomeView { event, rects, scale: None, fps_commit: None }
}

/// Nothing asked of the caller.
pub open spec fn nothing() -> OutcomeView {
    outcome(EventView::Nothing, RectUpdate::Keep)
}

/// A character allowed in a seed: an ASCII letter or digit, `_` or `-`.
pub open spec fn is_seed_char(c: char) -> bool {
    ('a' <= c <= 'z') || ('A' <= c <= 'Z') || ('0' <= c <= '9') || c == '_' || c == '-'
}

/// Longest seed.
pub const SEED_MAX_LEN: usize = 256;

/// A seed the menu can hold: at most 256 allowed characters.
pub open spec fn seed_ok(s: Seq<char>) -> bool {
    &&& s.len() <= 256
    &&& forall|i: int| 0 <= i < s.len() ==> is_seed_char(#[trigger] s[i])
}

/// A typed frame rate: at most six digits and at most one `.`.
pub open spec fn fps_buf_ok(b: Seq<char>) -> bool {
    &&& b.len() <= 6 + if b.contains('.') {
        1int
    } else {
        0int
    }
    &&& forall|i: int| 0 <= i < b.len() ==> ('0' <= #[trigger] b[i] <= '9' || b[i] == '.')
    &&& forall|i: int, j: int| #![trigger b[i], b[j]] 0 <= i < j < b.len() && b[i] == '.' ==> b[j] != '.'
}

/// The invariant of the menu's state.
pub open spec fn menu_wf(s: MenuState) -> bool {
    &&& 0 <= s.main_row < 5
    &&& 0 <= s.graphics_row < 6
    &&& 0 <= s.res_idx < 6
    &&& 0 <= s.fps_idx < 20
    &&& bindings_in_order(s.bindings)
    &&& 0 <= s.selected_row < 12
    &&& (s.screen == ActiveScreen::Seed ==> s.selected_row < 3)
    &&& (s.awaiting matches Some((r, _)) ==> 0 <= r < 12)
    &&& 0 <= s.cursor <= s.seed.len()
    &&& 0 <= s.seed_scroll
    &&& fps_buf_ok(s.fps_buf)
    &&& 0 <= s.controls_scroll <= 12
    &&& 0 <= s.cooldown <= 15
}

/// The view of an optional key binding.
pub open spec fn key_view_of(k: Option<KeyBind>) -> Option<KeyBindView> {
    match k {
        Some(b) => Some(b@),
        None => None,
    }
}

/// The view of an optional string.
pub open spec fn opt_chars(s: Option<String>) -> Option<Seq<char>> {
    match s {
        Some(t) => Some(t@),
        None => None,
    }
}

/// The view of an optional string slice.
pub open spec fn opt_str(s: Option<&str>) -> Option<Seq<char>> {
    match s {
        Some(t) => Some(t@),
        None => None,
    }
}

/// `a - b`, or 0 when `b > a`.
pub open spec fn sat_sub(a: int, b: int) -> int {
    if a >= b {
        a - b
    } else {
        0
    }
}

/// `min(a, b)`.
pub open spec fn min_int(a: int, b: int) -> int {
    if a <= b {
        a
    } else {
        b
    }
}

/// Whether `c` may stand in a seed.
pub fn is_seed_char_exec(c: char) -> (r: bool)
    ensures
        r == is_seed_char(c),
{
    ('a' <= c && c <= 'z') || ('A' <= c && c <= 'Z') || ('0' <= c && c <= '9') || c == '_' || c == '-'
}

impl PauseMenu {
    /// The menu's invariant.
    pub open spec fn wf(&self) -> bool {
        menu_wf(self@)
    }

    /// A menu on its main screen showing `settings` and the seed `seed`,
    /// the cursor after the seed.
    pub fn new(settings: &Settings, seed: &str) -> (m: PauseMenu)
        requires
            settings.wf(),
            forall|j: int|
                0 <= j < 6 ==> res_distance(
                    #[trigger] res_preset_sizes()[j],
                    settings.res_width,
                    settings.res_height,
                ) <= i64::MAX,
        ensures
            m.wf(),
            m@.screen == ActiveScreen::Main,
            m@.main_row == 0,
            m@.selected_row == 0,
            m@.control_col == ControlCol::Key,
            m@.awaiting is None,
            m@.bindings == bindings_view(settings.bindings@),
            m@.graphics_row == 0,
            is_nearest_res_preset(m@.res_idx, settings.res_width, settings.res_height),
            m@.width == settings.res_width,
            m@.height == settings.res_height,
            m@.window_mode == settings.window_mode,
            m@.fps_enabled == settings.fps_enabled,
            m@.fps_millis == settings.fps_millis,
            m@.fps_mode == FpsEditMode::Preset,
            m@.fps_buf.len() == 0,
            is_nearest_fps_preset(m@.fps_idx, settings.fps_millis),
            m@.seed == seed@,
            m@.cursor == seed@.len(),
            !m@.seed_selected,
            m@.seed_scroll == 0,
            !m@.seed_focused,
            m@.show_fps == settings.show_fps,
            m@.controls_scroll == 0,
            m@.cooldown == 0,
            m@.pending_resize is None,
            m@.pending_window_mode is None,
            m@.blink,
    {
        let fps_preset_idx = find_nearest_fps_preset(settings.fps_millis);
        let res_preset_idx = find_nearest_res_preset(settings.res_width, settings.res_height);
        let seed_chars = chars_of(seed);
        let n = seed_chars.len();
        PauseMenu {
            active_screen: ActiveScreen::Main,
            main_row: 0,
            selected_row: 0,
            control_col: ControlCol::Key,
            awaiting_rebind_key: None,
            bindings: duplicate_bindings(&settings.bindings),
            graphics_row: 0,
            res_preset_idx,
            pending_width: settings.res_width,
            pending_height: settings.res_height,
            window_mode: settings.window_mode,
            fps_enabled: settings.fps_enabled,
            fps_millis: settings.fps_millis,
            fps_edit_mode: FpsEditMode::Preset,
            fps_typing_buf: Vec::new(),
            fps_preset_idx,
            seed_input: seed_chars,
            seed_cursor: n,
            seed_selected: false,
            seed_scroll: 0,
            seed_focused: false,
            show_fps: settings.show_fps,
            controls_scroll: 0,
            nav_cooldown: 0,
            pending_resize: None,
            pending_window_mode: None,
            cursor_blink_visible: true,
        }
    }

    /// Opens the menu on its main screen, its first entry highlighted and
    /// the seed field showing `seed` with the cursor after it.
    pub fn open(&mut self, seed: &str)
        requires
            old(self).wf(),
        ensures
            final(self).wf(),
            final(self)@ == (MenuState {
                screen: ActiveScreen::Main,
                main_row: 0,
                seed: seed@,
                cursor: seed@.len() as int,
                ..old(self)@
            }),
    {
        self.active_screen = ActiveScreen::Main;
        self.main_row = 0;
        self.seed_input = chars_of(seed);
        self.seed_cursor = self.seed_input.len();
    }

    /// The settings chosen in the menu, to be saved: its display, frame
    /// rate and bindings.
    pub fn chosen_settings(&self) -> (s: Settings)
        requires
            self.wf(),
        ensures
            s.wf(),
            s@ == (SettingsView {
                window_mode: self.window_mode,
                res_width: self.pending_width,
                res_height: self.pending_height,
                fps_enabled: self.fps_enabled,
                fps_millis: self.fps_millis,
                show_fps: self.show_fps,
                bindings: bindings_view(self.bindings@),
            }),
    {
        Settings {
            window_mode: self.window_mode,
            res_width: self.pending_width,
            res_height: self.pending_height,
            fps_enabled: self.fps_enabled,
            fps_millis: self.fps_millis,
            show_fps: self.show_fps,
            bindings: duplicate_bindings(&self.bindings),
        }
    }

    /// The seed as a string.
    pub fn seed_string(&self) -> (s: String)
        ensures
            s@ == self.seed_input@,
    {
        string_from_chars(&self.seed_input)
    }
}

} // verus!
