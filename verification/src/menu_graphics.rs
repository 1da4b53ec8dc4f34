//! The pause menu's graphics screen: resolution, window mode, interface
//! scale and frame rate.

use vstd::prelude::*;
use crate::menu_types::{
    GameAction, MainMenuItem, main_menu_items, ActiveScreen, ControlCol, FpsEditMode, MenuEvent,
    fps_preset, fps_preset_values, res_preset, res_preset_sizes, res_distance, game_action_label,
    find_nearest_fps_preset, find_nearest_res_preset, is_nearest_fps_preset, is_nearest_res_preset,
};
use crate::window_mode::{WindowMode, window_modes};
use crate::bindings::{
    KeyBind, KeyBindView, Binding, BindingView, bindings_view, duplicate_bindings, key_bind_label,
    gamepad_bind_label,
};
use crate::settings::{Settings, bindings_in_order};
use crate::text::{chars_of, string_from_chars, sub_chars};
use crate::menu_state::{PauseMenu, MenuState, EventView, RectUpdate, ScaleStep, Scroll, MenuOutcome, OutcomeView, nothing, opt_chars, fps_buf_ok};

verus! {

/// State `s` with resolution preset `idx` chosen, and cooldown `cd`.
pub open spec fn with_res(s: MenuState, idx: int, cd: int) -> MenuState {
    MenuState {
        res_idx: idx,
        width: res_preset_sizes()[idx].0,
        height: res_preset_sizes()[idx].1,
        cooldown: cd,
        ..s
    }
}

/// The resolution row: right/left (and the wheel) move round the presets,
/// confirm asks for the chosen resolution to be applied.
pub open spec fn res_row_step(s: MenuState, left: bool, right: bool, confirm: bool, scroll: Scroll) -> MenuState {
    let s1 = if right && s.cooldown == 0 {
        with_res(s, (s.res_idx + 1) % 6, 8)
    } else {
        s
    };
    let s2 = if left && s1.cooldown == 0 {
        with_res(s1, (s1.res_idx + 5) % 6, 8)
    } else {
        s1
    };
    let s3 = if scroll == Scroll::Up && s2.cooldown == 0 {
        with_res(s2, (s2.res_idx + 1) % 6, 4)
    } else {
        s2
    };
    let s4 = if scroll == Scroll::Down && s3.cooldown == 0 {
        with_res(s3, (s3.res_idx + 5) % 6, 4)
    } else {
        s3
    };
    if confirm && s4.cooldown == 0 {
        MenuState { cooldown: 15, pending_resize: Some((s4.width, s4.height)), ..s4 }
    } else {
        s4
    }
}

/// The position of a window mode in `window_modes()`.
pub open spec fn window_mode_index(m: WindowMode) -> int {
    match m {
        WindowMode::Windowed => 0,
        WindowMode::Fullscreen => 1,
        WindowMode::BorderlessFullscreen => 2,
    }
}

/// The window mode row: right or confirm pick the next mode, left the
/// previous one, and ask for it to be applied.
pub open spec fn mode_row_step(s: MenuState, left: bool, right: bool, confirm: bool) -> MenuState {
    let cur = window_mode_index(s.window_mode);
    let s1 = if (right || confirm) && s.cooldown == 0 {
        let m = window_modes()[(cur + 1) % 3];
        MenuState { window_mode: m, cooldown: 10, pending_window_mode: Some(m), ..s }
    } else {
        s
    };
    if left && s1.cooldown == 0 {
        let m = window_modes()[(cur + 2) % 3];
        MenuState { window_mode: m, cooldown: 10, pending_window_mode: Some(m), ..s1 }
    } else {
        s1
    }
}

/// The interface scale row: right (or the wheel up) asks for a step up,
/// left (or the wheel down) for a step down.
pub open spec fn scale_row_step(s: MenuState, left: bool, right: bool, scroll: Scroll) -> (MenuState, Option<ScaleStep>) {
    if s.cooldown != 0 {
        (s, None)
    } else if right {
        (MenuState { cooldown: 8, ..s }, Some(ScaleStep::Up))
    } else if left {
        (MenuState { cooldown: 8, ..s }, Some(ScaleStep::Down))
    } else if scroll == Scroll::Up {
        (MenuState { cooldown: 4, ..s }, Some(ScaleStep::Up))
    } else if scroll == Scroll::Down {
        (MenuState { cooldown: 4, ..s }, Some(ScaleStep::Down))
    } else {
        (s, None)
    }
}

/// State `s` with frame-rate preset `idx` chosen, and cooldown `cd`.
pub open spec fn with_fps_preset(s: MenuState, idx: int, cd: int) -> MenuState {
    MenuState { fps_idx: idx, fps_millis: fps_preset_values()[idx], cooldown: cd, ..s }
}

/// The first decimal digit among `cs[i..]`.
pub open spec fn first_digit_from(cs: Seq<char>, i: int) -> Option<char>
    decreases cs.len() - i,
{
    if i < 0 || i >= cs.len() {
        None
    } else if '0' <= cs[i] <= '9' {
        Some(cs[i])
    } else {
        first_digit_from(cs, i + 1)
    }
}

/// A character typed into the frame-rate value: a digit while there are
/// fewer than six characters, a `.` (typed `.` or `,`) when there is none.
pub open spec fn fps_type_char(buf: Seq<char>, c: char) -> Seq<char> {
    if '0' <= c <= '9' {
        if buf.len() < 6 {
            buf.push(c)
        } else {
            buf
        }
    } else if (c == '.' || c == ',') && !buf.contains('.') {
        buf.push('.')
    } else {
        buf
    }
}

/// The characters `cs` typed in turn into the frame-rate value.
pub open spec fn fps_type_all(buf: Seq<char>, cs: Seq<char>) -> Seq<char>
    decreases cs.len(),
{
    if cs.len() == 0 {
        buf
    } else {
        fps_type_char(fps_type_all(buf, cs.drop_last()), cs.last())
    }
}

/// Choosing a frame-rate preset: right/left (and the wheel) move round the
/// presets, and a digit typed starts typing a value with it.
pub open spec fn fps_preset_step(s: MenuState, left: bool, right: bool, chars: Seq<char>, scroll: Scroll) -> MenuState {
    let s4 = fps_preset_moves_step(s, left, right, scroll);
    match first_digit_from(chars, 0) {
        Some(c) => MenuState { fps_mode: FpsEditMode::Typing, fps_buf: seq![c], ..s4 },
        None => s4,
    }
}

/// Right/left (and the wheel) move round the frame-rate presets.
pub open spec fn fps_preset_moves_step(s: MenuState, left: bool, right: bool, scroll: Scroll) -> MenuState {
    let s1 = if right && s.cooldown == 0 {
        with_fps_preset(s, (s.fps_idx + 1) % 20, 8)
    } else {
        s
    };
    let s2 = if left && s1.cooldown == 0 {
        with_fps_preset(s1, (s1.fps_idx + 19) % 20, 8)
    } else {
        s1
    };
    let s3 = if scroll == Scroll::Up && s2.cooldown == 0 {
        with_fps_preset(s2, (s2.fps_idx + 1) % 20, 4)
    } else {
        s2
    };
    if scroll == Scroll::Down && s3.cooldown == 0 {
        with_fps_preset(s3, (s3.fps_idx + 19) % 20, 4)
    } else {
        s3
    }
}

/// Typing a frame-rate value: digits and a point are added, backspace
/// removes the last character, confirm hands the value over, and confirm,
/// left or right end the typing.
pub open spec fn fps_typing_step(
    s: MenuState,
    left: bool,
    right: bool,
    confirm: bool,
    chars: Seq<char>,
    backspace: bool,
) -> (MenuState, Option<Seq<char>>) {
    let b1 = fps_type_all(s.fps_buf, chars);
    let b2 = if backspace && b1.len() > 0 {
        b1.drop_last()
    } else {
        b1
    };
    if confirm || left || right {
        (
            MenuState { fps_mode: FpsEditMode::Preset, fps_buf: Seq::empty(), ..s },
            if confirm {
                Some(b2)
            } else {
                None
            },
        )
    } else {
        (MenuState { fps_buf: b2, ..s }, None)
    }
}

/// The frame-rate value row, the limit being on.
pub open spec fn fps_row_step(
    s: MenuState,
    left: bool,
    right: bool,
    confirm: bool,
    chars: Seq<char>,
    backspace: bool,
    scroll: Scroll,
) -> (MenuState, Option<Seq<char>>) {
    match s.fps_mode {
        FpsEditMode::Preset => (fps_preset_step(s, left, right, chars, scroll), None),
        FpsEditMode::Typing => fps_typing_step(s, left, right, confirm, chars, backspace),
    }
}

/// Confirm, left or right toggle a check box row: the frame-rate limit
/// (which, turned off, also ends any typing) or the frame-rate display.
pub open spec fn toggle_row_step(s: MenuState, row: int, act: bool) -> MenuState {
    if act && s.cooldown == 0 {
        if row == 3 {
            let on = !s.fps_enabled;
            if on {
                MenuState { fps_enabled: on, cooldown: 10, ..s }
            } else {
                MenuState {
                    fps_enabled: on,
                    fps_mode: FpsEditMode::Preset,
                    fps_buf: Seq::empty(),
                    cooldown: 10,
                    ..s
                }
            }
        } else {
            MenuState { show_fps: !s.show_fps, cooldown: 10, ..s }
        }
    } else {
        s
    }
}

/// Down and up move round the six rows of the graphics screen, but not
/// while a frame rate is typed.
pub open spec fn graphics_nav_step(s: MenuState, up: bool, down: bool) -> MenuState {
    let s0 = if s.fps_mode != FpsEditMode::Typing && down && s.cooldown == 0 {
        MenuState { graphics_row: (s.graphics_row + 1) % 6, cooldown: 8, ..s }
    } else {
        s
    };
    if s0.fps_mode != FpsEditMode::Typing && up && s0.cooldown == 0 {
        MenuState { graphics_row: (s0.graphics_row + 5) % 6, cooldown: 8, ..s0 }
    } else {
        s0
    }
}

/// The highlighted row of the graphics screen acts.
pub open spec fn graphics_row_step(
    s1: MenuState,
    left: bool,
    right: bool,
    confirm: bool,
    chars: Seq<char>,
    backspace: bool,
    scroll: Scroll,
) -> (MenuState, OutcomeView) {
    if s1.graphics_row == 0 {
        (res_row_step(s1, left, right, confirm, scroll), nothing())
    } else if s1.graphics_row == 1 {
        (mode_row_step(s1, left, right, confirm), nothing())
    } else if s1.graphics_row == 2 {
        let (s2, step) = scale_row_step(s1, left, right, scroll);
        (s2, OutcomeView { event: EventView::Nothing, rects: RectUpdate::Keep, scale: step, fps_commit: None })
    } else if s1.graphics_row == 4 {
        if !s1.fps_enabled {
            (s1, nothing())
        } else {
            let (s2, commit) = fps_row_step(s1, left, right, confirm, chars, backspace, scroll);
            (s2, OutcomeView { event: EventView::Nothing, rects: RectUpdate::Keep, scale: None, fps_commit: commit })
        }
    } else {
        (toggle_row_step(s1, s1.graphics_row, confirm || left || right), nothing())
    }
}

/// The graphics screen: escape ends the typing of a frame rate, or goes
/// back to the main screen; down and up move round the six rows (not while
/// typing); then the highlighted row acts.
#[verifier::opaque]
pub open spec fn graphics_step(
    s: MenuState,
    up: bool,
    down: bool,
    left: bool,
    right: bool,
    confirm: bool,
    escape: bool,
    chars: Seq<char>,
    backspace: bool,
    scroll: Scroll,
) -> (MenuState, OutcomeView) {
    if escape {
        if s.fps_mode == FpsEditMode::Typing {
            (MenuState { fps_mode: FpsEditMode::Preset, fps_buf: Seq::empty(), ..s }, nothing())
        } else {
            (MenuState { screen: ActiveScreen::Main, ..s }, nothing())
        }
    } else {
        graphics_row_step(graphics_nav_step(s, up, down), left, right, confirm, chars, backspace, scroll)
    }
}

/// Dropping the last character of a typed frame rate leaves a typed frame
/// rate.
proof fn lemma_fps_buf_drop_last(b: Seq<char>)
    requires
        fps_buf_ok(b),
    ensures
        b.len() > 0 ==> fps_buf_ok(b.drop_last()),
{
    if b.len() > 0 {
        let d = b.drop_last();
        assert forall|i: int| 0 <= i < d.len() implies ('0' <= #[trigger] d[i] <= '9' || d[i] == '.') by {
            assert(d[i] == b[i]);
        }
        assert forall|i: int, j: int| #![trigger d[i], d[j]] 0 <= i < j < d.len() && d[i] == '.' implies d[j]
            != '.' by {
            assert(d[i] == b[i] && d[j] == b[j]);
        }
        if d.contains('.') {
            let k = choose|k: int| 0 <= k < d.len() && d[k] == '.';
            assert(b[k] == '.');
        }
    }
}

/// Whether `c` occurs in `v`.
pub fn contains_char(v: &Vec<char>, c: char) -> (r: bool)
    ensures
        r == v@.contains(c),
{
    let mut i: usize = 0;
    while i < v.len()
        invariant
            i <= v@.len(),
            forall|j: int| 0 <= j < i ==> v@[j] != c,
        decreases v@.len() - i,
    {
        if v[i] == c {
            assert(v@[i as int] == c);
            return true;
        }
        i = i + 1;
    }
    false
}

/// The first decimal digit among `cs`.
pub fn first_digit(cs: &[char]) -> (r: Option<char>)
    ensures
        r == first_digit_from(cs@, 0),
        r matches Some(c) ==> '0' <= c <= '9',
{
    let mut i: usize = 0;
    while i < cs.len()
        invariant
            i <= cs@.len(),
            first_digit_from(cs@, 0) == first_digit_from(cs@, i as int),
        decreases cs@.len() - i,
    {
        let c = cs[i];
        if '0' <= c && c <= '9' {
            return Some(c);
        }
        i = i + 1;
    }
    None
}

impl PauseMenu {
    /// State with resolution preset `idx` chosen.
    fn choose_res(&mut self, idx: usize, cd: u32)
        requires
            old(self).wf(),
            idx < 6,
            cd <= 15,
        ensures
            final(self)@ == with_res(old(self)@, idx as int, cd as int),
            final(self).wf(),
    {
        self.res_preset_idx = idx;
        self.nav_cooldown = cd;
        let (_, w, h) = res_preset(idx);
        self.pending_width = w;
        self.pending_height = h;
    }

    /// The resolution row (see `res_row_step`).
    fn res_row(&mut self, left: bool, right: bool, confirm: bool, scroll: Scroll)
        requires
            old(self).wf(),
        ensures
            final(self)@ == res_row_step(old(self)@, left, right, confirm, scroll),
            final(self).wf(),
    {
        if right && self.nav_cooldown == 0 {
            self.choose_res((self.res_preset_idx + 1) % 6, 8);
        }
        if left && self.nav_cooldown == 0 {
            self.choose_res((self.res_preset_idx + 6 - 1) % 6, 8);
        }
        if scroll == Scroll::Up && self.nav_cooldown == 0 {
            self.choose_res((self.res_preset_idx + 1) % 6, 4);
        }
        if scroll == Scroll::Down && self.nav_cooldown == 0 {
            self.choose_res((self.res_preset_idx + 6 - 1) % 6, 4);
        }
        if confirm && self.nav_cooldown == 0 {
            self.nav_cooldown = 15;
            self.pending_resize = Some((self.pending_width, self.pending_height));
        }
    }

    /// The window mode row (see `mode_row_step`).
    fn mode_row(&mut self, left: bool, right: bool, confirm: bool)
        requires
            old(self).wf(),
        ensures
            final(self)@ == mode_row_step(old(self)@, left, right, confirm),
            final(self).wf(),
    {
        let modes = WindowMode::all();
        let n = modes.len();
        let cur: usize = match self.window_mode {
            WindowMode::Windowed => 0,
            WindowMode::Fullscreen => 1,
            WindowMode::BorderlessFullscreen => 2,
        };
        if (right || confirm) && self.nav_cooldown == 0 {
            self.window_mode = modes[(cur + 1) % n];
            self.nav_cooldown = 10;
            self.pending_window_mode = Some(self.window_mode);
        }
        if left && self.nav_cooldown == 0 {
            self.window_mode = modes[(cur + n - 1) % n];
            self.nav_cooldown = 10;
            self.pending_window_mode = Some(self.window_mode);
        }
    }

    /// The interface scale row (see `scale_row_step`).
    fn scale_row(&mut self, left: bool, right: bool, scroll: Scroll) -> (step: Option<ScaleStep>)
        requires
            old(self).wf(),
        ensures
            (final(self)@, step) == scale_row_step(old(self)@, left, right, scroll),
            final(self).wf(),
    {
        let mut step: Option<ScaleStep> = None;
        if right && self.nav_cooldown == 0 {
            step = Some(ScaleStep::Up);
            self.nav_cooldown = 8;
        }
        if left && self.nav_cooldown == 0 {
            step = Some(ScaleStep::Down);
            self.nav_cooldown = 8;
        }
        if scroll == Scroll::Up && self.nav_cooldown == 0 {
            step = Some(ScaleStep::Up);
            self.nav_cooldown = 4;
        }
        if scroll == Scroll::Down && self.nav_cooldown == 0 {
            step = Some(ScaleStep::Down);
            self.nav_cooldown = 4;
        }
        step
    }

    /// State with frame-rate preset `idx` chosen.
    fn choose_fps_preset(&mut self, idx: usize, cd: u32)
        requires
            old(self).wf(),
            idx < 20,
            cd <= 15,
        ensures
            final(self)@ == with_fps_preset(old(self)@, idx as int, cd as int),
            final(self).wf(),
    {
        self.fps_preset_idx = idx;
        let (_, v) = fps_preset(idx);
        self.fps_millis = v;
        self.nav_cooldown = cd;
    }

    /// One character typed into the frame-rate value (see `fps_type_char`).
    fn fps_type(&mut self, c: char)
        requires
            old(self).wf(),
        ensures
            final(self)@ == (MenuState { fps_buf: fps_type_char(old(self)@.fps_buf, c), ..old(self)@ }),
            final(self).wf(),
    {
        if '0' <= c && c <= '9' {
            if self.fps_typing_buf.len() < 6 {
                self.fps_typing_buf.push(c);
            }
        } else if (c == '.' || c == ',') && !contains_char(&self.fps_typing_buf, '.') {
            self.fps_typing_buf.push('.');
            proof {
                let b = self.fps_typing_buf@;
                assert(b[b.len() - 1] == '.');
                assert(b.contains('.'));
            }
        }
    }

    /// Choosing a frame-rate preset (see `fps_preset_step`).
    fn fps_preset_mode(&mut self, left: bool, right: bool, chars: &[char], scroll: Scroll)
        requires
            old(self).wf(),
            old(self)@.fps_mode == FpsEditMode::Preset,
        ensures
            final(self)@ == fps_preset_step(old(self)@, left, right, chars@, scroll),
            final(self).wf(),
    {
        self.fps_preset_moves(left, right, scroll);
        if let Some(c) = first_digit(chars) {
            self.fps_edit_mode = FpsEditMode::Typing;
            self.fps_typing_buf.clear();
            self.fps_typing_buf.push(c);
            proof {
                assert(self.fps_typing_buf@ =~= seq![c]);
            }
        }
    }

    /// Moving round the frame-rate presets (see `fps_preset_moves_step`).
    fn fps_preset_moves(&mut self, left: bool, right: bool, scroll: Scroll)
        requires
            old(self).wf(),
        ensures
            final(self)@ == fps_preset_moves_step(old(self)@, left, right, scroll),
            final(self).wf(),
    {
        if right && self.nav_cooldown == 0 {
            self.choose_fps_preset((self.fps_preset_idx + 1) % 20, 8);
        }
        if left && self.nav_cooldown == 0 {
            self.choose_fps_preset((self.fps_preset_idx + 20 - 1) % 20, 8);
        }
        if scroll == Scroll::Up && self.nav_cooldown == 0 {
            self.choose_fps_preset((self.fps_preset_idx + 1) % 20, 4);
        }
        if scroll == Scroll::Down && self.nav_cooldown == 0 {
            self.choose_fps_preset((self.fps_preset_idx + 20 - 1) % 20, 4);
        }
    }

    /// The characters `chars` typed in turn into the frame-rate value.
    fn fps_type_chars(&mut self, chars: &[char])
        requires
            old(self).wf(),
        ensures
            final(self)@ == (MenuState { fps_buf: fps_type_all(old(self)@.fps_buf, chars@), ..old(self)@ }),
            final(self).wf(),
    {
        let ghost b0 = self.fps_typing_buf@;
        let mut i: usize = 0;
        while i < chars.len()
            invariant
                old(self).wf(),
                self.wf(),
                self@ == (MenuState { fps_buf: self@.fps_buf, ..old(self)@ }),
                b0 == old(self)@.fps_buf,
                i <= chars@.len(),
                self@.fps_buf == fps_type_all(b0, chars@.subrange(0, i as int)),
            decreases chars@.len() - i,
        {
            self.fps_type(chars[i]);
            proof {
                let pre = chars@.subrange(0, i + 1);
                assert(pre.drop_last() =~= chars@.subrange(0, i as int));
            }
            i = i + 1;
        }
        assert(chars@.subrange(0, chars@.len() as int) =~= chars@);
    }

    /// Typing a frame-rate value (see `fps_typing_step`).
    fn fps_typing_mode(&mut self, left: bool, right: bool, confirm: bool, chars: &[char], backspace: bool) -> (commit: Option<String>)
        requires
            old(self).wf(),
        ensures
            (final(self)@, opt_chars(commit)) == fps_typing_step(old(self)@, left, right, confirm, chars@, backspace),
            final(self).wf(),
    {
        self.fps_type_chars(chars);
        if backspace {
            let ghost b1 = self.fps_typing_buf@;
            self.fps_typing_buf.pop();
            proof {
                lemma_fps_buf_drop_last(b1);
            }
        }
        let mut commit: Option<String> = None;
        if confirm {
            commit = Some(string_from_chars(&self.fps_typing_buf));
            self.fps_edit_mode = FpsEditMode::Preset;
            self.fps_typing_buf.clear();
        }
        if left || right {
            self.fps_edit_mode = FpsEditMode::Preset;
            self.fps_typing_buf.clear();
        }
        commit
    }

    /// The frame-rate value row (see `fps_row_step`).
    fn fps_row(&mut self, left: bool, right: bool, confirm: bool, chars: &[char], backspace: bool, scroll: Scroll) -> (commit: Option<String>)
        requires
            old(self).wf(),
        ensures
            (final(self)@, opt_chars(commit)) == fps_row_step(old(self)@, left, right, confirm, chars@, backspace, scroll),
            final(self).wf(),
    {
        match self.fps_edit_mode {
            FpsEditMode::Preset => {
                self.fps_preset_mode(left, right, chars, scroll);
                None
            },
            FpsEditMode::Typing => self.fps_typing_mode(left, right, confirm, chars, backspace),
        }
    }

    /// Sets the frame rate to a value typed and read by the caller (the
    /// value of the typed text bounded to 1..9999, in thousandths), and the
    /// preset nearest to it.
    pub fn set_typed_fps(&mut self, fps_millis: u32)
        requires
            old(self).wf(),
        ensures
            final(self)@.fps_millis == fps_millis,
            is_nearest_fps_preset(final(self)@.fps_idx, fps_millis),
            final(self)@ == (MenuState { fps_millis, fps_idx: final(self)@.fps_idx, ..old(self)@ }),
            final(self).wf(),
    {
        self.fps_millis = fps_millis;
        self.fps_preset_idx = find_nearest_fps_preset(fps_millis);
    }

    /// Down and up on the graphics screen (see `graphics_nav_step`).
    fn graphics_nav(&mut self, up: bool, down: bool)
        requires
            old(self).wf(),
        ensures
            final(self)@ == graphics_nav_step(old(self)@, up, down),
            final(self).wf(),
    {
        if self.fps_edit_mode != FpsEditMode::Typing {
            if down && self.nav_cooldown == 0 {
                self.graphics_row = (self.graphics_row + 1) % 6;
                self.nav_cooldown = 8;
            }
            if up && self.nav_cooldown == 0 {
                self.graphics_row = (self.graphics_row + 6 - 1) % 6;
                self.nav_cooldown = 8;
            }
        }
    }

    /// The highlighted row of the graphics screen acts (see
    /// `graphics_row_step`).
    #[verifier::rlimit(40)]
    fn graphics_row_act(
        &mut self,
        left: bool,
        right: bool,
        confirm: bool,
        chars: &[char],
        backspace: bool,
        scroll: Scroll,
    ) -> (o: MenuOutcome)
        requires
            old(self).wf(),
        ensures
            (final(self)@, o@) == graphics_row_step(old(self)@, left, right, confirm, chars@, backspace, scroll),
            final(self).wf(),
    {
        let none = MenuOutcome { event: MenuEvent::Nothing, rects: RectUpdate::Keep, scale: None, fps_commit: None };
        if self.graphics_row == 0 {
            self.res_row(left, right, confirm, scroll);
            none
        } else if self.graphics_row == 1 {
            self.mode_row(left, right, confirm);
            none
        } else if self.graphics_row == 2 {
            let step = self.scale_row(left, right, scroll);
            MenuOutcome { event: MenuEvent::Nothing, rects: RectUpdate::Keep, scale: step, fps_commit: None }
        } else if self.graphics_row == 4 {
            if !self.fps_enabled {
                return none;
            }
            let commit = self.fps_row(left, right, confirm, chars, backspace, scroll);
            MenuOutcome { event: MenuEvent::Nothing, rects: RectUpdate::Keep, scale: None, fps_commit: commit }
        } else {
            let row = self.graphics_row;
            self.toggle_row(row, confirm || left || right);
            none
        }
    }

    /// A check box row of the graphics screen (see `toggle_row_step`).
    fn toggle_row(&mut self, row: usize, act: bool)
        requires
            old(self).wf(),
        ensures
            final(self)@ == toggle_row_step(old(self)@, row as int, act),
            final(self).wf(),
    {
        if act && self.nav_cooldown == 0 {
            if row == 3 {
                self.fps_enabled = !self.fps_enabled;
                if !self.fps_enabled {
                    self.fps_edit_mode = FpsEditMode::Preset;
                    self.fps_typing_buf.clear();
                }
            } else {
                self.show_fps = !self.show_fps;
            }
            self.nav_cooldown = 10;
        }
    }

    /// The graphics screen (see `graphics_step`).
    pub fn handle_graphics(
        &mut self,
        up: bool,
        down: bool,
        left: bool,
        right: bool,
        confirm: bool,
        escape: bool,
        chars: &[char],
        backspace: bool,
        scroll: Scroll,
    ) -> (o: MenuOutcome)
        requires
            old(self).wf(),
            old(self)@.screen == ActiveScreen::Graphics,
        ensures
            (final(self)@, o@) == graphics_step(old(self)@, up, down, left, right, confirm, escape, chars@, backspace, scroll),
            final(self).wf(),
    {
        proof {
            reveal(graphics_step);
        }
        let none = MenuOutcome { event: MenuEvent::Nothing, rects: RectUpdate::Keep, scale: None, fps_commit: None };
        if escape {
            if self.fps_edit_mode == FpsEditMode::Typing {
                self.fps_edit_mode = FpsEditMode::Preset;
                self.fps_typing_buf.clear();
            } else {
                self.active_screen = ActiveScreen::Main;
            }
            return none;
        }
        self.graphics_nav(up, down);
        self.graphics_row_act(left, right, confirm, chars, backspace, scroll)
    }
}


/// The window mode before `m` in the list the graphics screen cycles
/// through (windowed, fullscreen, borderless fullscreen), going round.
pub open spec fn mode_before(m: WindowMode) -> WindowMode {
    match m {
        WindowMode::Windowed => WindowMode::BorderlessFullscreen,
        WindowMode::Fullscreen => WindowMode::Windowed,
        WindowMode::BorderlessFullscreen => WindowMode::Fullscreen,
    }
}

/// The window mode after `m` in that list, going round.
pub open spec fn mode_after(m: WindowMode) -> WindowMode {
    match m {
        WindowMode::Windowed => WindowMode::Fullscreen,
        WindowMode::Fullscreen => WindowMode::BorderlessFullscreen,
        WindowMode::BorderlessFullscreen => WindowMode::Windowed,
    }
}

/// On the window-mode row, with no wait left, left alone selects the mode
/// before the current one and right alone the one after it, each asked to
/// be applied; so left then right (the wait over) gives back the mode one
/// started from, and left and right never select the same mode.
pub proof fn lemma_mode_row_left_right(s: MenuState)
    requires
        s.graphics_row == 1,
        s.cooldown == 0,
    ensures
        ({
            let l = graphics_step(s, false, false, true, false, false, false, Seq::empty(), false, Scroll::Still).0;
            let r = graphics_step(s, false, false, false, true, false, false, Seq::empty(), false, Scroll::Still).0;
            &&& l.window_mode == mode_before(s.window_mode)
            &&& l.pending_window_mode == Some(mode_before(s.window_mode))
            &&& r.window_mode == mode_after(s.window_mode)
            &&& r.pending_window_mode == Some(mode_after(s.window_mode))
            &&& l.window_mode != r.window_mode
            &&& l.graphics_row == 1
            &&& graphics_step(
                MenuState { cooldown: 0, ..l },
                false,
                false,
                false,
                true,
                false,
                false,
                Seq::empty(),
                false,
                Scroll::Still,
            ).0.window_mode == s.window_mode
        }),
{
    reveal(graphics_step);
    let l = graphics_step(s, false, false, true, false, false, false, Seq::empty(), false, Scroll::Still).0;
    assert(l.graphics_row == 1);
}


/// On the graphics screen with no wait left and no frame rate being typed,
/// down alone highlights the next of the six rows and up alone the one
/// before, going round.
pub proof fn lemma_graphics_rows_round(s: MenuState)
    requires
        s.cooldown == 0,
        0 <= s.graphics_row < 6,
        s.fps_mode != FpsEditMode::Typing,
    ensures
        graphics_step(s, false, true, false, false, false, false, Seq::empty(), false, Scroll::Still).0.graphics_row
            == (if s.graphics_row == 5 {
            0
        } else {
            s.graphics_row + 1
        }),
        graphics_step(s, true, false, false, false, false, false, Seq::empty(), false, Scroll::Still).0.graphics_row
            == (if s.graphics_row == 0 {
            5
        } else {
            s.graphics_row - 1
        }),
{
    reveal(graphics_step);
}

/// On the resolution row with no wait left, right alone picks the next of
/// the six presets and left alone the one before, going round, with that
/// preset's size; confirm alone asks for the chosen size to be applied.
pub proof fn lemma_resolution_row(s: MenuState)
    requires
        s.cooldown == 0,
        s.graphics_row == 0,
        0 <= s.res_idx < 6,
    ensures
        ({
            let r = graphics_step(s, false, false, false, true, false, false, Seq::empty(), false, Scroll::Still).0;
            let l = graphics_step(s, false, false, true, false, false, false, Seq::empty(), false, Scroll::Still).0;
            let c = graphics_step(s, false, false, false, false, true, false, Seq::empty(), false, Scroll::Still).0;
            let ri = if s.res_idx == 5 {
                0
            } else {
                s.res_idx + 1
            };
            let li = if s.res_idx == 0 {
                5
            } else {
                s.res_idx - 1
            };
            &&& r.res_idx == ri
            &&& (r.width, r.height) == res_preset_sizes()[ri]
            &&& l.res_idx == li
            &&& (l.width, l.height) == res_preset_sizes()[li]
            &&& c.pending_resize == Some((s.width, s.height))
            &&& c.res_idx == s.res_idx
        }),
{
    reveal(graphics_step);
}

/// On the interface-scale row with no wait left, right alone asks for a
/// larger scale and left alone for a smaller one.
pub proof fn lemma_scale_row(s: MenuState)
    requires
        s.cooldown == 0,
        s.graphics_row == 2,
    ensures
        graphics_step(s, false, false, false, true, false, false, Seq::empty(), false, Scroll::Still).1.scale
            == Some(ScaleStep::Up),
        graphics_step(s, false, false, true, false, false, false, Seq::empty(), false, Scroll::Still).1.scale
            == Some(ScaleStep::Down),
{
    reveal(graphics_step);
}

/// With no wait left, confirm on the check box rows turns the frame-rate
/// limit (row 3) or the frame-rate display (row 5) on when off and off
/// when on, and nothing else of the two.
pub proof fn lemma_toggle_rows(s: MenuState)
    requires
        s.cooldown == 0,
        s.graphics_row == 3 || s.graphics_row == 5,
    ensures
        ({
            let t = graphics_step(s, false, false, false, false, true, false, Seq::empty(), false, Scroll::Still).0;
            &&& s.graphics_row == 3 ==> t.fps_enabled == !s.fps_enabled && t.show_fps == s.show_fps
            &&& s.graphics_row == 5 ==> t.show_fps == !s.show_fps && t.fps_enabled == s.fps_enabled
        }),
{
    reveal(graphics_step);
}

/// On the frame-rate row, the limit on and no value being typed, with no
/// wait left: right alone picks the next of the twenty presets and left
/// alone the one before, going round, with that preset's value; a digit
/// typed starts typing a value with that digit.
pub proof fn lemma_fps_preset_row(s: MenuState, d: char)
    requires
        s.cooldown == 0,
        s.graphics_row == 4,
        s.fps_enabled,
        s.fps_mode == FpsEditMode::Preset,
        0 <= s.fps_idx < 20,
        '0' <= d <= '9',
    ensures
        ({
            let r = graphics_step(s, false, false, false, true, false, false, Seq::empty(), false, Scroll::Still).0;
            let l = graphics_step(s, false, false, true, false, false, false, Seq::empty(), false, Scroll::Still).0;
            let t = graphics_step(s, false, false, false, false, false, false, seq![d], false, Scroll::Still).0;
            let ri = if s.fps_idx == 19 {
                0
            } else {
                s.fps_idx + 1
            };
            let li = if s.fps_idx == 0 {
                19
            } else {
                s.fps_idx - 1
            };
            &&& r.fps_idx == ri && r.fps_millis == fps_preset_values()[ri]
            &&& l.fps_idx == li && l.fps_millis == fps_preset_values()[li]
            &&& t.fps_mode == FpsEditMode::Typing && t.fps_buf == seq![d]
        }),
{
    reveal(graphics_step);
}

/// While a frame rate is typed on its row: a digit is added at the end
/// while fewer than six characters stand; backspace alone removes the last
/// character; confirm alone hands the typed text over and ends the typing;
/// escape ends it without handing anything over.
pub proof fn lemma_fps_typing_row(s: MenuState, d: char)
    requires
        s.graphics_row == 4,
        s.fps_enabled,
        s.fps_mode == FpsEditMode::Typing,
        '0' <= d <= '9',
    ensures
        s.fps_buf.len() < 6 ==> graphics_step(s, false, false, false, false, false, false, seq![d], false, Scroll::Still).0.fps_buf
            == s.fps_buf.push(d),
        s.fps_buf.len() > 0 ==> graphics_step(s, false, false, false, false, false, false, Seq::empty(), true, Scroll::Still).0.fps_buf
            == s.fps_buf.drop_last(),
        ({
            let (t, o) = graphics_step(s, false, false, false, false, true, false, Seq::empty(), false, Scroll::Still);
            t.fps_mode == FpsEditMode::Preset && o.fps_commit == Some(s.fps_buf)
        }),
        ({
            let (t, o) = graphics_step(s, false, false, false, false, false, true, Seq::empty(), false, Scroll::Still);
            t.fps_mode == FpsEditMode::Preset && t.fps_buf.len() == 0 && o.fps_commit is None
        }),
{
    reveal(graphics_step);
    let e: Seq<char> = Seq::empty();
    assert(fps_type_all(s.fps_buf, e) == s.fps_buf);
    assert(seq![d].drop_last() =~= e);
    assert(fps_type_all(s.fps_buf, seq![d]) == fps_type_char(fps_type_all(s.fps_buf, e), d));
}


/// Escape on the graphics screen ends the typing of a frame rate, dropping
/// the typed text, or else goes back to the main screen.
pub proof fn lemma_graphics_escape(s: MenuState)
    ensures
        ({
            let t = graphics_step(s, false, false, false, false, false, true, Seq::empty(), false, Scroll::Still).0;
            &&& s.fps_mode == FpsEditMode::Typing ==> t.fps_mode == FpsEditMode::Preset && t.fps_buf.len() == 0
                && t.screen == s.screen
            &&& s.fps_mode != FpsEditMode::Typing ==> t.screen == ActiveScreen::Main
        }),
{
    reveal(graphics_step);
}

} // verus!
