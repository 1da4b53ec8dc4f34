//! A frame of input to the pause menu: the cooldown, the mouse, then the
//! screen shown.

use vstd::prelude::*;
use crate::menu_types::{
    GameAction, MainMenuItem, main_menu_items, ActiveScreen, ControlCol, FpsEditMode, MenuEvent,
    fps_preset, fps_preset_values, res_preset, res_preset_sizes, res_distance, game_action_label,
    find_nearest_fps_preset, find_nearest_res_preset, is_nearest_fps_preset, is_nearest_res_preset,
};
use crate::window_mode::{WindowMode, window_modes};
use crate::bindings::{
    KeyBind, KeyBindView, Binding, BindingView, bindings_view, duplicate_bindings, key_bind_label,
    gamepad_bind_label,
};
use crate::settings::{Settings, bindings_in_order};
use crate::text::{chars_of, string_from_chars, sub_chars};
use crate::menu_state::{PauseMenu, MenuState, RectUpdate, Scroll, MenuOutcome, OutcomeView, opt_chars, opt_str};
use crate::menu_main::{hover_ok, hover_step, main_step, mouse_step};
use crate::menu_controls::{controls_step};
use crate::menu_graphics::{graphics_step};
use crate::menu_seed::{seed_step};

verus! {

/// The stronger of two requests to drop clickable elements.
pub open spec fn rects_join(a: RectUpdate, b: RectUpdate) -> RectUpdate {
    if a == RectUpdate::MainOnlyNoField || b == RectUpdate::MainOnlyNoField {
        RectUpdate::MainOnlyNoField
    } else if a == RectUpdate::MainOnly || b == RectUpdate::MainOnly {
        RectUpdate::MainOnly
    } else {
        RectUpdate::Keep
    }
}

/// The cooldown one frame further on.
pub open spec fn cooled(s: MenuState) -> MenuState {
    if s.cooldown > 0 {
        MenuState { cooldown: s.cooldown - 1, ..s }
    } else {
        s
    }
}

/// The keys act on the screen shown.
#[verifier::opaque]
pub open spec fn screen_step(
    s1: MenuState,
    up: bool,
    down: bool,
    left: bool,
    right: bool,
    confirm: bool,
    esc: bool,
    chars: Seq<char>,
    backspace: bool,
    ctrl_c: bool,
    ctrl_v: bool,
    clipboard: Option<Seq<char>>,
    new_key: Option<Seq<char>>,
    new_mouse: Option<u32>,
    scroll: Scroll,
    arrow_left: bool,
    arrow_right: bool,
    arrow_up: bool,
    arrow_down: bool,
    visible: int,
) -> (MenuState, OutcomeView) {
    match s1.screen {
        ActiveScreen::Main => main_step(s1, up, down, confirm, esc),
        ActiveScreen::Controls => controls_step(
            s1,
            up,
            down,
            left,
            right,
            confirm,
            esc,
            new_key,
            new_mouse,
            scroll,
            visible,
        ),
        ActiveScreen::Graphics => graphics_step(s1, up, down, left, right, confirm, esc, chars, backspace, scroll),
        ActiveScreen::Seed => seed_step(
            s1,
            up,
            down,
            confirm,
            esc,
            chars,
            backspace,
            ctrl_c,
            ctrl_v,
            clipboard,
            arrow_left,
            arrow_right,
            arrow_up,
            arrow_down,
        ),
    }
}

/// A frame's input as values.
pub struct InputArgs {
    pub up: bool,
    pub down: bool,
    pub left: bool,
    pub right: bool,
    pub confirm: bool,
    pub escape: bool,
    pub back: bool,
    pub chars: Seq<char>,
    pub backspace: bool,
    pub ctrl_c: bool,
    pub ctrl_v: bool,
    pub clipboard: Option<Seq<char>>,
    pub new_key: Option<Seq<char>>,
    pub new_mouse: Option<u32>,
    pub scroll: Scroll,
    pub hovered: Option<(u32, usize)>,
    pub clicked: bool,
    pub arrow_left: bool,
    pub arrow_right: bool,
    pub arrow_up: bool,
    pub arrow_down: bool,
    pub visible: int,
}

/// The keys of a frame acting on the screen shown.
pub open spec fn screen_step_of(s1: MenuState, a: InputArgs) -> (MenuState, OutcomeView) {
    screen_step(
        s1,
        a.up,
        a.down,
        a.left,
        a.right,
        a.confirm,
        a.escape || a.back,
        a.chars,
        a.backspace,
        a.ctrl_c,
        a.ctrl_v,
        a.clipboard,
        a.new_key,
        a.new_mouse,
        a.scroll,
        a.arrow_left,
        a.arrow_right,
        a.arrow_up,
        a.arrow_down,
        a.visible,
    )
}

/// A frame of input: the cooldown runs down, the mouse acts first (and a
/// mouse event ends the frame), then the keys act on the screen shown, with
/// the gamepad's back button counting as escape.
#[verifier::opaque]
pub open spec fn frame_step(s: MenuState, a: InputArgs) -> (MenuState, OutcomeView) {
    let m = mouse_step(cooled(s), a.hovered, a.clicked);
    if !(m.1.event is Nothing) {
        m
    } else {
        let k = screen_step_of(m.0, a);
        (k.0, OutcomeView { rects: rects_join(m.1.rects, k.1.rects), ..k.1 })
    }
}

proof fn lemma_input_mouse(s: MenuState, a: InputArgs, s1: MenuState, o1: OutcomeView)
    requires
        (s1, o1) == mouse_step(cooled(s), a.hovered, a.clicked),
        !(o1.event is Nothing),
    ensures
        (s1, o1) == frame_step(s, a),
{
    reveal(frame_step);
}

proof fn lemma_input_keys(
    s: MenuState,
    a: InputArgs,
    s1: MenuState,
    o1: OutcomeView,
    s2: MenuState,
    o2: OutcomeView,
    o: OutcomeView,
)
    requires
        (s1, o1) == mouse_step(cooled(s), a.hovered, a.clicked),
        o1.event is Nothing,
        (s2, o2) == screen_step_of(s1, a),
        o == (OutcomeView { rects: rects_join(o1.rects, o2.rects), ..o2 }),
    ensures
        (s2, o) == frame_step(s, a),
{
    reveal(frame_step);
}

impl PauseMenu {
    /// The stronger of two requests to drop clickable elements.
    fn join_rects(a: RectUpdate, b: RectUpdate) -> (r: RectUpdate)
        ensures
            r == rects_join(a, b),
    {
        if a == RectUpdate::MainOnlyNoField || b == RectUpdate::MainOnlyNoField {
            RectUpdate::MainOnlyNoField
        } else if a == RectUpdate::MainOnly || b == RectUpdate::MainOnly {
            RectUpdate::MainOnly
        } else {
            RectUpdate::Keep
        }
    }

    /// The cooldown one frame further on.
    fn cool_down(&mut self)
        requires
            old(self).wf(),
        ensures
            final(self)@ == cooled(old(self)@),
            final(self).wf(),
    {
        if self.nav_cooldown > 0 {
            self.nav_cooldown = self.nav_cooldown - 1;
        }
    }

    /// The keys on the screen shown (see `screen_step`).
    fn handle_screen(
        &mut self,
        up: bool,
        down: bool,
        left: bool,
        right: bool,
        confirm: bool,
        esc: bool,
        chars: &[char],
        backspace: bool,
        ctrl_c: bool,
        ctrl_v: bool,
        clipboard: Option<&str>,
        new_key: Option<String>,
        new_mouse: Option<u32>,
        scroll: Scroll,
        arrow_left: bool,
        arrow_right: bool,
        arrow_up: bool,
        arrow_down: bool,
        visible: usize,
    ) -> (o: MenuOutcome)
        requires
            old(self).wf(),
            visible >= 1,
        ensures
            (final(self)@, o@) == screen_step(
                old(self)@,
                up,
                down,
                left,
                right,
                confirm,
                esc,
                chars@,
                backspace,
                ctrl_c,
                ctrl_v,
                opt_str(clipboard),
                opt_chars(new_key),
                new_mouse,
                scroll,
                arrow_left,
                arrow_right,
                arrow_up,
                arrow_down,
                visible as int,
            ),
            final(self).wf(),
    {
        proof {
            reveal(screen_step);
        }
        match self.active_screen {
            ActiveScreen::Main => self.handle_main(up, down, confirm, esc),
            ActiveScreen::Controls => self.handle_controls(
                up,
                down,
                left,
                right,
                confirm,
                esc,
                new_key,
                new_mouse,
                scroll,
                visible,
            ),
            ActiveScreen::Graphics => self.handle_graphics(up, down, left, right, confirm, esc, chars, backspace, scroll),
            ActiveScreen::Seed => self.handle_seed(
                up,
                down,
                confirm,
                esc,
                chars,
                backspace,
                ctrl_c,
                ctrl_v,
                clipboard,
                arrow_left,
                arrow_right,
                arrow_up,
                arrow_down,
            ),
        }
    }

    /// A frame of input (see `frame_step`). `hovered` is the clickable
    /// element under the mouse (of a kind the shown screen accepts),
    /// `new_key` names the key pressed this frame, and `visible` is how many
    /// rows the controls screen shows.
    #[verifier::rlimit(100)]
    pub fn handle_input(
        &mut self,
        up: bool,
        down: bool,
        left: bool,
        right: bool,
        confirm: bool,
        escape: bool,
        back: bool,
        chars: &[char],
        backspace: bool,
        ctrl_c: bool,
        ctrl_v: bool,
        clipboard: Option<&str>,
        new_key: Option<String>,
        new_mouse: Option<u32>,
        scroll: Scroll,
        hovered: Option<(u32, usize)>,
        clicked: bool,
        arrow_left: bool,
        arrow_right: bool,
        arrow_up: bool,
        arrow_down: bool,
        visible: usize,
    ) -> (o: MenuOutcome)
        requires
            old(self).wf(),
            hover_ok(old(self)@, hovered),
            visible >= 1,
        ensures
            (final(self)@, o@) == frame_step(
                old(self)@,
                InputArgs {
                    up,
                    down,
                    left,
                    right,
                    confirm,
                    escape,
                    back,
                    chars: chars@,
                    backspace,
                    ctrl_c,
                    ctrl_v,
                    clipboard: opt_str(clipboard),
                    new_key: opt_chars(new_key),
                    new_mouse,
                    scroll,
                    hovered,
                    clicked,
                    arrow_left,
                    arrow_right,
                    arrow_up,
                    arrow_down,
                    visible: visible as int,
                },
            ),
            final(self).wf(),
    {
        let ghost args = InputArgs {
            up,
            down,
            left,
            right,
            confirm,
            escape,
            back,
            chars: chars@,
            backspace,
            ctrl_c,
            ctrl_v,
            clipboard: opt_str(clipboard),
            new_key: opt_chars(new_key),
            new_mouse,
            scroll,
            hovered,
            clicked,
            arrow_left,
            arrow_right,
            arrow_up,
            arrow_down,
            visible: visible as int,
        };
        self.cool_down();
        let ghost s0 = self@;
        let o1 = self.handle_mouse(hovered, clicked);
        let ghost s1 = self@;
        if !o1.event.is_nothing() {
            proof {
                lemma_input_mouse(old(self)@, args, s1, o1@);
            }
            return o1;
        }
        let o2 = self.handle_screen(
            up,
            down,
            left,
            right,
            confirm,
            escape || back,
            chars,
            backspace,
            ctrl_c,
            ctrl_v,
            clipboard,
            new_key,
            new_mouse,
            scroll,
            arrow_left,
            arrow_right,
            arrow_up,
            arrow_down,
            visible,
        );
        let ghost s2 = self@;
        let o = MenuOutcome {
            event: o2.event,
            rects: Self::join_rects(o1.rects, o2.rects),
            scale: o2.scale,
            fps_commit: o2.fps_commit,
        };
        proof {
            lemma_input_keys(old(self)@, args, s1, o1@, s2, o2@, o@);
        }
        o
    }
}


/// Without the mouse, a frame is the step of the screen shown taken after
/// the wait has run down by one frame, with the gamepad's back button
/// acting as escape; the clickable elements are dropped as that step asks.
pub proof fn lemma_frame_acts_on_screen(s: MenuState, a: InputArgs)
    requires
        a.hovered is None,
        !a.clicked,
    ensures
        ({
            let s1 = MenuState { cooldown: if s.cooldown > 0 {
                s.cooldown - 1
            } else {
                s.cooldown
            }, ..s };
            let esc = a.escape || a.back;
            let expect = match s.screen {
                ActiveScreen::Main => main_step(s1, a.up, a.down, a.confirm, esc),
                ActiveScreen::Controls => controls_step(
                    s1,
                    a.up,
                    a.down,
                    a.left,
                    a.right,
                    a.confirm,
                    esc,
                    a.new_key,
                    a.new_mouse,
                    a.scroll,
                    a.visible,
                ),
                ActiveScreen::Graphics => graphics_step(
                    s1,
                    a.up,
                    a.down,
                    a.left,
                    a.right,
                    a.confirm,
                    esc,
                    a.chars,
                    a.backspace,
                    a.scroll,
                ),
                ActiveScreen::Seed => seed_step(
                    s1,
                    a.up,
                    a.down,
                    a.confirm,
                    esc,
                    a.chars,
                    a.backspace,
                    a.ctrl_c,
                    a.ctrl_v,
                    a.clipboard,
                    a.arrow_left,
                    a.arrow_right,
                    a.arrow_up,
                    a.arrow_down,
                ),
            };
            &&& frame_step(s, a).0 == expect.0
            &&& frame_step(s, a).1.event == expect.1.event
            &&& frame_step(s, a).1.rects == expect.1.rects
            &&& frame_step(s, a).1.scale == expect.1.scale
            &&& frame_step(s, a).1.fps_commit == expect.1.fps_commit
        }),
{
    reveal(frame_step);
    reveal(screen_step);
    reveal(mouse_step);
    let s1 = MenuState { cooldown: if s.cooldown > 0 {
        s.cooldown - 1
    } else {
        s.cooldown
    }, ..s };
    assert(cooled(s) == s1);
    assert(hover_step(s1, None) == s1);
}

} // verus!
