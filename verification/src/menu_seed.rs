//! The pause menu's seed screen and its text field.

use vstd::prelude::*;
use crate::menu_types::{
    GameAction, MainMenuItem, main_menu_items, ActiveScreen, ControlCol, FpsEditMode, MenuEvent,
    fps_preset, fps_preset_values, res_preset, res_preset_sizes, res_distance, game_action_label,
    find_nearest_fps_preset, find_nearest_res_preset, is_nearest_fps_preset, is_nearest_res_preset,
};
use crate::window_mode::{WindowMode, window_modes};
use crate::bindings::{
    KeyBind, KeyBindView, Binding, BindingView, bindings_view, duplicate_bindings, key_bind_label,
    gamepad_bind_label,
};
use crate::settings::{Settings, bindings_in_order};
use crate::text::{chars_of, string_from_chars, sub_chars};
use crate::menu_state::{PauseMenu, MenuState, EventView, RectUpdate, MenuOutcome, OutcomeView, outcome, nothing, is_seed_char, SEED_MAX_LEN, seed_ok, opt_str, is_seed_char_exec};

verus! {

/// The seed emptied, with the cursor and the view at its start.
pub open spec fn seed_cleared(s: MenuState) -> MenuState {
    MenuState { seed: Seq::empty(), cursor: 0, seed_scroll: 0, seed_selected: false, ..s }
}

/// `c` put in the seed at the cursor, if the seed is not full.
pub open spec fn seed_put(s: MenuState, c: char) -> MenuState {
    if s.seed.len() < 256 {
        MenuState { seed: s.seed.insert(s.cursor, c), cursor: s.cursor + 1, ..s }
    } else {
        s
    }
}

/// `c` typed into the seed: a selected seed is replaced.
pub open spec fn seed_insert(s: MenuState, c: char) -> MenuState {
    seed_put(
        if s.seed_selected {
            seed_cleared(s)
        } else {
            s
        },
        c,
    )
}

/// Backspace in the seed: a selected seed is emptied, otherwise the
/// character before the cursor goes.
#[verifier::opaque]
pub open spec fn seed_backspace(s: MenuState) -> MenuState {
    if s.seed_selected {
        seed_cleared(s)
    } else if s.cursor > 0 {
        MenuState { seed: s.seed.remove(s.cursor - 1), cursor: s.cursor - 1, ..s }
    } else {
        s
    }
}

/// A character typed while the seed field has the keyboard: seed
/// characters are inserted, others ignored.
pub open spec fn seed_type_focused(s: MenuState, c: char) -> MenuState {
    if is_seed_char(c) {
        seed_insert(s, c)
    } else {
        s
    }
}

/// A character typed on the seed screen while the field does not have the
/// keyboard: a seed character gives the field the keyboard and is inserted.
pub open spec fn seed_type_unfocused(s: MenuState, c: char) -> MenuState {
    if is_seed_char(c) {
        seed_insert(MenuState { seed_focused: true, selected_row: 0, ..s }, c)
    } else {
        s
    }
}

/// The characters `cs` typed in turn, the field having the keyboard or not.
#[verifier::opaque]
pub open spec fn seed_type_all(s: MenuState, cs: Seq<char>, focused: bool) -> MenuState
    decreases cs.len(),
{
    if cs.len() == 0 {
        s
    } else {
        let s1 = seed_type_all(s, cs.drop_last(), focused);
        if focused {
            seed_type_focused(s1, cs.last())
        } else {
            seed_type_unfocused(s1, cs.last())
        }
    }
}

/// The seed characters of `t`, in order.
pub open spec fn keep_seed_chars(t: Seq<char>) -> Seq<char>
    decreases t.len(),
{
    if t.len() == 0 {
        Seq::empty()
    } else {
        keep_seed_chars(t.drop_last()) + if is_seed_char(t.last()) {
            seq![t.last()]
        } else {
            Seq::empty()
        }
    }
}

/// What pasting `t` gives: its first 256 seed characters.
pub open spec fn paste_text(t: Seq<char>) -> Seq<char> {
    let f = keep_seed_chars(t);
    if f.len() > 256 {
        f.take(256)
    } else {
        f
    }
}

/// The characters `cs` put in turn at the cursor, while the seed is not
/// full.
pub open spec fn seed_put_all(s: MenuState, cs: Seq<char>) -> MenuState
    decreases cs.len(),
{
    if cs.len() == 0 {
        s
    } else {
        seed_put(seed_put_all(s, cs.drop_last()), cs.last())
    }
}

/// Pasting `t`: it replaces a selected seed, otherwise goes in at the
/// cursor as far as the seed has room.
#[verifier::opaque]
pub open spec fn seed_paste(s: MenuState, t: Seq<char>) -> MenuState {
    let p = paste_text(t);
    if s.seed_selected {
        MenuState { seed: p, cursor: p.len() as int, seed_scroll: 0, seed_selected: false, ..s }
    } else {
        seed_put_all(s, p)
    }
}

/// Editing the seed while its field has the keyboard: confirm leaves the
/// field and applies a non-empty seed (keeping the menu open); the arrows
/// move the cursor; typed characters, backspace, copy (selects the seed)
/// and paste edit it.
pub open spec fn seed_edit_step(
    s: MenuState,
    confirm: bool,
    arrow_left: bool,
    arrow_right: bool,
    arrow_up: bool,
    arrow_down: bool,
    chars: Seq<char>,
    backspace: bool,
    ctrl_c: bool,
    ctrl_v: bool,
    clipboard: Option<Seq<char>>,
) -> (MenuState, OutcomeView) {
    if confirm {
        let s1 = MenuState { seed_focused: false, ..s };
        if s.seed.len() > 0 {
            (s1, outcome(EventView::ApplySeedInMenu(s.seed), RectUpdate::Keep))
        } else {
            (s1, nothing())
        }
    } else {
        (seed_keys_step(s, arrow_left, arrow_right, arrow_up, arrow_down, chars, backspace, ctrl_c, ctrl_v, clipboard), nothing())
    }
}

/// The keys while the seed field has the keyboard, but for confirm.
#[verifier::opaque]
pub open spec fn seed_keys_step(
    s: MenuState,
    arrow_left: bool,
    arrow_right: bool,
    arrow_up: bool,
    arrow_down: bool,
    chars: Seq<char>,
    backspace: bool,
    ctrl_c: bool,
    ctrl_v: bool,
    clipboard: Option<Seq<char>>,
) -> MenuState {
    {
        let s4 = seed_cursor_step(s, arrow_left, arrow_right, arrow_up, arrow_down);
        let s5 = seed_type_all(s4, chars, true);
        let s6 = if backspace {
            seed_backspace(s5)
        } else {
            s5
        };
        let s7 = if ctrl_c {
            MenuState { seed_selected: true, ..s6 }
        } else {
            s6
        };
        match clipboard {
            Some(t) => if ctrl_v {
                seed_paste(s7, t)
            } else {
                s7
            },
            None => s7,
        }
    }
}

/// The arrows move the seed's cursor: one place left or right, or to the
/// start or the end.
pub open spec fn seed_cursor_step(s: MenuState, arrow_left: bool, arrow_right: bool, arrow_up: bool, arrow_down: bool) -> MenuState {
    let s1 = if arrow_left && s.cooldown == 0 {
        MenuState {
            cursor: if s.cursor > 0 {
                s.cursor - 1
            } else {
                s.cursor
            },
            cooldown: 3,
            ..s
        }
    } else {
        s
    };
    let s2 = if arrow_right && s1.cooldown == 0 {
        MenuState {
            cursor: if s1.cursor < s1.seed.len() {
                s1.cursor + 1
            } else {
                s1.cursor
            },
            cooldown: 3,
            ..s1
        }
    } else {
        s1
    };
    let s3 = if arrow_up && s2.cooldown == 0 {
        MenuState { cursor: 0, cooldown: 6, ..s2 }
    } else {
        s2
    };
    if arrow_down && s3.cooldown == 0 {
        MenuState { cursor: s3.seed.len() as int, cooldown: 6, ..s3 }
    } else {
        s3
    }
}

/// The seed screen while its field does not have the keyboard: down and up
/// move round the field and the two buttons; confirm gives the field the
/// keyboard, applies a non-empty seed (closing the menu) or asks for a
/// random seed; typing a seed character or backspace (on a non-empty seed)
/// edits the field directly.
pub open spec fn seed_browse_step(
    s: MenuState,
    up: bool,
    down: bool,
    confirm: bool,
    chars: Seq<char>,
    backspace: bool,
) -> (MenuState, OutcomeView) {
    let s1 = if down && s.cooldown == 0 {
        MenuState { selected_row: (s.selected_row + 1) % 3, cooldown: 8, ..s }
    } else {
        s
    };
    let s2 = if up && s1.cooldown == 0 {
        MenuState { selected_row: (s1.selected_row + 2) % 3, cooldown: 8, ..s1 }
    } else {
        s1
    };
    if confirm && s2.selected_row == 0 && s2.cooldown == 0 {
        (MenuState { seed_focused: true, cooldown: 8, ..s2 }, nothing())
    } else if confirm && s2.selected_row == 1 && s2.cooldown == 0 && s2.seed.len() > 0 {
        (s2, outcome(EventView::ApplySeed(s2.seed), RectUpdate::Keep))
    } else if confirm && s2.selected_row == 2 && s2.cooldown == 0 {
        (s2, outcome(EventView::RandomSeed, RectUpdate::Keep))
    } else {
        let s3 = seed_type_all(s2, chars, false);
        let s4 = if backspace && s3.seed.len() > 0 {
            seed_backspace(MenuState { seed_focused: true, selected_row: 0, ..s3 })
        } else {
            s3
        };
        (s4, nothing())
    }
}

/// The seed screen: escape takes the keyboard from the field, or goes back
/// to the main screen (dropping the seed screen's clickable elements).
#[verifier::opaque]
pub open spec fn seed_step(
    s: MenuState,
    up: bool,
    down: bool,
    confirm: bool,
    escape: bool,
    chars: Seq<char>,
    backspace: bool,
    ctrl_c: bool,
    ctrl_v: bool,
    clipboard: Option<Seq<char>>,
    arrow_left: bool,
    arrow_right: bool,
    arrow_up: bool,
    arrow_down: bool,
) -> (MenuState, OutcomeView) {
    if escape {
        if s.seed_focused {
            (MenuState { seed_focused: false, ..s }, nothing())
        } else {
            (MenuState { screen: ActiveScreen::Main, ..s }, outcome(EventView::Nothing, RectUpdate::MainOnlyNoField))
        }
    } else if s.seed_focused {
        seed_edit_step(s, confirm, arrow_left, arrow_right, arrow_up, arrow_down, chars, backspace, ctrl_c, ctrl_v, clipboard)
    } else {
        seed_browse_step(s, up, down, confirm, chars, backspace)
    }
}

proof fn lemma_keep_seed_chars_ok(t: Seq<char>)
    ensures
        forall|i: int| 0 <= i < keep_seed_chars(t).len() ==> is_seed_char(#[trigger] keep_seed_chars(t)[i]),
    decreases t.len(),
{
    if t.len() > 0 {
        lemma_keep_seed_chars_ok(t.drop_last());
        let a = keep_seed_chars(t.drop_last());
        assert forall|i: int| 0 <= i < keep_seed_chars(t).len() implies is_seed_char(#[trigger] keep_seed_chars(t)[i]) by {
            if i < a.len() {
                assert(keep_seed_chars(t)[i] == a[i]);
            }
        }
    }
}

/// What is pasted may stand as a seed.
proof fn lemma_paste_ok(t: Seq<char>)
    ensures
        seed_ok(paste_text(t)),
{
    lemma_keep_seed_chars_ok(t);
    let f = keep_seed_chars(t);
    if f.len() > 256 {
        assert forall|i: int| 0 <= i < f.take(256).len() implies is_seed_char(#[trigger] f.take(256)[i]) by {
            assert(f.take(256)[i] == f[i]);
        }
    }
}

/// Once the seed is full, putting more characters changes nothing.
proof fn lemma_put_all_full(s: MenuState, cs: Seq<char>)
    requires
        s.seed.len() >= 256,
    ensures
        seed_put_all(s, cs) == s,
    decreases cs.len(),
{
    if cs.len() > 0 {
        lemma_put_all_full(s, cs.drop_last());
    }
}

/// Putting `cs` is putting its first `i` characters, then the rest.
proof fn lemma_put_all_split(s: MenuState, cs: Seq<char>, i: int)
    requires
        0 <= i <= cs.len(),
    ensures
        seed_put_all(s, cs) == seed_put_all(seed_put_all(s, cs.subrange(0, i)), cs.subrange(i, cs.len() as int)),
    decreases cs.len() - i,
{
    if i < cs.len() {
        lemma_put_all_split(s, cs, i + 1);
        let rest = cs.subrange(i, cs.len() as int);
        let rest1 = cs.subrange(i + 1, cs.len() as int);
        assert(cs.subrange(0, i + 1).drop_last() =~= cs.subrange(0, i));
        lemma_put_all_prepend(seed_put_all(s, cs.subrange(0, i)), cs[i], rest1);
        assert(seq![cs[i]] + rest1 =~= rest);
    } else {
        assert(cs.subrange(0, i) =~= cs);
        assert(cs.subrange(i, cs.len() as int) =~= Seq::<char>::empty());
    }
}

/// Putting `c` then `cs` is putting `c` followed by `cs`.
proof fn lemma_put_all_prepend(s: MenuState, c: char, cs: Seq<char>)
    ensures
        seed_put_all(seed_put(s, c), cs) == seed_put_all(s, seq![c] + cs),
    decreases cs.len(),
{
    if cs.len() == 0 {
        assert((seq![c] + cs).drop_last() =~= Seq::<char>::empty());
        assert((seq![c] + cs).last() == c);
        assert(seed_put_all(s, Seq::<char>::empty()) == s);
    } else {
        lemma_put_all_prepend(s, c, cs.drop_last());
        assert((seq![c] + cs).drop_last() =~= seq![c] + cs.drop_last());
        assert((seq![c] + cs).last() == cs.last());
    }
}

proof fn lemma_seed_keys(
    s: MenuState,
    arrow_left: bool,
    arrow_right: bool,
    arrow_up: bool,
    arrow_down: bool,
    chars: Seq<char>,
    backspace: bool,
    ctrl_c: bool,
    ctrl_v: bool,
    clipboard: Option<Seq<char>>,
    s4: MenuState,
    s5: MenuState,
    s6: MenuState,
    s7: MenuState,
    s8: MenuState,
)
    requires
        s4 == seed_cursor_step(s, arrow_left, arrow_right, arrow_up, arrow_down),
        s5 == seed_type_all(s4, chars, true),
        s6 == (if backspace {
            seed_backspace(s5)
        } else {
            s5
        }),
        s7 == (if ctrl_c {
            MenuState { seed_selected: true, ..s6 }
        } else {
            s6
        }),
        s8 == (match clipboard {
            Some(t) => if ctrl_v {
                seed_paste(s7, t)
            } else {
                s7
            },
            None => s7,
        }),
    ensures
        s8 == seed_keys_step(s, arrow_left, arrow_right, arrow_up, arrow_down, chars, backspace, ctrl_c, ctrl_v, clipboard),
{
    reveal(seed_keys_step);
}

/// The seed is one the menu can hold, and the cursor lies within it.
pub open spec fn seed_field_ok(s: MenuState) -> bool {
    &&& seed_ok(s.seed)
    &&& 0 <= s.cursor <= s.seed.len()
}

proof fn lemma_put_keeps(s: MenuState, c: char)
    requires
        seed_field_ok(s),
        is_seed_char(c),
    ensures
        seed_field_ok(seed_put(s, c)),
{
    if s.seed.len() < 256 {
        let t = s.seed.insert(s.cursor, c);
        assert forall|i: int| 0 <= i < t.len() implies is_seed_char(#[trigger] t[i]) by {
            if i < s.cursor {
                assert(t[i] == s.seed[i]);
            } else if i > s.cursor {
                assert(t[i] == s.seed[i - 1]);
            }
        }
    }
}

proof fn lemma_insert_keeps(s: MenuState, c: char)
    requires
        seed_field_ok(s),
        is_seed_char(c),
    ensures
        seed_field_ok(seed_insert(s, c)),
{
    if s.seed_selected {
        lemma_put_keeps(seed_cleared(s), c);
    } else {
        lemma_put_keeps(s, c);
    }
}

proof fn lemma_type_all_keeps(s: MenuState, cs: Seq<char>, focused: bool)
    requires
        seed_field_ok(s),
    ensures
        seed_field_ok(seed_type_all(s, cs, focused)),
    decreases cs.len(),
{
    reveal(seed_type_all);
    if cs.len() > 0 {
        lemma_type_all_keeps(s, cs.drop_last(), focused);
        let s1 = seed_type_all(s, cs.drop_last(), focused);
        if is_seed_char(cs.last()) {
            if focused {
                lemma_insert_keeps(s1, cs.last());
            } else {
                lemma_insert_keeps(MenuState { seed_focused: true, selected_row: 0, ..s1 }, cs.last());
            }
        }
    }
}

proof fn lemma_backspace_keeps(s: MenuState)
    requires
        seed_field_ok(s),
    ensures
        seed_field_ok(seed_backspace(s)),
{
    reveal(seed_backspace);
    if !s.seed_selected && s.cursor > 0 {
        let t = s.seed.remove(s.cursor - 1);
        assert forall|i: int| 0 <= i < t.len() implies is_seed_char(#[trigger] t[i]) by {
            if i < s.cursor - 1 {
                assert(t[i] == s.seed[i]);
            } else {
                assert(t[i] == s.seed[i + 1]);
            }
        }
    }
}

proof fn lemma_put_all_keeps(s: MenuState, cs: Seq<char>)
    requires
        seed_field_ok(s),
        forall|i: int| 0 <= i < cs.len() ==> is_seed_char(#[trigger] cs[i]),
    ensures
        seed_field_ok(seed_put_all(s, cs)),
    decreases cs.len(),
{
    if cs.len() > 0 {
        lemma_put_all_keeps(s, cs.drop_last());
        assert(is_seed_char(cs[cs.len() - 1]));
        lemma_put_keeps(seed_put_all(s, cs.drop_last()), cs.last());
    }
}

proof fn lemma_paste_keeps(s: MenuState, t: Seq<char>)
    requires
        seed_field_ok(s),
    ensures
        seed_field_ok(seed_paste(s, t)),
{
    reveal(seed_paste);
    lemma_paste_ok(t);
    if !s.seed_selected {
        lemma_put_all_keeps(s, paste_text(t));
    }
}

proof fn lemma_keys_keep(
    s: MenuState,
    arrow_left: bool,
    arrow_right: bool,
    arrow_up: bool,
    arrow_down: bool,
    chars: Seq<char>,
    backspace: bool,
    ctrl_c: bool,
    ctrl_v: bool,
    clipboard: Option<Seq<char>>,
)
    requires
        seed_field_ok(s),
    ensures
        seed_field_ok(
            seed_keys_step(s, arrow_left, arrow_right, arrow_up, arrow_down, chars, backspace, ctrl_c, ctrl_v, clipboard),
        ),
{
    reveal(seed_keys_step);
    let s4 = seed_cursor_step(s, arrow_left, arrow_right, arrow_up, arrow_down);
    assert(seed_field_ok(s4));
    lemma_type_all_keeps(s4, chars, true);
    let s5 = seed_type_all(s4, chars, true);
    lemma_backspace_keeps(s5);
    let s6 = if backspace {
        seed_backspace(s5)
    } else {
        s5
    };
    let s7 = if ctrl_c {
        MenuState { seed_selected: true, ..s6 }
    } else {
        s6
    };
    assert(seed_field_ok(s7));
    if let Some(t) = clipboard {
        lemma_paste_keeps(s7, t);
    }
}

proof fn lemma_browse_keeps(s: MenuState, up: bool, down: bool, confirm: bool, chars: Seq<char>, backspace: bool)
    requires
        seed_field_ok(s),
    ensures
        seed_field_ok(seed_browse_step(s, up, down, confirm, chars, backspace).0),
{
    let s1 = if down && s.cooldown == 0 {
        MenuState { selected_row: (s.selected_row + 1) % 3, cooldown: 8, ..s }
    } else {
        s
    };
    let s2 = if up && s1.cooldown == 0 {
        MenuState { selected_row: (s1.selected_row + 2) % 3, cooldown: 8, ..s1 }
    } else {
        s1
    };
    assert(seed_field_ok(s2));
    lemma_type_all_keeps(s2, chars, false);
    let s3 = seed_type_all(s2, chars, false);
    lemma_backspace_keeps(MenuState { seed_focused: true, selected_row: 0, ..s3 });
}

/// A seed of at most 256 letters, digits, `_` and `-` stays so through
/// every frame of the seed screen, whatever is typed or pasted, and the
/// cursor stays within it: typed characters other than those are dropped,
/// nothing goes into a full seed, and pasted text is filtered the same way
/// and cut to 256 characters.
pub proof fn lemma_seed_step_keeps_seed(
    s: MenuState,
    up: bool,
    down: bool,
    confirm: bool,
    escape: bool,
    chars: Seq<char>,
    backspace: bool,
    ctrl_c: bool,
    ctrl_v: bool,
    clipboard: Option<Seq<char>>,
    arrow_left: bool,
    arrow_right: bool,
    arrow_up: bool,
    arrow_down: bool,
)
    requires
        seed_ok(s.seed),
        0 <= s.cursor <= s.seed.len(),
    ensures
        ({
            let s2 = seed_step(
                s,
                up,
                down,
                confirm,
                escape,
                chars,
                backspace,
                ctrl_c,
                ctrl_v,
                clipboard,
                arrow_left,
                arrow_right,
                arrow_up,
                arrow_down,
            ).0;
            seed_ok(s2.seed) && 0 <= s2.cursor <= s2.seed.len()
        }),
{
    reveal(seed_step);
    lemma_keys_keep(s, arrow_left, arrow_right, arrow_up, arrow_down, chars, backspace, ctrl_c, ctrl_v, clipboard);
    lemma_browse_keeps(s, up, down, confirm, chars, backspace);
}

impl PauseMenu {
    /// Empties the seed (see `seed_cleared`).
    fn clear_seed(&mut self)
        requires
            old(self).wf(),
        ensures
            final(self)@ == seed_cleared(old(self)@),
            final(self).wf(),
    {
        self.seed_input.clear();
        self.seed_cursor = 0;
        self.seed_scroll = 0;
        self.seed_selected = false;
    }

    /// Puts `c` at the cursor if the seed is not full (see `seed_put`).
    fn put_seed_char(&mut self, c: char)
        requires
            old(self).wf(),
            is_seed_char(c),
        ensures
            final(self)@ == seed_put(old(self)@, c),
            final(self).wf(),
    {
        if self.seed_input.len() < SEED_MAX_LEN {
            self.seed_input.insert(self.seed_cursor, c);
            self.seed_cursor = self.seed_cursor + 1;
        }
    }

    /// Types `c` into the seed (see `seed_insert`).
    fn insert_seed_char(&mut self, c: char)
        requires
            old(self).wf(),
            is_seed_char(c),
        ensures
            final(self)@ == seed_insert(old(self)@, c),
            final(self).wf(),
    {
        if self.seed_selected {
            self.clear_seed();
        }
        self.put_seed_char(c);
    }

    /// Backspace in the seed (see `seed_backspace`).
    fn seed_backspace_key(&mut self)
        requires
            old(self).wf(),
        ensures
            final(self)@ == seed_backspace(old(self)@),
            final(self).wf(),
    {
        proof {
            reveal(seed_backspace);
        }
        if self.seed_selected {
            self.clear_seed();
        } else if self.seed_cursor > 0 {
            self.seed_cursor = self.seed_cursor - 1;
            self.seed_input.remove(self.seed_cursor);
        }
    }

    /// Types the characters `chars` in turn (see `seed_type_all`).
    fn seed_type_chars(&mut self, chars: &[char], focused: bool)
        requires
            old(self).wf(),
            old(self)@.screen == ActiveScreen::Seed,
        ensures
            final(self)@ == seed_type_all(old(self)@, chars@, focused),
            final(self).wf(),
            final(self)@.screen == ActiveScreen::Seed,
    {
        proof {
            reveal(seed_type_all);
        }
        let mut i: usize = 0;
        while i < chars.len()
            invariant
                self.wf(),
                self@.screen == ActiveScreen::Seed,
                i <= chars@.len(),
                self@ == seed_type_all(old(self)@, chars@.subrange(0, i as int), focused),
            decreases chars@.len() - i,
        {
            let c = chars[i];
            if is_seed_char_exec(c) {
                if !focused {
                    self.seed_focused = true;
                    self.selected_row = 0;
                }
                self.insert_seed_char(c);
            }
            proof {
                reveal(seed_type_all);
                let pre = chars@.subrange(0, i + 1);
                assert(pre.drop_last() =~= chars@.subrange(0, i as int));
            }
            i = i + 1;
        }
        assert(chars@.subrange(0, chars@.len() as int) =~= chars@);
    }

    /// The characters of `text` that may stand in a seed, at most 256 of
    /// them (see `paste_text`).
    fn pasted_chars(text: &str) -> (p: Vec<char>)
        ensures
            p@ == paste_text(text@),
    {
        let t = chars_of(text);
        let mut f: Vec<char> = Vec::new();
        let mut i: usize = 0;
        while i < t.len()
            invariant
                i <= t@.len(),
                t@ == text@,
                f@ == keep_seed_chars(t@.subrange(0, i as int)),
            decreases t@.len() - i,
        {
            let c = t[i];
            proof {
                let pre = t@.subrange(0, i + 1);
                assert(pre.drop_last() =~= t@.subrange(0, i as int));
            }
            if is_seed_char_exec(c) {
                f.push(c);
            }
            proof {
                assert(f@ =~= keep_seed_chars(t@.subrange(0, i + 1)));
            }
            i = i + 1;
        }
        assert(t@.subrange(0, t@.len() as int) =~= t@);
        if f.len() > SEED_MAX_LEN {
            f.truncate(SEED_MAX_LEN);
        }
        f
    }

    /// Pastes `text` (see `seed_paste`).
    fn paste_seed(&mut self, text: &str)
        requires
            old(self).wf(),
        ensures
            final(self)@ == seed_paste(old(self)@, text@),
            final(self).wf(),
    {
        proof {
            reveal(seed_paste);
        }
        let p = Self::pasted_chars(text);
        proof {
            lemma_paste_ok(text@);
        }
        if self.seed_selected {
            self.seed_cursor = p.len();
            self.seed_scroll = 0;
            self.seed_input = p;
            self.seed_selected = false;
        } else {
            let mut i: usize = 0;
            while i < p.len()
                invariant
                    self.wf(),
                    i <= p@.len(),
                    seed_ok(p@),
                    p@ == paste_text(text@),
                    !old(self)@.seed_selected,
                    self@ == seed_put_all(old(self)@, p@.subrange(0, i as int)),
                decreases p@.len() - i,
            {
                if self.seed_input.len() >= SEED_MAX_LEN {
                    proof {
                        reveal(seed_paste);
                        lemma_put_all_full(self@, p@.subrange(i as int, p@.len() as int));
                        lemma_put_all_split(old(self)@, p@, i as int);
                    }
                    return;
                }
                self.put_seed_char(p[i]);
                proof {
                    let pre = p@.subrange(0, i + 1);
                    assert(pre.drop_last() =~= p@.subrange(0, i as int));
                }
                i = i + 1;
            }
            assert(p@.subrange(0, p@.len() as int) =~= p@);
            proof {
                reveal(seed_paste);
            }
        }
    }

    /// Editing the seed while its field has the keyboard (see
    /// `seed_edit_step`).
    fn seed_edit(
        &mut self,
        confirm: bool,
        arrow_left: bool,
        arrow_right: bool,
        arrow_up: bool,
        arrow_down: bool,
        chars: &[char],
        backspace: bool,
        ctrl_c: bool,
        ctrl_v: bool,
        clipboard: Option<&str>,
    ) -> (o: MenuOutcome)
        requires
            old(self).wf(),
            old(self)@.screen == ActiveScreen::Seed,
        ensures
            (final(self)@, o@) == seed_edit_step(
                old(self)@,
                confirm,
                arrow_left,
                arrow_right,
                arrow_up,
                arrow_down,
                chars@,
                backspace,
                ctrl_c,
                ctrl_v,
                opt_str(clipboard),
            ),
            final(self).wf(),
    {
        let none = MenuOutcome { event: MenuEvent::Nothing, rects: RectUpdate::Keep, scale: None, fps_commit: None };
        if confirm {
            self.seed_focused = false;
            if self.seed_input.len() > 0 {
                return MenuOutcome {
                    event: MenuEvent::ApplySeedInMenu(self.seed_string()),
                    rects: RectUpdate::Keep,
                    scale: None,
                    fps_commit: None,
                };
            }
            return none;
        }
        self.seed_keys(arrow_left, arrow_right, arrow_up, arrow_down, chars, backspace, ctrl_c, ctrl_v, clipboard);
        none
    }

    /// The keys while the seed field has the keyboard, but for confirm (see
    /// `seed_keys_step`).
    #[verifier::rlimit(60)]
    fn seed_keys(
        &mut self,
        arrow_left: bool,
        arrow_right: bool,
        arrow_up: bool,
        arrow_down: bool,
        chars: &[char],
        backspace: bool,
        ctrl_c: bool,
        ctrl_v: bool,
        clipboard: Option<&str>,
    )
        requires
            old(self).wf(),
            old(self)@.screen == ActiveScreen::Seed,
        ensures
            final(self)@ == seed_keys_step(
                old(self)@,
                arrow_left,
                arrow_right,
                arrow_up,
                arrow_down,
                chars@,
                backspace,
                ctrl_c,
                ctrl_v,
                opt_str(clipboard),
            ),
            final(self).wf(),
    {
        self.seed_cursor_keys(arrow_left, arrow_right, arrow_up, arrow_down);
        let ghost s4 = self@;
        self.seed_type_chars(chars, true);
        let ghost s5 = self@;
        if backspace {
            self.seed_backspace_key();
        }
        let ghost s6 = self@;
        if ctrl_c {
            self.seed_selected = true;
        }
        let ghost s7 = self@;
        if ctrl_v {
            if let Some(text) = clipboard {
                self.paste_seed(text);
            }
        }
        proof {
            lemma_seed_keys(
                old(self)@,
                arrow_left,
                arrow_right,
                arrow_up,
                arrow_down,
                chars@,
                backspace,
                ctrl_c,
                ctrl_v,
                opt_str(clipboard),
                s4,
                s5,
                s6,
                s7,
                self@,
            );
        }
    }

    /// The arrows on the seed's cursor (see `seed_cursor_step`).
    #[verifier::rlimit(30)]
    fn seed_cursor_keys(&mut self, arrow_left: bool, arrow_right: bool, arrow_up: bool, arrow_down: bool)
        requires
            old(self).wf(),
        ensures
            final(self)@ == seed_cursor_step(old(self)@, arrow_left, arrow_right, arrow_up, arrow_down),
            final(self).wf(),
    {
        if arrow_left && self.nav_cooldown == 0 {
            if self.seed_cursor > 0 {
                self.seed_cursor = self.seed_cursor - 1;
            }
            self.nav_cooldown = 3;
        }
        if arrow_right && self.nav_cooldown == 0 {
            if self.seed_cursor < self.seed_input.len() {
                self.seed_cursor = self.seed_cursor + 1;
            }
            self.nav_cooldown = 3;
        }
        if arrow_up && self.nav_cooldown == 0 {
            self.seed_cursor = 0;
            self.nav_cooldown = 6;
        }
        if arrow_down && self.nav_cooldown == 0 {
            self.seed_cursor = self.seed_input.len();
            self.nav_cooldown = 6;
        }
    }

    /// The seed screen without the field having the keyboard (see
    /// `seed_browse_step`).
    #[verifier::rlimit(60)]
    fn seed_browse(&mut self, up: bool, down: bool, confirm: bool, chars: &[char], backspace: bool) -> (o: MenuOutcome)
        requires
            old(self).wf(),
            old(self)@.screen == ActiveScreen::Seed,
        ensures
            (final(self)@, o@) == seed_browse_step(old(self)@, up, down, confirm, chars@, backspace),
            final(self).wf(),
    {
        if down && self.nav_cooldown == 0 {
            self.selected_row = (self.selected_row + 1) % 3;
            self.nav_cooldown = 8;
        }
        if up && self.nav_cooldown == 0 {
            self.selected_row = (self.selected_row + 3 - 1) % 3;
            self.nav_cooldown = 8;
        }
        if confirm && self.selected_row == 0 && self.nav_cooldown == 0 {
            self.seed_focused = true;
            self.nav_cooldown = 8;
            return MenuOutcome { event: MenuEvent::Nothing, rects: RectUpdate::Keep, scale: None, fps_commit: None };
        }
        if confirm && self.selected_row == 1 && self.nav_cooldown == 0 {
            if self.seed_input.len() > 0 {
                return MenuOutcome {
                    event: MenuEvent::ApplySeed(self.seed_string()),
                    rects: RectUpdate::Keep,
                    scale: None,
                    fps_commit: None,
                };
            }
        }
        if confirm && self.selected_row == 2 && self.nav_cooldown == 0 {
            return MenuOutcome { event: MenuEvent::RandomSeed, rects: RectUpdate::Keep, scale: None, fps_commit: None };
        }
        self.seed_type_chars(chars, false);
        if backspace && self.seed_input.len() > 0 {
            self.seed_focused = true;
            self.selected_row = 0;
            self.seed_backspace_key();
        }
        MenuOutcome { event: MenuEvent::Nothing, rects: RectUpdate::Keep, scale: None, fps_commit: None }
    }

    /// The seed screen (see `seed_step`); `clipboard` is the clipboard's
    /// text, when there is one.
    pub fn handle_seed(
        &mut self,
        up: bool,
        down: bool,
        confirm: bool,
        escape: bool,
        chars: &[char],
        backspace: bool,
        ctrl_c: bool,
        ctrl_v: bool,
        clipboard: Option<&str>,
        arrow_left: bool,
        arrow_right: bool,
        arrow_up: bool,
        arrow_down: bool,
    ) -> (o: MenuOutcome)
        requires
            old(self).wf(),
            old(self)@.screen == ActiveScreen::Seed,
        ensures
            (final(self)@, o@) == seed_step(
                old(self)@,
                up,
                down,
                confirm,
                escape,
                chars@,
                backspace,
                ctrl_c,
                ctrl_v,
                opt_str(clipboard),
                arrow_left,
                arrow_right,
                arrow_up,
                arrow_down,
            ),
            final(self).wf(),
    {
        proof {
            reveal(seed_step);
        }
        if escape {
            if self.seed_focused {
                self.seed_focused = false;
                return MenuOutcome { event: MenuEvent::Nothing, rects: RectUpdate::Keep, scale: None, fps_commit: None };
            }
            self.active_screen = ActiveScreen::Main;
            return MenuOutcome {
                event: MenuEvent::Nothing,
                rects: RectUpdate::MainOnlyNoField,
                scale: None,
                fps_commit: None,
            };
        }
        if self.seed_focused {
            self.seed_edit(confirm, arrow_left, arrow_right, arrow_up, arrow_down, chars, backspace, ctrl_c, ctrl_v, clipboard)
        } else {
            self.seed_browse(up, down, confirm, chars, backspace)
        }
    }
}


/// With the seed field focused and no wait left, the left arrow alone moves
/// a cursor that is not at the start one place left, and the right arrow
/// alone one not at the end one place right; the seed stays as it was.
pub proof fn lemma_seed_arrows_move_by_one(s: MenuState)
    requires
        s.seed_focused,
        s.cooldown == 0,
        0 <= s.cursor <= s.seed.len(),
    ensures
        ({
            let l = seed_step(s, false, false, false, false, Seq::empty(), false, false, false, None, true, false, false, false).0;
            let r = seed_step(s, false, false, false, false, Seq::empty(), false, false, false, None, false, true, false, false).0;
            &&& l.seed == s.seed
            &&& r.seed == s.seed
            &&& s.cursor > 0 ==> l.cursor == s.cursor - 1
            &&& s.cursor == 0 ==> l.cursor == 0
            &&& s.cursor < s.seed.len() ==> r.cursor == s.cursor + 1
            &&& s.cursor == s.seed.len() ==> r.cursor == s.cursor
        }),
{
    reveal(seed_step);
    reveal(seed_keys_step);
    reveal(seed_type_all);
}


/// With the seed field focused and no wait left: a seed character typed
/// goes in at the cursor, which moves past it, while the seed is not
/// selected and has room; any other character changes nothing; backspace
/// alone removes the character before a cursor not at the start; the up
/// and down arrows alone move the cursor to the start and to the end.
pub proof fn lemma_seed_editing(s: MenuState, c: char)
    requires
        s.seed_focused,
        s.cooldown == 0,
        !s.seed_selected,
        0 <= s.cursor <= s.seed.len(),
    ensures
        ({
            let t = seed_step(s, false, false, false, false, seq![c], false, false, false, None, false, false, false, false).0;
            &&& is_seed_char(c) && s.seed.len() < 256 ==> t.seed == s.seed.insert(s.cursor, c) && t.cursor == s.cursor + 1
            &&& !is_seed_char(c) ==> t.seed == s.seed && t.cursor == s.cursor
        }),
        ({
            let t = seed_step(s, false, false, false, false, Seq::empty(), true, false, false, None, false, false, false, false).0;
            s.cursor > 0 ==> t.seed == s.seed.remove(s.cursor - 1) && t.cursor == s.cursor - 1
        }),
        seed_step(s, false, false, false, false, Seq::empty(), false, false, false, None, false, false, true, false).0.cursor
            == 0,
        seed_step(s, false, false, false, false, Seq::empty(), false, false, false, None, false, false, false, true).0.cursor
            == s.seed.len(),
{
    reveal(seed_step);
    reveal(seed_keys_step);
    reveal(seed_type_all);
    reveal(seed_backspace);
    let e: Seq<char> = Seq::empty();
    assert(seq![c].drop_last() =~= e);
    assert(seq![c].last() == c);
}

/// With the field focused, confirm leaves the field and applies a seed that
/// is not empty, keeping the menu open; without the focus and no wait left,
/// down and up move round the field and the two buttons, and confirm gives
/// the field the keyboard, applies a non-empty seed (closing the menu) or
/// asks for a random seed.
pub proof fn lemma_seed_screen_actions(s: MenuState)
    requires
        s.cooldown == 0,
        0 <= s.selected_row < 3,
    ensures
        ({
            let (t, o) = seed_step(
                MenuState { seed_focused: true, ..s },
                false,
                false,
                true,
                false,
                Seq::empty(),
                false,
                false,
                false,
                None,
                false,
                false,
                false,
                false,
            );
            &&& !t.seed_focused
            &&& s.seed.len() > 0 ==> o.event == EventView::ApplySeedInMenu(s.seed)
            &&& s.seed.len() == 0 ==> o.event == EventView::Nothing
        }),
        ({
            let u = MenuState { seed_focused: false, ..s };
            let d = seed_step(u, false, true, false, false, Seq::empty(), false, false, false, None, false, false, false, false).0;
            let p = seed_step(u, true, false, false, false, Seq::empty(), false, false, false, None, false, false, false, false).0;
            let (c, o) = seed_step(u, false, false, true, false, Seq::empty(), false, false, false, None, false, false, false, false);
            &&& d.selected_row == (if s.selected_row == 2 {
                0
            } else {
                s.selected_row + 1
            })
            &&& p.selected_row == (if s.selected_row == 0 {
                2
            } else {
                s.selected_row - 1
            })
            &&& s.selected_row == 0 ==> c.seed_focused
            &&& s.selected_row == 1 && s.seed.len() > 0 ==> o.event == EventView::ApplySeed(s.seed)
            &&& s.selected_row == 2 ==> o.event == EventView::RandomSeed
        }),
{
    reveal(seed_step);
    reveal(seed_type_all);
}


/// Escape on the seed screen takes the keyboard from the field, or, when
/// the field does not have it, goes back to the main screen; the seed stays.
pub proof fn lemma_seed_escape(s: MenuState)
    ensures
        ({
            let t = seed_step(s, false, false, false, true, Seq::empty(), false, false, false, None, false, false, false, false).0;
            &&& t.seed == s.seed
            &&& s.seed_focused ==> !t.seed_focused && t.screen == s.screen
            &&& !s.seed_focused ==> t.screen == ActiveScreen::Main
        }),
{
    reveal(seed_step);
}

} // verus!
