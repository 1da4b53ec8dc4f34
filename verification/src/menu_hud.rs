//! The texts the pause menu shows, screen by screen: what each says, how it
//! is shown and where it stands. Placing them on the screen, in pixels and
//! at the interface's scale, is left to the caller.

use vstd::prelude::*;
use crate::menu_types::{
    MainMenuItem, main_menu_items, ActiveScreen, FpsEditMode, res_preset, res_preset_labels,
    fps_label, fps_label_spec,
};
use crate::window_mode::WindowMode;
use crate::menu_state::{PauseMenu, MenuState, min_int};
use crate::menu_view::{RowStyle, SeedTextStyle, seed_field_text, controls_row_texts};
use crate::text::string_from_chars;

verus! {

/// Where a text of the pause menu stands.
#[derive(Debug, Clone, Copy, PartialEq, Eq, Structural)]
pub enum HudSlot {
    /// The shadow of the main screen's title.
    TitleShadow,
    /// The screen's title.
    Title,
    /// Entry `i` of the main screen.
    MainItem(usize),
    /// The header of a binding column of the controls screen: 0 for the
    /// keyboard, 1 for the gamepad.
    ControlsHeader(usize),
    /// Column `c` of row `i` of the controls screen: 0 the action, 1 its key,
    /// 2 its gamepad binding.
    ControlsCell(usize, usize),
    /// The mark that rows lie above those shown.
    ScrollUp,
    /// The mark that rows lie below those shown.
    ScrollDown,
    /// The name of row `i` of the graphics screen.
    GraphicsLabel(usize),
    /// The value of row `i` of the graphics screen.
    GraphicsValue(usize),
    /// The hint under the resolution.
    GraphicsHint,
    /// The seed's text field.
    SeedField,
    /// The hint under the seed's field.
    SeedHint,
    /// Button `i` of the seed screen: 1 applies the seed, 2 draws one.
    SeedButton(usize),
}

/// A text of the menu as a value.
pub type HudText = (Seq<char>, RowStyle, HudSlot);

/// The texts as values.
pub open spec fn hud_view(v: Seq<(String, RowStyle, HudSlot)>) -> Seq<HudText> {
    Seq::new(v.len(), |i: int| (v[i].0@, v[i].1, v[i].2))
}

/// The label of a main-screen entry.
pub open spec fn main_item_label(m: MainMenuItem) -> Seq<char> {
    match m {
        MainMenuItem::Resume => "Reprendre"@,
        MainMenuItem::Controls => "Contrôles"@,
        MainMenuItem::Graphics => "Graphismes"@,
        MainMenuItem::Seed => "Seed"@,
        MainMenuItem::Quit => "Quitter"@,
    }
}

/// The label of a window mode.
pub open spec fn window_mode_label(m: WindowMode) -> Seq<char> {
    match m {
        WindowMode::Windowed => "Fenêtré"@,
        WindowMode::Fullscreen => "Plein écran"@,
        WindowMode::BorderlessFullscreen => "Plein écran fenêtré"@,
    }
}

/// Highlighted when `on`.
pub open spec fn style_if(on: bool) -> RowStyle {
    if on {
        RowStyle::Selected
    } else {
        RowStyle::Normal
    }
}

/// `v` between `<` and `>` when `on`, to show it can be changed.
pub open spec fn arrows_if(on: bool, v: Seq<char>) -> Seq<char> {
    if on {
        "< "@ + v + " >"@
    } else {
        v
    }
}

/// The main screen: the title over its shadow, then the five entries, the
/// highlighted one shown so.
pub open spec fn main_texts(s: MenuState) -> Seq<HudText> {
    seq![("PAUSE"@, RowStyle::PauseShadow, HudSlot::TitleShadow), ("PAUSE"@, RowStyle::PauseTitle, HudSlot::Title)]
        + Seq::new(
        5,
        |i: int| (main_item_label(main_menu_items()[i]), style_if(i == s.main_row), HudSlot::MainItem(i as usize)),
    )
}

/// The texts of rows `from..to` of the controls screen, three a row.
pub open spec fn controls_rows(s: MenuState, from: int, to: int) -> Seq<HudText>
    decreases to - from,
{
    if to <= from {
        Seq::empty()
    } else {
        let (a, k, p, sa, sk, sp) = controls_row_texts(s, to - 1);
        controls_rows(s, from, to - 1) + seq![
            (a, sa, HudSlot::ControlsCell((to - 1) as usize, 0)),
            (k, sk, HudSlot::ControlsCell((to - 1) as usize, 1)),
            (p, sp, HudSlot::ControlsCell((to - 1) as usize, 2)),
        ]
    }
}

/// The controls screen: the title, the column headers, the `visible` rows
/// from the first one shown, and marks where rows lie above or below.
pub open spec fn controls_texts(s: MenuState, visible: int) -> Seq<HudText> {
    let n = s.bindings.len() as int;
    let first = s.controls_scroll;
    let end = min_int(first + visible, n);
    seq![
        ("CONTROLES"@, RowStyle::Title, HudSlot::Title),
        ("Clavier / Souris"@, RowStyle::Dim, HudSlot::ControlsHeader(0)),
        ("Manette"@, RowStyle::Dim, HudSlot::ControlsHeader(1)),
    ] + controls_rows(s, first, end) + (if first > 0 {
        seq![("▲"@, RowStyle::Dim, HudSlot::ScrollUp)]
    } else {
        Seq::empty()
    }) + (if end < n {
        seq![("▼"@, RowStyle::Dim, HudSlot::ScrollDown)]
    } else {
        Seq::empty()
    })
}

/// `[x]` when `on`, `[ ]` otherwise.
pub open spec fn check_mark(on: bool) -> Seq<char> {
    if on {
        "[x]"@
    } else {
        "[ ]"@
    }
}

/// The frame-rate value of the graphics screen and how it is shown: dim
/// when the limit is off, the typed text with a `|` (or `_` when empty)
/// while typing, else the value's label, in arrows when highlighted.
pub open spec fn fps_value_text(s: MenuState, fps_whole: bool) -> (Seq<char>, RowStyle) {
    if !s.fps_enabled {
        (fps_label_spec(s.fps_millis, fps_whole), RowStyle::Dim)
    } else if s.fps_mode == FpsEditMode::Typing {
        (
            (if s.fps_buf.len() == 0 {
                "_"@
            } else {
                s.fps_buf + "|"@
            }) + " fps"@,
            RowStyle::Typing,
        )
    } else {
        ("< "@ + fps_label_spec(s.fps_millis, fps_whole) + " >"@, style_if(s.graphics_row == 4))
    }
}

/// The graphics screen: the title, then each row's name and value, the
/// highlighted row shown so with its value in arrows; a hint under the
/// resolution when it is highlighted. `scale_text` is the interface scale
/// written with two decimals; `fps_whole` says whether the frame-rate value
/// shows as a whole number.
pub open spec fn graphics_texts(s: MenuState, scale_text: Seq<char>, fps_whole: bool) -> Seq<HudText> {
    let g = s.graphics_row;
    let (fv, fs) = fps_value_text(s, fps_whole);
    seq![
        ("GRAPHISMES"@, RowStyle::Title, HudSlot::Title),
        ("Resolution"@, style_if(g == 0), HudSlot::GraphicsLabel(0)),
        (arrows_if(g == 0, res_preset_labels()[s.res_idx]), style_if(g == 0), HudSlot::GraphicsValue(0)),
    ] + (if g == 0 {
        seq![("(Entree pour appliquer)"@, RowStyle::Dim, HudSlot::GraphicsHint)]
    } else {
        Seq::empty()
    }) + seq![
        ("Mode affichage"@, style_if(g == 1), HudSlot::GraphicsLabel(1)),
        (arrows_if(g == 1, window_mode_label(s.window_mode)), style_if(g == 1), HudSlot::GraphicsValue(1)),
        ("Taille interface"@, style_if(g == 2), HudSlot::GraphicsLabel(2)),
        (arrows_if(g == 2, scale_text + "x"@), style_if(g == 2), HudSlot::GraphicsValue(2)),
        ("Limite FPS  "@ + check_mark(s.fps_enabled), style_if(g == 3), HudSlot::GraphicsLabel(3)),
        ("Valeur FPS"@, if !s.fps_enabled {
            RowStyle::Dim
        } else {
            style_if(g == 4)
        }, HudSlot::GraphicsLabel(4)),
        (fv, fs, HudSlot::GraphicsValue(4)),
        ("Afficher FPS  "@ + check_mark(s.show_fps), style_if(g == 5), HudSlot::GraphicsLabel(5)),
    ]
}

/// How the seed field's style is shown.
pub open spec fn seed_style(t: SeedTextStyle) -> RowStyle {
    match t {
        SeedTextStyle::Selected => RowStyle::Selected,
        SeedTextStyle::Placeholder => RowStyle::Dim,
        SeedTextStyle::Normal => RowStyle::Normal,
    }
}

/// The hint under the seed field.
pub open spec fn seed_hint(s: MenuState) -> Seq<char> {
    if s.seed_focused {
        "[Entree] confirmer  [Echap] annuler"@
    } else if s.selected_row == 0 {
        "[Entree] editer  [Bas] Appliquer  [Haut] Aleatoire"@
    } else {
        "[Haut/Bas] naviguer  [Entree] valider"@
    }
}

/// The seed screen: the title, the field showing `seed_width` characters
/// (see `seed_field_text`), a hint, and the two buttons, highlighted when
/// the field does not have the keyboard and their row is highlighted.
pub open spec fn seed_texts(s: MenuState, seed_width: int) -> Seq<HudText> {
    let (t, st) = seed_field_text(s, seed_width);
    seq![
        ("SEED"@, RowStyle::Title, HudSlot::Title),
        (t, seed_style(st), HudSlot::SeedField),
        (seed_hint(s), RowStyle::Dim, HudSlot::SeedHint),
        ("[ Appliquer ]"@, style_if(!s.seed_focused && s.selected_row == 1), HudSlot::SeedButton(1)),
        ("[ Seed aleatoire ]"@, style_if(!s.seed_focused && s.selected_row == 2), HudSlot::SeedButton(2)),
    ]
}

/// The texts of the screen shown.
pub open spec fn hud_texts(
    s: MenuState,
    visible: int,
    seed_width: int,
    scale_text: Seq<char>,
    fps_whole: bool,
) -> Seq<HudText> {
    match s.screen {
        ActiveScreen::Main => main_texts(s),
        ActiveScreen::Controls => controls_texts(s, visible),
        ActiveScreen::Graphics => graphics_texts(s, scale_text, fps_whole),
        ActiveScreen::Seed => seed_texts(s, seed_width),
    }
}

/// The text the selection arrow points at: the highlighted entry or row
/// (on the controls screen only when it is shown; on the graphics screen
/// not the frame-rate value while the limit is off; on the seed screen only
/// while the field does not have the keyboard).
pub open spec fn hud_arrow_spec(s: MenuState, visible: int) -> Option<HudSlot> {
    match s.screen {
        ActiveScreen::Main => Some(HudSlot::MainItem(s.main_row as usize)),
        ActiveScreen::Controls => if s.controls_scroll <= s.selected_row < min_int(
            s.controls_scroll + visible,
            s.bindings.len() as int,
        ) {
            Some(HudSlot::ControlsCell(s.selected_row as usize, 0))
        } else {
            None
        },
        ActiveScreen::Graphics => if s.graphics_row == 4 && !s.fps_enabled {
            None
        } else {
            Some(HudSlot::GraphicsLabel(s.graphics_row as usize))
        },
        ActiveScreen::Seed => if s.seed_focused {
            None
        } else if s.selected_row == 0 {
            Some(HudSlot::SeedField)
        } else {
            Some(HudSlot::SeedButton(s.selected_row as usize))
        },
    }
}

/// `s` followed by `t`.
fn joined(s: &str, t: &str) -> (r: String)
    ensures
        r@ == s@ + t@,
{
    let mut r = s.to_owned();
    r.append(t);
    r
}

/// `v` between `<` and `>` when `on`.
fn arrows(on: bool, v: &str) -> (r: String)
    ensures
        r@ == arrows_if(on, v@),
{
    if on {
        let mut r = "< ".to_owned();
        r.append(v);
        r.append(" >");
        r
    } else {
        v.to_owned()
    }
}

/// Highlighted when `on`.
fn style_of(on: bool) -> (r: RowStyle)
    ensures
        r == style_if(on),
{
    if on {
        RowStyle::Selected
    } else {
        RowStyle::Normal
    }
}

/// `[x]` when `on`, `[ ]` otherwise.
fn mark(on: bool) -> (r: &'static str)
    ensures
        r@ == check_mark(on),
{
    if on {
        "[x]"
    } else {
        "[ ]"
    }
}

/// How a seed field style is shown.
fn seed_style_of(t: SeedTextStyle) -> (r: RowStyle)
    ensures
        r == seed_style(t),
{
    match t {
        SeedTextStyle::Selected => RowStyle::Selected,
        SeedTextStyle::Placeholder => RowStyle::Dim,
        SeedTextStyle::Normal => RowStyle::Normal,
    }
}

impl PauseMenu {
    fn main_hud(&self) -> (r: Vec<(String, RowStyle, HudSlot)>)
        requires
            self.wf(),
        ensures
            hud_view(r@) == main_texts(self@),
    {
        let mut out: Vec<(String, RowStyle, HudSlot)> = Vec::new();
        out.push(("PAUSE".to_owned(), RowStyle::PauseShadow, HudSlot::TitleShadow));
        out.push(("PAUSE".to_owned(), RowStyle::PauseTitle, HudSlot::Title));
        let ghost head = hud_view(out@);
        let ghost f = |i: int|
            (main_item_label(main_menu_items()[i]), style_if(i == self@.main_row), HudSlot::MainItem(i as usize));
        let mut i: usize = 0;
        while i < 5
            invariant
                i <= 5,
                out@.len() == 2 + i,
                hud_view(out@).subrange(0, 2) == head,
                head == seq![("PAUSE"@, RowStyle::PauseShadow, HudSlot::TitleShadow), ("PAUSE"@, RowStyle::PauseTitle, HudSlot::Title)],
                forall|j: int| 0 <= j < i ==> #[trigger] hud_view(out@)[2 + j] == f(j),
                f == (|i: int|
                    (main_item_label(main_menu_items()[i]), style_if(i == self@.main_row), HudSlot::MainItem(i as usize))),
            decreases 5 - i,
        {
            let item = MainMenuItem::at(i);
            let ghost before = hud_view(out@);
            out.push((item.label().to_owned(), style_of(i == self.main_row), HudSlot::MainItem(i)));
            proof {
                assert(hud_view(out@).subrange(0, 2) =~= before.subrange(0, 2));
                assert forall|j: int| 0 <= j < i + 1 implies #[trigger] hud_view(out@)[2 + j] == f(j) by {
                    if j < i {
                        assert(hud_view(out@)[2 + j] == before[2 + j]);
                    }
                }
            }
            i = i + 1;
        }
        proof {
            assert(hud_view(out@) =~= main_texts(self@)) by {
                assert forall|j: int| 0 <= j < 7 implies hud_view(out@)[j] == main_texts(self@)[j] by {
                    if j < 2 {
                        assert(hud_view(out@)[j] == hud_view(out@).subrange(0, 2)[j]);
                    } else {
                        assert(hud_view(out@)[2 + (j - 2)] == f(j - 2));
                    }
                }
            }
        }
        out
    }

    /// The controls screen's rows `from..to`, appended to `out`.
    fn push_controls_rows(&self, out: &mut Vec<(String, RowStyle, HudSlot)>, from: usize, to: usize)
        requires
            self.wf(),
            from <= to <= 12,
        ensures
            hud_view(final(out)@) == hud_view(old(out)@) + controls_rows(self@, from as int, to as int),
    {
        let ghost o0 = hud_view(out@);
        let mut i: usize = from;
        while i < to
            invariant
                self.wf(),
                from <= i <= to <= 12,
                hud_view(out@) == o0 + controls_rows(self@, from as int, i as int),
            decreases to - i,
        {
            let ghost before = hud_view(out@);
            let (a, k, p, sa, sk, sp) = self.controls_row(i);
            out.push((a, sa, HudSlot::ControlsCell(i, 0)));
            out.push((k, sk, HudSlot::ControlsCell(i, 1)));
            out.push((p, sp, HudSlot::ControlsCell(i, 2)));
            proof {
                let (ta, tk, tp, tsa, tsk, tsp) = controls_row_texts(self@, i as int);
                assert(hud_view(out@) =~= before + seq![
                    (ta, tsa, HudSlot::ControlsCell(i, 0)),
                    (tk, tsk, HudSlot::ControlsCell(i, 1)),
                    (tp, tsp, HudSlot::ControlsCell(i, 2)),
                ]);
                assert(controls_rows(self@, from as int, i + 1) == controls_rows(self@, from as int, i as int) + seq![
                    (ta, tsa, HudSlot::ControlsCell(i, 0)),
                    (tk, tsk, HudSlot::ControlsCell(i, 1)),
                    (tp, tsp, HudSlot::ControlsCell(i, 2)),
                ]);
            }
            i = i + 1;
        }
    }

    fn controls_hud(&self, visible: usize) -> (r: Vec<(String, RowStyle, HudSlot)>)
        requires
            self.wf(),
        ensures
            hud_view(r@) == controls_texts(self@, visible as int),
    {
        let mut out: Vec<(String, RowStyle, HudSlot)> = Vec::new();
        out.push(("CONTROLES".to_owned(), RowStyle::Title, HudSlot::Title));
        out.push(("Clavier / Souris".to_owned(), RowStyle::Dim, HudSlot::ControlsHeader(0)));
        out.push(("Manette".to_owned(), RowStyle::Dim, HudSlot::ControlsHeader(1)));
        let ghost head = hud_view(out@);
        let n = self.bindings.len();
        let first = self.controls_scroll;
        let end = if first >= n || visible >= n - first {
            n
        } else {
            first + visible
        };
        let start = if first < end {
            first
        } else {
            end
        };
        proof {
            assert(controls_rows(self@, first as int, end as int) == controls_rows(self@, start as int, end as int));
        }
        self.push_controls_rows(&mut out, start, end);
        let ghost mid = hud_view(out@);
        if first > 0 {
            out.push(("▲".to_owned(), RowStyle::Dim, HudSlot::ScrollUp));
        }
        let ghost mid2 = hud_view(out@);
        if end < n {
            out.push(("▼".to_owned(), RowStyle::Dim, HudSlot::ScrollDown));
        }
        proof {
            assert(head =~= seq![
                ("CONTROLES"@, RowStyle::Title, HudSlot::Title),
                ("Clavier / Souris"@, RowStyle::Dim, HudSlot::ControlsHeader(0)),
                ("Manette"@, RowStyle::Dim, HudSlot::ControlsHeader(1)),
            ]);
            if first > 0 {
                assert(mid2 =~= mid + seq![("▲"@, RowStyle::Dim, HudSlot::ScrollUp)]);
            } else {
                assert(mid2 =~= mid + Seq::<HudText>::empty());
            }
            if end < n {
                assert(hud_view(out@) =~= mid2 + seq![("▼"@, RowStyle::Dim, HudSlot::ScrollDown)]);
            } else {
                assert(hud_view(out@) =~= mid2 + Seq::<HudText>::empty());
            }
            assert(hud_view(out@) =~= controls_texts(self@, visible as int));
        }
        out
    }

    /// The frame-rate value of the graphics screen (see `fps_value_text`).
    fn fps_value(&self, fps_whole: bool) -> (r: (String, RowStyle))
        requires
            self.wf(),
        ensures
            (r.0@, r.1) == fps_value_text(self@, fps_whole),
    {
        if !self.fps_enabled {
            (fps_label(self.fps_millis, fps_whole), RowStyle::Dim)
        } else if self.fps_edit_mode == FpsEditMode::Typing {
            if self.fps_typing_buf.len() == 0 {
                (joined("_", " fps"), RowStyle::Typing)
            } else {
                let mut t = string_from_chars(&self.fps_typing_buf);
                t.append("|");
                t.append(" fps");
                (t, RowStyle::Typing)
            }
        } else {
            let l = fps_label(self.fps_millis, fps_whole);
            (arrows(true, l.as_str()), style_of(self.graphics_row == 4))
        }
    }

    fn graphics_hud(&self, scale_text: &str, fps_whole: bool) -> (r: Vec<(String, RowStyle, HudSlot)>)
        requires
            self.wf(),
        ensures
            hud_view(r@) == graphics_texts(self@, scale_text@, fps_whole),
    {
        let g = self.graphics_row;
        let mut out: Vec<(String, RowStyle, HudSlot)> = Vec::new();
        out.push(("GRAPHISMES".to_owned(), RowStyle::Title, HudSlot::Title));
        out.push(("Resolution".to_owned(), style_of(g == 0), HudSlot::GraphicsLabel(0)));
        let (res_label, _, _) = res_preset(self.res_preset_idx);
        out.push((arrows(g == 0, res_label), style_of(g == 0), HudSlot::GraphicsValue(0)));
        let ghost part1 = hud_view(out@);
        if g == 0 {
            out.push(("(Entree pour appliquer)".to_owned(), RowStyle::Dim, HudSlot::GraphicsHint));
        }
        let ghost part2 = hud_view(out@);
        out.push(("Mode affichage".to_owned(), style_of(g == 1), HudSlot::GraphicsLabel(1)));
        out.push((arrows(g == 1, self.window_mode.label()), style_of(g == 1), HudSlot::GraphicsValue(1)));
        out.push(("Taille interface".to_owned(), style_of(g == 2), HudSlot::GraphicsLabel(2)));
        let scale = joined(scale_text, "x");
        out.push((arrows(g == 2, scale.as_str()), style_of(g == 2), HudSlot::GraphicsValue(2)));
        out.push((joined("Limite FPS  ", mark(self.fps_enabled)), style_of(g == 3), HudSlot::GraphicsLabel(3)));
        let label_style = if !self.fps_enabled {
            RowStyle::Dim
        } else {
            style_of(g == 4)
        };
        out.push(("Valeur FPS".to_owned(), label_style, HudSlot::GraphicsLabel(4)));
        let (fv, fs) = self.fps_value(fps_whole);
        out.push((fv, fs, HudSlot::GraphicsValue(4)));
        out.push((joined("Afficher FPS  ", mark(self.show_fps)), style_of(g == 5), HudSlot::GraphicsLabel(5)));
        proof {
            let gi = g as int;
            let s = self@;
            let (tv, ts) = fps_value_text(s, fps_whole);
            let head = seq![
                ("GRAPHISMES"@, RowStyle::Title, HudSlot::Title),
                ("Resolution"@, style_if(gi == 0), HudSlot::GraphicsLabel(0)),
                (arrows_if(gi == 0, res_preset_labels()[s.res_idx]), style_if(gi == 0), HudSlot::GraphicsValue(0)),
            ];
            let hint: Seq<HudText> = if gi == 0 {
                seq![("(Entree pour appliquer)"@, RowStyle::Dim, HudSlot::GraphicsHint)]
            } else {
                Seq::empty()
            };
            let tail = seq![
                ("Mode affichage"@, style_if(gi == 1), HudSlot::GraphicsLabel(1)),
                (arrows_if(gi == 1, window_mode_label(s.window_mode)), style_if(gi == 1), HudSlot::GraphicsValue(1)),
                ("Taille interface"@, style_if(gi == 2), HudSlot::GraphicsLabel(2)),
                (arrows_if(gi == 2, scale_text@ + "x"@), style_if(gi == 2), HudSlot::GraphicsValue(2)),
                ("Limite FPS  "@ + check_mark(s.fps_enabled), style_if(gi == 3), HudSlot::GraphicsLabel(3)),
                ("Valeur FPS"@, if !s.fps_enabled {
                    RowStyle::Dim
                } else {
                    style_if(gi == 4)
                }, HudSlot::GraphicsLabel(4)),
                (tv, ts, HudSlot::GraphicsValue(4)),
                ("Afficher FPS  "@ + check_mark(s.show_fps), style_if(gi == 5), HudSlot::GraphicsLabel(5)),
            ];
            assert(part1 =~= head);
            assert(part2 =~= head + hint);
            assert(hud_view(out@) =~= head + hint + tail);
            assert(graphics_texts(s, scale_text@, fps_whole) == head + hint + tail);
        }
        out
    }

    fn seed_hud(&self, seed_width: usize) -> (r: Vec<(String, RowStyle, HudSlot)>)
        requires
            self.wf(),
        ensures
            hud_view(r@) == seed_texts(self@, seed_width as int),
    {
        let (t, st) = self.seed_field(seed_width);
        let hint = if self.seed_focused {
            "[Entree] confirmer  [Echap] annuler"
        } else if self.selected_row == 0 {
            "[Entree] editer  [Bas] Appliquer  [Haut] Aleatoire"
        } else {
            "[Haut/Bas] naviguer  [Entree] valider"
        };
        let mut out: Vec<(String, RowStyle, HudSlot)> = Vec::new();
        out.push(("SEED".to_owned(), RowStyle::Title, HudSlot::Title));
        out.push((t, seed_style_of(st), HudSlot::SeedField));
        out.push((hint.to_owned(), RowStyle::Dim, HudSlot::SeedHint));
        out.push((
            "[ Appliquer ]".to_owned(),
            style_of(!self.seed_focused && self.selected_row == 1),
            HudSlot::SeedButton(1),
        ));
        out.push((
            "[ Seed aleatoire ]".to_owned(),
            style_of(!self.seed_focused && self.selected_row == 2),
            HudSlot::SeedButton(2),
        ));
        proof {
            assert(hud_view(out@) =~= seed_texts(self@, seed_width as int));
        }
        out
    }

    /// The texts of the screen shown, in drawing order (see `hud_texts`):
    /// `visible` controls rows, a seed field `seed_width` characters wide,
    /// the interface scale written as `scale_text`, and `fps_whole` saying
    /// whether the frame-rate value shows as a whole number. The caller
    /// first brings the highlighted controls row and the seed's cursor into
    /// view (`fit_controls_scroll`, `fit_seed_scroll`) and places the texts.
    pub fn hud_entries(&self, visible: usize, seed_width: usize, scale_text: &str, fps_whole: bool) -> (r: Vec<
        (String, RowStyle, HudSlot),
    >)
        requires
            self.wf(),
            visible >= 1,
        ensures
            hud_view(r@) == hud_texts(self@, visible as int, seed_width as int, scale_text@, fps_whole),
    {
        match self.active_screen {
            ActiveScreen::Main => self.main_hud(),
            ActiveScreen::Controls => self.controls_hud(visible),
            ActiveScreen::Graphics => self.graphics_hud(scale_text, fps_whole),
            ActiveScreen::Seed => self.seed_hud(seed_width),
        }
    }

    /// The text the selection arrow points at (see `hud_arrow_spec`).
    pub fn hud_arrow(&self, visible: usize) -> (r: Option<HudSlot>)
        requires
            self.wf(),
        ensures
            r == hud_arrow_spec(self@, visible as int),
    {
        match self.active_screen {
            ActiveScreen::Main => Some(HudSlot::MainItem(self.main_row)),
            ActiveScreen::Controls => {
                let n = self.bindings.len();
                let shown = self.controls_scroll <= self.selected_row && self.selected_row < n
                    && self.selected_row - self.controls_scroll < visible;
                if shown {
                    Some(HudSlot::ControlsCell(self.selected_row, 0))
                } else {
                    None
                }
            },
            ActiveScreen::Graphics => if self.graphics_row == 4 && !self.fps_enabled {
                None
            } else {
                Some(HudSlot::GraphicsLabel(self.graphics_row))
            },
            ActiveScreen::Seed => if self.seed_focused {
                None
            } else if self.selected_row == 0 {
                Some(HudSlot::SeedField)
            } else {
                Some(HudSlot::SeedButton(self.selected_row))
            },
        }
    }
}


/// The main screen shows "PAUSE" over its shadow, then its five entries in
/// order, the highlighted one alone shown as selected.
pub proof fn lemma_main_hud(s: MenuState, visible: int, seed_width: int, scale_text: Seq<char>, fps_whole: bool)
    requires
        s.screen == ActiveScreen::Main,
        0 <= s.main_row < 5,
    ensures
        ({
            let t = hud_texts(s, visible, seed_width, scale_text, fps_whole);
            &&& t.len() == 7
            &&& t[0] == ("PAUSE"@, RowStyle::PauseShadow, HudSlot::TitleShadow)
            &&& t[1] == ("PAUSE"@, RowStyle::PauseTitle, HudSlot::Title)
            &&& t[2].0 == "Reprendre"@
            &&& t[3].0 == "Contrôles"@
            &&& t[4].0 == "Graphismes"@
            &&& t[5].0 == "Seed"@
            &&& t[6].0 == "Quitter"@
            &&& forall|i: int|
                0 <= i < 5 ==> (#[trigger] t[2 + i]).2 == HudSlot::MainItem(i as usize) && (t[2 + i].1
                    == RowStyle::Selected) == (i == s.main_row) && (t[2 + i].1 == RowStyle::Selected
                    || t[2 + i].1 == RowStyle::Normal)
        }),
{
}

/// On the graphics screen the name of a row is shown as selected exactly
/// when it is the highlighted row (the frame-rate value's row only while
/// the limit is on; while off it is dim), and the value of the highlighted
/// resolution, mode or scale row stands between arrows.
pub proof fn lemma_graphics_hud(s: MenuState, visible: int, seed_width: int, scale_text: Seq<char>, fps_whole: bool)
    requires
        s.screen == ActiveScreen::Graphics,
        0 <= s.graphics_row < 6,
    ensures
        ({
            let t = hud_texts(s, visible, seed_width, scale_text, fps_whole);
            &&& forall|j: int|
                0 <= j < t.len() ==> ((#[trigger] t[j]).2 matches HudSlot::GraphicsLabel(r) ==> ((t[j].1
                    == RowStyle::Selected) == (r == s.graphics_row && (r != 4 || s.fps_enabled))))
            &&& forall|j: int|
                0 <= j < t.len() && (#[trigger] t[j]).2 == HudSlot::GraphicsValue(2) ==> t[j].0 == (if s.graphics_row
                    == 2 {
                    "< "@ + scale_text + "x"@ + " >"@
                } else {
                    scale_text + "x"@
                })
        }),
{
}

/// The seed screen shows its title, the field, a hint and the two buttons
/// in that order; a button is shown as selected exactly when the field
/// does not have the keyboard and the button's row is highlighted.
pub proof fn lemma_seed_hud(s: MenuState, visible: int, seed_width: int, scale_text: Seq<char>, fps_whole: bool)
    requires
        s.screen == ActiveScreen::Seed,
    ensures
        ({
            let t = hud_texts(s, visible, seed_width, scale_text, fps_whole);
            &&& t.len() == 5
            &&& t[0].2 == HudSlot::Title && t[1].2 == HudSlot::SeedField && t[2].2 == HudSlot::SeedHint
            &&& t[3] == ("[ Appliquer ]"@, if !s.seed_focused && s.selected_row == 1 {
                RowStyle::Selected
            } else {
                RowStyle::Normal
            }, HudSlot::SeedButton(1))
            &&& t[4] == ("[ Seed aleatoire ]"@, if !s.seed_focused && s.selected_row == 2 {
                RowStyle::Selected
            } else {
                RowStyle::Normal
            }, HudSlot::SeedButton(2))
        }),
{
}

} // verus!
