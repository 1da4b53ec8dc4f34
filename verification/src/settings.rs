//! The settings kept between runs: display, frame rate and bindings.

use vstd::prelude::*;
use crate::menu_types::{GameAction, game_actions};
use crate::window_mode::WindowMode;
use crate::menu_types::game_action_config_name;
use crate::window_mode::{window_mode_name, window_mode_from_name};
use crate::bindings::{
    KeyBind, KeyBindView, PadButton, GamepadBind, Binding, BindingView, bindings_view, key_view,
    parse_key_bind_spec, parse_gamepad_bind_spec, parse_key_bind, parse_gamepad_bind,
    key_bind_text, pad_bind_text, key_bind_text_of, pad_bind_text_of,
};
use crate::text::{
    chars_of, chars_equal_str, sub_chars, trim, trim_chars, split_lines, find_from, find_char,
    parse_u32_spec, parse_u32, decimal, decimal_chars, string_from_chars,
};

verus! {

/// The settings, but for the interface scale, which the application keeps
/// beside them.
#[derive(Debug, PartialEq, Eq)]
pub struct Settings {
    pub window_mode: WindowMode,
    pub res_width: u32,
    pub res_height: u32,
    pub fps_enabled: bool,
    /// The frame-rate limit in thousandths of frames per second.
    pub fps_millis: u32,
    pub show_fps: bool,
    /// One binding per action, in the order of `game_actions()`.
    pub bindings: Vec<(GameAction, Binding)>,
}

/// One binding per action, in the order of `game_actions()`.
pub open spec fn bindings_in_order(b: Seq<(GameAction, BindingView)>) -> bool {
    &&& b.len() == 12
    &&& forall|i: int| 0 <= i < 12 ==> (#[trigger] b[i]).0 == game_actions()[i]
}

impl Settings {
    /// The bindings list one binding per action, in order.
    pub open spec fn wf(&self) -> bool {
        bindings_in_order(bindings_view(self.bindings@))
    }
}

/// The bindings of a first run.
pub open spec fn default_bindings_spec() -> Seq<(GameAction, BindingView)> {
    seq![
        (GameAction::Forward, BindingView { key: Some(KeyBindView::Key("KeyZ"@)), gamepad: GamepadBind::StickUp }),
        (GameAction::Backward, BindingView { key: Some(KeyBindView::Key("KeyS"@)), gamepad: GamepadBind::StickDown }),
        (GameAction::Left, BindingView { key: Some(KeyBindView::Key("KeyQ"@)), gamepad: GamepadBind::StickLeft }),
        (GameAction::Right, BindingView { key: Some(KeyBindView::Key("KeyD"@)), gamepad: GamepadBind::StickRight }),
        (GameAction::RotLeft, BindingView { key: Some(KeyBindView::Key("ArrowLeft"@)), gamepad: GamepadBind::Button(PadButton::DPadLeft) }),
        (GameAction::RotRight, BindingView { key: Some(KeyBindView::Key("ArrowRight"@)), gamepad: GamepadBind::Button(PadButton::DPadRight) }),
        (GameAction::Sprint, BindingView { key: Some(KeyBindView::Key("ControlLeft"@)), gamepad: GamepadBind::Button(PadButton::South) }),
        (GameAction::Slow, BindingView { key: Some(KeyBindView::Key("AltLeft"@)), gamepad: GamepadBind::Button(PadButton::East) }),
        (GameAction::Shoot, BindingView { key: Some(KeyBindView::MouseButton(1)), gamepad: GamepadBind::Button(PadButton::RightTrigger) }),
        (GameAction::Shockwave, BindingView { key: Some(KeyBindView::MouseButton(3)), gamepad: GamepadBind::Button(PadButton::LeftTrigger) }),
        (GameAction::ZoomIn, BindingView { key: Some(KeyBindView::Key("Equal"@)), gamepad: GamepadBind::Button(PadButton::RightTrigger2) }),
        (GameAction::ZoomOut, BindingView { key: Some(KeyBindView::Key("Minus"@)), gamepad: GamepadBind::Button(PadButton::LeftTrigger2) }),
    ]
}

/// The bindings of a first run.
pub fn default_bindings() -> (b: Vec<(GameAction, Binding)>)
    ensures
        bindings_view(b@) == default_bindings_spec(),
{
    let mut b: Vec<(GameAction, Binding)> = Vec::new();
    b.push((GameAction::Forward, Binding { key: Some(KeyBind::Key("KeyZ".to_owned())), gamepad: GamepadBind::StickUp }));
    b.push((GameAction::Backward, Binding { key: Some(KeyBind::Key("KeyS".to_owned())), gamepad: GamepadBind::StickDown }));
    b.push((GameAction::Left, Binding { key: Some(KeyBind::Key("KeyQ".to_owned())), gamepad: GamepadBind::StickLeft }));
    b.push((GameAction::Right, Binding { key: Some(KeyBind::Key("KeyD".to_owned())), gamepad: GamepadBind::StickRight }));
    b.push((GameAction::RotLeft, Binding { key: Some(KeyBind::Key("ArrowLeft".to_owned())), gamepad: GamepadBind::Button(PadButton::DPadLeft) }));
    b.push((GameAction::RotRight, Binding { key: Some(KeyBind::Key("ArrowRight".to_owned())), gamepad: GamepadBind::Button(PadButton::DPadRight) }));
    b.push((GameAction::Sprint, Binding { key: Some(KeyBind::Key("ControlLeft".to_owned())), gamepad: GamepadBind::Button(PadButton::South) }));
    b.push((GameAction::Slow, Binding { key: Some(KeyBind::Key("AltLeft".to_owned())), gamepad: GamepadBind::Button(PadButton::East) }));
    b.push((GameAction::Shoot, Binding { key: Some(KeyBind::MouseButton(1)), gamepad: GamepadBind::Button(PadButton::RightTrigger) }));
    b.push((GameAction::Shockwave, Binding { key: Some(KeyBind::MouseButton(3)), gamepad: GamepadBind::Button(PadButton::LeftTrigger) }));
    b.push((GameAction::ZoomIn, Binding { key: Some(KeyBind::Key("Equal".to_owned())), gamepad: GamepadBind::Button(PadButton::RightTrigger2) }));
    b.push((GameAction::ZoomOut, Binding { key: Some(KeyBind::Key("Minus".to_owned())), gamepad: GamepadBind::Button(PadButton::LeftTrigger2) }));
    assert(bindings_view(b@) =~= default_bindings_spec());
    b
}

impl Settings {
    /// The settings of a first run: windowed 1900 x 1000, frame rate limited
    /// to 120 and shown, default bindings.
    pub fn default_settings() -> (s: Settings)
        ensures
            s.wf(),
            s.window_mode == WindowMode::Windowed,
            s.res_width == 1900,
            s.res_height == 1000,
            s.fps_enabled,
            s.fps_millis == 120_000,
            s.show_fps,
            bindings_view(s.bindings@) == default_bindings_spec(),
    {
        Settings {
            window_mode: WindowMode::Windowed,
            res_width: 1900,
            res_height: 1000,
            fps_enabled: true,
            fps_millis: 120_000,
            show_fps: true,
            bindings: default_bindings(),
        }
    }
}

/// The settings as values.
pub struct SettingsView {
    pub window_mode: WindowMode,
    pub res_width: u32,
    pub res_height: u32,
    pub fps_enabled: bool,
    pub fps_millis: u32,
    pub show_fps: bool,
    pub bindings: Seq<(GameAction, BindingView)>,
}

impl View for Settings {
    type V = SettingsView;

    open spec fn view(&self) -> SettingsView {
        SettingsView {
            window_mode: self.window_mode,
            res_width: self.res_width,
            res_height: self.res_height,
            fps_enabled: self.fps_enabled,
            fps_millis: self.fps_millis,
            show_fps: self.show_fps,
            bindings: bindings_view(self.bindings@),
        }
    }
}

/// The settings of a first run, as values.
pub open spec fn default_settings_view() -> SettingsView {
    SettingsView {
        window_mode: WindowMode::Windowed,
        res_width: 1900,
        res_height: 1000,
        fps_enabled: true,
        fps_millis: 120_000,
        show_fps: true,
        bindings: default_bindings_spec(),
    }
}

/// A line of the settings file as a key and a value: the line is trimmed;
/// empty lines, section headers (`[...]`) and comments (`#...`) hold none;
/// otherwise the key is what comes before the first `=` and the value what
/// follows it, both trimmed. A line without `=` holds none.
pub open spec fn config_entry(line: Seq<char>) -> Option<(Seq<char>, Seq<char>)> {
    let l = trim(line);
    if l.len() == 0 || l[0] == '[' || l[0] == '#' {
        None
    } else {
        match find_from(l, '=', 0) {
            Some(i) => Some((trim(l.subrange(0, i)), trim(l.subrange(i + 1, l.len() as int)))),
            None => None,
        }
    }
}

/// The entries of the lines, in order.
pub open spec fn entries_of(lines: Seq<Seq<char>>) -> Seq<(Seq<char>, Seq<char>)>
    decreases lines.len(),
{
    if lines.len() == 0 {
        Seq::empty()
    } else {
        entries_of(lines.drop_last()) + match config_entry(lines.last()) {
            Some(e) => seq![e],
            None => Seq::empty(),
        }
    }
}

/// The entries of a settings file's text.
pub open spec fn config_entries(text: Seq<char>) -> Seq<(Seq<char>, Seq<char>)> {
    entries_of(split_lines(text))
}

/// The value of `key`: that of its last entry.
pub open spec fn config_lookup(entries: Seq<(Seq<char>, Seq<char>)>, key: Seq<char>) -> Option<Seq<char>>
    decreases entries.len(),
{
    if entries.len() == 0 {
        None
    } else if entries.last().0 == key {
        Some(entries.last().1)
    } else {
        config_lookup(entries.drop_last(), key)
    }
}

/// The entries as values.
pub open spec fn entries_view(e: Seq<(Vec<char>, Vec<char>)>) -> Seq<(Seq<char>, Seq<char>)> {
    e.map_values(|p: (Vec<char>, Vec<char>)| (p.0@, p.1@))
}

/// The entry of the line `t[from..to]` (see `config_entry`).
fn config_entry_of(t: &[char], from: usize, to: usize) -> (r: Option<(Vec<char>, Vec<char>)>)
    requires
        from <= to <= t@.len(),
    ensures
        match r {
            Some(p) => config_entry(t@.subrange(from as int, to as int)) == Some((p.0@, p.1@)),
            None => config_entry(t@.subrange(from as int, to as int)) is None,
        },
{
    let l = trim_chars(t, from, to);
    if l.len() == 0 || l[0] == '[' || l[0] == '#' {
        return None;
    }
    match find_char(l.as_slice(), '=') {
        Some(i) => {
            let k = trim_chars(l.as_slice(), 0, i);
            let v = trim_chars(l.as_slice(), i + 1, l.len());
            Some((k, v))
        },
        None => None,
    }
}

/// The entries of a settings file's text (see `config_entries`).
pub fn parse_config(text: &str) -> (e: Vec<(Vec<char>, Vec<char>)>)
    ensures
        entries_view(e@) == config_entries(text@),
{
    let t = chars_of(text);
    let n = t.len();
    let mut e: Vec<(Vec<char>, Vec<char>)> = Vec::new();
    let mut start: usize = 0;
    let mut i: usize = 0;
    let ghost mut done: Seq<Seq<char>> = Seq::empty();
    assert(t@.subrange(0, 0) =~= Seq::<char>::empty());
    assert(split_lines(t@.subrange(0, 0)) == done.push(t@.subrange(0, 0)));
    while i < n
        invariant
            n == t@.len(),
            t@ == text@,
            start <= i <= n,
            split_lines(t@.subrange(0, i as int)) == done.push(t@.subrange(start as int, i as int)),
            entries_view(e@) == entries_of(done),
        decreases n - i,
    {
        let ghost pre = t@.subrange(0, i + 1);
        assert(pre.drop_last() =~= t@.subrange(0, i as int));
        if t[i] == '\n' {
            let entry = config_entry_of(t.as_slice(), start, i);
            let ghost piece = t@.subrange(start as int, i as int);
            let ghost e0 = e@;
            match entry {
                Some(p) => {
                    e.push(p);
                    proof {
                        assert(entries_view(e@) =~= entries_view(e0).push((p.0@, p.1@)));
                    }
                },
                None => {},
            }
            proof {
                let done2 = done.push(piece);
                assert(done2.drop_last() =~= done);
                assert(entries_view(e@) =~= entries_of(done2));
                done = done2;
                assert(t@.subrange(i + 1, i + 1) =~= Seq::<char>::empty());
            }
            start = i + 1;
        } else {
            proof {
                assert(t@.subrange(start as int, i + 1) =~= t@.subrange(start as int, i as int).push(t@[i as int]));
            }
        }
        i = i + 1;
    }
    assert(t@.subrange(0, n as int) =~= t@);
    let entry = config_entry_of(t.as_slice(), start, n);
    let ghost piece = t@.subrange(start as int, n as int);
    let ghost e0 = e@;
    match entry {
        Some(p) => {
            e.push(p);
            proof {
                assert(entries_view(e@) =~= entries_view(e0).push((p.0@, p.1@)));
            }
        },
        None => {},
    }
    proof {
        let done2 = done.push(piece);
        assert(done2.drop_last() =~= done);
        assert(entries_view(e@) =~= entries_of(done2));
    }
    e
}

/// The value of `key` in the entries (see `config_lookup`).
pub fn config_value(e: &Vec<(Vec<char>, Vec<char>)>, key: &str) -> (r: Option<Vec<char>>)
    ensures
        match r {
            Some(v) => config_lookup(entries_view(e@), key@) == Some(v@),
            None => config_lookup(entries_view(e@), key@) is None,
        },
{
    let mut i = e.len();
    assert(entries_view(e@).subrange(0, i as int) =~= entries_view(e@));
    while i > 0
        invariant
            i <= e@.len(),
            config_lookup(entries_view(e@), key@) == config_lookup(entries_view(e@).subrange(0, i as int), key@),
        decreases i,
    {
        let ghost sub = entries_view(e@).subrange(0, i as int);
        assert(sub.drop_last() =~= entries_view(e@).subrange(0, i - 1));
        if chars_equal_str(e[i - 1].0.as_slice(), key) {
            return Some(sub_chars(e[i - 1].1.as_slice(), 0, e[i - 1].1.len()));
        }
        i = i - 1;
    }
    None
}

/// A value cut at its first `,`: what comes before, and what follows if
/// there is a `,`.
pub open spec fn split_at_comma(v: Seq<char>) -> (Seq<char>, Option<Seq<char>>) {
    match find_from(v, ',', 0) {
        Some(i) => (v.subrange(0, i), Some(v.subrange(i + 1, v.len() as int))),
        None => (v, None),
    }
}

/// A binding read from the value `v` of its action's entry: the key
/// binding from the part before the first `,`, the gamepad binding from the
/// part after it (kept when there is none).
pub open spec fn binding_from_value(b: BindingView, v: Seq<char>) -> BindingView {
    let (p0, p1) = split_at_comma(v);
    BindingView {
        key: parse_key_bind_spec(p0),
        gamepad: match p1 {
            Some(x) => parse_gamepad_bind_spec(x),
            None => b.gamepad,
        },
    }
}

/// A flag of the settings file: `1` or `true` mean on.
pub open spec fn flag_value(v: Seq<char>) -> bool {
    v == "1"@ || v == "true"@
}

/// The settings `d` updated by the entries `e`: each field read from its
/// key's value when there is one (an unreadable number keeps the field; a
/// resolution below 640 x 480 is raised to it), each binding from its
/// action's name.
pub open spec fn settings_from_entries(d: SettingsView, e: Seq<(Seq<char>, Seq<char>)>) -> SettingsView {
    SettingsView {
        window_mode: match config_lookup(e, "window_mode"@) {
            Some(v) => window_mode_from_name(v),
            None => d.window_mode,
        },
        res_width: match config_lookup(e, "res_width"@) {
            Some(v) => match parse_u32_spec(v) {
                Some(n) => if n < 640 {
                    640
                } else {
                    n
                },
                None => d.res_width,
            },
            None => d.res_width,
        },
        res_height: match config_lookup(e, "res_height"@) {
            Some(v) => match parse_u32_spec(v) {
                Some(n) => if n < 480 {
                    480
                } else {
                    n
                },
                None => d.res_height,
            },
            None => d.res_height,
        },
        fps_enabled: match config_lookup(e, "fps_enabled"@) {
            Some(v) => flag_value(v),
            None => d.fps_enabled,
        },
        fps_millis: match config_lookup(e, "fps_millis"@) {
            Some(v) => match parse_u32_spec(v) {
                Some(n) => n,
                None => d.fps_millis,
            },
            None => d.fps_millis,
        },
        show_fps: match config_lookup(e, "show_fps"@) {
            Some(v) => flag_value(v),
            None => d.show_fps,
        },
        bindings: d.bindings.map_values(
            |p: (GameAction, BindingView)|
                (
                    p.0,
                    match config_lookup(e, game_action_config_name(p.0)) {
                        Some(v) => binding_from_value(p.1, v),
                        None => p.1,
                    },
                ),
        ),
    }
}

/// Whatever a settings file holds, the resolution read from it is at least
/// 640 x 480.
pub proof fn lemma_loaded_resolution_at_least(text: Seq<char>)
    ensures
        settings_from_text(text).res_width >= 640,
        settings_from_text(text).res_height >= 480,
{
}

/// The settings a settings file's text gives: the first-run settings
/// updated by its entries.
pub open spec fn settings_from_text(text: Seq<char>) -> SettingsView {
    settings_from_entries(default_settings_view(), config_entries(text))
}

/// Whether the flag value `v` means on.
fn flag_of(v: &Vec<char>) -> (r: bool)
    ensures
        r == flag_value(v@),
{
    chars_equal_str(v.as_slice(), "1") || chars_equal_str(v.as_slice(), "true")
}

/// The window mode named `v`.
fn window_mode_of(v: &Vec<char>) -> (m: WindowMode)
    ensures
        m == window_mode_from_name(v@),
{
    if chars_equal_str(v.as_slice(), "fullscreen") {
        WindowMode::Fullscreen
    } else if chars_equal_str(v.as_slice(), "borderless") {
        WindowMode::BorderlessFullscreen
    } else {
        WindowMode::Windowed
    }
}

/// Reads a binding from its entry's value (see `binding_from_value`).
fn binding_of(b: &Binding, v: &Vec<char>) -> (r: Binding)
    ensures
        r@ == binding_from_value(b@, v@),
{
    match find_char(v.as_slice(), ',') {
        Some(i) => {
            let n = v.len();
            assert(i < n);
            let p0 = sub_chars(v.as_slice(), 0, i);
            let p1 = sub_chars(v.as_slice(), i + 1, n);
            Binding { key: parse_key_bind(p0.as_slice()), gamepad: parse_gamepad_bind(p1.as_slice()) }
        },
        None => {
            assert(v@.subrange(0, v@.len() as int) =~= v@);
            Binding { key: parse_key_bind(v.as_slice()), gamepad: b.gamepad }
        },
    }
}

impl Settings {
    /// The settings that the text of a settings file gives (see
    /// `settings_from_text`).
    pub fn from_config_text(text: &str) -> (s: Settings)
        ensures
            s@ == settings_from_text(text@),
            s.wf(),
    {
        let e = parse_config(text);
        let d = Settings::default_settings();
        let ghost ev = entries_view(e@);
        let window_mode = match config_value(&e, "window_mode") {
            Some(v) => window_mode_of(&v),
            None => d.window_mode,
        };
        let res_width = match config_value(&e, "res_width") {
            Some(v) => match parse_u32(v.as_slice()) {
                Some(n) => if n < 640 {
                    640
                } else {
                    n
                },
                None => d.res_width,
            },
            None => d.res_width,
        };
        let res_height = match config_value(&e, "res_height") {
            Some(v) => match parse_u32(v.as_slice()) {
                Some(n) => if n < 480 {
                    480
                } else {
                    n
                },
                None => d.res_height,
            },
            None => d.res_height,
        };
        let fps_enabled = match config_value(&e, "fps_enabled") {
            Some(v) => flag_of(&v),
            None => d.fps_enabled,
        };
        let fps_millis = match config_value(&e, "fps_millis") {
            Some(v) => match parse_u32(v.as_slice()) {
                Some(n) => n,
                None => d.fps_millis,
            },
            None => d.fps_millis,
        };
        let show_fps = match config_value(&e, "show_fps") {
            Some(v) => flag_of(&v),
            None => d.show_fps,
        };
        let mut bindings: Vec<(GameAction, Binding)> = Vec::new();
        let mut i: usize = 0;
        while i < d.bindings.len()
            invariant
                i <= d.bindings@.len(),
                bindings@.len() == i,
                ev == entries_view(e@),
                forall|k: int|
                    0 <= k < i ==> (#[trigger] bindings@[k]).0 == d.bindings@[k].0 && bindings@[k].1@ == (
                    match config_lookup(ev, game_action_config_name(d.bindings@[k].0)) {
                        Some(v) => binding_from_value(d.bindings@[k].1@, v),
                        None => d.bindings@[k].1@,
                    }),
            decreases d.bindings@.len() - i,
        {
            let (a, b) = &d.bindings[i];
            let nb = match config_value(&e, a.config_name()) {
                Some(v) => binding_of(b, &v),
                None => b.duplicate(),
            };
            bindings.push((*a, nb));
            i = i + 1;
        }
        let s = Settings { window_mode, res_width, res_height, fps_enabled, fps_millis, show_fps, bindings };
        proof {
            assert(bindings_view(s.bindings@) =~= settings_from_text(text@).bindings);
        }
        s
    }
}

/// The lines of the settings file for the settings `s`, the interface
/// scale being written `ui_scale`.
pub open spec fn settings_lines(s: SettingsView, ui_scale: Seq<char>) -> Seq<Seq<char>> {
    seq![
        "[graphics]"@,
        "window_mode="@ + window_mode_name(s.window_mode),
        "res_width="@ + decimal(s.res_width as nat),
        "res_height="@ + decimal(s.res_height as nat),
        "ui_scale="@ + ui_scale,
        Seq::empty(),
        "[fps]"@,
        "fps_enabled="@ + (if s.fps_enabled {
            "1"@
        } else {
            "0"@
        }),
        "fps_millis="@ + decimal(s.fps_millis as nat),
        "show_fps="@ + (if s.show_fps {
            "1"@
        } else {
            "0"@
        }),
        Seq::empty(),
        "[controls]"@,
    ] + binding_lines(s.bindings)
}

/// The line of the settings file for one action's binding.
pub open spec fn binding_line(p: (GameAction, BindingView)) -> Seq<char> {
    game_action_config_name(p.0) + "="@ + key_bind_text(p.1.key) + ","@ + pad_bind_text(p.1.gamepad)
}

/// The lines of the settings file for the bindings, in order.
pub open spec fn binding_lines(b: Seq<(GameAction, BindingView)>) -> Seq<Seq<char>> {
    b.map_values(|p: (GameAction, BindingView)| binding_line(p))
}

/// Lines written one after the other, each ended by `\n`.
pub open spec fn join_lines(lines: Seq<Seq<char>>) -> Seq<char>
    decreases lines.len(),
{
    if lines.len() == 0 {
        Seq::empty()
    } else {
        join_lines(lines.drop_last()) + lines.last() + seq!['\n']
    }
}

/// The text of the settings file for the settings `s`, the interface scale
/// being written `ui_scale`.
pub open spec fn settings_text_spec(s: SettingsView, ui_scale: Seq<char>) -> Seq<char> {
    join_lines(settings_lines(s, ui_scale))
}

/// Writing one more line.
proof fn lemma_join_lines_step(lines: Seq<Seq<char>>, k: int)
    requires
        0 <= k < lines.len(),
    ensures
        join_lines(lines.subrange(0, k + 1)) == join_lines(lines.subrange(0, k)) + lines[k] + seq!['\n'],
{
    assert(lines.subrange(0, k + 1).drop_last() =~= lines.subrange(0, k));
}

/// Appends a line and its `\n`.
fn push_line(out: &mut String, line: &str)
    ensures
        final(out)@ == old(out)@ + line@ + seq!['\n'],
{
    out.append(line);
    out.append("\n");
    proof {
        reveal_strlit("\n");
    }
}

impl Settings {
    /// The text of the settings file for these settings, the interface scale
    /// being written `ui_scale` (see `settings_text_spec`).
    pub fn config_text(&self, ui_scale: &str) -> (t: String)
        ensures
            t@ == settings_text_spec(self@, ui_scale@),
    {
        let ghost lines = settings_lines(self@, ui_scale@);
        let mut out = String::new();
        proof {
            reveal_strlit("");
            assert(lines.subrange(0, 0) =~= Seq::<Seq<char>>::empty());
        }
        push_line(&mut out, "[graphics]");
        proof { lemma_join_lines_step(lines, 0); }
        let mut line = "window_mode=".to_owned();
        line.append(self.window_mode.to_str());
        push_line(&mut out, line.as_str());
        proof { lemma_join_lines_step(lines, 1); }
        let mut line = "res_width=".to_owned();
        line.append(string_from_chars(&decimal_chars(self.res_width)).as_str());
        push_line(&mut out, line.as_str());
        proof { lemma_join_lines_step(lines, 2); }
        let mut line = "res_height=".to_owned();
        line.append(string_from_chars(&decimal_chars(self.res_height)).as_str());
        push_line(&mut out, line.as_str());
        proof { lemma_join_lines_step(lines, 3); }
        let mut line = "ui_scale=".to_owned();
        line.append(ui_scale);
        push_line(&mut out, line.as_str());
        proof { lemma_join_lines_step(lines, 4); }
        push_line(&mut out, "");
        proof { lemma_join_lines_step(lines, 5); }
        push_line(&mut out, "[fps]");
        proof { lemma_join_lines_step(lines, 6); }
        let mut line = "fps_enabled=".to_owned();
        line.append(if self.fps_enabled { "1" } else { "0" });
        push_line(&mut out, line.as_str());
        proof { lemma_join_lines_step(lines, 7); }
        let mut line = "fps_millis=".to_owned();
        line.append(string_from_chars(&decimal_chars(self.fps_millis)).as_str());
        push_line(&mut out, line.as_str());
        proof { lemma_join_lines_step(lines, 8); }
        let mut line = "show_fps=".to_owned();
        line.append(if self.show_fps { "1" } else { "0" });
        push_line(&mut out, line.as_str());
        proof { lemma_join_lines_step(lines, 9); }
        push_line(&mut out, "");
        proof { lemma_join_lines_step(lines, 10); }
        push_line(&mut out, "[controls]");
        proof { lemma_join_lines_step(lines, 11); }
        let mut i: usize = 0;
        while i < self.bindings.len()
            invariant
                lines == settings_lines(self@, ui_scale@),
                i <= self.bindings@.len(),
                out@ == join_lines(lines.subrange(0, 12 + i)),
            decreases self.bindings@.len() - i,
        {
            let (a, b) = &self.bindings[i];
            let mut line = a.config_name().to_owned();
            line.append("=");
            line.append(key_bind_text_of(&b.key).as_str());
            line.append(",");
            line.append(pad_bind_text_of(b.gamepad).as_str());
            proof {
                assert(line@ == binding_line((self@.bindings[i as int].0, self@.bindings[i as int].1)));
            }
            push_line(&mut out, line.as_str());
            proof {
                lemma_join_lines_step(lines, 12 + i);
            }
            i = i + 1;
        }
        proof {
            assert(lines.subrange(0, 12 + self.bindings@.len() as int) =~= lines);
        }
        out
    }
}


/// Both flags of the settings file are read alike: the last value given
/// turns the flag on exactly when it is `1` or `true`, and a flag the file
/// does not give stays on, as on the first run.
pub proof fn lemma_flags_read_alike(text: Seq<char>)
    ensures
        match config_lookup(config_entries(text), "show_fps"@) {
            Some(v) => settings_from_text(text).show_fps == (v == "1"@ || v == "true"@),
            None => settings_from_text(text).show_fps,
        },
        match config_lookup(config_entries(text), "fps_enabled"@) {
            Some(v) => settings_from_text(text).fps_enabled == (v == "1"@ || v == "true"@),
            None => settings_from_text(text).fps_enabled,
        },
{
}


/// The numbers of the settings file: a resolution given as a number is
/// read as that number, raised to at least 640 x 480; a frame-rate limit
/// given as a number is read as it is; a value that is no number, or no
/// value, keeps the first-run setting (1900 x 1000, 120 fps).
pub proof fn lemma_numbers_read(text: Seq<char>)
    ensures
        match config_lookup(config_entries(text), "res_width"@) {
            Some(v) => match parse_u32_spec(v) {
                Some(n) => settings_from_text(text).res_width == (if n >= 640 {
                    n
                } else {
                    640
                }),
                None => settings_from_text(text).res_width == 1900,
            },
            None => settings_from_text(text).res_width == 1900,
        },
        match config_lookup(config_entries(text), "res_height"@) {
            Some(v) => match parse_u32_spec(v) {
                Some(n) => settings_from_text(text).res_height == (if n >= 480 {
                    n
                } else {
                    480
                }),
                None => settings_from_text(text).res_height == 1000,
            },
            None => settings_from_text(text).res_height == 1000,
        },
        match config_lookup(config_entries(text), "fps_millis"@) {
            Some(v) => match parse_u32_spec(v) {
                Some(n) => settings_from_text(text).fps_millis == n,
                None => settings_from_text(text).fps_millis == 120_000,
            },
            None => settings_from_text(text).fps_millis == 120_000,
        },
{
}

} // verus!
