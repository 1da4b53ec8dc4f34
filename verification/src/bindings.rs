//! What the player binds to each action: a keyboard key or mouse button,
//! and a gamepad button or stick direction; their labels, their names in
//! the settings file, and reading them back.
//!
//! Keys are named by their physical key code (`KeyZ`, `ArrowLeft`, ...), as
//! the windowing library prints them.

use vstd::prelude::*;
use crate::menu_types::{GameAction, game_actions};
use crate::text::{
    chars_equal_str, starts_with, starts_with_str, sub_chars, decimal, decimal_chars,
    parse_u32_spec, parse_u32, string_from_chars,
};

verus! {

/// A keyboard key, by its key code's name, or a mouse button (1 left,
/// 2 middle, 3 right).
#[derive(Debug, PartialEq, Eq)]
pub enum KeyBind {
    Key(String),
    MouseButton(u32),
}

/// A key binding as a value: the key's name or the mouse button.
pub enum KeyBindView {
    Key(Seq<char>),
    MouseButton(u32),
}

impl View for KeyBind {
    type V = KeyBindView;

    open spec fn view(&self) -> KeyBindView {
        match self {
            KeyBind::Key(name) => KeyBindView::Key(name@),
            KeyBind::MouseButton(n) => KeyBindView::MouseButton(*n),
        }
    }
}

/// A gamepad button.
#[derive(Debug, Clone, Copy, PartialEq, Eq, Structural)]
pub enum PadButton {
    South,
    East,
    North,
    West,
    C,
    Z,
    LeftTrigger,
    LeftTrigger2,
    RightTrigger,
    RightTrigger2,
    Select,
    Start,
    Mode,
    LeftThumb,
    RightThumb,
    DPadUp,
    DPadDown,
    DPadLeft,
    DPadRight,
    Unknown,
}

/// A gamepad binding: a button, a direction of the left stick, or nothing.
#[derive(Debug, Clone, Copy, PartialEq, Eq, Structural)]
pub enum GamepadBind {
    Button(PadButton),
    StickUp,
    StickDown,
    StickLeft,
    StickRight,
    Unbound,
}

/// The full binding of an action.
#[derive(Debug, PartialEq, Eq)]
pub struct Binding {
    pub key: Option<KeyBind>,
    pub gamepad: GamepadBind,
}

/// A binding as a value.
pub struct BindingView {
    pub key: Option<KeyBindView>,
    pub gamepad: GamepadBind,
}

/// The view of an optional key binding.
pub open spec fn key_view(k: Option<KeyBind>) -> Option<KeyBindView> {
    match k {
        Some(b) => Some(b@),
        None => None,
    }
}

impl View for Binding {
    type V = BindingView;

    open spec fn view(&self) -> BindingView {
        BindingView { key: key_view(self.key), gamepad: self.gamepad }
    }
}

/// The view of a list of action bindings.
pub open spec fn bindings_view(b: Seq<(GameAction, Binding)>) -> Seq<(GameAction, BindingView)> {
    b.map_values(|e: (GameAction, Binding)| (e.0, e.1@))
}

impl KeyBind {
    /// A copy of the binding.
    pub fn duplicate(&self) -> (r: KeyBind)
        ensures
            r@ == self@,
    {
        match self {
            KeyBind::Key(name) => KeyBind::Key(name.clone()),
            KeyBind::MouseButton(n) => KeyBind::MouseButton(*n),
        }
    }

    /// The text shown for the binding: the key's name, or the mouse button.
    pub fn label(&self) -> (s: String)
        ensures
            s@ == key_bind_label(self@),
    {
        match self {
            KeyBind::Key(name) => name.clone(),
            KeyBind::MouseButton(n) => {
                if *n == 1 {
                    "Souris G".to_owned()
                } else if *n == 3 {
                    "Souris D".to_owned()
                } else if *n == 2 {
                    "Souris M".to_owned()
                } else {
                    let mut s = "Souris ".to_owned();
                    let digits = string_from_chars(&decimal_chars(*n));
                    s.append(digits.as_str());
                    s
                }
            },
        }
    }
}

/// The text shown for a key binding.
pub open spec fn key_bind_label(k: KeyBindView) -> Seq<char> {
    match k {
        KeyBindView::Key(name) => name,
        KeyBindView::MouseButton(n) => if n == 1 {
            "Souris G"@
        } else if n == 3 {
            "Souris D"@
        } else if n == 2 {
            "Souris M"@
        } else {
            "Souris "@ + decimal(n as nat)
        },
    }
}

impl Binding {
    /// A key binding and no gamepad binding.
    pub fn key(k: KeyBind) -> (b: Binding)
        ensures
            b@ == (BindingView { key: Some(k@), gamepad: GamepadBind::Unbound }),
    {
        Binding { key: Some(k), gamepad: GamepadBind::Unbound }
    }

    /// A mouse button binding and no gamepad binding.
    pub fn mouse(n: u32) -> (b: Binding)
        ensures
            b@ == (BindingView { key: Some(KeyBindView::MouseButton(n)), gamepad: GamepadBind::Unbound }),
    {
        Binding { key: Some(KeyBind::MouseButton(n)), gamepad: GamepadBind::Unbound }
    }

    /// The same binding with gamepad button `b`.
    pub fn with_pad(self, b: PadButton) -> (r: Binding)
        ensures
            r@ == (BindingView { key: self@.key, gamepad: GamepadBind::Button(b) }),
    {
        Binding { key: self.key, gamepad: GamepadBind::Button(b) }
    }

    /// A copy of the binding.
    pub fn duplicate(&self) -> (r: Binding)
        ensures
            r@ == self@,
    {
        let key = match &self.key {
            Some(k) => Some(k.duplicate()),
            None => None,
        };
        Binding { key, gamepad: self.gamepad }
    }
}

/// A copy of a list of action bindings.
pub fn duplicate_bindings(b: &Vec<(GameAction, Binding)>) -> (r: Vec<(GameAction, Binding)>)
    ensures
        bindings_view(r@) == bindings_view(b@),
{
    let mut r: Vec<(GameAction, Binding)> = Vec::new();
    let mut i: usize = 0;
    while i < b.len()
        invariant
            i <= b@.len(),
            r@.len() == i,
            forall|j: int| 0 <= j < i ==> (#[trigger] r@[j]).0 == b@[j].0 && r@[j].1@ == b@[j].1@,
        decreases b@.len() - i,
    {
        let (a, bind) = &b[i];
        r.push((*a, bind.duplicate()));
        i = i + 1;
    }
    assert(bindings_view(r@) =~= bindings_view(b@));
    r
}

impl GamepadBind {
    /// The text shown for the binding.
    pub fn label(self) -> (s: &'static str)
        ensures
            s@ == gamepad_bind_label(self),
    {
        match self {
            GamepadBind::Button(PadButton::South) => "A / Croix",
            GamepadBind::Button(PadButton::East) => "B / Rond",
            GamepadBind::Button(PadButton::North) => "Y / Triangle",
            GamepadBind::Button(PadButton::West) => "X / Carré",
            GamepadBind::Button(PadButton::RightTrigger) => "R1 / RB",
            GamepadBind::Button(PadButton::LeftTrigger) => "L1 / LB",
            GamepadBind::Button(PadButton::RightTrigger2) => "R2 / RT",
            GamepadBind::Button(PadButton::LeftTrigger2) => "L2 / LT",
            GamepadBind::Button(PadButton::DPadUp) => "↑ D-Pad",
            GamepadBind::Button(PadButton::DPadDown) => "↓ D-Pad",
            GamepadBind::Button(PadButton::DPadLeft) => "← D-Pad",
            GamepadBind::Button(PadButton::DPadRight) => "→ D-Pad",
            GamepadBind::Button(PadButton::Start) => "Start",
            GamepadBind::Button(PadButton::Select) => "Select",
            GamepadBind::StickUp => "🕹 ↑",
            GamepadBind::StickDown => "🕹 ↓",
            GamepadBind::StickLeft => "🕹 ←",
            GamepadBind::StickRight => "🕹 →",
            GamepadBind::Unbound => "—",
            _ => "Bouton",
        }
    }
}

/// The text shown for a gamepad binding.
pub open spec fn gamepad_bind_label(g: GamepadBind) -> Seq<char> {
    match g {
        GamepadBind::Button(PadButton::South) => "A / Croix"@,
        GamepadBind::Button(PadButton::East) => "B / Rond"@,
        GamepadBind::Button(PadButton::North) => "Y / Triangle"@,
        GamepadBind::Button(PadButton::West) => "X / Carré"@,
        GamepadBind::Button(PadButton::RightTrigger) => "R1 / RB"@,
        GamepadBind::Button(PadButton::LeftTrigger) => "L1 / LB"@,
        GamepadBind::Button(PadButton::RightTrigger2) => "R2 / RT"@,
        GamepadBind::Button(PadButton::LeftTrigger2) => "L2 / LT"@,
        GamepadBind::Button(PadButton::DPadUp) => "↑ D-Pad"@,
        GamepadBind::Button(PadButton::DPadDown) => "↓ D-Pad"@,
        GamepadBind::Button(PadButton::DPadLeft) => "← D-Pad"@,
        GamepadBind::Button(PadButton::DPadRight) => "→ D-Pad"@,
        GamepadBind::Button(PadButton::Start) => "Start"@,
        GamepadBind::Button(PadButton::Select) => "Select"@,
        GamepadBind::StickUp => "🕹 ↑"@,
        GamepadBind::StickDown => "🕹 ↓"@,
        GamepadBind::StickLeft => "🕹 ←"@,
        GamepadBind::StickRight => "🕹 →"@,
        GamepadBind::Unbound => "—"@,
        _ => "Bouton"@,
    }
}

impl PadButton {
    /// The button's name, as the gamepad library prints it.
    pub fn name(self) -> (s: &'static str)
        ensures
            s@ == pad_button_name(self),
    {
        match self {
            PadButton::South => "South",
            PadButton::East => "East",
            PadButton::North => "North",
            PadButton::West => "West",
            PadButton::C => "C",
            PadButton::Z => "Z",
            PadButton::LeftTrigger => "LeftTrigger",
            PadButton::LeftTrigger2 => "LeftTrigger2",
            PadButton::RightTrigger => "RightTrigger",
            PadButton::RightTrigger2 => "RightTrigger2",
            PadButton::Select => "Select",
            PadButton::Start => "Start",
            PadButton::Mode => "Mode",
            PadButton::LeftThumb => "LeftThumb",
            PadButton::RightThumb => "RightThumb",
            PadButton::DPadUp => "DPadUp",
            PadButton::DPadDown => "DPadDown",
            PadButton::DPadLeft => "DPadLeft",
            PadButton::DPadRight => "DPadRight",
            PadButton::Unknown => "Unknown",
        }
    }
}

/// The name of a gamepad button.
pub open spec fn pad_button_name(b: PadButton) -> Seq<char> {
    match b {
        PadButton::South => "South"@,
        PadButton::East => "East"@,
        PadButton::North => "North"@,
        PadButton::West => "West"@,
        PadButton::C => "C"@,
        PadButton::Z => "Z"@,
        PadButton::LeftTrigger => "LeftTrigger"@,
        PadButton::LeftTrigger2 => "LeftTrigger2"@,
        PadButton::RightTrigger => "RightTrigger"@,
        PadButton::RightTrigger2 => "RightTrigger2"@,
        PadButton::Select => "Select"@,
        PadButton::Start => "Start"@,
        PadButton::Mode => "Mode"@,
        PadButton::LeftThumb => "LeftThumb"@,
        PadButton::RightThumb => "RightThumb"@,
        PadButton::DPadUp => "DPadUp"@,
        PadButton::DPadDown => "DPadDown"@,
        PadButton::DPadLeft => "DPadLeft"@,
        PadButton::DPadRight => "DPadRight"@,
        PadButton::Unknown => "Unknown"@,
    }
}

/// The gamepad buttons that the settings file can name, with their names.
pub open spec fn named_pad_buttons() -> Seq<PadButton> {
    seq![
        PadButton::South,
        PadButton::East,
        PadButton::North,
        PadButton::West,
        PadButton::RightTrigger,
        PadButton::LeftTrigger,
        PadButton::RightTrigger2,
        PadButton::LeftTrigger2,
        PadButton::DPadUp,
        PadButton::DPadDown,
        PadButton::DPadLeft,
        PadButton::DPadRight,
        PadButton::Start,
        PadButton::Select,
        PadButton::LeftThumb,
        PadButton::RightThumb,
    ]
}

/// Named gamepad button `i`.
fn named_pad_button(i: usize) -> (b: (PadButton, &'static str))
    requires
        i < 16,
    ensures
        b.0 == named_pad_buttons()[i as int],
        b.1@ == pad_button_name(b.0),
{
    match i {
        0 => (PadButton::South, "South"),
        1 => (PadButton::East, "East"),
        2 => (PadButton::North, "North"),
        3 => (PadButton::West, "West"),
        4 => (PadButton::RightTrigger, "RightTrigger"),
        5 => (PadButton::LeftTrigger, "LeftTrigger"),
        6 => (PadButton::RightTrigger2, "RightTrigger2"),
        7 => (PadButton::LeftTrigger2, "LeftTrigger2"),
        8 => (PadButton::DPadUp, "DPadUp"),
        9 => (PadButton::DPadDown, "DPadDown"),
        10 => (PadButton::DPadLeft, "DPadLeft"),
        11 => (PadButton::DPadRight, "DPadRight"),
        12 => (PadButton::Start, "Start"),
        13 => (PadButton::Select, "Select"),
        14 => (PadButton::LeftThumb, "LeftThumb"),
        _ => (PadButton::RightThumb, "RightThumb"),
    }
}

/// The first of the named buttons from position `i` on whose name is `s`.
pub open spec fn pad_named_from(s: Seq<char>, i: int) -> Option<PadButton>
    decreases named_pad_buttons().len() - i,
{
    if i < 0 || i >= named_pad_buttons().len() {
        None
    } else if pad_button_name(named_pad_buttons()[i]) == s {
        Some(named_pad_buttons()[i])
    } else {
        pad_named_from(s, i + 1)
    }
}

/// The gamepad button named `s`, among those the settings file can name.
pub open spec fn pad_button_from_name_spec(s: Seq<char>) -> Option<PadButton> {
    pad_named_from(s, 0)
}

/// The gamepad button named `s`, among those the settings file can name.
pub fn pad_button_from_name(s: &[char]) -> (r: Option<PadButton>)
    ensures
        r == pad_button_from_name_spec(s@),
{
    let mut i: usize = 0;
    while i < 16
        invariant
            i <= 16,
            pad_named_from(s@, 0) == pad_named_from(s@, i as int),
        decreases 16 - i,
    {
        let (b, name) = named_pad_button(i);
        if chars_equal_str(s, name) {
            return Some(b);
        }
        i = i + 1;
    }
    None
}

/// The key code names that the settings file can name.
pub open spec fn key_names() -> Seq<Seq<char>> {
    seq![
        "KeyA"@,
        "KeyB"@,
        "KeyC"@,
        "KeyD"@,
        "KeyE"@,
        "KeyF"@,
        "KeyG"@,
        "KeyH"@,
        "KeyI"@,
        "KeyJ"@,
        "KeyK"@,
        "KeyL"@,
        "KeyM"@,
        "KeyN"@,
        "KeyO"@,
        "KeyP"@,
        "KeyQ"@,
        "KeyR"@,
        "KeyS"@,
        "KeyT"@,
        "KeyU"@,
        "KeyV"@,
        "KeyW"@,
        "KeyX"@,
        "KeyY"@,
        "KeyZ"@,
        "Digit0"@,
        "Digit1"@,
        "Digit2"@,
        "Digit3"@,
        "Digit4"@,
        "Digit5"@,
        "Digit6"@,
        "Digit7"@,
        "Digit8"@,
        "Digit9"@,
        "F1"@,
        "F2"@,
        "F3"@,
        "F4"@,
        "F5"@,
        "F6"@,
        "F7"@,
        "F8"@,
        "F9"@,
        "F10"@,
        "F11"@,
        "F12"@,
        "ArrowUp"@,
        "ArrowDown"@,
        "ArrowLeft"@,
        "ArrowRight"@,
        "Space"@,
        "Enter"@,
        "Escape"@,
        "Backspace"@,
        "Tab"@,
        "ShiftLeft"@,
        "ShiftRight"@,
        "ControlLeft"@,
        "ControlRight"@,
        "AltLeft"@,
        "AltRight"@,
        "Equal"@,
        "Minus"@,
        "BracketLeft"@,
        "BracketRight"@,
        "Semicolon"@,
        "Quote"@,
        "Comma"@,
        "Period"@,
        "Slash"@,
        "Backslash"@,
        "Backquote"@,
        "Numpad0"@,
        "Numpad1"@,
        "Numpad2"@,
        "Numpad3"@,
        "Numpad4"@,
        "Numpad5"@,
        "Numpad6"@,
        "Numpad7"@,
        "Numpad8"@,
        "Numpad9"@,
        "NumpadAdd"@,
        "NumpadSubtract"@,
        "NumpadMultiply"@,
        "NumpadDivide"@,
        "NumpadEnter"@,
        "Home"@,
        "End"@,
        "PageUp"@,
        "PageDown"@,
        "Insert"@,
        "Delete"@,
    ]
}

/// Key code name `i` of those the settings file can name.
fn key_name(i: usize) -> (s: &'static str)
    requires
        i < 95,
    ensures
        s@ == key_names()[i as int],
{
    match i {
        0 => "KeyA",
        1 => "KeyB",
        2 => "KeyC",
        3 => "KeyD",
        4 => "KeyE",
        5 => "KeyF",
        6 => "KeyG",
        7 => "KeyH",
        8 => "KeyI",
        9 => "KeyJ",
        10 => "KeyK",
        11 => "KeyL",
        12 => "KeyM",
        13 => "KeyN",
        14 => "KeyO",
        15 => "KeyP",
        16 => "KeyQ",
        17 => "KeyR",
        18 => "KeyS",
        19 => "KeyT",
        20 => "KeyU",
        21 => "KeyV",
        22 => "KeyW",
        23 => "KeyX",
        24 => "KeyY",
        25 => "KeyZ",
        26 => "Digit0",
        27 => "Digit1",
        28 => "Digit2",
        29 => "Digit3",
        30 => "Digit4",
        31 => "Digit5",
        32 => "Digit6",
        33 => "Digit7",
        34 => "Digit8",
        35 => "Digit9",
        36 => "F1",
        37 => "F2",
        38 => "F3",
        39 => "F4",
        40 => "F5",
        41 => "F6",
        42 => "F7",
        43 => "F8",
        44 => "F9",
        45 => "F10",
        46 => "F11",
        47 => "F12",
        48 => "ArrowUp",
        49 => "ArrowDown",
        50 => "ArrowLeft",
        51 => "ArrowRight",
        52 => "Space",
        53 => "Enter",
        54 => "Escape",
        55 => "Backspace",
        56 => "Tab",
        57 => "ShiftLeft",
        58 => "ShiftRight",
        59 => "ControlLeft",
        60 => "ControlRight",
        61 => "AltLeft",
        62 => "AltRight",
        63 => "Equal",
        64 => "Minus",
        65 => "BracketLeft",
        66 => "BracketRight",
        67 => "Semicolon",
        68 => "Quote",
        69 => "Comma",
        70 => "Period",
        71 => "Slash",
        72 => "Backslash",
        73 => "Backquote",
        74 => "Numpad0",
        75 => "Numpad1",
        76 => "Numpad2",
        77 => "Numpad3",
        78 => "Numpad4",
        79 => "Numpad5",
        80 => "Numpad6",
        81 => "Numpad7",
        82 => "Numpad8",
        83 => "Numpad9",
        84 => "NumpadAdd",
        85 => "NumpadSubtract",
        86 => "NumpadMultiply",
        87 => "NumpadDivide",
        88 => "NumpadEnter",
        89 => "Home",
        90 => "End",
        91 => "PageUp",
        92 => "PageDown",
        93 => "Insert",
        _ => "Delete",
    }
}

/// Whether `s` is a key code name that the settings file can name.
pub fn is_known_key_name(s: &[char]) -> (r: bool)
    ensures
        r == key_names().contains(s@),
{
    let mut i: usize = 0;
    while i < 95
        invariant
            i <= 95,
            forall|j: int| 0 <= j < i ==> #[trigger] key_names()[j] != s@,
        decreases 95 - i,
    {
        if chars_equal_str(s, key_name(i)) {
            return true;
        }
        i = i + 1;
    }
    false
}

/// The key binding written `s` in the settings file: `none`, `mouse:` and
/// a button number, or `key:` and a key name the file can name; anything
/// else means no key binding.
#[verifier::opaque]
pub open spec fn parse_key_bind_spec(s: Seq<char>) -> Option<KeyBindView> {
    if s == "none"@ {
        None
    } else if starts_with(s, "mouse:"@) && parse_u32_spec(s.skip(6)) is Some {
        Some(KeyBindView::MouseButton(parse_u32_spec(s.skip(6))->0))
    } else if starts_with(s, "key:"@) && key_names().contains(s.skip(4)) {
        Some(KeyBindView::Key(s.skip(4)))
    } else {
        None
    }
}

/// Reads a key binding from the settings file (see `parse_key_bind_spec`).
pub fn parse_key_bind(s: &[char]) -> (r: Option<KeyBind>)
    ensures
        key_view(r) == parse_key_bind_spec(s@),
{
    proof {
        reveal(parse_key_bind_spec);
        reveal_strlit("mouse:");
        reveal_strlit("key:");
    }
    if chars_equal_str(s, "none") {
        return None;
    }
    if starts_with_str(s, "mouse:") {
        let rest = sub_chars(s, 6, s.len());
        assert(rest@ =~= s@.skip(6));
        if let Some(n) = parse_u32(rest.as_slice()) {
            return Some(KeyBind::MouseButton(n));
        }
    }
    if starts_with_str(s, "key:") {
        let rest = sub_chars(s, 4, s.len());
        assert(rest@ =~= s@.skip(4));
        if is_known_key_name(rest.as_slice()) {
            return Some(KeyBind::Key(string_from_chars(&rest)));
        }
    }
    None
}

/// The gamepad binding written `s` in the settings file: `pad:none`, a
/// stick direction (`pad:StickUp`, ...), or `pad:` and a button name the
/// file can name; anything else means no gamepad binding.
#[verifier::opaque]
pub open spec fn parse_gamepad_bind_spec(s: Seq<char>) -> GamepadBind {
    if s == "pad:none"@ {
        GamepadBind::Unbound
    } else if s == "pad:StickUp"@ {
        GamepadBind::StickUp
    } else if s == "pad:StickDown"@ {
        GamepadBind::StickDown
    } else if s == "pad:StickLeft"@ {
        GamepadBind::StickLeft
    } else if s == "pad:StickRight"@ {
        GamepadBind::StickRight
    } else if starts_with(s, "pad:"@) && pad_button_from_name_spec(s.skip(4)) is Some {
        GamepadBind::Button(pad_button_from_name_spec(s.skip(4))->0)
    } else {
        GamepadBind::Unbound
    }
}

/// Reads a gamepad binding from the settings file (see
/// `parse_gamepad_bind_spec`).
pub fn parse_gamepad_bind(s: &[char]) -> (r: GamepadBind)
    ensures
        r == parse_gamepad_bind_spec(s@),
{
    proof {
        reveal(parse_gamepad_bind_spec);
        reveal_strlit("pad:");
    }
    if chars_equal_str(s, "pad:none") {
        return GamepadBind::Unbound;
    }
    if chars_equal_str(s, "pad:StickUp") {
        return GamepadBind::StickUp;
    }
    if chars_equal_str(s, "pad:StickDown") {
        return GamepadBind::StickDown;
    }
    if chars_equal_str(s, "pad:StickLeft") {
        return GamepadBind::StickLeft;
    }
    if chars_equal_str(s, "pad:StickRight") {
        return GamepadBind::StickRight;
    }
    if starts_with_str(s, "pad:") {
        let rest = sub_chars(s, 4, s.len());
        assert(rest@ =~= s@.skip(4));
        if let Some(b) = pad_button_from_name(rest.as_slice()) {
            return GamepadBind::Button(b);
        }
    }
    GamepadBind::Unbound
}

/// How a key binding is written in the settings file.
pub open spec fn key_bind_text(k: Option<KeyBindView>) -> Seq<char> {
    match k {
        Some(KeyBindView::Key(name)) => "key:"@ + name,
        Some(KeyBindView::MouseButton(n)) => "mouse:"@ + decimal(n as nat),
        None => "none"@,
    }
}

/// How a gamepad binding is written in the settings file.
pub open spec fn pad_bind_text(g: GamepadBind) -> Seq<char> {
    match g {
        GamepadBind::Button(b) => "pad:"@ + pad_button_name(b),
        GamepadBind::StickUp => "pad:StickUp"@,
        GamepadBind::StickDown => "pad:StickDown"@,
        GamepadBind::StickLeft => "pad:StickLeft"@,
        GamepadBind::StickRight => "pad:StickRight"@,
        GamepadBind::Unbound => "pad:none"@,
    }
}

/// Writes a key binding as the settings file holds it.
pub fn key_bind_text_of(k: &Option<KeyBind>) -> (s: String)
    ensures
        s@ == key_bind_text(key_view(*k)),
{
    match k {
        Some(KeyBind::Key(name)) => {
            let mut s = "key:".to_owned();
            s.append(name.as_str());
            s
        },
        Some(KeyBind::MouseButton(n)) => {
            let mut s = "mouse:".to_owned();
            s.append(string_from_chars(&decimal_chars(*n)).as_str());
            s
        },
        None => "none".to_owned(),
    }
}

/// Writes a gamepad binding as the settings file holds it.
pub fn pad_bind_text_of(g: GamepadBind) -> (s: String)
    ensures
        s@ == pad_bind_text(g),
{
    match g {
        GamepadBind::Button(b) => {
            let mut s = "pad:".to_owned();
            s.append(b.name());
            s
        },
        GamepadBind::StickUp => "pad:StickUp".to_owned(),
        GamepadBind::StickDown => "pad:StickDown".to_owned(),
        GamepadBind::StickLeft => "pad:StickLeft".to_owned(),
        GamepadBind::StickRight => "pad:StickRight".to_owned(),
        GamepadBind::Unbound => "pad:none".to_owned(),
    }
}

} // verus!
