use flatcaster::bindings::{
    is_known_key_name, key_bind_text_of, pad_bind_text_of, pad_button_from_name, parse_gamepad_bind,
    parse_key_bind, Binding, GamepadBind, KeyBind, PadButton,
};
use flatcaster::menu_types::GameAction;
use flatcaster::settings::{config_value, default_bindings, parse_config, Settings};
use flatcaster::window_mode::WindowMode;

fn chars(s: &str) -> Vec<char> {
    s.chars().collect()
}

fn key(name: &str) -> Option<KeyBind> {
    Some(KeyBind::Key(name.to_string()))
}

#[test]
fn default_settings_values() {
    let s = Settings::default_settings();
    assert_eq!(s.window_mode, WindowMode::Windowed);
    assert_eq!((s.res_width, s.res_height), (1900, 1000));
    assert!(s.fps_enabled);
    assert_eq!(s.fps_millis, 120_000);
    assert!(s.show_fps);
    assert_eq!(s.bindings.len(), 12);
    assert_eq!(s.bindings[0].0, GameAction::Forward);
    assert_eq!(s.bindings[0].1.key, key("KeyZ"));
    assert_eq!(s.bindings[0].1.gamepad, GamepadBind::StickUp);
    assert_eq!(s.bindings[8].1.key, Some(KeyBind::MouseButton(1)));
    assert_eq!(s.bindings[9].1.key, Some(KeyBind::MouseButton(3)));
    assert_eq!(s.bindings[11].0, GameAction::ZoomOut);
    assert_eq!(s.bindings[11].1.key, key("Minus"));
    assert_eq!(s.bindings[11].1.gamepad, GamepadBind::Button(PadButton::LeftTrigger2));
    assert_eq!(default_bindings(), s.bindings);
}

#[test]
fn config_text_of_defaults() {
    let s = Settings::default_settings();
    let t = s.config_text("1");
    let lines: Vec<&str> = t.lines().collect();
    assert_eq!(lines[0], "[graphics]");
    assert_eq!(lines[1], "window_mode=windowed");
    assert_eq!(lines[2], "res_width=1900");
    assert_eq!(lines[3], "res_height=1000");
    assert_eq!(lines[4], "ui_scale=1");
    assert_eq!(lines[5], "");
    assert_eq!(lines[6], "[fps]");
    assert_eq!(lines[7], "fps_enabled=1");
    assert_eq!(lines[8], "fps_millis=120000");
    assert_eq!(lines[9], "show_fps=1");
    assert_eq!(lines[11], "[controls]");
    assert_eq!(lines[12], "Forward=key:KeyZ,pad:StickUp");
    assert_eq!(lines[20], "Shoot=mouse:1,pad:RightTrigger");
    assert_eq!(lines[23], "ZoomOut=key:Minus,pad:LeftTrigger2");
    assert_eq!(lines.len(), 24);
    assert!(t.ends_with('\n'));
}

#[test]
fn settings_read_back_what_was_written() {
    let mut s = Settings::default_settings();
    s.window_mode = WindowMode::BorderlessFullscreen;
    s.res_width = 2560;
    s.res_height = 1440;
    s.fps_enabled = false;
    s.fps_millis = 59_940;
    s.show_fps = false;
    s.bindings[2].1 = Binding { key: None, gamepad: GamepadBind::Unbound };
    s.bindings[3].1 = Binding { key: Some(KeyBind::MouseButton(7)), gamepad: GamepadBind::StickRight };
    s.bindings[4].1 = Binding { key: key("F12"), gamepad: GamepadBind::Button(PadButton::Select) };
    let t = s.config_text("1.25");
    let back = Settings::from_config_text(&t);
    assert_eq!(back, s);
}

#[test]
fn settings_defaults_read_back() {
    let s = Settings::default_settings();
    assert_eq!(Settings::from_config_text(&s.config_text("0.8")), s);
}

#[test]
fn empty_file_gives_defaults() {
    assert_eq!(Settings::from_config_text(""), Settings::default_settings());
}

#[test]
fn small_resolution_is_raised() {
    let s = Settings::from_config_text("res_width=320\nres_height=200\n");
    assert_eq!((s.res_width, s.res_height), (640, 480));
}

#[test]
fn unreadable_numbers_keep_defaults() {
    let s = Settings::from_config_text("res_width=wide\nfps_millis=-5\nres_height=+1200\n");
    assert_eq!(s.res_width, 1900);
    assert_eq!(s.fps_millis, 120_000);
    assert_eq!(s.res_height, 1200);
}

#[test]
fn flags_and_modes_are_read() {
    let s = Settings::from_config_text(
        "  [fps]\nfps_enabled = true\nshow_fps=0\n# comment\nwindow_mode = fullscreen\n",
    );
    assert!(s.fps_enabled);
    assert!(!s.show_fps);
    assert_eq!(s.window_mode, WindowMode::Fullscreen);
    let t = Settings::from_config_text("fps_enabled=yes\nwindow_mode=tiny\n");
    assert!(!t.fps_enabled);
    assert_eq!(t.window_mode, WindowMode::Windowed);
}

#[test]
fn later_entries_win() {
    let s = Settings::from_config_text("fps_millis=1000\nfps_millis=2000\n");
    assert_eq!(s.fps_millis, 2000);
}

#[test]
fn binding_without_pad_keeps_default_pad() {
    let s = Settings::from_config_text("Forward=key:KeyW\nBackward=junk,pad:South\n");
    assert_eq!(s.bindings[0].1.key, key("KeyW"));
    assert_eq!(s.bindings[0].1.gamepad, GamepadBind::StickUp);
    assert_eq!(s.bindings[1].1.key, None);
    assert_eq!(s.bindings[1].1.gamepad, GamepadBind::Button(PadButton::South));
}

#[test]
fn parse_config_entries() {
    let e = parse_config("[a]\n k = v \nnoequals\n=x\nk2=a=b\r\n#c=d\n");
    let got: Vec<(String, String)> =
        e.iter().map(|(k, v)| (k.iter().collect(), v.iter().collect())).collect();
    assert_eq!(
        got,
        vec![
            ("k".to_string(), "v".to_string()),
            ("".to_string(), "x".to_string()),
            ("k2".to_string(), "a=b".to_string()),
        ]
    );
    assert_eq!(config_value(&e, "k"), Some(chars("v")));
    assert_eq!(config_value(&e, "k2"), Some(chars("a=b")));
    assert_eq!(config_value(&e, "missing"), None);
}

#[test]
fn key_binds_parse() {
    assert_eq!(parse_key_bind(&chars("none")), None);
    assert_eq!(parse_key_bind(&chars("mouse:3")), Some(KeyBind::MouseButton(3)));
    assert_eq!(parse_key_bind(&chars("mouse:x")), None);
    assert_eq!(parse_key_bind(&chars("key:Space")), key("Space"));
    assert_eq!(parse_key_bind(&chars("key:Nope")), None);
    assert_eq!(parse_key_bind(&chars("Space")), None);
}

#[test]
fn gamepad_binds_parse() {
    assert_eq!(parse_gamepad_bind(&chars("pad:none")), GamepadBind::Unbound);
    assert_eq!(parse_gamepad_bind(&chars("pad:StickLeft")), GamepadBind::StickLeft);
    assert_eq!(parse_gamepad_bind(&chars("pad:DPadUp")), GamepadBind::Button(PadButton::DPadUp));
    assert_eq!(parse_gamepad_bind(&chars("pad:Mode")), GamepadBind::Unbound);
    assert_eq!(parse_gamepad_bind(&chars("South")), GamepadBind::Unbound);
}

#[test]
fn bind_texts() {
    assert_eq!(key_bind_text_of(&None), "none");
    assert_eq!(key_bind_text_of(&Some(KeyBind::MouseButton(12))), "mouse:12");
    assert_eq!(key_bind_text_of(&key("Enter")), "key:Enter");
    assert_eq!(pad_bind_text_of(GamepadBind::StickDown), "pad:StickDown");
    assert_eq!(pad_bind_text_of(GamepadBind::Button(PadButton::Start)), "pad:Start");
    assert_eq!(pad_bind_text_of(GamepadBind::Unbound), "pad:none");
}

#[test]
fn pad_and_key_names() {
    assert_eq!(pad_button_from_name(&chars("RightThumb")), Some(PadButton::RightThumb));
    assert_eq!(pad_button_from_name(&chars("Unknown")), None);
    assert_eq!(PadButton::West.name(), "West");
    assert!(is_known_key_name(&chars("KeyA")));
    assert!(is_known_key_name(&chars("NumpadEnter")));
    assert!(!is_known_key_name(&chars("keya")));
}

#[test]
fn binding_labels() {
    assert_eq!(KeyBind::MouseButton(1).label(), "Souris G");
    assert_eq!(KeyBind::MouseButton(2).label(), "Souris M");
    assert_eq!(KeyBind::MouseButton(3).label(), "Souris D");
    assert_eq!(KeyBind::MouseButton(5).label(), "Souris 5");
    assert_eq!(KeyBind::Key("KeyQ".to_string()).label(), "KeyQ");
    assert_eq!(GamepadBind::Button(PadButton::South).label(), "A / Croix");
    assert_eq!(GamepadBind::Button(PadButton::Mode).label(), "Bouton");
    assert_eq!(GamepadBind::StickUp.label(), "🕹 ↑");
    assert_eq!(GamepadBind::Unbound.label(), "—");
}

#[test]
fn binding_builders() {
    let b = Binding::key(KeyBind::Key("KeyE".to_string())).with_pad(PadButton::North);
    assert_eq!(b.key, key("KeyE"));
    assert_eq!(b.gamepad, GamepadBind::Button(PadButton::North));
    let m = Binding::mouse(2);
    assert_eq!(m.key, Some(KeyBind::MouseButton(2)));
    assert_eq!(m.gamepad, GamepadBind::Unbound);
}

#[test]
fn window_mode_names() {
    for m in WindowMode::all() {
        assert_eq!(WindowMode::from_str(m.to_str()), *m);
    }
    assert_eq!(WindowMode::from_str("borderless"), WindowMode::BorderlessFullscreen);
    assert_eq!(WindowMode::from_str("whatever"), WindowMode::Windowed);
    assert_eq!(WindowMode::Fullscreen.label(), "Plein écran");
    assert_eq!(WindowMode::all().len(), 3);
}
