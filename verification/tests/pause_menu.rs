use flatcaster::bindings::KeyBind;
use flatcaster::menu_state::{MenuOutcome, PauseMenu, RectUpdate, Scroll};
use flatcaster::menu_types::{ActiveScreen, ControlCol, FpsEditMode, MenuEvent};
use flatcaster::menu_hud::HudSlot;
use flatcaster::menu_view::{RowStyle, SeedTextStyle};
use flatcaster::settings::Settings;
use flatcaster::window_mode::WindowMode;

fn menu(seed: &str) -> PauseMenu {
    PauseMenu::new(&Settings::default_settings(), seed)
}

fn frame(m: &mut PauseMenu, up: bool, down: bool, confirm: bool, escape: bool) -> MenuOutcome {
    m.handle_input(
        up, down, false, false, confirm, escape, false, &[], false, false, false, None, None, None,
        Scroll::Still, None, false, false, false, false, false, 10,
    )
}

#[test]
fn new_menu_shows_settings() {
    let m = menu("abc");
    assert_eq!(m.active_screen, ActiveScreen::Main);
    assert_eq!(m.main_row, 0);
    assert_eq!(m.seed_input, vec!['a', 'b', 'c']);
    assert_eq!(m.seed_cursor, 3);
    assert_eq!((m.pending_width, m.pending_height), (1900, 1000));
    assert_eq!(m.res_preset_idx, 3);
    assert_eq!(m.fps_millis, 120_000);
    assert_eq!(m.fps_preset_idx, 12);
    assert_eq!(m.fps_edit_mode, FpsEditMode::Preset);
    assert_eq!(m.window_mode, WindowMode::Windowed);
    assert_eq!(m.nav_cooldown, 0);
    assert_eq!(m.seed_string(), "abc");
}

#[test]
fn main_screen_moves_round() {
    let mut m = menu("s");
    let o = m.handle_main(true, false, false, false);
    assert!(o.event.is_nothing());
    assert_eq!(m.main_row, 4);
    assert_eq!(m.nav_cooldown, 8);
    // the cooldown holds the highlight
    m.handle_main(true, false, false, false);
    assert_eq!(m.main_row, 4);
    m.nav_cooldown = 0;
    m.handle_main(false, true, false, false);
    assert_eq!(m.main_row, 0);
}

#[test]
fn escape_closes_and_quit_quits() {
    let mut m = menu("s");
    assert_eq!(m.handle_main(false, false, false, true).event, MenuEvent::Close);
    let mut q = menu("s");
    q.handle_main(true, false, false, false);
    q.nav_cooldown = 0;
    let o = q.handle_main(false, false, true, false);
    assert_eq!(o.event, MenuEvent::Quit);
    let mut r = menu("s");
    assert_eq!(r.handle_main(false, false, true, false).event, MenuEvent::Close);
}

#[test]
fn held_key_repeats_after_cooldown() {
    let mut m = menu("s");
    for _ in 0..9 {
        frame(&mut m, false, true, false, false);
    }
    // moved on the first frame and again on the ninth
    assert_eq!(m.main_row, 2);
}

#[test]
fn seed_screen_types_and_applies() {
    let mut m = menu("abc");
    m.main_row = 3;
    let o = m.handle_main(false, false, true, false);
    assert_eq!(m.active_screen, ActiveScreen::Seed);
    assert_eq!(o.rects, RectUpdate::MainOnly);
    m.nav_cooldown = 0;
    m.handle_seed(false, false, true, false, &[], false, false, false, None, false, false, false, false);
    assert!(m.seed_focused);
    m.nav_cooldown = 0;
    m.handle_seed(false, false, false, false, &['x', '!', 'Y'], false, false, false, None, false, false, false, false);
    assert_eq!(m.seed_string(), "abcxY");
    assert_eq!(m.seed_cursor, 5);
    m.handle_seed(false, false, false, false, &[], true, false, false, None, false, false, false, false);
    assert_eq!(m.seed_string(), "abcx");
    let o = m.handle_seed(false, false, true, false, &[], false, false, false, None, false, false, false, false);
    assert_eq!(o.event, MenuEvent::ApplySeedInMenu("abcx".to_string()));
    assert!(!m.seed_focused);
}

#[test]
fn seed_stays_short_and_clean_through_typing_and_paste() {
    let mut m = menu("ab");
    m.main_row = 3;
    m.handle_main(false, false, true, false);
    m.nav_cooldown = 0;
    m.handle_seed(false, false, true, false, &[], false, false, false, None, false, false, false, false);
    let clean = |m: &PauseMenu| {
        m.seed_input.len() <= 256
            && m.seed_cursor <= m.seed_input.len()
            && m.seed_input.iter().all(|c| c.is_ascii_alphanumeric() || *c == '_' || *c == '-')
    };
    let typed: Vec<char> = "x y!z_-é".chars().cycle().take(600).collect();
    m.handle_seed(false, false, false, false, &typed, false, false, false, None, false, false, false, false);
    assert!(clean(&m));
    assert_eq!(m.seed_input.len(), 256);
    let long: String = "a-b c".repeat(200);
    m.handle_seed(false, false, false, false, &[], false, true, true, Some(&long), false, false, false, false);
    assert!(clean(&m));
    assert_eq!(m.seed_input.len(), 256);
    m.handle_seed(false, false, false, false, &[], false, false, true, Some("  q!r  "), false, true, false, false);
    assert!(clean(&m));
}

#[test]
fn seed_buttons() {
    let mut m = menu("xyz");
    m.main_row = 3;
    m.handle_main(false, false, true, false);
    m.nav_cooldown = 0;
    m.handle_seed(false, true, false, false, &[], false, false, false, None, false, false, false, false);
    assert_eq!(m.selected_row, 1);
    m.nav_cooldown = 0;
    let o = m.handle_seed(false, false, true, false, &[], false, false, false, None, false, false, false, false);
    assert_eq!(o.event, MenuEvent::ApplySeed("xyz".to_string()));
    m.selected_row = 2;
    let o = m.handle_seed(false, false, true, false, &[], false, false, false, None, false, false, false, false);
    assert_eq!(o.event, MenuEvent::RandomSeed);
    let o = m.handle_seed(false, false, false, true, &[], false, false, false, None, false, false, false, false);
    assert!(o.event.is_nothing());
    assert_eq!(m.active_screen, ActiveScreen::Main);
}

#[test]
fn controls_rebind_a_key() {
    let mut m = menu("s");
    m.main_row = 1;
    m.handle_main(false, false, true, false);
    assert_eq!(m.active_screen, ActiveScreen::Controls);
    m.nav_cooldown = 0;
    m.handle_controls(false, false, false, false, true, false, None, None, Scroll::Still, 10);
    assert_eq!(m.awaiting_rebind_key, Some((0, ControlCol::Key)));
    m.handle_controls(false, false, false, false, false, false, Some("KeyW".to_string()), None, Scroll::Still, 10);
    assert_eq!(m.awaiting_rebind_key, None);
    assert_eq!(m.bindings[0].1.key, Some(KeyBind::Key("KeyW".to_string())));
    m.handle_controls(false, false, false, false, true, false, None, None, Scroll::Still, 10);
    m.handle_controls(false, false, false, false, false, false, None, Some(2), Scroll::Still, 10);
    assert_eq!(m.bindings[0].1.key, Some(KeyBind::MouseButton(2)));
    m.handle_controls(false, false, false, false, false, true, None, None, Scroll::Still, 10);
    assert_eq!(m.active_screen, ActiveScreen::Main);
}

#[test]
fn controls_rebind_is_cancelled_by_escape() {
    let mut m = menu("s");
    m.main_row = 1;
    m.handle_main(false, false, true, false);
    m.handle_controls(false, false, false, false, true, false, None, None, Scroll::Still, 10);
    m.handle_controls(false, false, false, false, false, true, None, None, Scroll::Still, 10);
    assert_eq!(m.awaiting_rebind_key, None);
    assert_eq!(m.active_screen, ActiveScreen::Controls);
    assert_eq!(m.bindings[0].1.key, Some(KeyBind::Key("KeyZ".to_string())));
}

#[test]
fn graphics_resolution_row() {
    let mut m = menu("s");
    m.main_row = 2;
    m.handle_main(false, false, true, false);
    assert_eq!(m.active_screen, ActiveScreen::Graphics);
    m.nav_cooldown = 0;
    m.handle_graphics(false, false, false, true, false, false, &[], false, Scroll::Still);
    assert_eq!(m.res_preset_idx, 4);
    assert_eq!((m.pending_width, m.pending_height), (2560, 1440));
    m.nav_cooldown = 0;
    m.handle_graphics(false, false, false, false, true, false, &[], false, Scroll::Still);
    assert_eq!(m.pending_resize, Some((2560, 1440)));
    assert_eq!(m.nav_cooldown, 15);
    m.handle_graphics(false, false, false, false, false, true, &[], false, Scroll::Still);
    assert_eq!(m.active_screen, ActiveScreen::Main);
}

#[test]
fn graphics_rows_wrap() {
    let mut m = menu("s");
    m.main_row = 2;
    m.handle_main(false, false, true, false);
    m.nav_cooldown = 0;
    m.handle_graphics(true, false, false, false, false, false, &[], false, Scroll::Still);
    assert_eq!(m.graphics_row, 5);
}

#[test]
fn typed_frame_rate_keeps_six_digits_and_one_point() {
    let mut m = menu("s");
    m.main_row = 2;
    m.handle_main(false, false, true, false);
    m.graphics_row = 4;
    m.fps_enabled = true;
    m.handle_graphics(false, false, false, false, false, false, &['x', '1'], false, Scroll::Still);
    assert_eq!(m.fps_edit_mode, FpsEditMode::Typing);
    assert_eq!(m.fps_typing_buf, vec!['1']);
    let typed: Vec<char> = "2345678.9,.5".chars().collect();
    m.handle_graphics(false, false, false, false, false, false, &typed, false, Scroll::Still);
    assert_eq!(m.fps_typing_buf.iter().collect::<String>(), "123456.");
    m.handle_graphics(false, false, false, false, false, false, &['7'], true, Scroll::Still);
    assert_eq!(m.fps_typing_buf.iter().collect::<String>(), "123456");
}

#[test]
fn typed_frame_rate_is_set() {
    let mut m = menu("s");
    m.set_typed_fps(60_000);
    assert_eq!(m.fps_millis, 60_000);
    assert_eq!(m.fps_preset_idx, 8);
    assert_eq!(m.fps_edit_mode, FpsEditMode::Preset);
}

#[test]
fn mouse_hover_and_click() {
    let mut m = menu("s");
    let o = m.handle_mouse(Some((0, 2)), false);
    assert!(o.event.is_nothing());
    assert_eq!(m.main_row, 2);
    let o = m.handle_mouse(Some((0, 4)), true);
    assert_eq!(o.event, MenuEvent::Quit);
}

#[test]
fn controls_scroll_fits_the_selection() {
    let mut m = menu("s");
    m.selected_row = 11;
    let end = m.fit_controls_scroll(5);
    assert_eq!(end, 12);
    assert_eq!(m.controls_scroll, 7);
}

#[test]
fn chosen_settings_follow_the_menu() {
    let mut m = menu("s");
    m.pending_width = 1280;
    m.pending_height = 720;
    m.window_mode = WindowMode::Fullscreen;
    m.show_fps = false;
    m.fps_millis = 30_000;
    m.fps_enabled = false;
    let s = m.chosen_settings();
    assert_eq!((s.res_width, s.res_height), (1280, 720));
    assert_eq!(s.window_mode, WindowMode::Fullscreen);
    assert!(!s.show_fps);
    assert!(!s.fps_enabled);
    assert_eq!(s.fps_millis, 30_000);
    assert_eq!(s.bindings, Settings::default_settings().bindings);
}

#[test]
fn opening_shows_the_main_screen_and_seed() {
    let mut m = menu("old");
    m.main_row = 2;
    m.main_row = 3;
    m.handle_main(false, false, true, false);
    assert_eq!(m.active_screen, ActiveScreen::Seed);
    m.open("newseed");
    assert_eq!(m.active_screen, ActiveScreen::Main);
    assert_eq!(m.main_row, 0);
    assert_eq!(m.seed_string(), "newseed");
    assert_eq!(m.seed_cursor, 7);
}

#[test]
fn seed_field_texts() {
    let mut m = menu("abcdef");
    assert_eq!(m.seed_field(10), ("abcdef".to_string(), SeedTextStyle::Normal));
    m.seed_focused = true;
    m.seed_cursor = 2;
    assert_eq!(m.seed_field(10), ("ab|cdef".to_string(), SeedTextStyle::Normal));
    m.cursor_blink_visible = false;
    assert_eq!(m.seed_field(10).0, "abcdef");
    m.seed_selected = true;
    assert_eq!(m.seed_field(3), ("[abc]".to_string(), SeedTextStyle::Selected));
    let e = menu("");
    assert_eq!(e.seed_field(10), ("Entree pour editer...".to_string(), SeedTextStyle::Placeholder));
}

#[test]
fn seed_scroll_follows_the_cursor() {
    let mut m = menu("abcdefghij");
    m.fit_seed_scroll(4);
    // cursor after the 10th character, 4 shown: start at 7
    assert_eq!(m.seed_scroll, 7);
    m.seed_cursor = 2;
    m.fit_seed_scroll(4);
    assert_eq!(m.seed_scroll, 2);
}

#[test]
fn controls_rows_show_bindings() {
    let mut m = menu("s");
    let r = m.controls_row(0);
    assert_eq!(
        r,
        (
            "Avancer".to_string(),
            "KeyZ".to_string(),
            "🕹 ↑".to_string(),
            RowStyle::Selected,
            RowStyle::Selected,
            RowStyle::Normal
        )
    );
    m.awaiting_rebind_key = Some((8, ControlCol::Pad));
    let r = m.controls_row(8);
    assert_eq!(r.0, "Tirer");
    assert_eq!(r.1, "Souris G");
    assert_eq!(r.2, "[ manette... ]");
    assert_eq!((r.3, r.4, r.5), (RowStyle::Normal, RowStyle::Normal, RowStyle::Awaiting));
}

#[test]
fn any_seed_can_be_shown() {
    let long: String = std::iter::repeat('x').take(300).collect();
    let mut m = menu(&long);
    assert_eq!(m.seed_cursor, 300);
    m.main_row = 3;
    m.handle_main(false, false, true, false);
    m.handle_seed(false, false, false, false, &['a'], false, false, false, None, false, false, false, false);
    // a full seed takes no more characters
    assert_eq!(m.seed_input.len(), 300);
    let n = menu("é ü");
    assert_eq!(n.seed_string(), "é ü");
    assert_eq!(n.seed_cursor, 3);
}

fn texts(v: &[(String, RowStyle, HudSlot)]) -> Vec<&str> {
    v.iter().map(|e| e.0.as_str()).collect()
}

#[test]
fn hud_main_screen() {
    let mut m = menu("s");
    m.main_row = 2;
    let h = m.hud_entries(5, 10, "1.00", true);
    assert_eq!(texts(&h), vec!["PAUSE", "PAUSE", "Reprendre", "Contrôles", "Graphismes", "Seed", "Quitter"]);
    assert_eq!(h[0].1, RowStyle::PauseShadow);
    assert_eq!(h[1].1, RowStyle::PauseTitle);
    assert_eq!(h[4], ("Graphismes".to_string(), RowStyle::Selected, HudSlot::MainItem(2)));
    assert_eq!(h[3].1, RowStyle::Normal);
    assert_eq!(m.hud_arrow(5), Some(HudSlot::MainItem(2)));
}

#[test]
fn hud_controls_screen_shows_the_rows_in_view() {
    let mut m = menu("s");
    m.active_screen = ActiveScreen::Controls;
    m.selected_row = 6;
    let end = m.fit_controls_scroll(4);
    assert_eq!((m.controls_scroll, end), (3, 7));
    let h = m.hud_entries(4, 10, "1.00", true);
    // title, two headers, four rows of three, and both scroll marks
    assert_eq!(h.len(), 3 + 12 + 2);
    assert_eq!(h[0].0, "CONTROLES");
    assert_eq!(h[3].2, HudSlot::ControlsCell(3, 0));
    assert_eq!(h[12].1, RowStyle::Selected);
    assert_eq!(h[12].2, HudSlot::ControlsCell(6, 0));
    assert_eq!(h[15], ("▲".to_string(), RowStyle::Dim, HudSlot::ScrollUp));
    assert_eq!(h[16], ("▼".to_string(), RowStyle::Dim, HudSlot::ScrollDown));
    assert_eq!(m.hud_arrow(4), Some(HudSlot::ControlsCell(6, 0)));
}

#[test]
fn hud_graphics_screen() {
    let mut m = menu("s");
    m.active_screen = ActiveScreen::Graphics;
    m.graphics_row = 0;
    m.fps_enabled = true;
    let h = m.hud_entries(5, 10, "1.25", true);
    assert_eq!(
        texts(&h),
        vec![
            "GRAPHISMES",
            "Resolution",
            "< 1920 × 1080 >",
            "(Entree pour appliquer)",
            "Mode affichage",
            "Fenêtré",
            "Taille interface",
            "1.25x",
            "Limite FPS  [x]",
            "Valeur FPS",
            "< 120 fps >",
            "Afficher FPS  [x]",
        ]
    );
    m.graphics_row = 4;
    m.fps_edit_mode = FpsEditMode::Typing;
    m.fps_typing_buf = vec!['4', '2'];
    let h = m.hud_entries(5, 10, "1.25", true);
    assert_eq!(h[9], ("42| fps".to_string(), RowStyle::Typing, HudSlot::GraphicsValue(4)));
    m.fps_enabled = false;
    m.fps_edit_mode = FpsEditMode::Preset;
    m.fps_typing_buf.clear();
    let h = m.hud_entries(5, 10, "1.25", true);
    assert_eq!(h[8].1, RowStyle::Dim);
    assert_eq!(h[9], ("120 fps".to_string(), RowStyle::Dim, HudSlot::GraphicsValue(4)));
    assert_eq!(m.hud_arrow(5), None);
}

#[test]
fn hud_seed_screen() {
    let mut m = menu("abc");
    m.active_screen = ActiveScreen::Seed;
    m.selected_row = 1;
    let h = m.hud_entries(5, 10, "1.00", true);
    assert_eq!(
        texts(&h),
        vec!["SEED", "abc", "[Haut/Bas] naviguer  [Entree] valider", "[ Appliquer ]", "[ Seed aleatoire ]"]
    );
    assert_eq!(h[3].1, RowStyle::Selected);
    assert_eq!(h[4].1, RowStyle::Normal);
    assert_eq!(m.hud_arrow(5), Some(HudSlot::SeedButton(1)));
}
