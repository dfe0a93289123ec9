use yt_dlp_clipper::cookies::{Browser, CookieSource};
use yt_dlp_clipper::double::Double;
use yt_dlp_clipper::keybinds::{Bind, Keybinds, SavedBind, Shortcut, Stored};
use yt_dlp_clipper::settings::{Settings, StoredSettings};
use yt_dlp_clipper::theme::{
    text_levels, theme_pref_from_name, theme_pref_label, theme_pref_name, TextLevels, Theme,
    ThemePreference,
};

fn shortcut(key: &str, ctrl: bool, shift: bool) -> Shortcut {
    Shortcut { key: key.into(), ctrl, shift }
}

fn labels(binds: &Keybinds) -> Vec<String> {
    Bind::all().into_iter().map(|bind| binds.shortcut(bind).label()).collect()
}

fn saved(id: &str, name: &str, ctrl: bool, shift: bool) -> SavedBind {
    SavedBind { id: id.into(), name: name.into(), ctrl, shift }
}

#[test]
fn shortcuts_start_out_as_usual() {
    assert_eq!(
        labels(&Keybinds::new()),
        [
            "S",
            "E",
            "Space",
            "Shift+Space",
            "Right",
            "Left",
            "Shift+Right",
            "Shift+Left",
            "Ctrl+Z",
            "Ctrl+Y"
        ]
    );
    assert_eq!(shortcut("A", true, true).label(), "Ctrl+Shift+A");
}

#[test]
fn usual_keys_are_called_what_egui_calls_them() {
    let binds = Keybinds::new();
    for (bind, key) in [
        (Bind::SetStart, egui::Key::S),
        (Bind::SetEnd, egui::Key::E),
        (Bind::PlayPauseClip, egui::Key::Space),
        (Bind::PlayPause, egui::Key::Space),
        (Bind::SkipBack, egui::Key::ArrowLeft),
        (Bind::SkipForward, egui::Key::ArrowRight),
        (Bind::StepBack, egui::Key::ArrowLeft),
        (Bind::StepForward, egui::Key::ArrowRight),
        (Bind::Undo, egui::Key::Z),
        (Bind::Redo, egui::Key::Y),
    ] {
        assert_eq!(binds.shortcut(bind).key, key.name());
    }
    assert_eq!(egui::Key::Escape.name(), "Escape");
}

#[test]
fn rebinding_swaps_with_whoever_had_it() {
    let mut binds = Keybinds::new();
    binds.rebind(Bind::SetStart, shortcut("E", false, false));
    assert_eq!(binds.shortcut(Bind::SetStart).label(), "E");
    assert_eq!(binds.shortcut(Bind::SetEnd).label(), "S");
    binds.rebind(Bind::Undo, shortcut("U", true, false));
    assert_eq!(binds.shortcut(Bind::Undo).label(), "Ctrl+U");
    let mut all = labels(&binds);
    all.sort();
    all.dedup();
    assert_eq!(all.len(), 10);
}

#[test]
fn escape_leaves_a_shortcut_alone() {
    let mut binds = Keybinds::new();
    binds.capture(Bind::Redo, shortcut("Escape", false, false));
    assert_eq!(labels(&binds), labels(&Keybinds::new()));
    binds.capture(Bind::Redo, shortcut("R", false, true));
    assert_eq!(binds.shortcut(Bind::Redo).label(), "Shift+R");
}

#[test]
fn modifiers_have_to_match() {
    let plain = shortcut("S", false, false);
    assert!(plain.is_hit(true, false, false));
    assert!(!plain.is_hit(true, false, true));
    assert!(!plain.is_hit(true, true, false));
    assert!(!plain.is_hit(false, false, false));
}

#[test]
fn ids_find_their_actions() {
    for bind in Bind::all() {
        assert_eq!(Bind::from_id(bind.id()), Some(bind));
    }
    assert_eq!(Bind::from_id("set_middle"), None);
    assert_eq!(Bind::PlayPause.id(), "play_pause");
    assert_eq!(Bind::PlayPause.label(), "Play / pause");
}

#[test]
fn saved_shortcuts_come_back() {
    let mut binds = Keybinds::new();
    binds.rebind(Bind::SkipBack, shortcut("Comma", true, true));
    binds.rebind(Bind::SetStart, shortcut("E", false, false));
    let back = Keybinds::load(&Stored::Binds(binds.save()));
    assert_eq!(labels(&back), labels(&binds));
}

#[test]
fn loading_passes_over_what_it_does_not_know() {
    let stored = Stored::Binds(vec![
        saved("set_start", "Q", false, false),
        saved("fly", "W", false, false),
        saved("undo", "NoSuchKey", false, false),
        saved("redo", "ArrowUp", true, true),
        saved("set_start", "w", false, true),
    ]);
    let binds = Keybinds::load(&stored);
    // Keys come under egui's own name for them, and the last of an action counts.
    assert_eq!(binds.shortcut(Bind::SetStart).label(), "Shift+W");
    assert_eq!(binds.shortcut(Bind::Redo).label(), "Ctrl+Shift+Up");
    assert_eq!(binds.shortcut(Bind::Undo).label(), "Ctrl+Z");
}

#[test]
fn older_saves_have_no_ctrl() {
    let stored = Stored::CtrlLess(vec![("undo".into(), "U".into(), true)]);
    let binds = Keybinds::load(&stored);
    assert_eq!(binds.shortcut(Bind::Undo).label(), "Shift+U");
    assert_eq!(binds.shortcut(Bind::Redo).label(), "Ctrl+Y");
    assert_eq!(labels(&Keybinds::load(&Stored::Nothing)), labels(&Keybinds::new()));
}

#[test]
fn themes_are_named_and_found() {
    for pref in [ThemePreference::Dark, ThemePreference::Light, ThemePreference::System] {
        assert_eq!(theme_pref_from_name(theme_pref_name(pref)), pref);
    }
    assert_eq!(theme_pref_from_name("sepia"), ThemePreference::System);
    assert_eq!(theme_pref_label(ThemePreference::System), "Match desktop");
    assert_eq!(text_levels(Theme::Dark), TextLevels { body: 225, button: 235, extreme: 255 });
    assert_eq!(text_levels(Theme::Light), TextLevels { body: 30, button: 20, extreme: 0 });
}

fn nothing_stored() -> StoredSettings {
    StoredSettings {
        ui_scale: None,
        theme: None,
        download_dir: None,
        output_dir: None,
        delete_cache_on_exit: None,
        open_dir_on_save: None,
        compatibility_mode: None,
        volume: None,
        keybinds: Stored::Nothing,
        cookies: None,
    }
}

#[test]
fn settings_start_out_as_usual() {
    for settings in [Settings::new(), Settings::load(nothing_stored())] {
        assert_eq!(f64::from_bits(settings.ui_scale.bits), 1.0);
        assert_eq!(f64::from_bits(settings.volume.bits), 0.5);
        assert_eq!(settings.theme, ThemePreference::System);
        assert!(settings.compatibility_mode);
        assert!(settings.cookies.is_none());
        assert!(!settings.delete_cache_on_exit && !settings.open_dir_on_save);
        assert_eq!(settings.effective_download_dir("/cache".into()), "/cache");
    }
}

#[test]
fn saved_settings_come_back() {
    let mut settings = Settings::new();
    settings.ui_scale = Double { bits: 1.25f64.to_bits() };
    settings.theme = ThemePreference::Light;
    settings.download_dir = Some("/downloads".into());
    settings.open_dir_on_save = true;
    settings.compatibility_mode = false;
    settings.keybinds.rebind(Bind::Undo, shortcut("U", false, false));
    settings.cookies = Some(CookieSource::File("/home/me/cookies.txt".into()));
    let back = Settings::load(settings.save());
    assert!(matches!(&back.cookies, Some(CookieSource::File(p)) if p == "/home/me/cookies.txt"));
    settings.cookies = Some(CookieSource::Browser(Browser::Edge));
    let again = Settings::load(settings.save());
    assert!(matches!(again.cookies, Some(CookieSource::Browser(Browser::Edge))));
    assert_eq!(back.ui_scale, settings.ui_scale);
    assert_eq!(back.theme, ThemePreference::Light);
    assert_eq!(back.effective_download_dir("/cache".into()), "/downloads");
    assert_eq!(back.output_dir, None);
    assert!(back.open_dir_on_save && !back.compatibility_mode);
    assert_eq!(labels(&back.keybinds), labels(&settings.keybinds));
}
