//! The settings and window-geometry stores: defaults, round trips, and
//! failure behaviour.

use bad_reader::error::SettingsError;
use bad_reader::settings::{
    FileOpenPreference, FileSettings, GeneralSettings, Settings, SettingsOpen, Theme,
    DEFAULT_AUTO_SCROLL_SPEED_BITS, DEFAULT_FONT_SIZE_BITS,
};
use bad_reader::store::{Command, Effect, StateStore};
use bad_reader::progress::Database;
use bad_reader::window::WindowState;

#[test]
fn default_float_bits_mean_the_documented_values() {
    assert_eq!(f64::from_bits(DEFAULT_FONT_SIZE_BITS), 28.0);
    assert_eq!(f64::from_bits(DEFAULT_AUTO_SCROLL_SPEED_BITS), 3.8);
}

#[test]
fn settings_defaults_match_a_first_run() {
    let g = GeneralSettings::new();
    assert_eq!(g.theme, Theme::Sepia);
    assert_eq!(g.font_size_bits, DEFAULT_FONT_SIZE_BITS);
    assert_eq!(g.font_family, "Segoe UI");
    assert!(!g.use_custom_color);
    assert_eq!(g.background_color, "#000000");
    assert_eq!(g.text_color, "#000000");
    assert_eq!(g.auto_scroll_speed_bits, DEFAULT_AUTO_SCROLL_SPEED_BITS);
    assert!(g.show_page_num);
    assert!(g.show_page_file);
    assert_eq!(FileSettings::new().file_open_preference, FileOpenPreference::NextChapter);
}

#[test]
fn settings_open_without_file_creates_defaults_and_their_bytes() {
    let opened = Settings::open("conf/bad-reader.conf".to_owned(), None);
    match opened {
        SettingsOpen::Created(s, bytes) => {
            assert_eq!(s.general, GeneralSettings::new());
            assert_eq!(s.path, "conf/bad-reader.conf");
            assert_eq!(bytes, s.write());
        },
        _ => panic!("an absent file must create defaults"),
    }
}

#[test]
fn settings_round_trip_through_their_bytes() {
    let s = Settings {
        general: GeneralSettings {
            theme: Theme::Dark,
            font_size_bits: (14.5f64).to_bits(),
            font_family: "Serif".to_owned(),
            use_custom_color: true,
            background_color: "#101010".to_owned(),
            text_color: "#e0e0e0".to_owned(),
            auto_scroll_speed_bits: (1.25f64).to_bits(),
            show_page_num: false,
            show_page_file: true,
        },
        file: FileSettings { file_open_preference: FileOpenPreference::CurrentChapter },
        path: "somewhere/bad-reader.conf".to_owned(),
    };
    let bytes = s.write();
    match Settings::open("ignored".to_owned(), Some(&bytes)) {
        SettingsOpen::Loaded(s2) => assert_eq!(s2, s),
        _ => panic!("written settings must reload as themselves"),
    }
}

#[test]
fn settings_with_non_ascii_text_round_trip() {
    let mut s = match Settings::open("p".to_owned(), None) {
        SettingsOpen::Created(s, _) => s,
        _ => panic!("an absent file must create defaults"),
    };
    s.general.font_family = "Étude Médiévale — 字体".to_owned();
    let bytes = s.write();
    match Settings::open("p".to_owned(), Some(&bytes)) {
        SettingsOpen::Loaded(s2) => assert_eq!(s2.general.font_family, s.general.font_family),
        _ => panic!("non-ASCII settings must reload as themselves"),
    }
}

#[test]
fn corrupt_settings_are_reported_fatal() {
    let bytes = vec![9u8, 9, 9];
    assert!(matches!(
        Settings::open("p".to_owned(), Some(&bytes)),
        SettingsOpen::Corrupt
    ));
    // A good record with trailing garbage is corrupt too.
    let s = match Settings::open("p".to_owned(), None) {
        SettingsOpen::Created(s, _) => s,
        _ => panic!("an absent file must create defaults"),
    };
    let mut bytes = s.write();
    bytes.push(7);
    assert!(matches!(
        Settings::open("p".to_owned(), Some(&bytes)),
        SettingsOpen::Corrupt
    ));
    // Invalid UTF-8 inside a string field is corrupt, not misread: the
    // first string's bytes start after the theme tag, the font-size bits
    // and the length prefix.
    let mut bytes = s.write();
    bytes[17] = 0xFF;
    assert!(matches!(
        Settings::open("p".to_owned(), Some(&bytes)),
        SettingsOpen::Corrupt
    ));
}

#[test]
fn applying_settings_replaces_them_and_hands_back_their_bytes() {
    let mut store = StateStore::new(
        Settings {
            general: GeneralSettings::new(),
            file: FileSettings::new(),
            path: "p".to_owned(),
        },
        Database::new(Vec::new()),
    );
    let mut edited = store.settings.clone();
    edited.general.theme = Theme::Light;
    edited.file.file_open_preference = FileOpenPreference::CurrentChapter;
    let effect = store.apply(Command::ApplySettings { settings: edited.clone() });
    assert_eq!(store.settings, edited);
    match effect {
        Some(Effect::WriteSettings { bytes }) => assert_eq!(bytes, edited.write()),
        _ => panic!("a settings edit must hand back the bytes to write"),
    }
}

#[test]
fn theme_names_round_trip() {
    for t in [Theme::Unthemed, Theme::Sepia, Theme::Dark, Theme::Light] {
        assert_eq!(Theme::from_name(t.as_str()), Some(t));
    }
    assert_eq!(Theme::from_name("sepia"), Some(Theme::Sepia));
    assert_eq!(Theme::from_name("none"), Some(Theme::Unthemed));
    assert_eq!(Theme::from_name("blue"), None);
}

#[test]
fn open_preference_names_and_offsets() {
    assert_eq!(FileOpenPreference::CurrentChapter.to_usize(), 0);
    assert_eq!(FileOpenPreference::NextChapter.to_usize(), 1);
    assert_eq!(
        FileOpenPreference::from_name("current"),
        Some(FileOpenPreference::CurrentChapter)
    );
    assert_eq!(FileOpenPreference::from_name("next"), Some(FileOpenPreference::NextChapter));
    assert_eq!(FileOpenPreference::from_name("later"), None);
    assert_eq!(FileOpenPreference::CurrentChapter.as_str(), "current");
    assert_eq!(FileOpenPreference::NextChapter.as_str(), "next");
}

#[test]
fn settings_error_messages() {
    assert_eq!(
        SettingsError::ReadFromDisk.message(),
        "Failed to open and read config file on disk."
    );
    assert_eq!(SettingsError::WriteToDisk.message(), "Failed to write config file to disk.");
    assert_eq!(SettingsError::Unknown.message(), "Unknown error.");
}

#[test]
fn window_state_defaults() {
    let w = WindowState::default();
    assert_eq!((w.x, w.y, w.width, w.height), (300, 300, 860, 600));
    assert!(!w.is_maximized);
    assert!(!w.is_fullscreen);
}

#[test]
fn window_state_round_trips_through_its_bytes() {
    let w = WindowState::from_window(-24, 980, 1280, 720, true, false);
    let bytes = w.write();
    assert_eq!(WindowState::open(Some(&bytes)), Some(w));
}

#[test]
fn window_state_failures_are_soft() {
    assert_eq!(WindowState::open(None), None);
    let bytes = vec![1u8, 2, 3];
    assert_eq!(WindowState::open(Some(&bytes)), None);
    let mut bytes = WindowState::default().write();
    bytes.push(0);
    assert_eq!(WindowState::open(Some(&bytes)), None);
}
