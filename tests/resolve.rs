use cheztheme::error::ThemeError;
use cheztheme::palette::{Palette, Theme};
use cheztheme::resolve::{load_theme, preset_file, theme_file_name, PresetFile, ThemeFile};
use include_dir::{Dir, DirEntry, File};

fn theme(prefix: &str) -> Theme {
    let slots: Vec<String> = (0..16).map(|i| format!("#{}{:04x}", prefix, i)).collect();
    Theme { palette: Palette::from_slots(slots).unwrap() }
}

fn presets() -> Dir<'static> {
    let entries: Vec<DirEntry<'static>> = vec![
        DirEntry::File(File::new("dracula.yaml", b"palette: {}")),
        DirEntry::File(File::new("gruvbox.yaml", b"palette: {}")),
        DirEntry::File(File::new("notes.txt", b"")),
    ];
    Dir::new("", Box::leak(entries.into_boxed_slice()))
}

#[test]
fn preset_wins_over_custom_file_of_same_name() {
    let dir = presets();
    assert!(preset_file(&dir, "gruvbox").is_some());
    let r = load_theme(PresetFile::Parsed(theme("bb")), ThemeFile::Parsed(theme("cc"))).unwrap();
    assert_eq!(r.palette.base00, "#bb0000");
    assert_eq!(r.palette.base0F, "#bb000f");
}

#[test]
fn preset_loads_whatever_the_user_directory_holds() {
    for custom in [ThemeFile::Missing, ThemeFile::Unreadable, ThemeFile::Malformed] {
        let r = load_theme(PresetFile::Parsed(theme("aa")), custom).unwrap();
        assert_eq!(r.palette.base05, "#aa0005");
        assert!(!r.palette.base0A.is_empty());
    }
}

#[test]
fn unknown_theme_is_not_found() {
    assert!(preset_file(&presets(), "doesnotexist").is_none());
    assert_eq!(load_theme(PresetFile::Absent, ThemeFile::Missing).err(), Some(ThemeError::NotFound));
}

#[test]
fn custom_theme_is_loaded_when_no_preset_matches() {
    assert!(preset_file(&presets(), "nord").is_none());
    let r = load_theme(PresetFile::Absent, ThemeFile::Parsed(theme("2e"))).unwrap();
    assert_eq!(r.palette.base00, "#2e0000");
}

#[test]
fn custom_file_errors_are_reported() {
    assert_eq!(load_theme(PresetFile::Absent, ThemeFile::Malformed).err(), Some(ThemeError::Parse));
    assert_eq!(load_theme(PresetFile::Absent, ThemeFile::Unreadable).err(), Some(ThemeError::Io));
}

#[test]
fn malformed_preset_is_a_parse_error() {
    assert_eq!(load_theme(PresetFile::Malformed, ThemeFile::Parsed(theme("cc"))).err(), Some(ThemeError::Parse));
}

#[test]
fn presets_are_found_by_file_name() {
    let dir = presets();
    assert_eq!(theme_file_name("nord"), "nord.yaml");
    let f = preset_file(&dir, "dracula").unwrap();
    assert_eq!(f.path().to_str(), Some("dracula.yaml"));
    assert!(preset_file(&dir, "gruvbox.yaml").is_none());
    assert!(preset_file(&dir, "notes").is_none());
}
