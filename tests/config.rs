use cheztheme::config::{apply_theme, current_theme_name, load_document, read_field, read_palette};
use cheztheme::error::ThemeError;
use cheztheme::palette::{Palette, Theme};

const DRACULA: [&str; 16] = [
    "#282936", "#3a3c4e", "#4d4f68", "#626483", "#62d6e8", "#e9e9f4", "#f1f2f8", "#f7f7fb",
    "#ea51b2", "#b45bcf", "#00f769", "#ebff87", "#a1efe4", "#62d6e8", "#b45bcf", "#00f769",
];

const NORD: [&str; 16] = [
    "#2e3440", "#3b4252", "#434c5e", "#4c566a", "#d8dee9", "#e5e9f0", "#eceff4", "#8fbcbb",
    "#bf616a", "#d08770", "#ebcb8b", "#a3be8c", "#88c0d0", "#81a1c1", "#b48ead", "#5e81ac",
];

const KEYS: [&str; 16] = [
    "base00", "base01", "base02", "base03", "base04", "base05", "base06", "base07",
    "base08", "base09", "base0A", "base0B", "base0C", "base0D", "base0E", "base0F",
];

fn palette(values: &[&str; 16]) -> Palette {
    Palette::from_slots(values.iter().map(|s| s.to_string()).collect()).unwrap()
}

fn dracula_config() -> String {
    let mut text = String::from("# chezmoi configuration\n[git]\nautoCommit = false\n\n[data]\nemail = \"me@example.org\"\n\n[data.cheztheme]\nautoUpdate = true\nthemeName = \"dracula\"\n");
    for (k, v) in KEYS.iter().zip(DRACULA.iter()) {
        text.push_str(&format!("{} = \"{}\"\n", k, v));
    }
    text
}

#[test]
fn applying_nord_over_dracula_keeps_other_fields() {
    let mut doc = load_document(&dracula_config()).unwrap();
    let before = doc.to_string();
    let nord = Theme { palette: palette(&NORD) };
    assert_eq!(apply_theme(&mut doc, "nord", &nord), Ok(()));
    assert_eq!(current_theme_name(&doc), Ok("nord".to_string()));
    let p = read_palette(&doc).unwrap();
    assert_eq!(p.base00, "#2e3440");
    assert_eq!(p.base0F, "#5e81ac");
    for (k, v) in KEYS.iter().zip(NORD.iter()) {
        assert_eq!(read_field(&doc, k), Some(v.to_string()));
    }
    let after = doc.to_string();
    assert!(after.contains("autoUpdate = true\n"));
    let before_lines: Vec<&str> = before.lines().collect();
    let after_lines: Vec<&str> = after.lines().collect();
    assert_eq!(before_lines.len(), after_lines.len());
    for (b, a) in before_lines.iter().zip(after_lines.iter()) {
        let targeted = a.starts_with("themeName") || KEYS.iter().any(|k| a.starts_with(k));
        if !targeted {
            assert_eq!(b, a);
        }
    }
}

#[test]
fn apply_then_current_round_trips() {
    let mut doc = load_document(&dracula_config()).unwrap();
    let t = Theme { palette: palette(&NORD) };
    apply_theme(&mut doc, "x", &t).unwrap();
    assert_eq!(current_theme_name(&doc), Ok("x".to_string()));
    let text = doc.to_string();
    let reread = load_document(&text).unwrap();
    assert_eq!(current_theme_name(&reread), Ok("x".to_string()));
    let p = read_palette(&reread).unwrap();
    assert_eq!(p.base0A, "#ebcb8b");
}

#[test]
fn applying_twice_gives_the_same_document() {
    let mut doc = load_document(&dracula_config()).unwrap();
    let t = Theme { palette: palette(&NORD) };
    apply_theme(&mut doc, "nord", &t).unwrap();
    let once = doc.to_string();
    apply_theme(&mut doc, "nord", &t).unwrap();
    assert_eq!(doc.to_string(), once);
}

#[test]
fn missing_section_is_rejected_and_document_kept() {
    let text = "[data]\nemail = \"me@example.org\"\n";
    let mut doc = load_document(text).unwrap();
    let t = Theme { palette: palette(&NORD) };
    assert_eq!(apply_theme(&mut doc, "nord", &t), Err(ThemeError::Parse));
    assert_eq!(doc.to_string(), text);
    let mut scalar = load_document("data = 3\n").unwrap();
    assert_eq!(apply_theme(&mut scalar, "nord", &t), Err(ThemeError::Parse));
}

#[test]
fn current_theme_needs_a_string_field() {
    let doc = load_document("[data.cheztheme]\nbase00 = \"#000000\"\n").unwrap();
    assert_eq!(current_theme_name(&doc), Err(ThemeError::Parse));
    let doc = load_document("[data.cheztheme]\nthemeName = 5\n").unwrap();
    assert_eq!(current_theme_name(&doc), Err(ThemeError::Parse));
    let doc = load_document("").unwrap();
    assert_eq!(current_theme_name(&doc), Err(ThemeError::Parse));
}

#[test]
fn palette_read_fails_on_missing_slot() {
    let doc = load_document("[data.cheztheme]\nthemeName = \"x\"\nbase00 = \"#000000\"\n").unwrap();
    assert_eq!(read_palette(&doc).err(), Some(ThemeError::Parse));
}

#[test]
fn malformed_config_is_a_parse_error() {
    assert_eq!(load_document("[data\nx = ").err(), Some(ThemeError::Parse));
}

#[test]
fn inline_section_is_written_in_place() {
    let mut doc = load_document("data = { cheztheme = { themeName = \"a\", keep = 1 } }\n").unwrap();
    let t = Theme { palette: palette(&DRACULA) };
    apply_theme(&mut doc, "dracula", &t).unwrap();
    assert_eq!(current_theme_name(&doc), Ok("dracula".to_string()));
    assert_eq!(read_palette(&doc).unwrap().base0E, "#b45bcf");
    assert!(doc.to_string().contains("keep = 1"));
}
