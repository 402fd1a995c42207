use cheztheme::color::{palette_colors, slot_color};
use cheztheme::error::ThemeError;
use cheztheme::palette::{slot_name, Palette};
use cheztheme::reload::{apply_outcome, reload_targets};

#[test]
fn slot_colors_parse_hex() {
    assert_eq!(slot_color("#ff8000"), Ok((255, 128, 0)));
    assert_eq!(slot_color("#2E3440"), Ok((0x2e, 0x34, 0x40)));
    assert_eq!(slot_color("#abc"), Ok((0xaa, 0xbb, 0xcc)));
    assert_eq!(slot_color("ff8000"), Err(ThemeError::Parse));
    assert_eq!(slot_color(""), Err(ThemeError::Parse));
    assert_eq!(slot_color("#zz0000"), Err(ThemeError::Parse));
}

#[test]
fn palette_colors_in_display_order() {
    let slots: Vec<String> = (0..16).map(|i| format!("#0000{:02x}", i)).collect();
    let p = Palette::from_slots(slots).unwrap();
    let c = palette_colors(&p).unwrap();
    assert_eq!(c.len(), 16);
    assert_eq!(c[0], (0, 0, 0));
    assert_eq!(c[15], (0, 0, 15));
}

#[test]
fn palette_colors_reject_a_bad_slot() {
    let mut slots: Vec<String> = (0..16).map(|_| "#000000".to_string()).collect();
    slots[7] = "black".to_string();
    let p = Palette::from_slots(slots).unwrap();
    assert_eq!(palette_colors(&p), Err(ThemeError::Parse));
}

#[test]
fn palette_needs_sixteen_slots() {
    assert!(Palette::from_slots(vec!["#000000".to_string(); 15]).is_none());
    let p = Palette::from_slots((0..16).map(|i| i.to_string()).collect()).unwrap();
    assert_eq!(p.slot(10), "10");
    assert_eq!(slot_name(0), "base00");
    assert_eq!(slot_name(10), "base0A");
    assert_eq!(slot_name(15), "base0F");
}

#[test]
fn reload_targets_are_the_pids_of_pgrep_lines() {
    let out = "  1234 /usr/bin/kitty\n5678 kitty --single-instance\r\n\n   \nkitty\n";
    assert_eq!(reload_targets(out), vec!["1234".to_string(), "5678".to_string()]);
    assert!(reload_targets("").is_empty());
    assert_eq!(reload_targets("42"), vec!["42".to_string()]);
}

#[test]
fn failed_apply_command_is_an_external_error() {
    assert_eq!(apply_outcome(true), Ok(()));
    assert_eq!(apply_outcome(false), Err(ThemeError::ExternalCommand));
}
