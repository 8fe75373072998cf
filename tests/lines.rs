use boxviewer::{classify_line, extract_selected_sprite_name, state_lines, LineStyle};

#[test]
fn sprite_name_between_quotes() {
    assert_eq!(
        extract_selected_sprite_name("  sprite: 'SOL_001' frame 3"),
        Some("SOL_001".to_string())
    );
}

#[test]
fn line_without_quotes_has_no_sprite() {
    assert_eq!(extract_selected_sprite_name("hit: 10"), None);
}

#[test]
fn line_with_one_quote_has_no_sprite() {
    assert_eq!(extract_selected_sprite_name("sprite: 'open"), None);
}

#[test]
fn sprite_name_uses_first_two_quotes() {
    assert_eq!(extract_selected_sprite_name("sprite: 'a' 'b'"), Some("a".to_string()));
    assert_eq!(extract_selected_sprite_name("''"), Some(String::new()));
    assert_eq!(extract_selected_sprite_name("sprite: 'ñé' 2"), Some("ñé".to_string()));
}

#[test]
fn lines_end_at_line_ends() {
    assert_eq!(
        state_lines("beginState a\nsprite: 'X'\n\nhit: 1"),
        vec!["beginState a".to_string(), "sprite: 'X'".to_string(), String::new()]
    );
    assert!(state_lines("no line end").is_empty());
    assert!(state_lines("").is_empty());
}

#[test]
fn line_styles() {
    assert_eq!(classify_line("  sprite: 'SOL_001', 3"), LineStyle::Sprite);
    assert_eq!(classify_line("hit: 10"), LineStyle::Highlight);
    assert_eq!(classify_line("  grabOrRelease: 2"), LineStyle::Highlight);
    assert_eq!(classify_line("sprite: 'x' hit: 1"), LineStyle::Sprite);
    assert_eq!(classify_line("dmg: 1"), LineStyle::Plain);
    assert_eq!(classify_line("sprite:'x'"), LineStyle::Plain);
    assert_eq!(classify_line(""), LineStyle::Plain);
}
