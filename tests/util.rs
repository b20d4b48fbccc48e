use pong_term::util::{char_width, str_width};

#[test]
fn test_char_widths() {
    assert_eq!(char_width('a'), 1);
    assert_eq!(char_width('Z'), 1);
    assert_eq!(char_width(' '), 1);
    assert_eq!(char_width('!'), 1);

    assert_eq!(char_width('│'), 1);
    assert_eq!(char_width('─'), 1);
    assert_eq!(char_width('┌'), 1);
    assert_eq!(char_width('╔'), 1);

    assert_eq!(char_width('●'), 1);
    assert_eq!(char_width('█'), 1);
    assert_eq!(char_width('↑'), 1);
    assert_eq!(char_width('↓'), 1);
}

#[test]
fn test_str_widths() {
    assert_eq!(str_width("Hello"), 5);
    assert_eq!(str_width("GAME PAUSED"), 11);
    assert_eq!(str_width("↑/↓"), 3);
    assert_eq!(str_width("W/S"), 3);
    assert_eq!(str_width("╔═══╗"), 5);
    assert_eq!(str_width("│●█│"), 4);
}

#[test]
fn empty_string_has_no_width() {
    assert_eq!(str_width(""), 0);
}
