use pong_term::game_session::Frame;
use pong_term::{Board, GameSession, HEIGHT, WIDTH};

#[test]
fn plain_render_converts_line_endings() {
    let s = GameSession::new(false);
    let f: Frame = s.render("a\nb\n");
    assert_eq!(f.text, "a\r\nb\r\n");
    assert!(!f.clear_screen);
    assert!(!f.synchronized);
}

#[test]
fn board_frame_is_synchronized_without_final_line_ending() {
    let s = GameSession::new(false);
    let f = s.render_board(&Board::new_static());
    assert!(f.clear_screen && f.synchronized);
    assert!(!f.text.ends_with("\r\n"));
    let lines: Vec<&str> = f.text.split("\r\n").collect();
    assert_eq!(lines.len(), HEIGHT);
    assert!(lines.iter().all(|l| l.chars().count() == WIDTH));
    assert!(lines[0].starts_with('+'));
}

#[test]
fn unicode_session_uses_box_glyphs() {
    let s = GameSession::new(true);
    let f = s.render_board(&Board::new_static());
    assert!(f.text.starts_with('┌'));
}

#[test]
fn message_frame_keeps_message_and_is_not_synchronized() {
    let s = GameSession::new(false);
    let f = s.render_board_with_message(&Board::new_static(), "Enter: Start");
    assert!(f.clear_screen && !f.synchronized);
    let lines: Vec<&str> = f.text.split("\r\n").collect();
    assert_eq!(lines.len(), HEIGHT);
    assert!(lines[HEIGHT - 2].contains("Enter: Start"));
}

#[test]
fn pause_menu_is_centred_over_board() {
    let s = GameSession::new(false);
    let f = s.render_pause_menu(&Board::new_static());
    assert!(f.clear_screen && f.synchronized);
    let lines: Vec<&str> = f.text.split("\r\n").collect();
    assert_eq!(lines.len(), HEIGHT);
    let start_y = (HEIGHT - 17) / 2;
    let start_x = (WIDTH - 42) / 2;
    let top: Vec<char> = lines[start_y].chars().collect();
    assert_eq!(top.len(), WIDTH);
    assert_eq!(top[start_x], '╔');
    assert_eq!(top[start_x + 41], '╗');
    assert_eq!(top[0], '|');
    assert!(lines[start_y + 1].contains("GAME PAUSED"));
    assert!(lines[0].starts_with("+---"));
    let bottom: Vec<char> = lines[start_y + 16].chars().collect();
    assert_eq!(bottom[start_x], '╚');
}
