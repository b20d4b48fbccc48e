use pong_term::{render_to_string, render_with_message_to_string, Board, RenderStyle, HEIGHT, WIDTH};

#[test]
fn top_and_bottom_borders_are_correct_length_and_chars() {
    let b = Board::new_static();
    let s = render_to_string(&b, &RenderStyle::ascii());
    let lines: Vec<&str> = s.lines().collect();
    assert_eq!(lines.len(), HEIGHT);
    assert_eq!(lines[0].chars().count(), WIDTH);
    assert_eq!(lines[HEIGHT - 1].chars().count(), WIDTH);

    if lines[0].chars().next().unwrap() == '+' {
        let top: Vec<char> = lines[0].chars().collect();
        assert_eq!(top[0], '+');
        assert_eq!(top[WIDTH - 1], '+');
        for i in 1..(WIDTH - 1) {
            assert_eq!(top[i], '-');
        }

        let bot: Vec<char> = lines[HEIGHT - 1].chars().collect();
        assert_eq!(bot[0], '+');
        assert_eq!(bot[WIDTH - 1], '+');
        for i in 1..(WIDTH - 1) {
            assert_eq!(bot[i], '-');
        }
    }
}

#[test]
fn paddles_and_ball_positions() {
    let b = Board::new_static();
    let s = render_to_string(&b, &RenderStyle::unicode());
    let lines: Vec<Vec<char>> = s.lines().map(|ln| ln.chars().collect()).collect();

    let ball_char = lines[b.ball.y][b.ball.x];
    assert!(ball_char == 'o' || ball_char == '●');

    for y in b.left.y..(b.left.y + b.left.height) {
        if y > 0 && y < b.height - 1 {
            let paddle_char = lines[y][b.left.x];
            assert!(paddle_char == '|' || paddle_char == '█');
        }
    }

    for y in b.right.y..(b.right.y + b.right.height) {
        if y > 0 && y < b.height - 1 {
            let paddle_char = lines[y][b.right.x];
            assert!(paddle_char == '|' || paddle_char == '█');
        }
    }
}

#[test]
fn rendered_board_has_no_final_newline() {
    let b = Board::new_static();
    let s = render_to_string(&b, &RenderStyle::ascii());
    assert!(!s.ends_with('\n'));
    assert_eq!(s.chars().count(), HEIGHT * (WIDTH + 1) - 1);
}

#[test]
fn rendered_message_sits_above_bottom_border() {
    let b = Board::new_static();
    let s = render_with_message_to_string(&b, &RenderStyle::ascii(), "W/S: Left");
    let lines: Vec<&str> = s.lines().collect();
    assert_eq!(lines.len(), HEIGHT);
    assert!(lines[HEIGHT - 2].contains("W/S: Left"));
    assert!(!lines[HEIGHT - 3].contains("W/S"));
}
