use pong_term::draw::{draw_ball, draw_board, draw_border, draw_centered_text, draw_measured_text, draw_paddle};
use pong_term::{draw_board_with_message, Ball, Board, FrameBuffer, Paddle, RenderStyle};

#[test]
fn border_has_expected_corners_and_edges() {
    let b = Board::new_static();
    let mut fb = FrameBuffer::new(b.width, b.height, ' ');
    let style = RenderStyle::ascii();
    draw_border(&mut fb, &style);
    let s = fb.to_string_lines();
    let lines: Vec<&str> = s.lines().collect();

    assert_eq!(lines[0].chars().next().unwrap(), '+');
    assert_eq!(lines[0].chars().last().unwrap(), '+');
    assert_eq!(lines[b.height - 1].chars().next().unwrap(), '+');
    assert_eq!(lines[b.height - 1].chars().last().unwrap(), '+');

    for (i, ch) in lines[0].chars().enumerate() {
        if i != 0 && i != b.width - 1 {
            assert_eq!(ch, '-');
        }
    }
    for (i, ch) in lines[b.height - 1].chars().enumerate() {
        if i != 0 && i != b.width - 1 {
            assert_eq!(ch, '-');
        }
    }

    for y in 1..(b.height - 1) {
        assert_eq!(lines[y].chars().next().unwrap(), '|');
        assert_eq!(lines[y].chars().last().unwrap(), '|');
    }
}

#[test]
fn paddles_and_ball_match_board() {
    let b = Board::new_static();
    let mut fb = FrameBuffer::new(b.width, b.height, ' ');
    let style = RenderStyle::ascii();
    draw_board(&mut fb, &b, &style);
    let s = fb.to_string_lines();
    let grid: Vec<Vec<char>> = s.lines().map(|ln| ln.chars().collect()).collect();

    assert_eq!(grid[b.ball.y][b.ball.x], 'o');

    for y in b.left.y..(b.left.y + b.left.height) {
        if y > 0 && y < b.height - 1 {
            assert_eq!(grid[y][b.left.x], '|');
        }
    }

    for y in b.right.y..(b.right.y + b.right.height) {
        if y > 0 && y < b.height - 1 {
            assert_eq!(grid[y][b.right.x], '|');
        }
    }
}

#[test]
fn small_border_in_unicode() {
    let mut fb = FrameBuffer::new(4, 3, ' ');
    draw_border(&mut fb, &RenderStyle::unicode());
    assert_eq!(fb.to_string_lines(), "┌──┐\n│  │\n└──┘\n");
    let mut tiny = FrameBuffer::new(1, 5, '.');
    draw_border(&mut tiny, &RenderStyle::ascii());
    assert_eq!(tiny.to_string_lines(), ".\n.\n.\n.\n.\n");
}

#[test]
fn paddle_is_clipped_to_interior() {
    let mut fb = FrameBuffer::new(5, 5, '.');
    let p = Paddle { x: 9, y: 0, height: 10 };
    draw_paddle(&mut fb, &p, &RenderStyle::ascii());
    assert_eq!(fb.to_string_lines(), ".....\n...|.\n...|.\n...|.\n.....\n");
    let mut fb = FrameBuffer::new(5, 5, '.');
    let p = Paddle { x: 0, y: 1, height: 2 };
    draw_paddle(&mut fb, &p, &RenderStyle::ascii());
    assert_eq!(fb.to_string_lines(), ".....\n.....\n.....\n.....\n.....\n");
}

#[test]
fn ball_is_kept_off_far_borders() {
    let mut fb = FrameBuffer::new(5, 4, '.');
    draw_ball(&mut fb, &Ball { x: 20, y: 20, dx: 1, dy: 1 }, &RenderStyle::ascii());
    assert_eq!(fb.to_string_lines(), ".....\n.....\n...o.\n.....\n");
    let mut fb = FrameBuffer::new(5, 4, '.');
    draw_ball(&mut fb, &Ball { x: 0, y: 1, dx: 1, dy: 1 }, &RenderStyle::ascii());
    assert_eq!(fb.to_string_lines(), ".....\n.....\n.....\n.....\n");
}

#[test]
fn centered_text_is_centred_between_borders() {
    let mut fb = FrameBuffer::new(10, 3, '.');
    draw_centered_text(&mut fb, "ab", 1);
    assert_eq!(fb.to_string_lines(), "..........\n....ab....\n..........\n");
    let mut fb = FrameBuffer::new(10, 3, '.');
    draw_centered_text(&mut fb, "abc", 0);
    assert_eq!(fb.to_string_lines(), "...abc....\n..........\n..........\n");
}

#[test]
fn centered_text_too_wide_or_empty_is_skipped() {
    let mut fb = FrameBuffer::new(6, 2, '.');
    draw_centered_text(&mut fb, "abcde", 0);
    draw_centered_text(&mut fb, "", 1);
    assert_eq!(fb.to_string_lines(), "......\n......\n");
}

#[test]
fn centered_text_advances_by_display_width() {
    let mut fb = FrameBuffer::new(10, 1, '.');
    draw_centered_text(&mut fb, "中a", 0);
    assert_eq!(fb.to_string_lines(), "...中.a....\n");
}

#[test]
fn measured_text_stops_before_right_border() {
    let mut fb = FrameBuffer::new(6, 1, '.');
    draw_measured_text(&mut fb, "xyz", 2, &vec![2, 2, 2], 0);
    assert_eq!(fb.to_string_lines(), "..x...\n");
}

#[test]
fn board_with_message_row() {
    let b = Board::new_static();
    let mut fb = FrameBuffer::new(b.width, b.height, ' ');
    draw_board_with_message(&mut fb, &b, &RenderStyle::ascii(), "HELLO");
    let s = fb.to_string_lines();
    let lines: Vec<&str> = s.lines().collect();
    let row: Vec<char> = lines[b.height - 2].chars().collect();
    let start = 1 + (78 - 5) / 2;
    let text: String = row[start..start + 5].iter().collect();
    assert_eq!(text, "HELLO");
    assert_eq!(row[0], '|');
}
