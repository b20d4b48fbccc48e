use pong_term::FrameBuffer;

#[test]
fn new_and_clear() {
    let mut fb = FrameBuffer::new(3, 2, '.');
    assert_eq!(fb.width(), 3);
    assert_eq!(fb.height(), 2);
    assert_eq!(fb.get(0, 0), Some('.'));
    assert_eq!(fb.get(2, 1), Some('.'));
    fb.clear(' ');
    assert_eq!(fb.get(0, 0), Some(' '));
    assert_eq!(fb.get(2, 1), Some(' '));
}

#[test]
fn set_and_get_in_bounds() {
    let mut fb = FrameBuffer::new(4, 3, ' ');
    fb.set(1, 1, 'X');
    assert_eq!(fb.get(1, 1), Some('X'));
    assert_eq!(fb.get(0, 1), Some(' '));
    assert_eq!(fb.get(2, 1), Some(' '));
}

#[test]
fn oob_is_ignored() {
    let mut fb = FrameBuffer::new(2, 2, '.');
    fb.set(2, 0, 'X');
    fb.set(0, 2, 'X');
    assert_eq!(fb.get(2, 0), None);
    assert_eq!(fb.get(0, 2), None);
    assert_eq!(fb.get(0, 0), Some('.'));
    assert_eq!(fb.get(1, 1), Some('.'));
}

#[test]
fn to_string_lines_shape() {
    let mut fb = FrameBuffer::new(3, 2, ' ');
    fb.set(0, 0, 'A');
    fb.set(2, 1, 'B');
    let s = fb.to_string_lines();
    let lines: Vec<&str> = s.lines().collect();
    assert_eq!(lines.len(), 2);
    assert_eq!(lines[0].chars().count(), 3);
    assert_eq!(lines[1].chars().count(), 3);
    assert_eq!(lines[0].chars().collect::<Vec<_>>(), vec!['A', ' ', ' ']);
    assert_eq!(lines[1].chars().collect::<Vec<_>>(), vec![' ', ' ', 'B']);
}

#[test]
fn zero_dimensions_become_one() {
    let fb = FrameBuffer::new(0, 0, '#');
    assert_eq!(fb.width(), 1);
    assert_eq!(fb.height(), 1);
    assert_eq!(fb.to_string_lines(), "#\n");
}

#[test]
fn set_touches_only_its_cell() {
    let mut fb = FrameBuffer::new(3, 3, '.');
    fb.set(2, 0, 'a');
    fb.set(0, 1, 'b');
    assert_eq!(fb.to_string_lines(), "..a\nb..\n...\n");
}
