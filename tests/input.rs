use pong_term::input::{Direction, InputTracker, Key, MomentumTracker, MAX_MOMENTUM};
use pong_term::{init_momentum, InputState};

#[test]
fn input_state_new_is_idle() {
    let s = InputState::new();
    assert!(!s.has_input());
    let mut p = InputState::new();
    p.pause = true;
    assert!(p.has_input());
    let mut r = InputState::new();
    r.right_down = true;
    assert!(r.has_input());
}

#[test]
fn press_stays_active_for_four_reads_then_stops() {
    let mut m = MomentumTracker::new();
    m.add_momentum(Direction::LeftUp);
    assert_eq!(m.left_up_momentum, MAX_MOMENTUM);
    let reads: Vec<bool> = (0..6).map(|_| m.get_state().0).collect();
    assert_eq!(reads, vec![true, true, true, true, false, false]);
}

#[test]
fn opposite_press_cancels_momentum() {
    let mut m = MomentumTracker::new();
    m.add_momentum(Direction::LeftUp);
    m.add_momentum(Direction::LeftDown);
    assert_eq!(m.left_up_momentum, 0);
    assert_eq!(m.left_down_momentum, MAX_MOMENTUM);
    assert_eq!(m.get_state(), (false, true, false, false));

    let mut r = MomentumTracker::new();
    r.add_momentum(Direction::RightDown);
    r.add_momentum(Direction::LeftUp);
    r.add_momentum(Direction::RightUp);
    assert_eq!(r.get_state(), (true, false, true, false));
}

#[test]
fn keys_map_to_directions() {
    assert_eq!(Key::Char('w').direction(), Some(Direction::LeftUp));
    assert_eq!(Key::Char('W').direction(), Some(Direction::LeftUp));
    assert_eq!(Key::Char('s').direction(), Some(Direction::LeftDown));
    assert_eq!(Key::Char('S').direction(), Some(Direction::LeftDown));
    assert_eq!(Key::Up.direction(), Some(Direction::RightUp));
    assert_eq!(Key::Down.direction(), Some(Direction::RightDown));
    assert_eq!(Key::Char('x').direction(), None);
    assert_eq!(Key::Esc.direction(), None);
}

#[test]
fn pause_toggles_only_on_a_fresh_press() {
    let mut t = InputTracker::new();
    t.on_key(Key::Char(' '));
    let first = t.finish_frame();
    assert!(first.pause);
    t.on_key(Key::Char(' '));
    let held = t.finish_frame();
    assert!(!held.pause);
    let released = t.finish_frame();
    assert!(!released.pause);
    t.on_key(Key::Char(' '));
    assert!(t.finish_frame().pause);
}

#[test]
fn quit_keys_and_movement_keys() {
    let mut t = InputTracker::new();
    t.on_key(Key::Char('q'));
    t.on_key(Key::Up);
    let s = t.finish_frame();
    assert!(s.quit);
    assert!(s.right_up);
    assert!(!s.left_up && !s.left_down && !s.right_down);
    let next = t.finish_frame();
    assert!(!next.quit);
    assert!(next.right_up);
    let mut e = InputTracker::new();
    e.on_key(Key::Esc);
    assert!(e.finish_frame().quit);
}

#[test]
fn init_resets_everything() {
    let mut t = InputTracker::new();
    t.on_key(Key::Char('w'));
    t.on_key(Key::Char(' '));
    init_momentum(&mut t);
    assert_eq!(t, InputTracker::new());
    assert_eq!(t.finish_frame(), InputState::new());
}
