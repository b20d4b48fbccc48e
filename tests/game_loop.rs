use pong_term::game_loop::{handle_input, GameLoop, GameState, RenderAction};
use pong_term::{Board, InputState};

#[test]
fn test_input_handling() {
    let mut board = Board::new_static();
    let mut state = GameState::Running;

    let initial_left_y = board.left.y;
    let initial_right_y = board.right.y;

    let mut input = InputState::new();
    input.left_up = true;
    handle_input(input, &mut board, &mut state);
    assert!(board.left.y < initial_left_y);

    let mut input = InputState::new();
    input.right_down = true;
    handle_input(input, &mut board, &mut state);
    assert!(board.right.y > initial_right_y);

    let mut input = InputState::new();
    input.pause = true;
    handle_input(input, &mut board, &mut state);
    assert_eq!(state, GameState::Paused);

    let paused_left_y = board.left.y;
    let mut input = InputState::new();
    input.left_down = true;
    handle_input(input, &mut board, &mut state);
    assert_eq!(board.left.y, paused_left_y);

    let mut input = InputState::new();
    input.pause = true;
    handle_input(input, &mut board, &mut state);
    assert_eq!(state, GameState::Running);

    let mut input = InputState::new();
    input.quit = true;
    handle_input(input, &mut board, &mut state);
    assert_eq!(state, GameState::Quit);
}

#[test]
fn opposing_flags_cancel() {
    let mut board = Board::new_static();
    let mut state = GameState::Running;
    let mut input = InputState::new();
    input.left_up = true;
    input.left_down = true;
    input.right_up = true;
    input.right_down = true;
    handle_input(input, &mut board, &mut state);
    assert_eq!(board, Board::new_static());
}

#[test]
fn quit_is_terminal_and_beats_pause() {
    let mut board = Board::new_static();
    let mut state = GameState::Paused;
    let mut input = InputState::new();
    input.quit = true;
    input.pause = true;
    handle_input(input, &mut board, &mut state);
    assert_eq!(state, GameState::Quit);
    let mut input = InputState::new();
    input.pause = true;
    handle_input(input, &mut board, &mut state);
    assert_eq!(state, GameState::Quit);
}

#[test]
fn loop_renders_on_resume_change_and_pause() {
    let mut g = GameLoop::new();
    assert_eq!(g.state, GameState::Paused);
    assert_eq!(g.board, Board::new_game());

    assert_eq!(g.tick(InputState::new()), RenderAction::DrawPauseMenu);
    assert_eq!(g.tick(InputState::new()), RenderAction::Skip);
    assert_eq!(g.board, Board::new_game());

    let mut resume = InputState::new();
    resume.pause = true;
    assert_eq!(g.tick(resume), RenderAction::DrawBoard);
    assert_eq!(g.state, GameState::Running);
    assert_eq!(g.board.frame_counter, 1);

    // The counter changes every running tick, so the board is redrawn.
    assert_eq!(g.tick(InputState::new()), RenderAction::DrawBoard);
    assert_eq!(g.last_rendered_board, g.board);

    assert_eq!(g.tick(resume), RenderAction::DrawPauseMenu);
    assert_eq!(g.state, GameState::Paused);
    let frozen = g.board;
    assert_eq!(g.tick(InputState::new()), RenderAction::Skip);
    assert_eq!(g.board, frozen);

    let mut quit = InputState::new();
    quit.quit = true;
    assert_eq!(g.tick(quit), RenderAction::Skip);
    assert_eq!(g.state, GameState::Quit);
}
