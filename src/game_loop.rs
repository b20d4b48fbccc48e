//! The run/pause/quit state machine and the decisions of one loop tick:
//! input, then physics, then whether and what to render.
use vstd::prelude::*;
use crate::input::InputState;
use crate::model::Board;

verus! {

/// Whether the game is running, paused, or over.
#[derive(Debug, Clone, Copy, PartialEq, Eq, Structural)]
pub enum GameState {
    Running,
    Paused,
    Quit,
}

/// The state after a frame's input: quit wins, pause toggles between
/// running and paused, and nothing leaves `Quit`.
pub open spec fn next_state(s: GameState, input: InputState) -> GameState {
    if input.quit {
        GameState::Quit
    } else if input.pause {
        match s {
            GameState::Running => GameState::Paused,
            GameState::Paused => GameState::Running,
            GameState::Quit => GameState::Quit,
        }
    } else {
        s
    }
}

/// Paddles moved by the frame's flags; up and down together cancel.
pub open spec fn steered(b: Board, input: InputState) -> Board {
    let left = if input.left_up && !input.left_down {
        b.left.moved_up()
    } else if input.left_down && !input.left_up {
        b.left.moved_down(b.height as int)
    } else {
        b.left
    };
    let right = if input.right_up && !input.right_down {
        b.right.moved_up()
    } else if input.right_down && !input.right_up {
        b.right.moved_down(b.height as int)
    } else {
        b.right
    };
    Board { left, right, ..b }
}

/// The board after a frame's input: paddles move only while running.
pub open spec fn handled_board(b: Board, s: GameState, input: InputState) -> Board {
    if !input.quit && next_state(s, input) == GameState::Running {
        steered(b, input)
    } else {
        b
    }
}

/// Apply one frame of input to the game state and, while running, to the
/// paddles.
pub fn handle_input(input: InputState, board: &mut Board, state: &mut GameState)
    ensures
        *final(state) == next_state(*old(state), input),
        *final(board) == handled_board(*old(board), *old(state), input),
{
    if input.quit {
        *state = GameState::Quit;
        return ;
    }
    if input.pause {
        *state = match *state {
            GameState::Running => GameState::Paused,
            GameState::Paused => GameState::Running,
            GameState::Quit => GameState::Quit,
        };
    }
    if *state == GameState::Running {
        if input.left_up && !input.left_down {
            board.move_left_paddle_up();
        } else if input.left_down && !input.left_up {
            board.move_left_paddle_down();
        }
        if input.right_up && !input.right_down {
            board.move_right_paddle_up();
        } else if input.right_down && !input.right_up {
            board.move_right_paddle_down();
        }
    }
}

/// What the front end should draw after a tick.
#[derive(Debug, Clone, Copy, PartialEq, Eq, Structural)]
pub enum RenderAction {
    Skip,
    DrawBoard,
    DrawPauseMenu,
}

/// The loop's state between ticks: the board, the game state, and what was
/// last put on screen.
#[derive(Debug, Clone, Copy, PartialEq, Eq, Structural)]
pub struct GameLoop {
    pub board: Board,
    pub state: GameState,
    pub last_render_state: GameState,
    pub last_rendered_board: Board,
}

impl GameLoop {
    /// The loop after one tick with the given input, and the render it asks for.
    pub open spec fn ticked(self, input: InputState) -> (GameLoop, RenderAction) {
        let state = next_state(self.state, input);
        let handled = handled_board(self.board, self.state, input);
        let board = if state == GameState::Running {
            handled.stepped().0
        } else {
            handled
        };
        let after = GameLoop { board, state, ..self };
        match state {
            GameState::Running => if board != self.last_rendered_board || self.last_render_state
                != GameState::Running {
                (
                    GameLoop {
                        last_rendered_board: board,
                        last_render_state: GameState::Running,
                        ..after
                    },
                    RenderAction::DrawBoard,
                )
            } else {
                (after, RenderAction::Skip)
            },
            GameState::Paused => if self.last_render_state != GameState::Paused {
                (
                    GameLoop { last_render_state: GameState::Paused, ..after },
                    RenderAction::DrawPauseMenu,
                )
            } else {
                (after, RenderAction::Skip)
            },
            GameState::Quit => (after, RenderAction::Skip),
        }
    }

    /// A new game, paused, with its board counted as already on screen.
    pub fn new() -> (r: Self)
        ensures
            r.board == Board::new_game_spec(),
            r.state == GameState::Paused,
            r.last_render_state == GameState::Running,
            r.last_rendered_board == r.board,
            r.board.wf(),
    {
        let board = Board::new_game();
        GameLoop {
            board,
            state: GameState::Paused,
            last_render_state: GameState::Running,
            last_rendered_board: board,
        }
    }

    /// One tick: apply the input, advance the ball while running, and decide
    /// what to draw: the board when it changed or the game has just resumed,
    /// the pause menu when the game has just paused.
    pub fn tick(&mut self, input: InputState) -> (r: RenderAction)
        requires
            old(self).board.wf(),
            old(self).board.frame_counter < usize::MAX,
        ensures
            (*final(self), r) == old(self).ticked(input),
            final(self).board.wf(),
    {
        handle_input(input, &mut self.board, &mut self.state);
        if self.state == GameState::Running {
            let _event = self.board.update_ball();
        }
        match self.state {
            GameState::Running => {
                if self.board != self.last_rendered_board || self.last_render_state
                    != GameState::Running {
                    self.last_rendered_board = self.board;
                    self.last_render_state = GameState::Running;
                    RenderAction::DrawBoard
                } else {
                    RenderAction::Skip
                }
            },
            GameState::Paused => {
                if self.last_render_state != GameState::Paused {
                    self.last_render_state = GameState::Paused;
                    RenderAction::DrawPauseMenu
                } else {
                    RenderAction::Skip
                }
            },
            GameState::Quit => RenderAction::Skip,
        }
    }
}

/// `Quit` is terminal: no input leads out of it.
pub proof fn lemma_quit_is_terminal(input: InputState)
    ensures
        next_state(GameState::Quit, input) == GameState::Quit,
{
}

/// Up and down together leave a paddle where it is.
pub proof fn lemma_opposing_flags_cancel(b: Board, input: InputState)
    ensures
        input.left_up && input.left_down ==> steered(b, input).left == b.left,
        input.right_up && input.right_down ==> steered(b, input).right == b.right,
{
}

/// While paused, neither the paddles nor the ball move.
pub proof fn lemma_paused_board_is_frozen(g: GameLoop, input: InputState)
    requires
        next_state(g.state, input) != GameState::Running,
    ensures
        g.ticked(input).0.board == g.board,
{
}

} // verus!
