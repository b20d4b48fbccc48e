//! Terminal Pong: a deterministic two-paddle ball simulation, the input
//! momentum model that drives it, and the pure frame composition used by a
//! terminal front end.
//!
//! - `model`: paddles, ball and board physics
//! - `input`: per-frame input flags and the momentum tracker
//! - `game_loop`: run/pause/quit state machine and per-tick decisions
//! - `framebuffer`: a 2D character grid
//! - `draw`: drawing model entities into a framebuffer
//! - `render`: whole-board frames as text
//! - `terminal`: glyph sets
//! - `game_session`: frames as the terminal should receive them
//! - `util`: display widths

pub mod draw;
pub mod framebuffer;
pub mod game_loop;
pub mod game_session;
pub mod input;
pub mod model;
pub mod render;
pub mod terminal;
mod text;
pub mod util;

pub use draw::draw_board_with_message;
pub use framebuffer::FrameBuffer;
pub use game_loop::{GameLoop, GameState};
pub use game_session::GameSession;
pub use input::{init_momentum, InputState};
pub use model::{Ball, BallEvent, Board, Paddle, HEIGHT, PADDLE_HEIGHT, WIDTH};
pub use render::{render_to_string, render_with_message_to_string};
pub use terminal::RenderStyle;
