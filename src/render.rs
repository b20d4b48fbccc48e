//! Whole-board frames as text.
use vstd::prelude::*;
use vstd::string::{StrSliceExecFns, StringExecFns};
use crate::draw::{
    advance_of,
    board_picture,
    centered_text,
    draw_board,
    draw_board_with_message,
    unicode_str_width,
};
use crate::framebuffer::{filled, lines_text, FrameBuffer};
use crate::model::Board;
use crate::terminal::RenderStyle;

verus! {

/// Columns and rows of the grid a board is drawn on (at least one each).
pub open spec fn frame_width(board: Board) -> nat {
    if board.width == 0 {
        1
    } else {
        board.width as nat
    }
}

pub open spec fn frame_height(board: Board) -> nat {
    if board.height == 0 {
        1
    } else {
        board.height as nat
    }
}

/// The board's grid fits in memory.
pub open spec fn frame_fits(board: Board) -> bool {
    frame_width(board) * frame_height(board) <= usize::MAX
}

/// The board drawn on a blank grid of its own size.
pub open spec fn board_frame(board: Board, style: RenderStyle) -> Seq<Seq<char>> {
    board_picture(
        filled(frame_width(board), frame_height(board), ' '),
        frame_width(board),
        frame_height(board),
        board,
        style,
    )
}

/// The board drawn on a blank grid with `message` centred on the row above
/// the bottom border.
pub open spec fn board_frame_with_message(board: Board, style: RenderStyle, message: Seq<char>) -> Seq<
    Seq<char>,
> {
    centered_text(
        board_frame(board, style),
        frame_width(board) as int,
        board.height - 2,
        message,
        unicode_str_width(message) as int,
        advance_of(message),
    )
}

/// The text of a framebuffer without its final newline.
fn text_without_final_newline(fb: &FrameBuffer) -> (r: String)
    requires
        fb.wf(),
    ensures
        r@ == lines_text(fb@).drop_last(),
{
    let lines = fb.to_string_lines();
    let n = lines.as_str().unicode_len();
    assert(fb@.len() > 0);
    String::from_str(lines.as_str().substring_char(0, n - 1))
}

/// The board as text: one line per row, rows separated by newlines, with no
/// newline after the last.
pub fn render_to_string(board: &Board, style: &RenderStyle) -> (r: String)
    requires
        frame_fits(*board),
    ensures
        r@ == lines_text(board_frame(*board, *style)).drop_last(),
{
    let mut fb = FrameBuffer::new(board.width, board.height, ' ');
    draw_board(&mut fb, board, style);
    text_without_final_newline(&fb)
}

/// The board with `message` inside it, as text laid out like
/// `render_to_string`.
pub fn render_with_message_to_string(board: &Board, style: &RenderStyle, message: &str) -> (r:
    String)
    requires
        frame_fits(*board),
        board.height >= 2,
    ensures
        r@ == lines_text(board_frame_with_message(*board, *style, message@)).drop_last(),
{
    let mut fb = FrameBuffer::new(board.width, board.height, ' ');
    draw_board_with_message(&mut fb, board, style, message);
    text_without_final_newline(&fb)
}

} // verus!
