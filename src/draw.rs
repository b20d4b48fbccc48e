//! Drawing model entities into a framebuffer; no terminal concerns.
use vstd::prelude::*;
use crate::framebuffer::{with_cell, FrameBuffer};
use crate::model::{Ball, Board, Paddle};
use crate::terminal::RenderStyle;
use unicode_width::{UnicodeWidthChar, UnicodeWidthStr};

verus! {

/// The grid of `w` by `h` cells whose cell (x, y) is `f(x, y)`.
pub open spec fn grid_of(w: nat, h: nat, f: spec_fn(int, int) -> char) -> Seq<Seq<char>> {
    Seq::new(h, |y: int| Seq::new(w, |x: int| f(x, y)))
}

/// Cell (x, y) lies on the outer frame of a grid that has room for one.
pub open spec fn on_border(w: int, h: int, x: int, y: int) -> bool {
    w >= 2 && h >= 2 && (y == 0 || y == h - 1 || x == 0 || x == w - 1)
}

/// The frame glyph for a border cell: corners, horizontal runs on the top
/// and bottom rows, vertical runs on the sides.
pub open spec fn border_char(s: RenderStyle, w: int, h: int, x: int, y: int) -> char {
    if y == 0 {
        if x == 0 {
            s.border_corner_tl
        } else if x == w - 1 {
            s.border_corner_tr
        } else {
            s.border_horizontal
        }
    } else if y == h - 1 {
        if x == 0 {
            s.border_corner_bl
        } else if x == w - 1 {
            s.border_corner_br
        } else {
            s.border_horizontal
        }
    } else {
        s.border_vertical
    }
}

pub open spec fn bordered(g: Seq<Seq<char>>, w: nat, h: nat, s: RenderStyle) -> Seq<Seq<char>> {
    grid_of(
        w,
        h,
        |x: int, y: int|
            if on_border(w as int, h as int, x, y) {
                border_char(s, w as int, h as int, x, y)
            } else {
                g[y][x]
            },
    )
}

/// The column a paddle is drawn in: its own, kept off the right border.
pub open spec fn paddle_column(p: Paddle, w: int) -> int {
    if p.x <= w - 2 {
        p.x as int
    } else {
        w - 2
    }
}

/// The paddle covers cell (x, y) as drawn: its column, its rows clipped to
/// the interior, nothing on a grid with no interior.
pub open spec fn paddle_covers(p: Paddle, w: int, h: int, x: int, y: int) -> bool {
    &&& w >= 3 && h >= 3
    &&& 0 < paddle_column(p, w) < w - 1
    &&& x == paddle_column(p, w)
    &&& 1 <= y < h - 1
    &&& p.y <= y < p.y + p.height
}

pub open spec fn with_paddle(g: Seq<Seq<char>>, w: nat, h: nat, p: Paddle, s: RenderStyle) -> Seq<
    Seq<char>,
> {
    grid_of(
        w,
        h,
        |x: int, y: int|
            if paddle_covers(p, w as int, h as int, x, y) {
                s.paddle
            } else {
                g[y][x]
            },
    )
}

/// The cell the ball is drawn in: its own, kept off the right and bottom borders.
pub open spec fn ball_cell(b: Ball, w: int, h: int) -> (int, int) {
    (if b.x <= w - 2 { b.x as int } else { w - 2 }, if b.y <= h - 2 { b.y as int } else { h - 2 })
}

pub open spec fn ball_visible(b: Ball, w: int, h: int) -> bool {
    w >= 3 && h >= 3 && 0 < ball_cell(b, w, h).0 < w - 1 && 0 < ball_cell(b, w, h).1 < h - 1
}

pub open spec fn with_ball(g: Seq<Seq<char>>, w: nat, h: nat, b: Ball, s: RenderStyle) -> Seq<
    Seq<char>,
> {
    if ball_visible(b, w as int, h as int) {
        with_cell(g, ball_cell(b, w as int, h as int).0, ball_cell(b, w as int, h as int).1, s.ball)
    } else {
        g
    }
}

/// The whole board drawn over `g`: border, both paddles, then the ball.
pub open spec fn board_picture(g: Seq<Seq<char>>, w: nat, h: nat, b: Board, s: RenderStyle) -> Seq<
    Seq<char>,
> {
    with_ball(
        with_paddle(with_paddle(bordered(g, w, h, s), w, h, b.left, s), w, h, b.right, s),
        w,
        h,
        b.ball,
        s,
    )
}

/// `g` is a `w` by `h` grid that shows `target` on the cells picked by
/// `done` and `before` elsewhere.
spec fn painted(
    g: Seq<Seq<char>>,
    before: Seq<Seq<char>>,
    w: int,
    h: int,
    done: spec_fn(int, int) -> bool,
    target: spec_fn(int, int) -> char,
) -> bool {
    &&& g.len() == h
    &&& forall|y: int| 0 <= y < h ==> #[trigger] g[y].len() == w
    &&& forall|x: int, y: int|
        0 <= x < w && 0 <= y < h ==> #[trigger] g[y][x] == if done(x, y) {
            target(x, y)
        } else {
            before[y][x]
        }
}

proof fn lemma_paint_cell(
    prev: Seq<Seq<char>>,
    before: Seq<Seq<char>>,
    w: int,
    h: int,
    x: int,
    y: int,
    done: spec_fn(int, int) -> bool,
    done2: spec_fn(int, int) -> bool,
    target: spec_fn(int, int) -> char,
)
    requires
        painted(prev, before, w, h, done, target),
        0 <= x < w,
        0 <= y < h,
        forall|cx: int, cy: int| #[trigger] done2(cx, cy) == (done(cx, cy) || (cx == x && cy == y)),
    ensures
        painted(with_cell(prev, x, y, target(x, y)), before, w, h, done2, target),
{
    let next = with_cell(prev, x, y, target(x, y));
    assert forall|cx: int, cy: int| 0 <= cx < w && 0 <= cy < h implies #[trigger] next[cy][cx]
        == if done2(cx, cy) {
        target(cx, cy)
    } else {
        before[cy][cx]
    } by {
        assert(done2(cx, cy) == (done(cx, cy) || (cx == x && cy == y)));
    }
}

proof fn lemma_painted_grid(
    g: Seq<Seq<char>>,
    before: Seq<Seq<char>>,
    w: nat,
    h: nat,
    done: spec_fn(int, int) -> bool,
    target: spec_fn(int, int) -> char,
    f: spec_fn(int, int) -> char,
)
    requires
        painted(g, before, w as int, h as int, done, target),
        forall|x: int, y: int|
            0 <= x < w && 0 <= y < h ==> #[trigger] f(x, y) == if done(x, y) {
                target(x, y)
            } else {
                before[y][x]
            },
    ensures
        g == grid_of(w, h, f),
{
    assert forall|y: int| 0 <= y < h implies #[trigger] g[y] == grid_of(w, h, f)[y] by {
        assert forall|x: int| 0 <= x < w implies g[y][x] == grid_of(w, h, f)[y][x] by {
            assert(f(x, y) == if done(x, y) {
                target(x, y)
            } else {
                before[y][x]
            });
        }
        assert(g[y] =~= grid_of(w, h, f)[y]);
    }
    assert(g =~= grid_of(w, h, f));
}

/// The border cells drawn so far: the first `top` cells of the top row, the
/// first `bottom` of the bottom row, both side cells of rows 1 to `side - 1`,
/// and, when `left_extra`, the left cell of row `side`.
spec fn border_progress(
    w: int,
    h: int,
    top: int,
    bottom: int,
    side: int,
    left_extra: bool,
) -> spec_fn(int, int) -> bool {
    |x: int, y: int|
        (y == 0 && x < top) || (y == h - 1 && x < bottom) || (1 <= y < side && (x == 0 || x == w
            - 1)) || (left_extra && y == side && x == 0)
}

/// Draw the outer frame of the grid with the style's glyphs (nothing on a
/// grid narrower or shorter than two cells).
#[verifier::loop_isolation(false)]
pub fn draw_border(fb: &mut FrameBuffer, style: &RenderStyle)
    requires
        old(fb).wf(),
    ensures
        final(fb).wf(),
        final(fb).spec_width() == old(fb).spec_width(),
        final(fb).spec_height() == old(fb).spec_height(),
        final(fb)@ == bordered(old(fb)@, old(fb).spec_width(), old(fb).spec_height(), *style),
{
    let w = fb.width();
    let h = fb.height();
    let ghost g0 = fb@;
    let ghost wi = w as int;
    let ghost hi = h as int;
    let ghost s = *style;
    let ghost target = |x: int, y: int| border_char(s, wi, hi, x, y);
    let ghost f = |x: int, y: int|
        if on_border(wi, hi, x, y) {
            border_char(s, wi, hi, x, y)
        } else {
            g0[y][x]
        };
    proof {
        assert(painted(g0, g0, wi, hi, border_progress(wi, hi, 0, 0, 1, false), target));
    }
    if w < 2 || h < 2 {
        proof {
            lemma_painted_grid(
                fb@,
                g0,
                w as nat,
                h as nat,
                border_progress(wi, hi, 0, 0, 1, false),
                target,
                f,
            );
        }
        return ;
    }
    fb.set(0, 0, style.border_corner_tl);
    proof {
        assert(fb@ == with_cell(g0, 0, 0, target(0, 0)));
        lemma_paint_cell(
            g0,
            g0,
            wi,
            hi,
            0,
            0,
            border_progress(wi, hi, 0, 0, 1, false),
            border_progress(wi, hi, 1, 0, 1, false),
            target,
        );
    }
    let mut x: usize = 1;
    while x < w - 1
        invariant
            2 <= w,
            2 <= h,
            1 <= x <= w - 1,
            wi == w,
            hi == h,
            fb.wf(),
            fb.spec_width() == w,
            fb.spec_height() == h,
            painted(fb@, g0, wi, hi, border_progress(wi, hi, x as int, 0, 1, false), target),
        decreases w - 1 - x,
    {
        let ghost prev = fb@;
        fb.set(x, 0, style.border_horizontal);
        proof {
            assert(fb@ == with_cell(prev, x as int, 0, target(x as int, 0)));
            lemma_paint_cell(
                prev,
                g0,
                wi,
                hi,
                x as int,
                0,
                border_progress(wi, hi, x as int, 0, 1, false),
                border_progress(wi, hi, x + 1, 0, 1, false),
                target,
            );
        }
        x += 1;
    }
    let ghost prev = fb@;
    fb.set(w - 1, 0, style.border_corner_tr);
    proof {
        assert(fb@ == with_cell(prev, wi - 1, 0, target(wi - 1, 0)));
        lemma_paint_cell(
            prev,
            g0,
            wi,
            hi,
            wi - 1,
            0,
            border_progress(wi, hi, wi - 1, 0, 1, false),
            border_progress(wi, hi, wi, 0, 1, false),
            target,
        );
    }
    let ghost prev = fb@;
    fb.set(0, h - 1, style.border_corner_bl);
    proof {
        assert(fb@ == with_cell(prev, 0, hi - 1, target(0, hi - 1)));
        lemma_paint_cell(
            prev,
            g0,
            wi,
            hi,
            0,
            hi - 1,
            border_progress(wi, hi, wi, 0, 1, false),
            border_progress(wi, hi, wi, 1, 1, false),
            target,
        );
    }
    let mut x: usize = 1;
    while x < w - 1
        invariant
            2 <= w,
            2 <= h,
            1 <= x <= w - 1,
            wi == w,
            hi == h,
            fb.wf(),
            fb.spec_width() == w,
            fb.spec_height() == h,
            painted(fb@, g0, wi, hi, border_progress(wi, hi, wi, x as int, 1, false), target),
        decreases w - 1 - x,
    {
        let ghost prev = fb@;
        fb.set(x, h - 1, style.border_horizontal);
        proof {
            assert(fb@ == with_cell(prev, x as int, hi - 1, target(x as int, hi - 1)));
            lemma_paint_cell(
                prev,
                g0,
                wi,
                hi,
                x as int,
                hi - 1,
                border_progress(wi, hi, wi, x as int, 1, false),
                border_progress(wi, hi, wi, x + 1, 1, false),
                target,
            );
        }
        x += 1;
    }
    let ghost prev = fb@;
    fb.set(w - 1, h - 1, style.border_corner_br);
    proof {
        assert(fb@ == with_cell(prev, wi - 1, hi - 1, target(wi - 1, hi - 1)));
        lemma_paint_cell(
            prev,
            g0,
            wi,
            hi,
            wi - 1,
            hi - 1,
            border_progress(wi, hi, wi, wi - 1, 1, false),
            border_progress(wi, hi, wi, wi, 1, false),
            target,
        );
    }
    let mut y: usize = 1;
    while y < h - 1
        invariant
            2 <= w,
            2 <= h,
            1 <= y <= h - 1,
            wi == w,
            hi == h,
            fb.wf(),
            fb.spec_width() == w,
            fb.spec_height() == h,
            painted(fb@, g0, wi, hi, border_progress(wi, hi, wi, wi, y as int, false), target),
        decreases h - 1 - y,
    {
        let ghost prev = fb@;
        fb.set(0, y, style.border_vertical);
        proof {
            assert(fb@ == with_cell(prev, 0, y as int, target(0, y as int)));
            lemma_paint_cell(
                prev,
                g0,
                wi,
                hi,
                0,
                y as int,
                border_progress(wi, hi, wi, wi, y as int, false),
                border_progress(wi, hi, wi, wi, y as int, true),
                target,
            );
        }
        let ghost prev = fb@;
        fb.set(w - 1, y, style.border_vertical);
        proof {
            assert(fb@ == with_cell(prev, wi - 1, y as int, target(wi - 1, y as int)));
            lemma_paint_cell(
                prev,
                g0,
                wi,
                hi,
                wi - 1,
                y as int,
                border_progress(wi, hi, wi, wi, y as int, true),
                border_progress(wi, hi, wi, wi, y + 1, false),
                target,
            );
        }
        y += 1;
    }
    proof {
        lemma_painted_grid(
            fb@,
            g0,
            w as nat,
            h as nat,
            border_progress(wi, hi, wi, wi, hi - 1, false),
            target,
            f,
        );
    }
}

/// Cells of column `col` from row `from` up to, not including, row `to`.
spec fn column_progress(col: int, from: int, to: int) -> spec_fn(int, int) -> bool {
    |x: int, y: int| x == col && from <= y < to
}

/// Draw a paddle in its column (kept off the right border), clipped to the
/// rows between the borders.
#[verifier::loop_isolation(false)]
pub fn draw_paddle(fb: &mut FrameBuffer, p: &Paddle, style: &RenderStyle)
    requires
        old(fb).wf(),
    ensures
        final(fb).wf(),
        final(fb).spec_width() == old(fb).spec_width(),
        final(fb).spec_height() == old(fb).spec_height(),
        final(fb)@ == with_paddle(old(fb)@, old(fb).spec_width(), old(fb).spec_height(), *p, *style),
{
    let w = fb.width();
    let h = fb.height();
    let ghost g0 = fb@;
    let ghost wi = w as int;
    let ghost hi = h as int;
    let ghost s = *style;
    let ghost target = |x: int, y: int| s.paddle;
    let ghost f = |x: int, y: int|
        if paddle_covers(*p, wi, hi, x, y) {
            s.paddle
        } else {
            g0[y][x]
        };
    assert(painted(g0, g0, wi, hi, column_progress(0, 0, 0), target));
    if w < 3 || h < 3 {
        proof {
            lemma_painted_grid(fb@, g0, w as nat, h as nat, column_progress(0, 0, 0), target, f);
        }
        return ;
    }
    let x = if p.x <= w - 2 {
        p.x
    } else {
        w - 2
    };
    if x == 0 || x >= w - 1 {
        proof {
            lemma_painted_grid(fb@, g0, w as nat, h as nat, column_progress(0, 0, 0), target, f);
        }
        return ;
    }
    let start_y = if p.y >= 1 {
        p.y
    } else {
        1
    };
    let end_y = if p.height <= h - 1 && p.y <= h - 1 - p.height {
        p.y + p.height
    } else {
        h - 1
    };
    let mut y = start_y;
    assert(painted(g0, g0, wi, hi, column_progress(x as int, start_y as int, y as int), target));
    while y < end_y
        invariant
            start_y <= y,
            y <= end_y || y == start_y,
            fb.wf(),
            fb.spec_width() == w,
            fb.spec_height() == h,
            painted(fb@, g0, wi, hi, column_progress(x as int, start_y as int, y as int), target),
        decreases end_y - y,
    {
        if y > 0 && y < h - 1 {
            let ghost prev = fb@;
            fb.set(x, y, style.paddle);
            proof {
                assert(fb@ == with_cell(prev, x as int, y as int, target(x as int, y as int)));
                lemma_paint_cell(
                    prev,
                    g0,
                    wi,
                    hi,
                    x as int,
                    y as int,
                    column_progress(x as int, start_y as int, y as int),
                    column_progress(x as int, start_y as int, y + 1),
                    target,
                );
            }
        }
        y += 1;
    }
    proof {
        lemma_painted_grid(
            fb@,
            g0,
            w as nat,
            h as nat,
            column_progress(x as int, start_y as int, y as int),
            target,
            f,
        );
    }
}

/// Draw the ball in its cell, kept off the right and bottom borders; a ball
/// on the top or left border is not drawn.
pub fn draw_ball(fb: &mut FrameBuffer, b: &Ball, style: &RenderStyle)
    requires
        old(fb).wf(),
    ensures
        final(fb).wf(),
        final(fb).spec_width() == old(fb).spec_width(),
        final(fb).spec_height() == old(fb).spec_height(),
        final(fb)@ == with_ball(old(fb)@, old(fb).spec_width(), old(fb).spec_height(), *b, *style),
{
    let w = fb.width();
    let h = fb.height();
    if w < 3 || h < 3 {
        return ;
    }
    let x = if b.x <= w - 2 {
        b.x
    } else {
        w - 2
    };
    let y = if b.y <= h - 2 {
        b.y
    } else {
        h - 2
    };
    if x > 0 && x < w - 1 && y > 0 && y < h - 1 {
        fb.set(x, y, style.ball);
    }
}

/// Draw the whole board: border, both paddles, then the ball.
pub fn draw_board(fb: &mut FrameBuffer, board: &Board, style: &RenderStyle)
    requires
        old(fb).wf(),
    ensures
        final(fb).wf(),
        final(fb).spec_width() == old(fb).spec_width(),
        final(fb).spec_height() == old(fb).spec_height(),
        final(fb)@ == board_picture(
            old(fb)@,
            old(fb).spec_width(),
            old(fb).spec_height(),
            *board,
            *style,
        ),
{
    draw_border(fb, style);
    draw_paddle(fb, &board.left, style);
    draw_paddle(fb, &board.right, style);
    draw_ball(fb, &board.ball, style);
}

/// The display width unicode-width gives a string.
pub uninterp spec fn unicode_str_width(s: Seq<char>) -> usize;

/// The display width unicode-width gives a character (`None` for a control
/// character).
pub uninterp spec fn unicode_char_width(c: char) -> Option<usize>;

/// Relies on unicode-width's `UnicodeWidthStr::width`: the text's display
/// columns.
#[verifier::external_body]
fn text_columns(text: &str) -> (r: usize)
    ensures
        r == unicode_str_width(text@),
{
    UnicodeWidthStr::width(text)
}

/// Relies on unicode-width's `UnicodeWidthChar::width`: the character's
/// display columns, `None` for a control character.
#[verifier::external_body]
fn char_columns(ch: char) -> (r: Option<usize>)
    ensures
        r == unicode_char_width(ch),
{
    UnicodeWidthChar::width(ch)
}

/// The columns each character advances the cursor by: its display width, or
/// one where it has none.
pub open spec fn advance_of(chars: Seq<char>) -> Seq<usize> {
    chars.map_values(
        |c: char|
            match unicode_char_width(c) {
                Some(n) => n,
                None => 1,
            },
    )
}

/// Characters written left to right on `row` from column `x`, each advancing
/// by its entry in `cols`, stopping before the first that would reach the
/// right border column `w - 1`.
pub open spec fn placed_run(
    g: Seq<Seq<char>>,
    w: int,
    row: int,
    x: int,
    chars: Seq<char>,
    cols: Seq<usize>,
) -> Seq<Seq<char>>
    decreases chars.len(),
{
    if chars.len() == 0 || cols.len() == 0 || x + cols[0] > w - 1 {
        g
    } else {
        placed_run(
            with_cell(g, x, row, chars[0]),
            w,
            row,
            x + cols[0],
            chars.drop_first(),
            cols.drop_first(),
        )
    }
}

/// Text `text_cols` columns wide centred between the side borders of a grid
/// `w` wide; nothing when it is empty or does not fit.
pub open spec fn centered_text(
    g: Seq<Seq<char>>,
    w: int,
    row: int,
    chars: Seq<char>,
    text_cols: int,
    cols: Seq<usize>,
) -> Seq<Seq<char>> {
    if w < 3 || text_cols == 0 || text_cols > w - 2 {
        g
    } else {
        placed_run(g, w, row, 1 + (w - 2 - text_cols) / 2, chars, cols)
    }
}

/// Draw `text`, measured as `text_cols` columns in all and `char_cols[i]`
/// columns for its `i`-th character, centred on `row` between the side borders.
#[verifier::loop_isolation(false)]
pub fn draw_measured_text(
    fb: &mut FrameBuffer,
    text: &str,
    text_cols: usize,
    char_cols: &Vec<usize>,
    row: usize,
)
    requires
        old(fb).wf(),
        char_cols@.len() == text@.len(),
    ensures
        final(fb).wf(),
        final(fb).spec_width() == old(fb).spec_width(),
        final(fb).spec_height() == old(fb).spec_height(),
        final(fb)@ == centered_text(
            old(fb)@,
            old(fb).spec_width() as int,
            row as int,
            text@,
            text_cols as int,
            char_cols@,
        ),
{
    let w = fb.width();
    if w < 3 {
        return ;
    }
    let inner_w = w - 2;
    if text_cols == 0 || text_cols > inner_w {
        return ;
    }
    let mut chars: Vec<char> = Vec::new();
    for ch in it: text.chars()
        invariant
            it.seq() == text@,
            chars@ == it.seq().take(it.index() as int),
    {
        chars.push(ch);
    }
    assert(chars@ =~= text@);
    let ghost goal = centered_text(fb@, w as int, row as int, text@, text_cols as int, char_cols@);
    let mut x = 1 + (inner_w - text_cols) / 2;
    let mut i: usize = 0;
    let mut fits = true;
    assert(chars@.skip(0) =~= chars@);
    assert(char_cols@.skip(0) =~= char_cols@);
    while fits && i < chars.len()
        invariant
            fb.wf(),
            fb.spec_width() == w,
            fb.spec_height() == old(fb).spec_height(),
            w >= 3,
            1 <= x <= w - 1,
            i <= chars@.len(),
            chars@.len() == char_cols@.len(),
            placed_run(fb@, w as int, row as int, x as int, chars@.skip(i as int), char_cols@.skip(
                i as int,
            )) == goal,
            !fits ==> fb@ == goal,
        decreases chars@.len() - i + if fits {
            1int
        } else {
            0int
        },
    {
        let cw = char_cols[i];
        if cw > (w - 1) - x {
            fits = false;
        } else {
            let ghost prev = fb@;
            fb.set(x, row, chars[i]);
            assert(chars@.skip(i as int).drop_first() =~= chars@.skip(i + 1));
            assert(char_cols@.skip(i as int).drop_first() =~= char_cols@.skip(i + 1));
            x += cw;
            i += 1;
        }
    }
    assert(chars@.skip(i as int).len() == 0 || !fits);
}

/// Draw text centred on `row` between the side borders, each character
/// advancing by its display width; text that is empty or wider than the
/// interior is not drawn, and drawing stops before the right border.
pub fn draw_centered_text(fb: &mut FrameBuffer, text: &str, row: usize)
    requires
        old(fb).wf(),
    ensures
        final(fb).wf(),
        final(fb).spec_width() == old(fb).spec_width(),
        final(fb).spec_height() == old(fb).spec_height(),
        final(fb)@ == centered_text(
            old(fb)@,
            old(fb).spec_width() as int,
            row as int,
            text@,
            unicode_str_width(text@) as int,
            advance_of(text@),
        ),
{
    let text_cols = text_columns(text);
    let mut cols: Vec<usize> = Vec::new();
    for ch in it: text.chars()
        invariant
            it.seq() == text@,
            cols@ == advance_of(text@).take(it.index() as int),
    {
        let cw = match char_columns(ch) {
            Some(n) => n,
            None => 1,
        };
        cols.push(cw);
        assert(advance_of(text@).take(it.index() + 1) =~= cols@);
    }
    assert(cols@ =~= advance_of(text@));
    draw_measured_text(fb, text, text_cols, &cols, row);
}

/// Draw the board and `message` centred on the row above the bottom border.
pub fn draw_board_with_message(
    fb: &mut FrameBuffer,
    board: &Board,
    style: &RenderStyle,
    message: &str,
)
    requires
        old(fb).wf(),
        board.height >= 2,
    ensures
        final(fb).wf(),
        final(fb).spec_width() == old(fb).spec_width(),
        final(fb).spec_height() == old(fb).spec_height(),
        final(fb)@ == centered_text(
            board_picture(old(fb)@, old(fb).spec_width(), old(fb).spec_height(), *board, *style),
            old(fb).spec_width() as int,
            board.height - 2,
            message@,
            unicode_str_width(message@) as int,
            advance_of(message@),
        ),
{
    draw_board(fb, board, style);
    let message_row = board.height - 2;
    draw_centered_text(fb, message, message_row);
}

} // verus!
