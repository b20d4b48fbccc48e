//! Frames as a raw-mode terminal should receive them: the text with `\r\n`
//! line endings, and whether to clear the screen first and to wrap the write
//! in a synchronized-output bracket. Writing them out is the caller's part.
use vstd::prelude::*;
use vstd::string::{StrSliceExecFns, StringExecFns};
use crate::framebuffer::{lines_text, FrameBuffer};
use crate::model::Board;
use crate::render::{board_frame, board_frame_with_message, frame_fits, render_with_message_to_string};
use crate::terminal::RenderStyle;
use crate::text::push_char;

verus! {

/// Text with every `\n` turned into `\r\n`.
pub open spec fn raw_mode(s: Seq<char>) -> Seq<char>
    decreases s.len(),
{
    if s.len() == 0 {
        s
    } else if s.last() == '\n' {
        raw_mode(s.drop_last()) + seq!['\r', '\n']
    } else {
        raw_mode(s.drop_last()).push(s.last())
    }
}

/// Text without a final `\r\n`, if it has one.
pub open spec fn strip_crlf(s: Seq<char>) -> Seq<char> {
    if s.len() >= 2 && s[s.len() - 2] == '\r' && s[s.len() - 1] == '\n' {
        s.subrange(0, s.len() - 2)
    } else {
        s
    }
}

/// Lines joined by `\n`.
pub open spec fn joined(lines: Seq<Seq<char>>) -> Seq<char>
    decreases lines.len(),
{
    if lines.len() == 0 {
        Seq::empty()
    } else if lines.len() == 1 {
        lines[0]
    } else {
        joined(lines.drop_last()) + seq!['\n'] + lines.last()
    }
}

/// The length of the longest line (0 for none).
pub open spec fn widest(lines: Seq<Seq<char>>) -> nat
    decreases lines.len(),
{
    if lines.len() == 0 {
        0
    } else if widest(lines.drop_last()) >= lines.last().len() {
        widest(lines.drop_last())
    } else {
        lines.last().len()
    }
}

/// `line` right-padded with spaces to `width` characters.
pub open spec fn padded(line: Seq<char>, width: nat) -> Seq<char> {
    if line.len() < width {
        line + Seq::new((width - line.len()) as nat, |_i: int| ' ')
    } else {
        line
    }
}

pub open spec fn half_gap(outer: int, inner: int) -> int {
    if outer > inner {
        (outer - inner) / 2
    } else {
        0
    }
}

/// `menu`, its lines padded to a common width, laid over `base` centred in a
/// `w` by `h` area: on each row it covers, from column `sx` on, a base line
/// keeps what lies before and after the menu line. Columns count characters.
pub open spec fn overlaid(base: Seq<Seq<char>>, menu: Seq<Seq<char>>, w: int, h: int) -> Seq<
    Seq<char>,
> {
    let mw = widest(menu);
    let sy = half_gap(h, menu.len() as int);
    let sx = half_gap(w, mw as int);
    Seq::new(
        base.len(),
        |y: int|
            if sy <= y < sy + menu.len() && sx < base[y].len() {
                let line = padded(menu[y - sy], mw);
                base[y].take(sx) + line + if sx + line.len() < base[y].len() {
                    base[y].skip(sx + line.len())
                } else {
                    Seq::empty()
                }
            } else {
                base[y]
            },
    )
}

/// The lines of the pause menu.
pub open spec fn pause_menu_lines() -> Seq<Seq<char>> {
    seq![
        "╔════════════════════════════════════════╗"@,
        "║              GAME PAUSED               ║"@,
        "╠════════════════════════════════════════╣"@,
        "║                                        ║"@,
        "║  Controls:                             ║"@,
        "║    W/S      - Move left paddle         ║"@,
        "║    ↑/↓      - Move right paddle        ║"@,
        "║    Space    - Pause/Resume game        ║"@,
        "║    Q        - Quit to main menu        ║"@,
        "║                                        ║"@,
        "║  Game Info:                            ║"@,
        "║    FPS: 60                             ║"@,
        "║    Board: 80×24                        ║"@,
        "║                                        ║"@,
        "║        Press SPACE to resume           ║"@,
        "║                                        ║"@,
        "╚════════════════════════════════════════╝"@,
    ]
}

/// The character sequences of a list of lines.
pub open spec fn views(v: Seq<Vec<char>>) -> Seq<Seq<char>> {
    Seq::new(v.len(), |i: int| v[i]@)
}

proof fn lemma_views_push(v: Seq<Vec<char>>, x: Vec<char>)
    ensures
        views(v.push(x)) == views(v).push(x@),
{
    assert(views(v.push(x)) =~= views(v).push(x@));
}

/// What to write to the terminal for one frame.
pub struct Frame {
    /// Clear the screen and home the cursor first.
    pub clear_screen: bool,
    /// Bracket the write in synchronized-output escapes.
    pub synchronized: bool,
    pub text: String,
}

/// Composes the frames of a terminal session drawn with one glyph set.
pub struct GameSession {
    pub style: RenderStyle,
}

fn append_range(out: &mut Vec<char>, src: &Vec<char>, from: usize, to: usize)
    requires
        from <= to <= src@.len(),
    ensures
        final(out)@ == old(out)@ + src@.subrange(from as int, to as int),
{
    let mut i = from;
    while i < to
        invariant
            from <= i <= to,
            to <= src@.len(),
            out@ == old(out)@ + src@.subrange(from as int, i as int),
        decreases to - i,
    {
        out.push(src[i]);
        assert(src@.subrange(from as int, i + 1) =~= src@.subrange(from as int, i as int).push(
            src@[i as int],
        ));
        i += 1;
    }
}

fn chars_of(s: &str) -> (r: Vec<char>)
    ensures
        r@ == s@,
{
    let mut r: Vec<char> = Vec::new();
    for ch in it: s.chars()
        invariant
            it.seq() == s@,
            r@ == it.seq().take(it.index() as int),
    {
        r.push(ch);
    }
    assert(r@ =~= s@);
    r
}

impl GameSession {
    /// A session drawing with Unicode box glyphs when `unicode`, else ASCII.
    pub fn new(unicode: bool) -> (r: Self)
        ensures
            r.style == if unicode {
                RenderStyle::unicode_glyphs()
            } else {
                RenderStyle::ascii_glyphs()
            },
    {
        let style = if unicode {
            RenderStyle::unicode()
        } else {
            RenderStyle::ascii()
        };
        GameSession { style }
    }

    /// Convert line endings for raw mode.
    fn to_raw_mode(&self, content: &str) -> (r: String)
        ensures
            r@ == raw_mode(content@),
    {
        let mut out = String::new();
        for ch in it: content.chars()
            invariant
                it.seq() == content@,
                out@ == raw_mode(it.seq().take(it.index() as int)),
        {
            let ghost before = it.seq().take(it.index() as int);
            if ch == '\n' {
                push_char(&mut out, '\r');
                push_char(&mut out, '\n');
            } else {
                push_char(&mut out, ch);
            }
            assert(it.seq().take(it.index() + 1).drop_last() =~= before);
        }
        assert(content@.take(content@.len() as int) =~= content@);
        out
    }

    /// The content without a final `\r\n`, if it has one.
    fn strip_trailing_newline<'a>(&self, content: &'a str) -> (r: &'a str)
        ensures
            r@ == strip_crlf(content@),
    {
        let n = content.unicode_len();
        if n >= 2 && content.get_char(n - 2) == '\r' && content.get_char(n - 1) == '\n' {
            content.substring_char(0, n - 2)
        } else {
            content
        }
    }

    fn render_board_to_buffer(&self, board: &Board) -> (fb: FrameBuffer)
        requires
            frame_fits(*board),
        ensures
            fb.wf(),
            fb@ == board_frame(*board, self.style),
    {
        let mut fb = FrameBuffer::new(board.width, board.height, ' ');
        crate::draw::draw_board(&mut fb, board, &self.style);
        fb
    }

    /// Lay the overlay lines, padded to a common width, over the base lines,
    /// centred in a `board_width` by `board_height` area.
    fn apply_centered_overlay(
        &self,
        base_lines: &Vec<Vec<char>>,
        overlay_lines: &Vec<Vec<char>>,
        board_width: usize,
        board_height: usize,
    ) -> (r: Vec<Vec<char>>)
        ensures
            views(r@) == overlaid(
                views(base_lines@),
                views(overlay_lines@),
                board_width as int,
                board_height as int,
            ),
    {
        let ghost menu = views(overlay_lines@);
        let menu_height = overlay_lines.len();
        let mut menu_width: usize = 0;
        let mut i: usize = 0;
        while i < menu_height
            invariant
                i <= menu_height,
                menu_height == menu.len(),
                menu == views(overlay_lines@),
                menu_width == widest(menu.take(i as int)),
            decreases menu_height - i,
        {
            assert(menu.take(i + 1).drop_last() =~= menu.take(i as int));
            if overlay_lines[i].len() > menu_width {
                menu_width = overlay_lines[i].len();
            }
            i += 1;
        }
        assert(menu.take(menu_height as int) =~= menu);
        let mut normalized: Vec<Vec<char>> = Vec::new();
        let mut i: usize = 0;
        while i < menu_height
            invariant
                i <= menu_height,
                menu_height == menu.len(),
                menu == views(overlay_lines@),
                menu_width == widest(menu),
                views(normalized@) =~= Seq::new(
                    i as nat,
                    |k: int| padded(menu[k], menu_width as nat),
                ),
            decreases menu_height - i,
        {
            let mut line: Vec<char> = Vec::new();
            let src = &overlay_lines[i];
            append_range(&mut line, src, 0, src.len());
            let mut k = src.len();
            while k < menu_width
                invariant
                    src.len() <= k <= menu_width || (k == src.len() && k >= menu_width),
                    line@ == src@ + Seq::new((k - src.len()) as nat, |_j: int| ' '),
                decreases menu_width - k,
            {
                line.push(' ');
                assert(src@ + Seq::new((k + 1 - src.len()) as nat, |_j: int| ' ') =~= (src@
                    + Seq::new((k - src.len()) as nat, |_j: int| ' ')).push(' '));
                k += 1;
            }
            assert(line@ =~= padded(menu[i as int], menu_width as nat));
            proof {
                lemma_views_push(normalized@, line);
            }
            normalized.push(line);
            assert(Seq::new(i as nat, |k: int| padded(menu[k], menu_width as nat)).push(
                padded(menu[i as int], menu_width as nat),
            ) =~= Seq::new((i + 1) as nat, |k: int| padded(menu[k], menu_width as nat)));
            i += 1;
        }
        let start_y = board_height.saturating_sub(menu_height) / 2;
        let start_x = board_width.saturating_sub(menu_width) / 2;
        proof {
            lemma_widest_bounds(menu);
        }
        let ghost goal = overlaid(
            views(base_lines@),
            menu,
            board_width as int,
            board_height as int,
        );
        let mut result: Vec<Vec<char>> = Vec::new();
        let mut y: usize = 0;
        while y < base_lines.len()
            invariant
                y <= base_lines.len(),
                menu_height == menu.len(),
                menu_width == widest(menu),
                start_y == half_gap(board_height as int, menu_height as int),
                start_x == half_gap(board_width as int, menu_width as int),
                start_x + menu_width <= usize::MAX,
                views(normalized@) =~= Seq::new(
                    menu_height as nat,
                    |k: int| padded(menu[k], menu_width as nat),
                ),
                normalized@.len() == menu_height,
                forall|k: int| 0 <= k < menu_height ==> #[trigger] menu[k].len() <= menu_width,
                goal == overlaid(views(base_lines@), menu, board_width as int, board_height as int),
                views(result@) =~= goal.take(y as int),
            decreases base_lines.len() - y,
        {
            let line = &base_lines[y];
            let mut new_line: Vec<char> = Vec::new();
            if y >= start_y && y - start_y < menu_height && start_x < line.len() {
                let menu_line = &normalized[y - start_y];
                assert(views(normalized@)[y - start_y] == normalized@[y - start_y]@);
                assert(menu_line@ == padded(menu[y - start_y], menu_width as nat));
                assert(menu[y - start_y].len() <= menu_width);
                append_range(&mut new_line, line, 0, start_x);
                append_range(&mut new_line, menu_line, 0, menu_line.len());
                let end_x = start_x + menu_line.len();
                if end_x < line.len() {
                    append_range(&mut new_line, line, end_x, line.len());
                }
                assert(new_line@ =~= goal[y as int]);
            } else {
                append_range(&mut new_line, line, 0, line.len());
                assert(new_line@ =~= goal[y as int]);
            }
            proof {
                lemma_views_push(result@, new_line);
                assert(goal.take(y as int).push(goal[y as int]) =~= goal.take(y + 1));
            }
            result.push(new_line);
            y += 1;
        }
        result
    }

    /// Arbitrary content, line endings converted; no clearing, no bracket.
    pub fn render(&self, content: &str) -> (f: Frame)
        ensures
            f.text@ == raw_mode(content@),
            !f.clear_screen,
            !f.synchronized,
    {
        Frame { clear_screen: false, synchronized: false, text: self.to_raw_mode(content) }
    }

    /// The board on a cleared screen, in one synchronized write, without a
    /// final line ending.
    pub fn render_board(&self, board: &Board) -> (f: Frame)
        requires
            frame_fits(*board),
        ensures
            f.text@ == strip_crlf(raw_mode(lines_text(board_frame(*board, self.style)))),
            f.clear_screen,
            f.synchronized,
    {
        let fb = self.render_board_to_buffer(board);
        let content = fb.to_string_lines();
        let raw = self.to_raw_mode(content.as_str());
        let text = String::from_str(self.strip_trailing_newline(raw.as_str()));
        Frame { clear_screen: true, synchronized: true, text }
    }

    /// The board with `message` inside, on a cleared screen.
    pub fn render_board_with_message(&self, board: &Board, message: &str) -> (f: Frame)
        requires
            frame_fits(*board),
            board.height >= 2,
        ensures
            f.text@ == raw_mode(
                lines_text(board_frame_with_message(*board, self.style, message@)).drop_last(),
            ),
            f.clear_screen,
            !f.synchronized,
    {
        let rendered = render_with_message_to_string(board, &self.style, message);
        Frame {
            clear_screen: true,
            synchronized: false,
            text: self.to_raw_mode(rendered.as_str()),
        }
    }

    /// The pause menu centred over the board, on a cleared screen, in one
    /// synchronized write.
    pub fn render_pause_menu(&self, board: &Board) -> (f: Frame)
        requires
            frame_fits(*board),
        ensures
            f.text@ == strip_crlf(
                raw_mode(
                    joined(
                        overlaid(
                            board_frame(*board, self.style),
                            pause_menu_lines(),
                            board.width as int,
                            board.height as int,
                        ),
                    ),
                ),
            ),
            f.clear_screen,
            f.synchronized,
    {
        let menu_text: Vec<&str> = vec![
            "╔════════════════════════════════════════╗",
            "║              GAME PAUSED               ║",
            "╠════════════════════════════════════════╣",
            "║                                        ║",
            "║  Controls:                             ║",
            "║    W/S      - Move left paddle         ║",
            "║    ↑/↓      - Move right paddle        ║",
            "║    Space    - Pause/Resume game        ║",
            "║    Q        - Quit to main menu        ║",
            "║                                        ║",
            "║  Game Info:                            ║",
            "║    FPS: 60                             ║",
            "║    Board: 80×24                        ║",
            "║                                        ║",
            "║        Press SPACE to resume           ║",
            "║                                        ║",
            "╚════════════════════════════════════════╝",
        ];
        let mut overlay_lines: Vec<Vec<char>> = Vec::new();
        let mut i: usize = 0;
        while i < menu_text.len()
            invariant
                i <= menu_text@.len(),
                views(overlay_lines@) =~= Seq::new(i as nat, |k: int| menu_text@[k]@),
            decreases menu_text@.len() - i,
        {
            let line = chars_of(menu_text[i]);
            proof {
                lemma_views_push(overlay_lines@, line);
            }
            overlay_lines.push(line);
            assert(Seq::new(i as nat, |k: int| menu_text@[k]@).push(menu_text@[i as int]@) =~= Seq::new(
                (i + 1) as nat,
                |k: int| menu_text@[k]@,
            ));
            i += 1;
        }
        assert(views(overlay_lines@) =~= pause_menu_lines());
        let fb = self.render_board_to_buffer(board);
        let mut base_lines: Vec<Vec<char>> = Vec::new();
        let mut y: usize = 0;
        while y < fb.height()
            invariant
                fb.wf(),
                y <= fb.spec_height(),
                views(base_lines@) =~= fb@.take(y as int),
            decreases fb.spec_height() - y,
        {
            let row = fb.row_chars(y);
            proof {
                lemma_views_push(base_lines@, row);
            }
            base_lines.push(row);
            assert(fb@.take(y as int).push(fb@[y as int]) =~= fb@.take(y + 1));
            y += 1;
        }
        assert(fb@.take(fb.spec_height() as int) =~= fb@);
        let overlaid_lines = self.apply_centered_overlay(
            &base_lines,
            &overlay_lines,
            board.width,
            board.height,
        );
        let mut content = String::new();
        let mut k: usize = 0;
        while k < overlaid_lines.len()
            invariant
                k <= overlaid_lines@.len(),
                content@ == joined(views(overlaid_lines@).take(k as int)),
            decreases overlaid_lines@.len() - k,
        {
            let ghost lines = views(overlaid_lines@);
            assert(lines.take(k + 1).drop_last() =~= lines.take(k as int));
            if k > 0 {
                push_char(&mut content, '\n');
            }
            let line = &overlaid_lines[k];
            let mut x: usize = 0;
            let ghost start = content@;
            while x < line.len()
                invariant
                    x <= line@.len(),
                    content@ == start + line@.take(x as int),
                decreases line@.len() - x,
            {
                push_char(&mut content, line[x]);
                assert(line@.take(x + 1) =~= line@.take(x as int).push(line@[x as int]));
                x += 1;
            }
            assert(line@.take(line@.len() as int) =~= line@);
            assert(k == 0 ==> start =~= Seq::<char>::empty());
            assert(k == 0 ==> lines.take(1) =~= seq![lines[0]]);
            k += 1;
        }
        assert(views(overlaid_lines@).take(overlaid_lines@.len() as int)
            =~= views(overlaid_lines@));
        let raw = self.to_raw_mode(content.as_str());
        let text = String::from_str(self.strip_trailing_newline(raw.as_str()));
        Frame { clear_screen: true, synchronized: true, text }
    }
}

/// No line of a menu is longer than its widest, and the widest is one of
/// its lines' lengths (or 0).
proof fn lemma_widest_bounds(menu: Seq<Seq<char>>)
    ensures
        forall|i: int| 0 <= i < menu.len() ==> #[trigger] menu[i].len() <= widest(menu),
        menu.len() == 0 ==> widest(menu) == 0,
        menu.len() > 0 ==> exists|i: int| 0 <= i < menu.len() && #[trigger] menu[i].len() == widest(menu),
    decreases menu.len(),
{
    if menu.len() > 0 {
        lemma_widest_bounds(menu.drop_last());
        assert forall|i: int| 0 <= i < menu.len() implies #[trigger] menu[i].len() <= widest(menu) by {
            if i < menu.len() - 1 {
                assert(menu.drop_last()[i] == menu[i]);
            }
        }
        if menu.len() > 1 && widest(menu.drop_last()) >= menu.last().len() {
            let j = choose|j: int| 0 <= j < menu.drop_last().len() && #[trigger] menu.drop_last()[j].len() == widest(menu.drop_last());
            assert(menu[j] == menu.drop_last()[j]);
        } else {
            assert(menu[menu.len() - 1].len() == widest(menu));
        }
    }
}

} // verus!
