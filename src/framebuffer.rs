//! A 2D character grid for building frames, stored row-major. Reads and
//! writes outside the grid are ignored.
use vstd::prelude::*;
use crate::text::push_char;

verus! {

pub struct FrameBuffer {
    width: usize,
    height: usize,
    cells: Vec<char>,
}

/// Row `r`, column `c` of a `w`-wide row-major grid sits at `r * w + c`,
/// inside a buffer of `h` rows, and no other cell shares that position.
proof fn lemma_cell_index(w: int, h: int, r: int, c: int)
    requires
        0 <= r < h,
        0 <= c < w,
    ensures
        0 <= r * w + c < w * h,
        forall|r2: int, c2: int|
            0 <= r2 < h && 0 <= c2 < w && #[trigger] (r2 * w + c2) == r * w + c ==> r2 == r && c2
                == c,
{
    assert(0 <= r * w + c < w * h) by (nonlinear_arith)
        requires
            0 <= r < h,
            0 <= c < w,
    ;
    assert forall|r2: int, c2: int|
        0 <= r2 < h && 0 <= c2 < w && #[trigger] (r2 * w + c2) == r * w + c implies r2 == r && c2
        == c by {
        if r2 < r {
            assert(r2 * w + c2 < r * w) by (nonlinear_arith)
                requires
                    r2 < r,
                    0 <= c2 < w,
            ;
        } else if r2 > r {
            assert(r * w + c < r2 * w) by (nonlinear_arith)
                requires
                    r < r2,
                    0 <= c < w,
            ;
        }
    }
}

/// Every cell of a `w` by `h` grid holds `fill`.
pub open spec fn filled(w: nat, h: nat, fill: char) -> Seq<Seq<char>> {
    Seq::new(h, |_r: int| Seq::new(w, |_c: int| fill))
}

/// The grid with cell (`x`, `y`) set to `ch`, unchanged when that cell is
/// outside it.
pub open spec fn with_cell(g: Seq<Seq<char>>, x: int, y: int, ch: char) -> Seq<Seq<char>> {
    if 0 <= y < g.len() && 0 <= x < g[y].len() {
        g.update(y, g[y].update(x, ch))
    } else {
        g
    }
}

/// The text of a grid: each row followed by a newline.
pub open spec fn lines_text(rows: Seq<Seq<char>>) -> Seq<char>
    decreases rows.len(),
{
    if rows.len() == 0 {
        Seq::empty()
    } else {
        lines_text(rows.drop_last()) + rows.last() + seq!['\n']
    }
}

impl View for FrameBuffer {
    type V = Seq<Seq<char>>;

    /// The rows of the grid, top first.
    closed spec fn view(&self) -> Seq<Seq<char>> {
        Seq::new(
            self.height as nat,
            |r: int| Seq::new(self.width as nat, |c: int| self.cells@[r * self.width + c]),
        )
    }
}

impl FrameBuffer {
    pub closed spec fn spec_width(&self) -> nat {
        self.width as nat
    }

    pub closed spec fn spec_height(&self) -> nat {
        self.height as nat
    }

    /// The storage holds exactly one cell per grid position.
    pub closed spec fn storage_ok(&self) -> bool {
        self.cells@.len() == self.width * self.height && self.width * self.height <= usize::MAX
    }

    /// At least one row and one column; every row `spec_width` long.
    pub open spec fn wf(&self) -> bool {
        &&& self.storage_ok()
        &&& self.spec_width() >= 1
        &&& self.spec_height() >= 1
        &&& self@.len() == self.spec_height()
        &&& forall|y: int| 0 <= y < self@.len() ==> #[trigger] self@[y].len() == self.spec_width()
    }

    /// A grid of `width` by `height` cells (each at least 1) filled with `fill`.
    pub fn new(width: usize, height: usize, fill: char) -> (r: Self)
        requires
            (if width == 0 {
                1
            } else {
                width as int
            }) * (if height == 0 {
                1
            } else {
                height as int
            }) <= usize::MAX,
        ensures
            r.wf(),
            r.spec_width() == if width == 0 {
                1
            } else {
                width as nat
            },
            r.spec_height() == if height == 0 {
                1
            } else {
                height as nat
            },
            r@ == filled(r.spec_width(), r.spec_height(), fill),
    {
        let width = if width == 0 {
            1
        } else {
            width
        };
        let height = if height == 0 {
            1
        } else {
            height
        };
        let len = width * height;
        let mut cells: Vec<char> = Vec::with_capacity(len);
        let mut i: usize = 0;
        while i < len
            invariant
                i <= len,
                cells@.len() == i,
                forall|k: int| 0 <= k < i ==> cells@[k] == fill,
            decreases len - i,
        {
            cells.push(fill);
            i += 1;
        }
        let r = FrameBuffer { width, height, cells };
        assert forall|y: int| 0 <= y < height implies #[trigger] r@[y] == Seq::new(
            width as nat,
            |_c: int| fill,
        ) by {
            assert forall|c: int| 0 <= c < width implies r@[y][c] == fill by {
                lemma_cell_index(width as int, height as int, y, c);
            }
            assert(r@[y] =~= Seq::new(width as nat, |_c: int| fill));
        }
        assert(r@ =~= filled(width as nat, height as nat, fill));
        r
    }

    #[inline]
    pub fn width(&self) -> (r: usize)
        ensures
            r == self.spec_width(),
    {
        self.width
    }

    #[inline]
    pub fn height(&self) -> (r: usize)
        ensures
            r == self.spec_height(),
    {
        self.height
    }

    /// Fill every cell with `fill`.
    pub fn clear(&mut self, fill: char)
        requires
            old(self).wf(),
        ensures
            final(self).wf(),
            final(self).spec_width() == old(self).spec_width(),
            final(self).spec_height() == old(self).spec_height(),
            final(self)@ == filled(old(self).spec_width(), old(self).spec_height(), fill),
    {
        let len = self.cells.len();
        let mut i: usize = 0;
        while i < len
            invariant
                i <= len,
                len == self.cells@.len(),
                self.width == old(self).width,
                self.height == old(self).height,
                self.storage_ok(),
                forall|k: int| 0 <= k < i ==> self.cells@[k] == fill,
            decreases len - i,
        {
            self.cells.set(i, fill);
            i += 1;
        }
        let ghost w = self.width as int;
        let ghost h = self.height as int;
        assert forall|y: int| 0 <= y < h implies #[trigger] self@[y] == Seq::new(
            w as nat,
            |_c: int| fill,
        ) by {
            assert forall|c: int| 0 <= c < w implies self@[y][c] == fill by {
                lemma_cell_index(w, h, y, c);
            }
            assert(self@[y] =~= Seq::new(w as nat, |_c: int| fill));
        }
        assert(self@ =~= filled(w as nat, h as nat, fill));
    }

    /// Set cell (`x`, `y`) to `ch`; a cell outside the grid is ignored.
    pub fn set(&mut self, x: usize, y: usize, ch: char)
        requires
            old(self).wf(),
        ensures
            final(self).wf(),
            final(self).spec_width() == old(self).spec_width(),
            final(self).spec_height() == old(self).spec_height(),
            final(self)@ == with_cell(old(self)@, x as int, y as int, ch),
    {
        if let Some(i) = self.idx(x, y) {
            let ghost old_cells = self.cells@;
            self.cells.set(i, ch);
            let ghost w = self.width as int;
            let ghost h = self.height as int;
            proof {
                lemma_cell_index(w, h, y as int, x as int);
            }
            assert(i == y * w + x);
            assert(old(self)@[y as int].len() == w);
            assert forall|r: int| 0 <= r < h implies #[trigger] self@[r] == with_cell(
                old(self)@,
                x as int,
                y as int,
                ch,
            )[r] by {
                assert forall|c: int| 0 <= c < w implies self@[r][c] == with_cell(
                    old(self)@,
                    x as int,
                    y as int,
                    ch,
                )[r][c] by {
                    lemma_cell_index(w, h, r, c);
                    assert(old(self)@[r].len() == w);
                    assert(self@[r][c] == self.cells@[r * w + c]);
                    assert(old(self)@[r][c] == old_cells[r * w + c]);
                }
                assert(self@[r] =~= with_cell(old(self)@, x as int, y as int, ch)[r]);
            }
            assert(self@ =~= with_cell(old(self)@, x as int, y as int, ch));
        }
    }

    /// The character at (`x`, `y`), or `None` outside the grid.
    pub fn get(&self, x: usize, y: usize) -> (r: Option<char>)
        requires
            self.wf(),
        ensures
            r == if x < self.spec_width() && y < self.spec_height() {
                Some(self@[y as int][x as int])
            } else {
                None
            },
    {
        match self.idx(x, y) {
            Some(i) => Some(self.cells[i]),
            None => None,
        }
    }

    /// The grid as text: each row followed by a newline.
    pub fn to_string_lines(&self) -> (r: String)
        requires
            self.wf(),
        ensures
            r@ == lines_text(self@),
    {
        let w = self.width;
        let h = self.height;
        let mut out = String::new();
        let mut y: usize = 0;
        while y < h
            invariant
                self.wf(),
                w == self.spec_width(),
                h == self.spec_height(),
                y <= h,
                out@ == lines_text(self@.take(y as int)),
            decreases h - y,
        {
            proof {
                lemma_cell_index(w as int, h as int, y as int, 0);
            }
            let row_start = y * w;
            let mut x: usize = 0;
            while x < w
                invariant
                    self.wf(),
                    w == self.spec_width(),
                    h == self.spec_height(),
                    y < h,
                    x <= w,
                    row_start == y * w,
                    out@ == lines_text(self@.take(y as int)) + self@[y as int].take(x as int),
                decreases w - x,
            {
                proof {
                    lemma_cell_index(w as int, h as int, y as int, x as int);
                }
                push_char(&mut out, self.cells[row_start + x]);
                assert(self@[y as int].take(x as int + 1) =~= self@[y as int].take(x as int).push(
                    self@[y as int][x as int],
                ));
                x += 1;
            }
            push_char(&mut out, '\n');
            assert(self@.take(y as int + 1).drop_last() =~= self@.take(y as int));
            assert(self@[y as int].take(w as int) =~= self@[y as int]);
            y += 1;
        }
        assert(self@.take(h as int) =~= self@);
        out
    }

    /// The characters of row `y`.
    pub(crate) fn row_chars(&self, y: usize) -> (r: Vec<char>)
        requires
            self.wf(),
            y < self.spec_height(),
        ensures
            r@ == self@[y as int],
    {
        let mut r: Vec<char> = Vec::new();
        let mut x: usize = 0;
        while x < self.width
            invariant
                self.wf(),
                y < self.spec_height(),
                x <= self.width,
                r@ == self@[y as int].take(x as int),
            decreases self.width - x,
        {
            proof {
                lemma_cell_index(self.width as int, self.height as int, y as int, x as int);
            }
            r.push(self.cells[y * self.width + x]);
            assert(self@[y as int].take(x + 1) =~= self@[y as int].take(x as int).push(
                self@[y as int][x as int],
            ));
            x += 1;
        }
        assert(self@[y as int].take(self.width as int) =~= self@[y as int]);
        r
    }

    #[inline]
    fn idx(&self, x: usize, y: usize) -> (r: Option<usize>)
        requires
            self.wf(),
        ensures
            r == if x < self.spec_width() && y < self.spec_height() {
                Some((y * self.spec_width() + x) as usize)
            } else {
                None
            },
            r matches Some(i) ==> i < self.cells@.len() && self.cells@[i as int] == self@[y as int][x as int],
    {
        if x < self.width && y < self.height {
            proof {
                lemma_cell_index(self.width as int, self.height as int, y as int, x as int);
            }
            Some(y * self.width + x)
        } else {
            None
        }
    }
}

} // verus!
