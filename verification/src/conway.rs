//! A toroidal two-dimensional boolean cellular automaton.
//!
//! The grid is double-buffered: `board` is the live generation, `buffer`
//! receives the next one, and the two swap after a full pass, so every
//! neighbor lookup of one step sees only the previous generation.
//!
//! The stepping rule counts the alive cells of the whole 3x3 block around a
//! cell, center included: five or more around means dead, exactly three
//! keeps the cell as it was, exactly two makes it alive, anything else
//! (zero, one or four) makes it dead.

use vstd::prelude::*;
use vstd::pervasive::VecAdditionalExecFns;
use vstd::string::StringExecFns;
use crate::rng::{Rng, rng_next_bit, rng_next_state};

verus! {

/// `g` is a grid of `h` rows of `w` cells each.
pub open spec fn grid_wf(g: Seq<Seq<bool>>, w: int, h: int) -> bool {
    &&& g.len() == h
    &&& forall|i: int| 0 <= i < h ==> (#[trigger] g[i]).len() == w
}

/// The row index just above `i` on a torus of `n` rows.
pub open spec fn wrap_dec(i: int, n: int) -> int {
    if i == 0 {
        n - 1
    } else {
        i - 1
    }
}

/// The row index just below `i` on a torus of `n` rows.
pub open spec fn wrap_inc(i: int, n: int) -> int {
    if i + 1 == n {
        0
    } else {
        i + 1
    }
}

pub open spec fn b2i(b: bool) -> int {
    if b {
        1
    } else {
        0
    }
}

/// The numeric value of one cell when tallying a neighborhood.
fn b2u(b: bool) -> (n: u32)
    ensures
        n as int == b2i(b),
{
    if b {
        1
    } else {
        0
    }
}

/// The index just before `i` on a ring of `n`, wrapping at zero.
fn wrap_dec_idx(i: usize, n: usize) -> (r: usize)
    requires
        i < n,
    ensures
        r as int == wrap_dec(i as int, n as int),
        r < n,
{
    if i == 0 {
        n - 1
    } else {
        i - 1
    }
}

/// The index just after `i` on a ring of `n`, wrapping at the end.
fn wrap_inc_idx(i: usize, n: usize) -> (r: usize)
    requires
        i < n,
    ensures
        r as int == wrap_inc(i as int, n as int),
        r < n,
{
    if i + 1 == n {
        0
    } else {
        i + 1
    }
}

/// Alive count of the 3x3 block centered on `(x, y)`, center included,
/// with toroidal wrap at the edges.
pub open spec fn count_around(g: Seq<Seq<bool>>, x: int, y: int) -> int {
    let h = g.len() as int;
    let w = g[x].len() as int;
    let xd = wrap_dec(x, h);
    let xi = wrap_inc(x, h);
    let yd = wrap_dec(y, w);
    let yi = wrap_inc(y, w);
    b2i(g[xd][yd]) + b2i(g[xd][y]) + b2i(g[xd][yi]) + b2i(g[x][yd]) + b2i(g[x][y]) + b2i(
        g[x][yi],
    ) + b2i(g[xi][yd]) + b2i(g[xi][y]) + b2i(g[xi][yi])
}

/// The next state of cell `(x, y)`.
pub open spec fn next_cell(g: Seq<Seq<bool>>, x: int, y: int) -> bool {
    let c = count_around(g, x, y);
    if c >= 5 {
        false
    } else if c == 3 {
        g[x][y]
    } else if c == 2 {
        true
    } else {
        false
    }
}

/// The whole next generation.
pub open spec fn step_spec(g: Seq<Seq<bool>>) -> Seq<Seq<bool>> {
    Seq::new(g.len(), |x: int| Seq::new(g[x].len(), |y: int| next_cell(g, x, y)))
}

/// One text line per row: alive cells as `'X'`, dead ones as `' '`,
/// the row closed by a carriage return and a line feed.
pub open spec fn render_row(row: Seq<bool>) -> Seq<char> {
    Seq::new(row.len(), |j: int| if row[j] { 'X' } else { ' ' }) + seq!['\r', '\n']
}

/// The rendered text of a grid, top row first.
pub open spec fn render_spec(g: Seq<Seq<bool>>) -> Seq<char>
    decreases g.len(),
{
    if g.len() == 0 {
        Seq::empty()
    } else {
        render_row(g[0]) + render_spec(g.drop_first())
    }
}

/// A row extended with generator bits until it is `w` cells long; also the
/// generator register after those draws.  Each draw mixes the cell's column
/// index masked with both dimensions.
pub open spec fn fill_row(row: Seq<bool>, w: u32, h: u32, s: u32) -> (Seq<bool>, u32)
    decreases w - row.len(),
{
    if row.len() >= w {
        (row, s)
    } else {
        let mix = (row.len() as u32) & w & h;
        fill_row(row.push(rng_next_bit(s, mix)), w, h, rng_next_state(s, mix))
    }
}

/// A row brought to exactly `w` cells: overlong rows lose cells from the
/// end, short rows are filled from the generator.
pub open spec fn resize_row(row: Seq<bool>, w: u32, h: u32, s: u32) -> (Seq<bool>, u32) {
    if row.len() > w {
        (row.take(w as int), s)
    } else {
        fill_row(row, w, h, s)
    }
}

/// The row list brought to exactly `h` rows: extra rows are dropped from
/// the end, missing rows start empty.
pub open spec fn adjust_height(rows: Seq<Seq<bool>>, h: u32) -> Seq<Seq<bool>> {
    if rows.len() >= h {
        rows.take(h as int)
    } else {
        rows + Seq::new((h - rows.len()) as nat, |i: int| Seq::<bool>::empty())
    }
}

/// Rows from index `i` on brought to width `w` in order, threading the
/// generator register through the draws.
pub open spec fn fill_rows(rows: Seq<Seq<bool>>, i: int, w: u32, h: u32, s: u32) -> (
    Seq<Seq<bool>>,
    u32,
)
    decreases rows.len() - i,
{
    if i < 0 || i >= rows.len() {
        (rows, s)
    } else {
        let rs = resize_row(rows[i], w, h, s);
        fill_rows(rows.update(i, rs.0), i + 1, w, h, rs.1)
    }
}

/// The grid contents and generator register after a resize to `w` by `h`.
pub open spec fn resize_spec(rows: Seq<Seq<bool>>, w: u32, h: u32, s: u32) -> (
    Seq<Seq<bool>>,
    u32,
) {
    fill_rows(adjust_height(rows, h), 0, w, h, s)
}

/// The contents of a vector of rows, as a sequence of sequences.
pub open spec fn view_rows(v: Vec<Vec<bool>>) -> Seq<Seq<bool>> {
    Seq::new(v@.len(), |i: int| v@[i]@)
}

/// The double-buffered automaton grid.
pub struct Game {
    pub board: Vec<Vec<bool>>,
    pub buffer: Vec<Vec<bool>>,
}

impl Game {
    /// The live generation, row by row.
    pub open spec fn rows(&self) -> Seq<Seq<bool>> {
        view_rows(self.board)
    }

    /// The back buffer, row by row.
    pub open spec fn buf_rows(&self) -> Seq<Seq<bool>> {
        view_rows(self.buffer)
    }

    pub open spec fn height(&self) -> int {
        self.board@.len() as int
    }

    pub open spec fn width(&self) -> int {
        self.rows()[0].len() as int
    }

    /// Both buffers share one rectangular shape of at least one row and one
    /// column, with each dimension small enough to index as `u32`.
    pub open spec fn wf(&self) -> bool {
        &&& 1 <= self.width() <= u32::MAX
        &&& 1 <= self.height() <= u32::MAX
        &&& grid_wf(self.rows(), self.width(), self.height())
        &&& grid_wf(self.buf_rows(), self.width(), self.height())
    }

    /// A fresh `width` by `height` grid, the live generation filled from
    /// the generator and the back buffer a copy of it.  Zero in either
    /// dimension is invalid.
    pub fn new(width: u32, height: u32, rng: &mut Rng) -> (g: Game)
        requires
            1 <= width,
            1 <= height,
        ensures
            g.wf(),
            g.width() == width,
            g.height() == height,
            g.rows() == resize_spec(Seq::<Seq<bool>>::empty(), width, height, old(rng).state).0,
            final(rng).state == resize_spec(
                Seq::<Seq<bool>>::empty(),
                width,
                height,
                old(rng).state,
            ).1,
            g.buf_rows() == g.rows(),
    {
        let mut game = Game { board: Vec::new(), buffer: Vec::new() };
        game.resize(width, height, rng);
        game
    }

    /// Reshape the grid to `width` by `height`, keeping what fits of the
    /// existing cells and filling everything new from the generator; the
    /// back buffer becomes a copy of the result.  Zero in either dimension
    /// is invalid.
    pub fn resize(&mut self, width: u32, height: u32, rng: &mut Rng)
        requires
            1 <= width,
            1 <= height,
        ensures
            final(self).wf(),
            final(self).width() == width,
            final(self).height() == height,
            final(self).rows() == resize_spec(
                old(self).rows(),
                width,
                height,
                old(rng).state,
            ).0,
            final(rng).state == resize_spec(old(self).rows(), width, height, old(rng).state).1,
            final(self).buf_rows() == final(self).rows(),
    {
        let ghost orig_rows = self.rows();
        let ghost s0 = rng.state;
        while self.board.len() < height as usize
            invariant
                orig_rows.len() <= self.board@.len(),
                self.board@.len() <= vstd::math::max(orig_rows.len() as int, height as int),
                self.rows() =~~= orig_rows + Seq::new(
                    (self.board@.len() - orig_rows.len()) as nat,
                    |i: int| Seq::<bool>::empty(),
                ),
                rng.state == s0,
            decreases height as int - self.board@.len(),
        {
            let ghost pre = self.rows();
            self.board.push(Vec::new());
            proof {
                assert(self.rows() =~~= pre.push(Seq::<bool>::empty()));
                assert(pre.push(Seq::<bool>::empty()) =~~= orig_rows + Seq::new(
                    (self.board@.len() - orig_rows.len()) as nat,
                    |i: int| Seq::<bool>::empty(),
                ));
            }
        }
        let ghost grown = self.rows();
        while (height as usize) < self.board.len()
            invariant
                height as usize <= grown.len(),
                height as usize <= self.board@.len() <= grown.len(),
                self.rows() =~= grown.take(self.board@.len() as int),
                rng.state == s0,
            decreases self.board@.len(),
        {
            self.board.pop();
        }
        proof {
            assert(self.rows() =~= adjust_height(orig_rows, height));
        }
        let ghost mid = self.rows();
        let mut i: usize = 0;
        while i < self.board.len()
            invariant
                1 <= width,
                1 <= height,
                i <= self.board@.len() == height as usize,
                fill_rows(self.rows(), i as int, width, height, rng.state) == fill_rows(
                    mid,
                    0,
                    width,
                    height,
                    s0,
                ),
                forall|k: int| 0 <= k < i ==> (#[trigger] self.rows()[k]).len() == width,
            decreases self.board@.len() - i,
        {
            let ghost row0 = self.rows()[i as int];
            let ghost s_in = rng.state;
            let orig_len = self.board[i].len();
            let keep = if orig_len > width as usize {
                width as usize
            } else {
                orig_len
            };
            let ghost trimmed = if row0.len() > width {
                row0.take(width as int)
            } else {
                row0
            };
            let mut row: Vec<bool> = Vec::new();
            let mut j: usize = 0;
            while j < keep
                invariant
                    j <= keep,
                    keep <= self.board@[i as int]@.len(),
                    keep <= width,
                    i < self.board@.len(),
                    row0 == self.rows()[i as int],
                    trimmed == (if row0.len() > width {
                        row0.take(width as int)
                    } else {
                        row0
                    }),
                    keep as int == trimmed.len(),
                    row@ =~= trimmed.take(j as int),
                    rng.state == s_in,
                decreases keep - j,
            {
                let cell = self.board[i][j];
                row.push(cell);
                j += 1;
            }
            proof {
                assert(row@ =~= trimmed);
            }
            while row.len() < width as usize
                invariant
                    i < self.board@.len(),
                    row0 == self.rows()[i as int],
                    row@.len() <= width,
                    fill_row(row@, width, height, rng.state) == fill_row(
                        trimmed,
                        width,
                        height,
                        s_in,
                    ),
                decreases width as int - row@.len(),
            {
                let mix = (row.len() as u32) & width & height;
                let bit = rng.next(mix);
                row.push(bit);
            }
            proof {
                assert(fill_row(row@, width, height, rng.state) == (row@, rng.state));
                assert(resize_row(row0, width, height, s_in) == (row@, rng.state)) by {
                    if row0.len() > width {
                        assert(trimmed.len() == width);
                        assert(fill_row(trimmed, width, height, s_in) == (trimmed, s_in));
                    }
                }
            }
            let ghost pre_rows = self.rows();
            self.board.set(i, row);
            proof {
                assert(self.rows() =~~= pre_rows.update(i as int, row@));
                assert(fill_rows(pre_rows, i as int, width, height, s_in) == fill_rows(
                    self.rows(),
                    i as int + 1,
                    width,
                    height,
                    rng.state,
                ));
            }
            i += 1;
        }
        proof {
            assert(fill_rows(self.rows(), self.board@.len() as int, width, height, rng.state) == (
                self.rows(),
                rng.state,
            ));
            assert(self.rows() == resize_spec(orig_rows, width, height, s0).0);
            assert(rng.state == resize_spec(orig_rows, width, height, s0).1);
        }
        self.recreate_buffer();
        proof {
            assert(grid_wf(self.rows(), width as int, height as int));
        }
    }

    /// Make the back buffer a copy of the live generation.
    pub fn recreate_buffer(&mut self)
        ensures
            final(self).board == old(self).board,
            final(self).buf_rows() == old(self).rows(),
    {
        let mut buf: Vec<Vec<bool>> = Vec::new();
        let mut i: usize = 0;
        while i < self.board.len()
            invariant
                i <= self.board@.len(),
                self.board == old(self).board,
                self.buffer == old(self).buffer,
                view_rows(buf) =~= self.rows().take(i as int),
            decreases self.board@.len() - i,
        {
            let ghost pre = view_rows(buf);
            let mut row: Vec<bool> = Vec::new();
            let mut j: usize = 0;
            while j < self.board[i].len()
                invariant
                    i < self.board@.len(),
                    j <= self.board@[i as int]@.len(),
                    self.board == old(self).board,
                    self.buffer == old(self).buffer,
                    row@ =~= self.rows()[i as int].take(j as int),
                decreases self.board@[i as int]@.len() - j,
            {
                let cell = self.board[i][j];
                row.push(cell);
                j += 1;
            }
            proof {
                assert(row@ =~= self.rows()[i as int]);
            }
            buf.push(row);
            proof {
                assert(view_rows(buf) =~~= pre.push(row@));
                assert(view_rows(buf) =~= self.rows().take(i as int + 1));
            }
            i += 1;
        }
        proof {
            assert(view_rows(buf) =~= self.rows());
        }
        self.buffer = buf;
    }

    /// Exchange the live generation and the back buffer.
    pub fn swap(&mut self)
        ensures
            final(self).board == old(self).buffer,
            final(self).buffer == old(self).board,
    {
        core::mem::swap(&mut self.board, &mut self.buffer);
    }

    /// The live cell at `(x, y)`, both coordinates wrapped around the
    /// torus by taking them modulo the grid's dimensions.
    pub fn idx(&self, x: u32, y: u32) -> (r: bool)
        requires
            self.wf(),
        ensures
            r == self.rows()[x as int % self.height()][y as int % self.width()],
            (x as int) < self.height() && (y as int) < self.width() ==> r == self.rows()[x as int][y as int],
    {
        let xi = (x as usize) % self.board.len();
        proof {
            assert(self.rows()[xi as int].len() == self.width());
            if (x as int) < self.height() {
                vstd::arithmetic::div_mod::lemma_small_mod(x as nat, self.height() as nat);
            }
            if (y as int) < self.width() {
                vstd::arithmetic::div_mod::lemma_small_mod(y as nat, self.width() as nat);
            }
        }
        let yi = (y as usize) % self.board[xi].len();
        self.board[xi][yi]
    }

    /// Alive count of the 3x3 block around `(x, y)`, center included.
    #[verifier::rlimit(100)]
    fn count_neighbors(&self, x: u32, y: u32) -> (n: u32)
        requires
            self.wf(),
            (x as int) < self.height(),
            (y as int) < self.width(),
        ensures
            n as int == count_around(self.rows(), x as int, y as int),
    {
        let h = self.board.len();
        let w = self.board[0].len();
        let x = x as usize;
        let y = y as usize;
        let xd = wrap_dec_idx(x, h);
        let xi = wrap_inc_idx(x, h);
        let yd = wrap_dec_idx(y, w);
        let yi = wrap_inc_idx(y, w);
        proof {
            assert(self.height() == h as int);
            assert(self.width() == w as int);
            assert(self.rows()[x as int] == self.board@[x as int]@);
            assert(self.rows()[xd as int] == self.board@[xd as int]@);
            assert(self.rows()[xi as int] == self.board@[xi as int]@);
            assert(self.rows()[x as int].len() == w as int);
            assert(self.rows()[xd as int].len() == w as int);
            assert(self.rows()[xi as int].len() == w as int);
        }
        let num_around: u32 = b2u(self.board[xd][yd]) + b2u(self.board[xd][y]) + b2u(
            self.board[xd][yi],
        ) + b2u(self.board[x][yd]) + b2u(self.board[x][y]) + b2u(self.board[x][yi]) + b2u(
            self.board[xi][yd],
        ) + b2u(self.board[xi][y]) + b2u(self.board[xi][yi]);
        num_around
    }

    /// Write the next state of cell `(x, y)` into the back buffer; the
    /// live generation is untouched.
    #[verifier::rlimit(50)]
    pub fn calc(&mut self, x: u32, y: u32)
        requires
            old(self).wf(),
            (x as int) < old(self).height(),
            (y as int) < old(self).width(),
        ensures
            final(self).board == old(self).board,
            final(self).buf_rows() == old(self).buf_rows().update(
                x as int,
                old(self).buf_rows()[x as int].update(
                    y as int,
                    next_cell(old(self).rows(), x as int, y as int),
                ),
            ),
    {
        let num_around = self.count_neighbors(x, y);
        let val = if num_around >= 5 {
            false
        } else if num_around == 3 {
            self.idx(x, y)
        } else if num_around == 2 {
            true
        } else {
            false
        };
        let ghost pre_buf = self.buf_rows();
        proof {
            assert(pre_buf[x as int].len() == self.width());
        }
        let mut row: Vec<bool> = Vec::new();
        self.buffer.set_and_swap(x as usize, &mut row);
        row.set(y as usize, val);
        self.buffer.set_and_swap(x as usize, &mut row);
        proof {
            assert(self.buf_rows() =~~= pre_buf.update(
                x as int,
                pre_buf[x as int].update(y as int, next_cell(self.rows(), x as int, y as int)),
            ));
        }
    }

    /// Advance the whole grid one generation: compute every cell's next
    /// state into the back buffer from the live generation alone, then
    /// swap the buffers.  Dimensions are preserved and every cell of the
    /// result is again a plain alive-or-dead value.
    pub fn step(&mut self)
        requires
            old(self).wf(),
        ensures
            final(self).wf(),
            final(self).width() == old(self).width(),
            final(self).height() == old(self).height(),
            final(self).rows() == step_spec(old(self).rows()),
            final(self).buf_rows() == old(self).rows(),
    {
        let ghost w = old(self).width();
        let ghost h = old(self).height();
        let mut x: usize = 0;
        while x < self.board.len()
            invariant
                old(self).wf(),
                w == old(self).width(),
                h == old(self).height(),
                self.board == old(self).board,
                x <= h,
                grid_wf(self.buf_rows(), w, h),
                forall|r: int, c: int|
                    0 <= r < x && 0 <= c < w ==> #[trigger] self.buf_rows()[r][c] == next_cell(
                        old(self).rows(),
                        r,
                        c,
                    ),
            decreases h - x,
        {
            let mut y: usize = 0;
            while y < self.board[x].len()
                invariant
                    old(self).wf(),
                    w == old(self).width(),
                    h == old(self).height(),
                    self.board == old(self).board,
                    x < h,
                    y <= w,
                    grid_wf(self.buf_rows(), w, h),
                    forall|r: int, c: int|
                        0 <= r < x && 0 <= c < w ==> #[trigger] self.buf_rows()[r][c] == next_cell(
                            old(self).rows(),
                            r,
                            c,
                        ),
                    forall|c: int|
                        0 <= c < y ==> #[trigger] self.buf_rows()[x as int][c] == next_cell(
                            old(self).rows(),
                            x as int,
                            c,
                        ),
                decreases w - y,
            {
                proof {
                    assert(self.rows()[x as int].len() == w);
                }
                self.calc(x as u32, y as u32);
                y += 1;
            }
            x += 1;
        }
        proof {
            assert(self.buf_rows() =~~= step_spec(old(self).rows()));
        }
        self.swap();
    }

    /// The rendered text of the live generation: one line per row, `'X'`
    /// for alive, `' '` for dead, each line closed by `"\r\n"`.
    #[verifier::loop_isolation(false)]
    pub fn display(&self) -> (r: String)
        requires
            self.wf(),
        ensures
            r@ == render_spec(self.rows()),
    {
        let mut disp = String::new();
        let mut x: usize = 0;
        while x < self.board.len()
            invariant
                x <= self.height(),
                disp@ == render_spec(self.rows().take(x as int)),
            decreases self.height() - x,
        {
            let ghost row = self.rows()[x as int];
            let mut y: usize = 0;
            while y < self.board[x].len()
                invariant
                    x < self.height(),
                    y <= self.width(),
                    row == self.rows()[x as int],
                    disp@ == render_spec(self.rows().take(x as int)) + Seq::new(
                        y as nat,
                        |c: int| if row[c] { 'X' } else { ' ' },
                    ),
                decreases self.width() - y,
            {
                let ghost pre = disp@;
                if self.board[x][y] {
                    disp.append("X");
                    proof {
                        reveal_strlit("X");
                        assert(disp@ =~= pre.push('X'));
                    }
                } else {
                    disp.append(" ");
                    proof {
                        reveal_strlit(" ");
                        assert(disp@ =~= pre.push(' '));
                    }
                }
                proof {
                    assert(disp@ =~= render_spec(self.rows().take(x as int)) + Seq::new(
                        (y + 1) as nat,
                        |c: int| if row[c] { 'X' } else { ' ' },
                    ));
                }
                y += 1;
            }
            let ghost pre = disp@;
            disp.append("\r\n");
            proof {
                reveal_strlit("\r\n");
                assert(pre + "\r\n"@ =~= render_spec(self.rows().take(x as int)) + render_row(
                    row,
                ));
                lemma_render_take_succ(self.rows(), x as int);
            }
            x += 1;
        }
        proof {
            assert(self.rows().take(self.height()) =~= self.rows());
        }
        disp
    }
}

/// Appending one more row to a rendered prefix: the text of the first
/// `i + 1` rows is the text of the first `i` rows followed by row `i`.
proof fn lemma_render_take_succ(g: Seq<Seq<bool>>, i: int)
    requires
        0 <= i < g.len(),
    ensures
        render_spec(g.take(i + 1)) == render_spec(g.take(i)) + render_row(g[i]),
    decreases i,
{
    if i == 0 {
        assert(g.take(0) =~= Seq::<Seq<bool>>::empty());
        let s = g.take(1);
        assert(s.len() == 1);
        assert(s[0] == g[0]);
        assert(s.drop_first() =~= Seq::<Seq<bool>>::empty());
        assert(render_spec(s) == render_row(g[0]) + render_spec(Seq::<Seq<bool>>::empty()));
        assert(render_row(g[0]) + Seq::<char>::empty() =~= render_row(g[0]));
        assert(Seq::<char>::empty() + render_row(g[0]) =~= render_row(g[0]));
    } else {
        let gd = g.drop_first();
        lemma_render_take_succ(gd, i - 1);
        assert(g.take(i + 1).drop_first() =~= gd.take(i));
        assert(g.take(i).drop_first() =~= gd.take(i - 1));
        assert(g.take(i + 1)[0] == g[0]);
        assert(g.take(i)[0] == g[0]);
        assert(render_spec(g.take(i + 1)) == render_row(g[0]) + render_spec(gd.take(i)));
        assert(render_spec(g.take(i)) == render_row(g[0]) + render_spec(gd.take(i - 1)));
        assert(gd[i - 1] == g[i]);
        assert(render_row(g[0]) + (render_spec(gd.take(i - 1)) + render_row(g[i])) =~= (render_row(
            g[0],
        ) + render_spec(gd.take(i - 1))) + render_row(g[i]));
    }
}

/// The rendered text of `h` rows of `w` cells has exactly `h * (w + 2)`
/// characters, and the slice for each row is that row's rendering: `w`
/// cell characters followed by the two line-end characters.
pub proof fn lemma_render_shape(g: Seq<Seq<bool>>, w: int, h: int)
    requires
        grid_wf(g, w, h),
        0 <= w,
        0 <= h,
    ensures
        render_spec(g).len() == h * (w + 2),
        forall|i: int|
            0 <= i < h ==> #[trigger] render_spec(g).subrange(i * (w + 2), (i + 1) * (w + 2))
                == render_row(g[i]),
    decreases h,
{
    if h == 0 {
        assert(h * (w + 2) == 0) by (nonlinear_arith)
            requires
                h == 0,
        ;
    } else {
        let k = w + 2;
        let gd = g.drop_first();
        assert(grid_wf(gd, w, h - 1)) by {
            assert forall|i: int| 0 <= i < h - 1 implies (#[trigger] gd[i]).len() == w by {
                assert(gd[i] == g[i + 1]);
            }
        }
        lemma_render_shape(gd, w, h - 1);
        let head = render_row(g[0]);
        let rest = render_spec(gd);
        assert(g[0].len() == w);
        assert(head.len() == k);
        assert(render_spec(g) == head + rest);
        assert(k + (h - 1) * k == h * k) by (nonlinear_arith);
        assert forall|i: int|
            0 <= i < h implies #[trigger] render_spec(g).subrange(i * (w + 2), (i + 1) * (w + 2))
            == render_row(g[i]) by {
            if i == 0 {
                assert(i * k == 0 && (i + 1) * k == k) by (nonlinear_arith)
                    requires
                        i == 0,
                ;
                assert((head + rest).subrange(0, k) =~= head);
            } else {
                assert(i * k == (i - 1) * k + k) by (nonlinear_arith);
                assert((i + 1) * k == i * k + k) by (nonlinear_arith);
                assert(0 <= (i - 1) * k) by (nonlinear_arith)
                    requires
                        1 <= i,
                        0 <= k,
                ;
                assert(i * k <= (h - 1) * k) by (nonlinear_arith)
                    requires
                        i <= h - 1,
                        0 <= k,
                ;
                assert(rest.subrange((i - 1) * k, ((i - 1) + 1) * k) == render_row(gd[i - 1]));
                assert((head + rest).subrange(i * k, (i + 1) * k) =~= rest.subrange(
                    (i - 1) * k,
                    ((i - 1) + 1) * k,
                ));
                assert(gd[i - 1] == g[i]);
            }
        }
    }
}

/// Every character of a rendered grid is one of the cell characters `'X'`
/// and `' '` or one of the line-end characters `'\r'` and `'\n'`.
pub proof fn lemma_render_chars(g: Seq<Seq<bool>>)
    ensures
        forall|k: int|
            0 <= k < render_spec(g).len() ==> {
                let c = #[trigger] render_spec(g)[k];
                c == 'X' || c == ' ' || c == '\r' || c == '\n'
            },
    decreases g.len(),
{
    if g.len() == 0 {
    } else {
        lemma_render_chars(g.drop_first());
        let head = render_row(g[0]);
        assert forall|k: int|
            0 <= k < render_spec(g).len() implies {
            let c = #[trigger] render_spec(g)[k];
            c == 'X' || c == ' ' || c == '\r' || c == '\n'
        } by {
            if k < head.len() {
                assert(render_spec(g)[k] == head[k]);
            } else {
                assert(render_spec(g)[k] == render_spec(g.drop_first())[k - head.len()]);
            }
        }
    }
}

/// The grid after `n` steps.
pub open spec fn step_n(g: Seq<Seq<bool>>, n: nat) -> Seq<Seq<bool>>
    decreases n,
{
    if n == 0 {
        g
    } else {
        step_spec(step_n(g, (n - 1) as nat))
    }
}

/// Stepping is a pure function of the prior full grid: two identically
/// initialized grids that receive the same number of steps hold the same
/// cells and render the same frame, whatever that number is.
pub proof fn lemma_step_deterministic(g1: Seq<Seq<bool>>, g2: Seq<Seq<bool>>, n: nat)
    requires
        g1 == g2,
    ensures
        step_n(g1, n) == step_n(g2, n),
        render_spec(step_n(g1, n)) == render_spec(step_n(g2, n)),
{
}

/// A grid with every cell dead steps to a grid with every cell dead:
/// every 3x3 block counts zero alive cells.
pub proof fn lemma_dead_grid_stays_dead(g: Seq<Seq<bool>>, w: int, h: int)
    requires
        grid_wf(g, w, h),
        1 <= w,
        1 <= h,
        forall|i: int, j: int| 0 <= i < h && 0 <= j < w ==> !(#[trigger] g[i][j]),
    ensures
        step_spec(g).len() == h,
        forall|i: int| 0 <= i < h ==> (#[trigger] step_spec(g)[i]).len() == w,
        forall|i: int, j: int| 0 <= i < h && 0 <= j < w ==> !(#[trigger] step_spec(g)[i][j]),
    decreases h,
{
    assert forall|i: int, j: int| 0 <= i < h && 0 <= j < w implies !(#[trigger] step_spec(
        g,
    )[i][j]) by {
        let xd = wrap_dec(i, h);
        let xi = wrap_inc(i, h);
        let yd = wrap_dec(j, w);
        let yi = wrap_inc(j, w);
        assert(0 <= xd < h && 0 <= xi < h && 0 <= yd < w && 0 <= yi < w);
        assert(!g[xd][yd] && !g[xd][j] && !g[xd][yi]);
        assert(!g[i][yd] && !g[i][j] && !g[i][yi]);
        assert(!g[xi][yd] && !g[xi][j] && !g[xi][yi]);
        assert(count_around(g, i, j) == 0);
        assert(step_spec(g)[i][j] == next_cell(g, i, j));
    }
}

/// The fixed dimensions of the automaton the session command starts.
pub const AUTOMATON_WIDTH: u32 = 30;

/// The fixed dimensions of the automaton the session command starts.
pub const AUTOMATON_HEIGHT: u32 = 30;

/// How long the host should rest between frames of the automaton loop,
/// in the host's time units.
pub const FRAME_DELAY: u32 = 300;

/// One frame of the automaton run loop: hands back the text of the live
/// generation and advances the grid one step for the next frame.  The
/// host prints the text, rests, and calls again until input is pending.
pub fn conway_frame(game: &mut Game) -> (out: String)
    requires
        old(game).wf(),
    ensures
        final(game).wf(),
        final(game).width() == old(game).width(),
        final(game).height() == old(game).height(),
        out@ == render_spec(old(game).rows()),
        final(game).rows() == step_spec(old(game).rows()),
{
    let out = game.display();
    game.step();
    out
}

} // verus!
