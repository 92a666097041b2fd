//! A toroidal Game-of-Life engine.
//!
//! The universe is a fixed grid of cells, row-major in a flat buffer, whose
//! edges wrap around: the last row is adjacent to the first, and likewise
//! the columns, so every cell has exactly eight neighbour slots and no edge
//! needs a special case. A second buffer of the same size is kept as
//! scratch: each generation is written into it and the two buffers then
//! swap roles, so no allocation happens after construction.

use vstd::prelude::*;

verus! {

/// One cell of the grid.
#[derive(Clone, Copy, PartialEq, Eq, Structural, Debug)]
pub enum Cell {
    Dead,
    Alive,
}

/// The one failure the engine can report: a cell buffer handed to the
/// constructor whose length is not width times height.
#[derive(Clone, Copy, PartialEq, Eq, Structural, Debug)]
pub enum UniverseError {
    InvalidBufferSize,
}

/// A toroidal cellular automaton: the current generation, a scratch buffer
/// for the next one, and the grid dimensions, fixed at construction.
pub struct Universe {
    /// Number of columns.
    pub width: u32,
    /// Number of rows.
    pub height: u32,
    /// The current generation, row-major: the cell at `(row, col)` sits at
    /// index `row * width + col`.
    pub cells: Vec<Cell>,
    /// Scratch buffer the next generation is computed into; it swaps roles
    /// with `cells` at the end of every tick.
    pub next: Vec<Cell>,
}

/// The row above `i` on a torus of `n` rows (or the column to the left, on
/// one of `n` columns): one step back, wrapping to the far edge at zero.
pub open spec fn wrap_dec(i: int, n: int) -> int {
    if i == 0 {
        n - 1
    } else {
        i - 1
    }
}

/// The row below `i` on a torus of `n` rows (or the column to the right):
/// one step forward, wrapping to zero at the far edge.
pub open spec fn wrap_inc(i: int, n: int) -> int {
    if i == n - 1 {
        0
    } else {
        i + 1
    }
}

/// 1 if the cell at `(r, c)` of a row-major grid `w` columns wide is alive,
/// else 0.
pub open spec fn alive_at(g: Seq<Cell>, w: int, r: int, c: int) -> int {
    if g[r * w + c] is Alive {
        1
    } else {
        0
    }
}

/// How many of the eight neighbour slots of `(r, c)` hold a live cell, on
/// the torus of `h` rows and `w` columns. On a grid thinner than three
/// cells some slots coincide and a live cell in them is counted once per
/// slot, exactly as the eight wrapped offsets fall.
pub open spec fn live_neighbors(g: Seq<Cell>, w: int, h: int, r: int, c: int) -> int {
    let rm = wrap_dec(r, h);
    let rp = wrap_inc(r, h);
    let cm = wrap_dec(c, w);
    let cp = wrap_inc(c, w);
    alive_at(g, w, rm, cm) + alive_at(g, w, rm, c) + alive_at(g, w, rm, cp) + alive_at(g, w, r, cm)
        + alive_at(g, w, r, cp) + alive_at(g, w, rp, cm) + alive_at(g, w, rp, c) + alive_at(
        g,
        w,
        rp,
        cp,
    )
}

/// The standard rule: a live cell with two or three live neighbours
/// survives, any other live cell dies; a dead cell with exactly three live
/// neighbours is born, any other dead cell stays dead.
pub open spec fn next_cell(c: Cell, neighbors: int) -> Cell {
    match c {
        Cell::Alive => if neighbors == 2 || neighbors == 3 {
            Cell::Alive
        } else {
            Cell::Dead
        },
        Cell::Dead => if neighbors == 3 {
            Cell::Alive
        } else {
            Cell::Dead
        },
    }
}

/// One whole generation: every cell of the grid advanced by the rule at
/// once.
pub open spec fn step(g: Seq<Cell>, w: int, h: int) -> Seq<Cell> {
    Seq::new((w * h) as nat, |i: int| next_cell(g[i], live_neighbors(g, w, h, i / w, i % w)))
}

/// `n` generations in a row.
pub open spec fn step_n(g: Seq<Cell>, w: int, h: int, n: nat) -> Seq<Cell>
    decreases n,
{
    if n == 0 {
        g
    } else {
        step(step_n(g, w, h, (n - 1) as nat), w, h)
    }
}

impl Universe {
    /// Both buffers have exactly one cell per grid position.
    pub open spec fn wf(&self) -> bool {
        &&& self.cells@.len() == (self.width as int) * (self.height as int)
        &&& self.next@.len() == (self.width as int) * (self.height as int)
    }

    /// The current generation and the dimensions it is read against.
    pub open spec fn grid(&self) -> Seq<Cell> {
        self.cells@
    }

    /// Builds a universe over the two caller-supplied buffers, the first
    /// holding the seed generation, the second the scratch. Both must hold
    /// exactly `width * height` cells; any other length is rejected, and
    /// nothing is truncated or padded.
    pub fn new(width: u32, height: u32, cells: Vec<Cell>, next: Vec<Cell>) -> (r: Result<
        Universe,
        UniverseError,
    >)
        ensures
            match r {
                Ok(u) => {
                    &&& cells@.len() == (width as int) * (height as int)
                    &&& next@.len() == (width as int) * (height as int)
                    &&& u == (Universe { width, height, cells, next })
                    &&& u.wf()
                },
                Err(e) => {
                    &&& e == UniverseError::InvalidBufferSize
                    &&& (cells@.len() != (width as int) * (height as int) || next@.len() != (
                    width as int) * (height as int))
                },
            },
    {
        proof {
            vstd::arithmetic::mul::lemma_mul_upper_bound(
                width as int,
                u32::MAX as int,
                height as int,
                u32::MAX as int,
            );
        }
        let area: u64 = (width as u64) * (height as u64);
        if (cells.len() as u64) != area || (next.len() as u64) != area {
            return Err(UniverseError::InvalidBufferSize);
        }
        Ok(Universe { width, height, cells, next })
    }

    /// Where the cell at `(row, col)` sits in the flat buffers.
    fn get_index(&self, row: u32, col: u32) -> (i: usize)
        requires
            self.wf(),
            row < self.height,
            col < self.width,
        ensures
            i == row * self.width + col,
            i < self.cells@.len(),
    {
        let total: usize = self.cells.len();
        proof {
            lemma_row_major_index_bounds(
                self.width as int,
                self.height as int,
                row as int,
                col as int,
            );
            assert(row * self.width + col < total);
        }
        (row as usize) * (self.width as usize) + (col as usize)
    }

    /// Reads one cell of the current generation.
    pub fn get(&self, row: u32, col: u32) -> (c: Cell)
        requires
            self.wf(),
            row < self.height,
            col < self.width,
        ensures
            c == self.grid()[row * self.width + col],
    {
        let i = self.get_index(row, col);
        self.cells[i]
    }

    /// Counts the live cells in the eight wrapped neighbour slots of
    /// `(row, col)`.
    fn live_neighbor_count(&self, row: u32, col: u32) -> (n: u8)
        requires
            self.wf(),
            row < self.height,
            col < self.width,
        ensures
            n == live_neighbors(
                self.grid(),
                self.width as int,
                self.height as int,
                row as int,
                col as int,
            ),
    {
        let rm: u32 = if row == 0 {
            self.height - 1
        } else {
            row - 1
        };
        let rp: u32 = if row == self.height - 1 {
            0
        } else {
            row + 1
        };
        let cm: u32 = if col == 0 {
            self.width - 1
        } else {
            col - 1
        };
        let cp: u32 = if col == self.width - 1 {
            0
        } else {
            col + 1
        };
        let mut n: u8 = 0;
        n = n + self.one_if_alive(rm, cm);
        n = n + self.one_if_alive(rm, col);
        n = n + self.one_if_alive(rm, cp);
        n = n + self.one_if_alive(row, cm);
        n = n + self.one_if_alive(row, cp);
        n = n + self.one_if_alive(rp, cm);
        n = n + self.one_if_alive(rp, col);
        n = n + self.one_if_alive(rp, cp);
        n
    }

    /// Advances the universe one generation: the rule is applied to every
    /// cell of the current grid at once, the result is written into the
    /// scratch buffer, and the two buffers swap roles.
    pub fn tick(&mut self)
        requires
            old(self).wf(),
        ensures
            final(self).wf(),
            final(self).width == old(self).width,
            final(self).height == old(self).height,
            final(self).grid() == step(
                old(self).grid(),
                old(self).width as int,
                old(self).height as int,
            ),
            final(self).next@ == old(self).grid(),
    {
        let w = self.width;
        let h = self.height;
        let ghost g0 = self.cells@;
        let ghost target = step(g0, w as int, h as int);
        let mut row: u32 = 0;
        while row < h
            invariant
                self.wf(),
                self.width == w,
                self.height == h,
                self.cells@ == g0,
                target == step(g0, w as int, h as int),
                target.len() == g0.len(),
                row <= h,
                forall|i: int| 0 <= i < row * w ==> self.next@[i] == target[i],
            decreases h - row,
        {
            let mut col: u32 = 0;
            while col < w
                invariant
                    self.wf(),
                    self.width == w,
                    self.height == h,
                    self.cells@ == g0,
                    target == step(g0, w as int, h as int),
                    target.len() == g0.len(),
                    row < h,
                    col <= w,
                    forall|i: int| 0 <= i < row * w + col ==> self.next@[i] == target[i],
                decreases w - col,
            {
                let n = self.live_neighbor_count(row, col);
                let idx = self.get_index(row, col);
                let here = match self.cells[idx] {
                    Cell::Alive => if n == 2 || n == 3 {
                        Cell::Alive
                    } else {
                        Cell::Dead
                    },
                    Cell::Dead => if n == 3 {
                        Cell::Alive
                    } else {
                        Cell::Dead
                    },
                };
                self.next[idx] = here;
                proof {
                    vstd::arithmetic::div_mod::lemma_fundamental_div_mod_converse(
                        idx as int,
                        w as int,
                        row as int,
                        col as int,
                    );
                    assert(target[idx as int] == here);
                }
                col = col + 1;
            }
            proof {
                lemma_row_advances(row as int, w as int);
            }
            row = row + 1;
        }
        proof {
            lemma_grid_area_commutes(w as int, h as int);
            assert(self.next@ =~= target);
        }
        core::mem::swap(&mut self.cells, &mut self.next);
    }

    /// The current generation as one triple per cell, row-major: the cell's
    /// row, its column, and its state. Reading it changes nothing, so two
    /// reads with no tick between them yield the same sequence.
    pub fn iter(&self) -> (r: Vec<(u32, u32, Cell)>)
        requires
            self.wf(),
        ensures
            r@ == self.render(),
    {
        let w = self.width;
        let h = self.height;
        let mut r: Vec<(u32, u32, Cell)> = Vec::new();
        let mut row: u32 = 0;
        while row < h
            invariant
                self.wf(),
                self.width == w,
                self.height == h,
                row <= h,
                r@.len() == row * w,
                forall|i: int| 0 <= i < r@.len() ==> r@[i] == self.render()[i],
            decreases h - row,
        {
            let mut col: u32 = 0;
            while col < w
                invariant
                    self.wf(),
                    self.width == w,
                    self.height == h,
                    row < h,
                    col <= w,
                    r@.len() == row * w + col,
                    forall|i: int| 0 <= i < r@.len() ==> r@[i] == self.render()[i],
                decreases w - col,
            {
                let idx = self.get_index(row, col);
                let cell = self.cells[idx];
                r.push((row, col, cell));
                proof {
                    vstd::arithmetic::div_mod::lemma_fundamental_div_mod_converse(
                        idx as int,
                        w as int,
                        row as int,
                        col as int,
                    );
                    assert(self.render()[idx as int] == (row, col, cell));
                }
                col = col + 1;
            }
            proof {
                lemma_row_advances(row as int, w as int);
            }
            row = row + 1;
        }
        proof {
            lemma_grid_area_commutes(w as int, h as int);
            assert(r@ =~= self.render());
        }
        r
    }

    /// What `iter` returns, as a function of the grid alone: one triple per
    /// cell, row-major.
    pub open spec fn render(&self) -> Seq<(u32, u32, Cell)> {
        Seq::new(
            self.cells@.len(),
            |i: int|
                (
                    (i / (self.width as int)) as u32,
                    (i % (self.width as int)) as u32,
                    self.cells@[i],
                ),
        )
    }

    /// 1 if the cell at `(row, col)` is alive, else 0.
    fn one_if_alive(&self, row: u32, col: u32) -> (n: u8)
        requires
            self.wf(),
            row < self.height,
            col < self.width,
        ensures
            n == alive_at(self.grid(), self.width as int, row as int, col as int),
            n <= 1,
    {
        let i = self.get_index(row, col);
        match self.cells[i] {
            Cell::Alive => 1,
            Cell::Dead => 0,
        }
    }
}

/// What `iter` yields is a function of the dimensions and the current
/// generation alone: two universes that agree on those render identically,
/// whatever their scratch buffers hold. In particular, reading the grid
/// twice with no tick between the reads yields the same sequence twice.
pub proof fn lemma_render_ignores_scratch(a: Universe, b: Universe)
    requires
        a.width == b.width,
        a.height == b.height,
        a.cells@ == b.cells@,
    ensures
        a.render() == b.render(),
{
    assert(a.render() =~= b.render());
}

/// In a grid where only the cell at the origin is alive, a position is
/// alive exactly when it is the origin.
proof fn lemma_alive_only_at_origin(g: Seq<Cell>, w: int, h: int)
    requires
        g.len() == w * h,
        0 < h,
        0 < w,
        g[0] is Alive,
        forall|i: int| 1 <= i < g.len() ==> g[i] is Dead,
    ensures
        forall|r: int, c: int|
            0 <= r < h && 0 <= c < w ==> alive_at(g, w, r, c) == if r == 0 && c == 0 {
                1int
            } else {
                0int
            },
{
    assert forall|r: int, c: int| 0 <= r < h && 0 <= c < w implies alive_at(g, w, r, c) == (if r
        == 0 && c == 0 {
        1int
    } else {
        0int
    }) by {
        lemma_row_major_index_bounds(w, h, r, c);
        if r == 0 && c == 0 {
        } else {
            assert(r * w + c >= 1) by (nonlinear_arith)
                requires
                    0 <= r,
                    0 <= c < w,
                    !(r == 0 && c == 0),
            ;
        }
    }
}

/// The torus has no edge: a live cell at the origin is counted as a
/// neighbour by all eight cells around it, the four grid corners and the
/// rest of the wrapped ring among them. On any grid at least three wide and
/// three high, each of those eight cells sees exactly one live neighbour
/// when the origin alone is alive.
pub proof fn lemma_toroidal_wraparound(g: Seq<Cell>, w: int, h: int)
    requires
        w >= 3,
        h >= 3,
        g.len() == w * h,
        g[0] is Alive,
        forall|i: int| 1 <= i < g.len() ==> g[i] is Dead,
    ensures
        live_neighbors(g, w, h, h - 1, w - 1) == 1,
        live_neighbors(g, w, h, h - 1, 0) == 1,
        live_neighbors(g, w, h, h - 1, 1) == 1,
        live_neighbors(g, w, h, 0, w - 1) == 1,
        live_neighbors(g, w, h, 0, 1) == 1,
        live_neighbors(g, w, h, 1, w - 1) == 1,
        live_neighbors(g, w, h, 1, 0) == 1,
        live_neighbors(g, w, h, 1, 1) == 1,
{
    lemma_alive_only_at_origin(g, w, h);
}

/// The four positions of a two-by-two block whose upper-left corner is at
/// `(r0, c0)`.
pub open spec fn is_block_cell(r0: int, c0: int, r: int, c: int) -> bool {
    r0 <= r <= r0 + 1 && c0 <= c <= c0 + 1
}

/// A grid whose only live cells are that two-by-two block.
pub open spec fn block_grid(w: int, h: int, r0: int, c0: int) -> Seq<Cell> {
    Seq::new(
        (w * h) as nat,
        |i: int|
            if is_block_cell(r0, c0, i / w, i % w) {
                Cell::Alive
            } else {
                Cell::Dead
            },
    )
}

/// In the block grid, a position is alive exactly when it is one of the
/// four block positions.
proof fn lemma_block_grid_alive(w: int, h: int, r0: int, c0: int)
    requires
        0 < w,
        0 < h,
    ensures
        forall|r: int, c: int|
            0 <= r < h && 0 <= c < w ==> alive_at(block_grid(w, h, r0, c0), w, r, c)
                == if is_block_cell(r0, c0, r, c) {
                1int
            } else {
                0int
            },
{
    let g = block_grid(w, h, r0, c0);
    assert forall|r: int, c: int| 0 <= r < h && 0 <= c < w implies alive_at(g, w, r, c) == (
    if is_block_cell(r0, c0, r, c) {
        1int
    } else {
        0int
    }) by {
        lemma_row_major_index_bounds(w, h, r, c);
        let i = r * w + c;
        vstd::arithmetic::div_mod::lemma_fundamental_div_mod_converse(i, w, r, c);
    }
}

/// A two-by-two block is a still life: on any grid at least four cells wide
/// and four high, one generation leaves the block grid exactly as it is,
/// wherever the block stands short of wrapping. Every block cell touches the
/// three others and survives; every other cell sees at most two live
/// neighbours, wrapped neighbours included, and stays dead.
pub proof fn lemma_block_still_life(w: int, h: int, r0: int, c0: int)
    requires
        w >= 4,
        h >= 4,
        0 <= r0,
        r0 + 1 < h,
        0 <= c0,
        c0 + 1 < w,
    ensures
        step(block_grid(w, h, r0, c0), w, h) == block_grid(w, h, r0, c0),
{
    let g = block_grid(w, h, r0, c0);
    lemma_block_grid_alive(w, h, r0, c0);
    assert forall|i: int| 0 <= i < w * h implies step(g, w, h)[i] == g[i] by {
        let r = i / w;
        let c = i % w;
        vstd::arithmetic::div_mod::lemma_mod_division_less_than_divisor(i, w);
        vstd::arithmetic::div_mod::lemma_div_pos_is_pos(i, w);
        vstd::arithmetic::div_mod::lemma_multiply_divide_lt(i, w, h);
        vstd::arithmetic::div_mod::lemma_fundamental_div_mod(i, w);
        assert(step(g, w, h)[i] == next_cell(g[i], live_neighbors(g, w, h, r, c)));
        assert(next_cell(g[i], live_neighbors(g, w, h, r, c)) == g[i]);
    }
    assert(step(g, w, h) =~= g);
}

/// The block grid is unchanged after any number of generations.
pub proof fn lemma_block_stable_forever(w: int, h: int, r0: int, c0: int, n: nat)
    requires
        w >= 4,
        h >= 4,
        0 <= r0,
        r0 + 1 < h,
        0 <= c0,
        c0 + 1 < w,
    ensures
        step_n(block_grid(w, h, r0, c0), w, h, n) == block_grid(w, h, r0, c0),
    decreases n,
{
    if n > 0 {
        lemma_block_stable_forever(w, h, r0, c0, (n - 1) as nat);
        lemma_block_still_life(w, h, r0, c0);
    }
}

/// Finishing a row advances the flat index by one row's width.
proof fn lemma_row_advances(row: int, w: int)
    ensures
        (row + 1) * w == row * w + w,
{
    vstd::arithmetic::mul::lemma_mul_is_distributive_add_other_way(w, row, 1);
}

/// A grid's area is the same however the sides are ordered.
proof fn lemma_grid_area_commutes(w: int, h: int)
    ensures
        w * h == h * w,
{
    vstd::arithmetic::mul::lemma_mul_is_commutative(w, h);
}

/// A row-major index stays inside a `w` by `h` grid's buffer.
proof fn lemma_row_major_index_bounds(w: int, h: int, r: int, c: int)
    requires
        0 <= r < h,
        0 <= c < w,
    ensures
        0 <= r * w + c < w * h,
{
    assert(0 <= r * w + c < w * h) by (nonlinear_arith)
        requires
            0 <= r < h,
            0 <= c < w,
    ;
}

} // verus!
