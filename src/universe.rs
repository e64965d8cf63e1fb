//! The universe: a toroidal grid of cells, its rule tables, and the operations
//! that resize, seed and advance it.

use fixedbitset::FixedBitSet;
use vstd::arithmetic::div_mod::lemma_fundamental_div_mod_converse;
use vstd::prelude::*;

use crate::bits::{bit, bits_of, block_bit, blocks, cleared, duplicate, put_bit};
use crate::rules::{cell_at, neighbor_count, next_generation, rule_holds};

verus! {

/// Width and height of a newly made universe.
pub const DEFAULT_SIZE: u32 = 128;

/// Survival table of classic Life: a live cell with two or three live neighbours stays.
pub const CLASSIC_ALIVE_RULES: u16 = 12;

/// Birth table of classic Life: a dead cell with three live neighbours comes alive.
pub const CLASSIC_DEAD_RULES: u16 = 8;

/// What a universe holds, as mathematical values.
pub struct Board {
    pub width: nat,
    pub height: nat,
    pub alive_rules: u16,
    pub dead_rules: u16,
    /// One flag per cell, row-major: the cell at `(row, col)` is at `row * width + col`.
    pub cells: Seq<bool>,
}

/// A grid of `width * height` cells whose edges wrap around, with the two rule
/// tables that decide how it advances.
pub struct Universe {
    width: u32,
    height: u32,
    // bit k set: a live cell with k live neighbours stays alive
    alive_rules: u16,
    // bit k set: a dead cell with k live neighbours comes alive
    dead_rules: u16,
    cells: FixedBitSet,
}

impl View for Universe {
    type V = Board;

    closed spec fn view(&self) -> Board {
        Board {
            width: self.width as nat,
            height: self.height as nat,
            alive_rules: self.alive_rules,
            dead_rules: self.dead_rules,
            cells: bits_of(self.cells),
        }
    }
}

/// The row-major index of the cell at `(row, col)`.
pub open spec fn index_of(width: nat, row: nat, col: nat) -> nat {
    row * width + col
}

impl Universe {
    /// One flag per cell, and a cell count that fits a `u32`.
    pub open spec fn wf(&self) -> bool {
        &&& self@.cells.len() == self@.width * self@.height
        &&& self@.width * self@.height <= u32::MAX
    }

    /// The generation that follows this one.
    pub open spec fn next_cells(&self) -> Seq<bool> {
        next_generation(
            self@.cells,
            self@.width as int,
            self@.height as int,
            self@.alive_rules,
            self@.dead_rules,
        )
    }

    fn get_index(&self, row: u32, column: u32) -> (r: usize)
        requires
            self.wf(),
            row < self@.height,
            column < self@.width,
        ensures
            r == index_of(self@.width, row as nat, column as nat),
            r < self@.cells.len(),
    {
        let w = self.width;
        let h = self.height;
        assert(row * w + column < w * h) by (nonlinear_arith)
            requires
                row < h,
                column < w,
        ;
        (row * w + column) as usize
    }

    fn is_alive(&self, row: u32, column: u32) -> (r: bool)
        requires
            self.wf(),
            row < self@.height,
            column < self@.width,
        ensures
            r == cell_at(self@.cells, self@.width as int, row as int, column as int),
    {
        let idx = self.get_index(row, column);
        bit(&self.cells, idx)
    }

    /// The number of live cells among the eight around `(row, column)`, with wrap-around.
    fn live_neighbor_count(&self, row: u32, column: u32) -> (r: u8)
        requires
            self.wf(),
            row < self@.height,
            column < self@.width,
        ensures
            r == neighbor_count(
                self@.cells,
                self@.width as int,
                self@.height as int,
                row as int,
                column as int,
            ),
            r <= 8,
    {
        let h = self.height as u64;
        let w = self.width as u64;
        let up = ((row as u64 + h - 1) % h) as u32;
        let down = ((row as u64 + 1) % h) as u32;
        let left = ((column as u64 + w - 1) % w) as u32;
        let right = ((column as u64 + 1) % w) as u32;
        let mut count: u8 = 0;
        count += self.is_alive(up, left) as u8;
        count += self.is_alive(up, column) as u8;
        count += self.is_alive(up, right) as u8;
        count += self.is_alive(row, left) as u8;
        count += self.is_alive(row, right) as u8;
        count += self.is_alive(down, left) as u8;
        count += self.is_alive(down, column) as u8;
        count += self.is_alive(down, right) as u8;
        count
    }

    /// Whether a cell with `count` live neighbours is alive in the next generation.
    fn next_state(&self, alive: bool, count: u8) -> (r: bool)
        requires
            count <= 8,
        ensures
            r == crate::rules::next_cell(
                alive,
                count as nat,
                self@.alive_rules,
                self@.dead_rules,
            ),
    {
        let k = count as u16;
        if alive {
            (self.alive_rules >> k) & 1 != 0
        } else {
            (self.dead_rules >> k) & 1 != 0
        }
    }
}


impl Universe {
    /// Advances one generation. Every cell's next state is read from the rule
    /// table of its current state at its count of live neighbours, both taken
    /// from the grid as it was before the call.
    pub fn tick(&mut self)
        requires
            old(self).wf(),
        ensures
            final(self).wf(),
            final(self)@ == (Board { cells: old(self).next_cells(), ..old(self)@ }),
    {
        let ghost gen = self.next_cells();
        let ghost n = self@.cells.len();
        let mut next = duplicate(&self.cells);
        let mut row: u32 = 0;
        while row < self.height
            invariant
                self.wf(),
                self@ == old(self)@,
                gen == self.next_cells(),
                n == self@.cells.len(),
                row <= self@.height,
                row * self@.width <= n,
                bits_of(next).len() == n,
                forall|i: int| 0 <= i < row * self@.width ==> #[trigger] bits_of(next)[i] == gen[i],
            decreases self@.height - row,
        {
            assert((row + 1) * self@.width <= n) by (nonlinear_arith)
                requires
                    row < self@.height,
                    n == self@.width * self@.height,
            ;
            assert((row + 1) * self@.width == row * self@.width + self@.width) by (nonlinear_arith);
            let mut col: u32 = 0;
            while col < self.width
                invariant
                    self.wf(),
                    self@ == old(self)@,
                    gen == self.next_cells(),
                    n == self@.cells.len(),
                    row < self@.height,
                    col <= self@.width,
                    (row + 1) * self@.width <= n,
                    (row + 1) * self@.width == row * self@.width + self@.width,
                    bits_of(next).len() == n,
                    forall|i: int|
                        0 <= i < row * self@.width + col ==> #[trigger] bits_of(next)[i] == gen[i],
                decreases self@.width - col,
            {
                let idx = self.get_index(row, col);
                let cell = bit(&self.cells, idx);
                let live_neighbors = self.live_neighbor_count(row, col);
                let state = self.next_state(cell, live_neighbors);
                proof {
                    lemma_fundamental_div_mod_converse(
                        idx as int,
                        self@.width as int,
                        row as int,
                        col as int,
                    );
                }
                put_bit(&mut next, idx, state);
                col = col + 1;
            }
            row = row + 1;
        }
        assert(self@.height * self@.width == n) by (nonlinear_arith)
            requires
                n == self@.width * self@.height,
        ;
        assert(bits_of(next) =~= gen);
        self.cells = next;
    }
}


/// Whether some coordinate pair of `coords` names cell `i` of a grid of the given width.
pub open spec fn named(coords: Seq<(u32, u32)>, width: nat, i: int) -> bool {
    exists|k: int|
        0 <= k < coords.len() && #[trigger] index_of(width, coords[k].0 as nat, coords[k].1 as nat)
            == i
}

/// Survival and birth tables of classic Life, read bit by bit.
pub proof fn lemma_classic_rules(k: nat)
    requires
        k <= 8,
    ensures
        rule_holds(CLASSIC_ALIVE_RULES, k) <==> (k == 2 || k == 3),
        rule_holds(CLASSIC_DEAD_RULES, k) <==> k == 3,
{
    let b = k as u16;
    assert(b <= 8u16 ==> (((12u16 >> b) & 1u16 != 0u16) <==> (b == 2u16 || b == 3u16))) by (bit_vector);
    assert(b <= 8u16 ==> (((8u16 >> b) & 1u16 != 0u16) <==> b == 3u16)) by (bit_vector);
}

impl Universe {
    /// A universe of 128 by 128 dead cells under the rules of classic Life: a
    /// live cell with two or three live neighbours stays, a dead cell with three
    /// comes alive. The host seeds it with `initialise_cells`.
    pub fn new() -> (r: Universe)
        ensures
            r.wf(),
            r@.width == DEFAULT_SIZE,
            r@.height == DEFAULT_SIZE,
            r@.alive_rules == CLASSIC_ALIVE_RULES,
            r@.dead_rules == CLASSIC_DEAD_RULES,
            forall|k: nat| k <= 8 ==> (rule_holds(r@.alive_rules, k) <==> (k == 2 || k == 3)),
            forall|k: nat| k <= 8 ==> (rule_holds(r@.dead_rules, k) <==> k == 3),
            r@.cells == Seq::new((DEFAULT_SIZE * DEFAULT_SIZE) as nat, |i: int| false),
    {
        proof {
            assert forall|k: nat| k <= 8 implies (rule_holds(CLASSIC_ALIVE_RULES, k) <==> (k == 2
                || k == 3)) && (rule_holds(CLASSIC_DEAD_RULES, k) <==> k == 3) by {
                lemma_classic_rules(k);
            }
        }
        let width = DEFAULT_SIZE;
        let height = DEFAULT_SIZE;
        let size = (width * height) as usize;
        Universe {
            width,
            height,
            alive_rules: CLASSIC_ALIVE_RULES,
            dead_rules: CLASSIC_DEAD_RULES,
            cells: cleared(size),
        }
    }

    /// Replaces both rule tables. Bits above 8 are kept and never read.
    pub fn set_rules(&mut self, alive_rules: u16, dead_rules: u16)
        requires
            old(self).wf(),
        ensures
            final(self).wf(),
            final(self)@ == (Board { alive_rules, dead_rules, ..old(self)@ }),
    {
        self.alive_rules = alive_rules;
        self.dead_rules = dead_rules;
    }

    /// Sets the width and clears the grid: every one of the `width * height`
    /// cells is dead afterwards, whatever it held before.
    pub fn set_width(&mut self, width: u32)
        requires
            old(self).wf(),
            width * old(self)@.height <= u32::MAX,
        ensures
            final(self).wf(),
            final(self)@ == (Board {
                width: width as nat,
                cells: Seq::new(width as nat * old(self)@.height, |i: int| false),
                ..old(self)@
            }),
    {
        self.width = width;
        self.cells = dead_cells(width * self.height);
    }

    /// Sets the height and clears the grid: every one of the `width * height`
    /// cells is dead afterwards, whatever it held before.
    pub fn set_height(&mut self, height: u32)
        requires
            old(self).wf(),
            old(self)@.width * height <= u32::MAX,
        ensures
            final(self).wf(),
            final(self)@ == (Board {
                height: height as nat,
                cells: Seq::new(old(self)@.width * height as nat, |i: int| false),
                ..old(self)@
            }),
    {
        self.height = height;
        self.cells = dead_cells(self.width * height);
    }

    /// Reseeds every cell: cell `i` (row-major) becomes `alive[i]`. The host
    /// draws the flags, each alive with the density it chose.
    pub fn initialise_cells(&mut self, alive: &[bool])
        requires
            old(self).wf(),
            alive@.len() == old(self)@.cells.len(),
        ensures
            final(self).wf(),
            final(self)@ == (Board { cells: alive@, ..old(self)@ }),
    {
        let size = alive.len();
        let mut i: usize = 0;
        while i < size
            invariant
                size == alive@.len(),
                i <= size,
                self.wf(),
                self@ == (Board { cells: self@.cells, ..old(self)@ }),
                self@.cells.len() == size,
                forall|j: int| 0 <= j < i ==> #[trigger] self@.cells[j] == alive@[j],
            decreases size - i,
        {
            put_bit(&mut self.cells, i, alive[i]);
            i = i + 1;
        }
        assert(self@.cells =~= alive@);
    }

    /// Sets alive each cell named by a `(row, column)` pair; every other cell
    /// keeps its state.
    pub fn set_cells(&mut self, cells: &[(u32, u32)])
        requires
            old(self).wf(),
            forall|k: int|
                0 <= k < cells@.len() ==> #[trigger] cells@[k].0 < old(self)@.height && cells@[k].1
                    < old(self)@.width,
        ensures
            final(self).wf(),
            final(self)@ == (Board {
                cells: Seq::new(
                    old(self)@.cells.len(),
                    |i: int| old(self)@.cells[i] || named(cells@, old(self)@.width, i),
                ),
                ..old(self)@
            }),
    {
        let ghost before = self@.cells;
        let ghost w = self@.width;
        let mut k: usize = 0;
        while k < cells.len()
            invariant
                k <= cells@.len(),
                forall|j: int|
                    0 <= j < cells@.len() ==> #[trigger] cells@[j].0 < old(self)@.height
                        && cells@[j].1 < old(self)@.width,
                self.wf(),
                self@ == (Board { cells: self@.cells, ..old(self)@ }),
                before == old(self)@.cells,
                w == old(self)@.width,
                self@.cells == Seq::new(
                    before.len(),
                    |i: int| before[i] || named(cells@.take(k as int), w, i),
                ),
            decreases cells@.len() - k,
        {
            let (row, col) = cells[k];
            let idx = self.get_index(row, col);
            put_bit(&mut self.cells, idx, true);
            proof {
                let prev = cells@.take(k as int);
                let next = cells@.take(k + 1);
                assert forall|i: int| named(next, w, i) <==> named(prev, w, i) || i == idx by {
                    if named(next, w, i) {
                        let j = choose|j: int|
                            0 <= j < next.len() && #[trigger] index_of(
                                w,
                                next[j].0 as nat,
                                next[j].1 as nat,
                            ) == i;
                        if j < k {
                            assert(prev[j] == next[j]);
                        }
                    }
                    if named(prev, w, i) {
                        let j = choose|j: int|
                            0 <= j < prev.len() && #[trigger] index_of(
                                w,
                                prev[j].0 as nat,
                                prev[j].1 as nat,
                            ) == i;
                        assert(prev[j] == next[j]);
                    }
                    if i == idx {
                        assert(next[k as int] == cells@[k as int]);
                    }
                }
                assert(self@.cells =~= Seq::new(
                    before.len(),
                    |i: int| before[i] || named(next, w, i),
                ));
            }
            k = k + 1;
        }
        assert(cells@.take(cells@.len() as int) =~= cells@);
    }

    pub fn width(&self) -> (r: u32)
        ensures
            r == self@.width,
    {
        self.width
    }

    pub fn height(&self) -> (r: u32)
        ensures
            r == self@.height,
    {
        self.height
    }

    /// The cells as a bit set, one flag per cell in row-major order.
    pub fn get_cells(&self) -> (r: &FixedBitSet)
        ensures
            bits_of(*r) == self@.cells,
    {
        &self.cells
    }

    /// The cells packed into 32-bit words, row-major: cell `i` is bit `i % 32`
    /// of word `i / 32`.
    pub fn cells(&self) -> (r: &[u32])
        ensures
            r@.len() == (self@.cells.len() + 31) / 32,
            forall|i: int|
                0 <= i < self@.cells.len() ==> (#[trigger] self@.cells[i] <==> block_bit(
                    r@[i / 32],
                    (i % 32) as u32,
                )),
    {
        blocks(&self.cells)
    }
}

/// A buffer of `size` dead cells.
fn dead_cells(size: u32) -> (r: FixedBitSet)
    ensures
        bits_of(r) == Seq::new(size as nat, |i: int| false),
{
    let n = size as usize;
    let mut cells = cleared(n);
    let mut i: usize = 0;
    while i < n
        invariant
            i <= n,
            bits_of(cells) == Seq::new(n as nat, |j: int| false),
        decreases n - i,
    {
        put_bit(&mut cells, i, false);
        proof {
            assert(bits_of(cells) =~= Seq::new(n as nat, |j: int| false));
        }
        i = i + 1;
    }
    cells
}

} // verus!
