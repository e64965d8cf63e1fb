//! The mathematical model of one generation: neighbour counts on a torus and the
//! rule tables that decide each cell's next state.

use vstd::prelude::*;

verus! {

/// The flag of the cell at `(row, col)` in a row-major grid of the given width.
pub open spec fn cell_at(cells: Seq<bool>, width: int, row: int, col: int) -> bool {
    cells[row * width + col]
}

/// One for a live cell, zero for a dead one.
pub open spec fn count_of(alive: bool) -> nat {
    if alive {
        1
    } else {
        0
    }
}

/// The number of live cells among the eight around `(row, col)`, where rows and
/// columns wrap around. On a grid one cell wide or high some of the eight offsets
/// reach the same cell, and it is counted once for each.
pub open spec fn neighbor_count(cells: Seq<bool>, width: int, height: int, row: int, col: int) -> nat {
    let up = (row + height - 1) % height;
    let down = (row + 1) % height;
    let left = (col + width - 1) % width;
    let right = (col + 1) % width;
    count_of(cell_at(cells, width, up, left)) + count_of(cell_at(cells, width, up, col))
        + count_of(cell_at(cells, width, up, right)) + count_of(cell_at(cells, width, row, left))
        + count_of(cell_at(cells, width, row, right)) + count_of(cell_at(cells, width, down, left))
        + count_of(cell_at(cells, width, down, col)) + count_of(cell_at(cells, width, down, right))
}

/// Whether a rule table holds bit `count`: bit `k` stands for `k` live neighbours.
pub open spec fn rule_holds(rules: u16, count: nat) -> bool {
    (rules >> (count as u16)) & 1u16 != 0u16
}

/// The next state of one cell, from its state and its live neighbours: a live cell
/// reads the table `alive_rules`, a dead one the table `dead_rules`.
pub open spec fn next_cell(alive: bool, count: nat, alive_rules: u16, dead_rules: u16) -> bool {
    if alive {
        rule_holds(alive_rules, count)
    } else {
        rule_holds(dead_rules, count)
    }
}

/// The whole next generation: each cell from its own state and its neighbours'
/// states in `cells`, never from a cell already updated.
pub open spec fn next_generation(
    cells: Seq<bool>,
    width: int,
    height: int,
    alive_rules: u16,
    dead_rules: u16,
) -> Seq<bool> {
    Seq::new(
        (width * height) as nat,
        |i: int|
            next_cell(
                cells[i],
                neighbor_count(cells, width, height, i / width, i % width),
                alive_rules,
                dead_rules,
            ),
    )
}


/// With both rule tables empty, every cell is dead in the next generation,
/// whatever the grid held.
pub proof fn lemma_empty_rules_clear(cells: Seq<bool>, width: int, height: int)
    requires
        cells.len() == width * height,
    ensures
        next_generation(cells, width, height, 0, 0) == Seq::new(
            (width * height) as nat,
            |i: int| false,
        ),
{
    assert forall|k: u16| (0u16 >> k) & 1u16 == 0u16 by {
        assert((0u16 >> k) & 1u16 == 0u16) by (bit_vector);
    }
    assert(next_generation(cells, width, height, 0, 0) =~= Seq::new(
        (width * height) as nat,
        |i: int| false,
    ));
}

/// With bit 0 of the birth table set, a dead cell with no live neighbour comes
/// alive in the next generation.
pub proof fn lemma_birth_from_nothing(
    cells: Seq<bool>,
    width: int,
    height: int,
    alive_rules: u16,
    dead_rules: u16,
    i: int,
)
    requires
        cells.len() == width * height,
        dead_rules & 1u16 == 1u16,
        0 <= i < width * height,
        !cells[i],
        neighbor_count(cells, width, height, i / width, i % width) == 0,
    ensures
        next_generation(cells, width, height, alive_rules, dead_rules)[i],
{
    assert((dead_rules >> 0u16) & 1u16 != 0u16) by (bit_vector)
        requires
            dead_rules & 1u16 == 1u16,
    ;
}

} // verus!
