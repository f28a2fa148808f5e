//! Conway's Game of Life on an 8x8 torus, stepped at most once every
//! `STEP_INTERVAL` ticks.
use vstd::prelude::*;

use crate::{Component, Context, Frame, KeyEvent, Rgb};

verus! {

/// The least number of ticks between two generations.
pub const STEP_INTERVAL: u32 = 10;

/// The state of one cell.
#[derive(Clone, Copy, Debug, PartialEq, Eq, Structural)]
pub enum Cell {
    Dead,
    Alive,
}

/// One generation, indexed `[row][column]`.
pub type Generation = [[Cell; 8]; 8];

/// The cell that a random byte seeds: the lower half of the byte range gives
/// `Alive`, the upper half `Dead`.
pub open spec fn cell_of_byte(byte: u8) -> Cell {
    if byte > 127 {
        Cell::Dead
    } else {
        Cell::Alive
    }
}

/// 1 when the cell at `(row, column)`, both taken modulo 8, is alive; else 0.
pub open spec fn alive_at(g: Generation, row: int, column: int) -> int {
    if g[row % 8][column % 8] == Cell::Alive {
        1
    } else {
        0
    }
}

/// The number of live cells among the eight around `(row, column)`, where the
/// grid wraps around at its edges.
pub open spec fn neighbour_count(g: Generation, row: int, column: int) -> int {
    alive_at(g, row - 1, column - 1) + alive_at(g, row - 1, column) + alive_at(g, row - 1, column + 1)
        + alive_at(g, row, column - 1) + alive_at(g, row, column + 1)
        + alive_at(g, row + 1, column - 1) + alive_at(g, row + 1, column) + alive_at(g, row + 1, column + 1)
}

/// Conway's rule: a live cell survives with two or three live neighbours, a
/// dead cell comes alive with exactly three, every other cell is dead next.
pub open spec fn next_cell(cell: Cell, neighbours: int) -> Cell {
    match cell {
        Cell::Alive => if neighbours < 2 {
            Cell::Dead
        } else if neighbours <= 3 {
            Cell::Alive
        } else {
            Cell::Dead
        },
        Cell::Dead => if neighbours == 3 {
            Cell::Alive
        } else {
            Cell::Dead
        },
    }
}

/// `next` is the generation that follows `g`.
#[verifier::opaque]
pub open spec fn is_next_generation(g: Generation, next: Generation) -> bool {
    forall|row: int, column: int|
        0 <= row < 8 && 0 <= column < 8 ==> #[trigger] next[row][column] == next_cell(
            g[row][column],
            neighbour_count(g, row, column),
        )
}

/// The colour of a live cell.
pub open spec fn life_color() -> Rgb {
    Rgb { r: 12, g: 12, b: 12 }
}

/// How a cell is shown: a live cell lit, a dead one off.
pub open spec fn cell_color(cell: Cell) -> Option<Rgb> {
    match cell {
        Cell::Alive => Some(life_color()),
        Cell::Dead => None,
    }
}

/// Each cell of `g` is alive exactly when it lies in the 2x2 block whose top
/// left corner is `(row, column)`, the block wrapping round the edges.
pub open spec fn is_lone_block(g: Generation, row: int, column: int) -> bool {
    forall|i: int, j: int|
        0 <= i < 8 && 0 <= j < 8 ==> #[trigger] g[i][j] == if (i - row) % 8 < 2 && (j - column) % 8
            < 2 {
            Cell::Alive
        } else {
            Cell::Dead
        }
}

/// Stepping is deterministic: two generations that both follow `g` are equal.
pub proof fn lemma_next_generation_unique(g: Generation, h1: Generation, h2: Generation)
    requires
        is_next_generation(g, h1),
        is_next_generation(g, h2),
    ensures
        h1 == h2,
{
    reveal(is_next_generation);
    assert forall|row: int| 0 <= row < 8 implies h1[row] == h2[row] by {
        assert(h1[row] =~= h2[row]);
    }
    assert(h1 =~= h2);
}

/// Two updates of the same game at the same tick leave the same generation
/// and the same step clock.
pub proof fn lemma_update_deterministic(prev: GoL, a: GoL, b: GoL, timer: u32)
    requires
        a.follows(prev, timer),
        b.follows(prev, timer),
    ensures
        a.cells() == b.cells(),
        a.last_step() == b.last_step(),
{
    if timer - prev.last_step() >= STEP_INTERVAL {
        lemma_next_generation_unique(prev.cells(), a.cells(), b.cells());
    }
}

/// Updates within `STEP_INTERVAL` ticks of the last step leave the game as it
/// is, however many of them come.
pub proof fn lemma_rate_limited(runs: Seq<GoL>, ticks: Seq<u32>)
    requires
        runs.len() == ticks.len() + 1,
        forall|k: int| 0 <= k < ticks.len() ==> (#[trigger] runs[k + 1]).follows(runs[k], ticks[k]),
        forall|k: int| 0 <= k < ticks.len() ==> #[trigger] ticks[k] - runs[0].last_step() < STEP_INTERVAL,
    ensures
        forall|k: int| 0 <= k < runs.len() ==> #[trigger] runs[k] == runs[0],
    decreases ticks.len(),
{
    if ticks.len() > 0 {
        let last = ticks.len() - 1;
        let shorter = runs.drop_last();
        let earlier = ticks.drop_last();
        assert forall|k: int| 0 <= k < earlier.len() implies (#[trigger] shorter[k + 1]).follows(
            shorter[k],
            earlier[k],
        ) by {
            assert(shorter[k + 1] == runs[k + 1] && shorter[k] == runs[k] && earlier[k] == ticks[k]);
        }
        assert forall|k: int| 0 <= k < earlier.len() implies #[trigger] earlier[k] - shorter[0].last_step()
            < STEP_INTERVAL by {
            assert(earlier[k] == ticks[k]);
        }
        lemma_rate_limited(shorter, earlier);
        assert(runs[last] == shorter[last]);
        assert(runs[last + 1].follows(runs[last], ticks[last]));
        assert forall|k: int| 0 <= k < runs.len() implies #[trigger] runs[k] == runs[0] by {
            if k <= last {
                assert(shorter[k] == runs[k]);
            }
        }
    }
}

/// The grid is a torus: the neighbours of the corner `(0, 0)` include the
/// cells in the last row and the last column.
pub proof fn lemma_corner_neighbours(g: Generation)
    ensures
        neighbour_count(g, 0, 0) == alive_at(g, 7, 7) + alive_at(g, 7, 0) + alive_at(g, 7, 1)
            + alive_at(g, 0, 7) + alive_at(g, 0, 1) + alive_at(g, 1, 7) + alive_at(g, 1, 0)
            + alive_at(g, 1, 1),
{
}

/// A live cell with no live neighbour dies.
pub proof fn lemma_isolated_cell_dies(g: Generation, next: Generation, row: int, column: int)
    requires
        is_next_generation(g, next),
        0 <= row < 8,
        0 <= column < 8,
        g[row][column] == Cell::Alive,
        neighbour_count(g, row, column) == 0,
    ensures
        next[row][column] == Cell::Dead,
{
    reveal(is_next_generation);
}

/// A dead cell comes alive with exactly three live neighbours, and stays dead
/// with two or four.
pub proof fn lemma_birth(g: Generation, next: Generation, row: int, column: int)
    requires
        is_next_generation(g, next),
        0 <= row < 8,
        0 <= column < 8,
        g[row][column] == Cell::Dead,
    ensures
        neighbour_count(g, row, column) == 3 ==> next[row][column] == Cell::Alive,
        neighbour_count(g, row, column) == 2 ==> next[row][column] == Cell::Dead,
        neighbour_count(g, row, column) == 4 ==> next[row][column] == Cell::Dead,
{
    reveal(is_next_generation);
}

/// Shifting a wrapped index wraps its offset from `origin` by as much.
proof fn lemma_wrapped_offset(i: int, shift: int, origin: int)
    ensures
        ((i + shift) % 8 - origin) % 8 == ((i - origin) % 8 + shift) % 8,
{
    vstd::arithmetic::div_mod::lemma_sub_mod_noop_right(i + shift, origin, 8);
    vstd::arithmetic::div_mod::lemma_add_mod_noop_right(shift, i - origin, 8);
}

/// Whether a neighbour of `(i, j)` in a lone block is alive depends only on
/// its offsets from the corner of the block.
proof fn lemma_lone_block_cell(g: Generation, row: int, column: int, i: int, j: int, a: int, b: int)
    requires
        is_lone_block(g, row, column),
    ensures
        alive_at(g, i + a, j + b) == if ((i - row) % 8 + a) % 8 < 2 && ((j - column) % 8 + b) % 8
            < 2 {
            1int
        } else {
            0int
        },
{
    lemma_wrapped_offset(i, a, row);
    lemma_wrapped_offset(j, b, column);
    assert(0 <= (i + a) % 8 < 8 && 0 <= (j + b) % 8 < 8);
}

/// Of the offsets `d - 1` and `d + 1` from a wrapped offset `d`, one falls in
/// the band `{0, 1}` when `d` does, at most one when it does not.
proof fn lemma_band(d: int)
    requires
        0 <= d < 8,
    ensures
        d < 2 ==> ((d - 1) % 8 < 2) != ((d + 1) % 8 < 2),
        d >= 2 ==> !((d - 1) % 8 < 2 && (d + 1) % 8 < 2),
{
}

/// In a lone block, a cell of the block has three live neighbours and any
/// other cell at most two.
proof fn lemma_lone_block_neighbours(g: Generation, row: int, column: int, i: int, j: int)
    requires
        is_lone_block(g, row, column),
        0 <= i < 8,
        0 <= j < 8,
    ensures
        (i - row) % 8 < 2 && (j - column) % 8 < 2 ==> neighbour_count(g, i, j) == 3,
        !((i - row) % 8 < 2 && (j - column) % 8 < 2) ==> neighbour_count(g, i, j) <= 2,
{
    let di = (i - row) % 8;
    let dj = (j - column) % 8;
    lemma_band(di);
    lemma_band(dj);
    lemma_lone_block_cell(g, row, column, i, j, -1, -1);
    lemma_lone_block_cell(g, row, column, i, j, -1, 0);
    lemma_lone_block_cell(g, row, column, i, j, -1, 1);
    lemma_lone_block_cell(g, row, column, i, j, 0, -1);
    lemma_lone_block_cell(g, row, column, i, j, 0, 1);
    lemma_lone_block_cell(g, row, column, i, j, 1, -1);
    lemma_lone_block_cell(g, row, column, i, j, 1, 0);
    lemma_lone_block_cell(g, row, column, i, j, 1, 1);
    let up = (di - 1) % 8 < 2;
    let down = (di + 1) % 8 < 2;
    let left = (dj - 1) % 8 < 2;
    let right = (dj + 1) % 8 < 2;
    assert(di % 8 == di && dj % 8 == dj);
    assert(neighbour_count(g, i, j) == (if up && left { 1int } else { 0 }) + (if up && dj < 2 { 1int } else { 0 })
        + (if up && right { 1int } else { 0 }) + (if di < 2 && left { 1int } else { 0 })
        + (if di < 2 && right { 1int } else { 0 }) + (if down && left { 1int } else { 0 })
        + (if down && dj < 2 { 1int } else { 0 }) + (if down && right { 1int } else { 0 }));
}

/// A lone 2x2 block is a still life: the generation that follows it is the
/// same.
pub proof fn lemma_lone_block_still(g: Generation, next: Generation, row: int, column: int)
    requires
        is_lone_block(g, row, column),
        is_next_generation(g, next),
    ensures
        next == g,
{
    reveal(is_next_generation);
    assert forall|i: int| 0 <= i < 8 implies next[i] == g[i] by {
        assert forall|j: int| 0 <= j < 8 implies next[i][j] == g[i][j] by {
            lemma_lone_block_neighbours(g, row, column, i, j);
        }
        assert(next[i] =~= g[i]);
    }
    assert(next =~= g);
}

/// A lone 2x2 block stays as it is however many steps follow.
pub proof fn lemma_lone_block_stays(runs: Seq<Generation>, row: int, column: int)
    requires
        runs.len() > 0,
        is_lone_block(runs[0], row, column),
        forall|k: int| 0 <= k < runs.len() - 1 ==> is_next_generation(#[trigger] runs[k], runs[k + 1]),
    ensures
        forall|k: int| 0 <= k < runs.len() ==> #[trigger] runs[k] == runs[0],
    decreases runs.len(),
{
    if runs.len() > 1 {
        let last = runs.len() - 1;
        let shorter = runs.drop_last();
        assert forall|k: int| 0 <= k < shorter.len() - 1 implies is_next_generation(
            #[trigger] shorter[k],
            shorter[k + 1],
        ) by {
            assert(shorter[k] == runs[k] && shorter[k + 1] == runs[k + 1]);
        }
        lemma_lone_block_stays(shorter, row, column);
        assert(runs[last - 1] == runs[0]) by {
            assert(shorter[last - 1] == runs[last - 1]);
        }
        assert(is_next_generation(runs[last - 1], runs[last]));
        lemma_lone_block_still(runs[last - 1], runs[last], row, column);
        assert forall|k: int| 0 <= k < runs.len() implies #[trigger] runs[k] == runs[0] by {
            if k < last {
                assert(shorter[k] == runs[k]);
            }
        }
    }
}

/// The seed cell from a random byte.
fn random_cell(byte: u8) -> (cell: Cell)
    ensures
        cell == cell_of_byte(byte),
{
    if byte > 255 / 2 {
        Cell::Dead
    } else {
        Cell::Alive
    }
}

/// A Game of Life: the current generation, a scratch buffer that the next one
/// is computed into, and the tick of the last step.
pub struct GoL {
    generation: Generation,
    new_generation: Generation,
    stop_watch: u32,
}

impl GoL {
    /// The current generation.
    pub closed spec fn cells(&self) -> Generation {
        self.generation
    }

    /// The tick at which the game was seeded or last stepped.
    pub closed spec fn last_step(&self) -> u32 {
        self.stop_watch
    }

    /// The game was seeded from `context`: each cell from the random byte at
    /// its place, the step clock from the tick counter.
    pub open spec fn seeded_from(&self, context: Context) -> bool {
        &&& forall|row: int, column: int|
            0 <= row < 8 && 0 <= column < 8 ==> #[trigger] self.cells()[row][column] == cell_of_byte(
                context.random_bytes[row * 8 + column],
            )
        &&& self.last_step() == context.timer
    }

    /// `self` is what an update of `prev` at tick `timer` leaves: `prev`
    /// unchanged while fewer than `STEP_INTERVAL` ticks have passed since its
    /// last step, else the next generation, stepped at `timer`.
    pub open spec fn follows(&self, prev: GoL, timer: u32) -> bool {
        if timer - prev.last_step() < STEP_INTERVAL {
            *self == prev
        } else {
            is_next_generation(prev.cells(), self.cells()) && self.last_step() == timer
        }
    }

    /// A game seeded from the random bytes of `context`, one byte per cell.
    pub fn new(context: &Context) -> (game: GoL)
        ensures
            game.seeded_from(*context),
    {
        let mut generation: Generation = [[Cell::Dead; 8]; 8];
        let mut x: usize = 0;
        while x < 8
            invariant
                x <= 8,
                forall|row: int, column: int|
                    0 <= row < x && 0 <= column < 8 ==> #[trigger] generation[row][column]
                        == cell_of_byte(context.random_bytes[row * 8 + column]),
            decreases 8 - x,
        {
            let mut y: usize = 0;
            while y < 8
                invariant
                    x < 8,
                    y <= 8,
                    forall|row: int, column: int|
                        0 <= row < x && 0 <= column < 8 ==> #[trigger] generation[row][column]
                            == cell_of_byte(context.random_bytes[row * 8 + column]),
                    forall|column: int|
                        0 <= column < y ==> #[trigger] generation[x as int][column]
                            == cell_of_byte(context.random_bytes[x * 8 + column]),
                decreases 8 - y,
            {
                generation[x][y] = random_cell(context.random_bytes[x * 8 + y]);
                y += 1;
            }
            x += 1;
        }
        GoL { generation, new_generation: generation, stop_watch: context.timer }
    }

    /// 1 when the cell at `(row, column)` is alive, else 0.
    fn alive(&self, row: u8, column: u8) -> (n: u8)
        requires
            row < 8,
            column < 8,
        ensures
            n == alive_at(self.generation, row as int, column as int),
    {
        match self.generation[row as usize][column as usize] {
            Cell::Dead => 0,
            Cell::Alive => 1,
        }
    }

    /// The number of live neighbours of `(row, column)` on the torus.
    pub fn live_neighbour_count(&self, row: u8, column: u8) -> (count: u8)
        requires
            row < 8,
            column < 8,
        ensures
            count == neighbour_count(self.cells(), row as int, column as int),
    {
        let up: u8 = (row + 7) % 8;
        let down: u8 = (row + 1) % 8;
        let left: u8 = (column + 7) % 8;
        let right: u8 = (column + 1) % 8;
        assert(up as int == (row - 1) % 8 && down as int == (row + 1) % 8);
        assert(left as int == (column - 1) % 8 && right as int == (column + 1) % 8);
        assert(row as int == row % 8 && column as int == column % 8);
        let g = &self.generation;
        assert(alive_at(*g, row - 1, column - 1) == alive_at(*g, up as int, left as int));
        assert(alive_at(*g, row - 1, column as int) == alive_at(*g, up as int, column as int));
        assert(alive_at(*g, row - 1, column + 1) == alive_at(*g, up as int, right as int));
        assert(alive_at(*g, row as int, column - 1) == alive_at(*g, row as int, left as int));
        assert(alive_at(*g, row as int, column + 1) == alive_at(*g, row as int, right as int));
        assert(alive_at(*g, row + 1, column - 1) == alive_at(*g, down as int, left as int));
        assert(alive_at(*g, row + 1, column as int) == alive_at(*g, down as int, column as int));
        assert(alive_at(*g, row + 1, column + 1) == alive_at(*g, down as int, right as int));
        self.alive(up, left) + self.alive(up, column) + self.alive(up, right)
            + self.alive(row, left) + self.alive(row, right)
            + self.alive(down, left) + self.alive(down, column) + self.alive(down, right)
    }
}

impl Component for GoL {
    open spec fn well_formed(&self) -> bool {
        true
    }

    open spec fn last_tick(&self) -> int {
        self.last_step() as int
    }

    /// Steps to the next generation when at least `STEP_INTERVAL` ticks have
    /// passed since the last step; the event itself is not read.
    fn update(&mut self, _event: Option<KeyEvent>, context: &Context)
        ensures
            final(self).follows(*old(self), context.timer),
    {
        if context.timer - self.stop_watch < STEP_INTERVAL {
            return ;
        }
        let mut x: usize = 0;
        while x < 8
            invariant
                x <= 8,
                self.generation == old(self).generation,
                forall|row: int, column: int|
                    0 <= row < x && 0 <= column < 8 ==> #[trigger] self.new_generation[row][column]
                        == next_cell(
                        self.generation[row][column],
                        neighbour_count(self.generation, row, column),
                    ),
            decreases 8 - x,
        {
            let mut y: usize = 0;
            while y < 8
                invariant
                    x < 8,
                    y <= 8,
                    self.generation == old(self).generation,
                    forall|row: int, column: int|
                        0 <= row < x && 0 <= column < 8 ==> #[trigger] self.new_generation[row][column]
                            == next_cell(
                            self.generation[row][column],
                            neighbour_count(self.generation, row, column),
                        ),
                    forall|column: int|
                        0 <= column < y ==> #[trigger] self.new_generation[x as int][column]
                            == next_cell(
                            self.generation[x as int][column],
                            neighbour_count(self.generation, x as int, column),
                        ),
                decreases 8 - y,
            {
                let old_cell = self.generation[x][y];
                let live_neighbours = self.live_neighbour_count(x as u8, y as u8);
                let next_cell = match (old_cell, live_neighbours) {
                    (Cell::Alive, n) if n < 2 => Cell::Dead,
                    (Cell::Alive, 2) | (Cell::Alive, 3) => Cell::Alive,
                    (Cell::Alive, _) => Cell::Dead,
                    (Cell::Dead, 3) => Cell::Alive,
                    (Cell::Dead, _) => Cell::Dead,
                };
                self.new_generation[x][y] = next_cell;
                y += 1;
            }
            x += 1;
        }
        proof {
            reveal(is_next_generation);
        }
        self.generation = self.new_generation;
        self.stop_watch = context.timer;
    }

    /// Live cells lit, dead cells off.
    fn render(&self) -> (colors: Frame)
        ensures
            forall|row: int, column: int|
                0 <= row < 8 && 0 <= column < 8 ==> #[trigger] colors[row][column] == cell_color(
                    self.cells()[row][column],
                ),
    {
        let mut colors: Frame = [[None; 8]; 8];
        let mut x: usize = 0;
        while x < 8
            invariant
                x <= 8,
                forall|row: int, column: int|
                    0 <= row < x && 0 <= column < 8 ==> #[trigger] colors[row][column]
                        == cell_color(self.generation[row][column]),
            decreases 8 - x,
        {
            let mut y: usize = 0;
            while y < 8
                invariant
                    x < 8,
                    y <= 8,
                    forall|row: int, column: int|
                        0 <= row < x && 0 <= column < 8 ==> #[trigger] colors[row][column]
                            == cell_color(self.generation[row][column]),
                    forall|column: int|
                        0 <= column < y ==> #[trigger] colors[x as int][column] == cell_color(
                            self.generation[x as int][column],
                        ),
                decreases 8 - y,
            {
                match self.generation[x][y] {
                    Cell::Dead => colors[x][y] = None,
                    Cell::Alive => colors[x][y] = Some(Rgb::rgb(12, 12, 12)),
                }
                y += 1;
            }
            x += 1;
        }
        colors
    }
}

} // verus!
