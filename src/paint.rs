//! A paint program: each press on a cell moves its counter one step round
//! 0, 1, 2, 3, and each counter value shows as its own colour.
use vstd::prelude::*;

use crate::{is_press_at, Component, Context, Frame, KeyEvent, Rgb};

verus! {

/// The counter value that follows `step`.
pub open spec fn next_step(step: u8) -> u8 {
    if step == 3 {
        0
    } else {
        (step + 1) as u8
    }
}

/// How a counter value is shown: 0 off, 1 red, 2 green, 3 blue.
pub open spec fn step_color(step: u8) -> Option<Rgb> {
    if step == 1 {
        Some(Rgb { r: 125, g: 0, b: 0 })
    } else if step == 2 {
        Some(Rgb { r: 0, g: 125, b: 0 })
    } else if step == 3 {
        Some(Rgb { r: 0, g: 0, b: 125 })
    } else {
        None
    }
}

/// One counter per cell, indexed `[row][column]`.
pub struct PaintComponent {
    steps: [[u8; 8]; 8],
}

impl PaintComponent {
    /// The counter of each cell.
    pub closed spec fn counters(&self) -> [[u8; 8]; 8] {
        self.steps
    }

    /// `self` is what `event` leaves of `prev`: a press moves the counter of
    /// its cell on, every other counter stays.
    pub open spec fn painted(&self, prev: PaintComponent, event: Option<KeyEvent>) -> bool {
        forall|row: int, column: int|
            0 <= row < 8 && 0 <= column < 8 ==> #[trigger] self.counters()[row][column] == if is_press_at(
                event,
                row as u8,
                column as u8,
            ) {
                next_step(prev.counters()[row][column])
            } else {
                prev.counters()[row][column]
            }
    }

    /// A blank canvas: every counter 0.
    pub fn new() -> (p: PaintComponent)
        ensures
            p.well_formed(),
            forall|row: int, column: int|
                0 <= row < 8 && 0 <= column < 8 ==> #[trigger] p.counters()[row][column] == 0,
    {
        PaintComponent { steps: [[0; 8]; 8] }
    }
}

/// Four presses on the same cell bring every counter back to where it was:
/// a counter runs 0, 1, 2, 3 and then 0 again.
pub proof fn lemma_four_presses_cycle(
    p0: PaintComponent,
    p1: PaintComponent,
    p2: PaintComponent,
    p3: PaintComponent,
    p4: PaintComponent,
    event: Option<KeyEvent>,
)
    requires
        p0.well_formed(),
        p1.painted(p0, event),
        p2.painted(p1, event),
        p3.painted(p2, event),
        p4.painted(p3, event),
    ensures
        p4.counters() == p0.counters(),
{
    assert forall|row: int| 0 <= row < 8 implies p4.counters()[row] == p0.counters()[row] by {
        assert forall|column: int| 0 <= column < 8 implies p4.counters()[row][column]
            == p0.counters()[row][column] by {
            assert(p1.counters()[row][column] == p1.counters()[row][column]);
            assert(p2.counters()[row][column] == p2.counters()[row][column]);
            assert(p3.counters()[row][column] == p3.counters()[row][column]);
        }
        assert(p4.counters()[row] =~= p0.counters()[row]);
    }
    assert(p4.counters() =~= p0.counters());
}

impl Component for PaintComponent {
    open spec fn well_formed(&self) -> bool {
        forall|row: int, column: int|
            0 <= row < 8 && 0 <= column < 8 ==> #[trigger] self.counters()[row][column] < 4
    }

    open spec fn last_tick(&self) -> int {
        0
    }

    /// A press moves the counter of its cell on; nothing else changes.
    fn update(&mut self, event: Option<KeyEvent>, _context: &Context)
        ensures
            final(self).painted(*old(self), event),
    {
        if let Some(KeyEvent { coordinate: (x, y), edge: crate::Edge::Rising }) = event {
            let xi: usize = x as usize;
            let yi: usize = y as usize;
            assert(old(self).counters()[xi as int][yi as int] < 4);
            let mut row = self.steps[xi];
            if row[yi] == 3 {
                row[yi] = 0;
            } else {
                row[yi] = row[yi] + 1;
            }
            self.steps[xi] = row;
        }
    }

    /// Each cell in the colour of its counter.
    fn render(&self) -> (colors: Frame)
        ensures
            forall|row: int, column: int|
                0 <= row < 8 && 0 <= column < 8 ==> #[trigger] colors[row][column] == step_color(
                    self.counters()[row][column],
                ),
    {
        let mut colors: Frame = [[None; 8]; 8];
        let mut x: usize = 0;
        while x < 8
            invariant
                x <= 8,
                forall|row: int, column: int|
                    0 <= row < x && 0 <= column < 8 ==> #[trigger] colors[row][column]
                        == step_color(self.steps[row][column]),
            decreases 8 - x,
        {
            let mut y: usize = 0;
            while y < 8
                invariant
                    x < 8,
                    y <= 8,
                    forall|row: int, column: int|
                        0 <= row < x && 0 <= column < 8 ==> #[trigger] colors[row][column]
                            == step_color(self.steps[row][column]),
                    forall|column: int|
                        0 <= column < y ==> #[trigger] colors[x as int][column] == step_color(
                            self.steps[x as int][column],
                        ),
                decreases 8 - y,
            {
                match self.steps[x][y] {
                    1 => colors[x][y] = Some(Rgb::rgb(125, 0, 0)),
                    2 => colors[x][y] = Some(Rgb::rgb(0, 125, 0)),
                    3 => colors[x][y] = Some(Rgb::rgb(0, 0, 125)),
                    _ => colors[x][y] = None,
                }
                y += 1;
            }
            x += 1;
        }
        colors
    }
}

} // verus!
