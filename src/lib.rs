//! Interactive applications for an 8x8 grid of keys with one LED under each key:
//! a menu that switches between a paint program and Conway's Game of Life,
//! driven one tick at a time.
use vstd::prelude::*;

pub mod gol;
pub mod menu;
pub mod paint;

verus! {

/// A key transition reported by the grid.
#[derive(Clone, Copy, Debug, PartialEq, Eq, Structural)]
pub enum Edge {
    /// The key went from released to pressed.
    Rising,
    /// The key went from pressed to released.
    Falling,
}

/// One key transition at the grid coordinate `(row, column)`.
#[derive(Clone, Copy, Debug, PartialEq, Eq)]
pub struct KeyEvent {
    pub coordinate: (u8, u8),
    pub edge: Edge,
}

/// An LED colour.
#[derive(Clone, Copy, Debug, PartialEq, Eq, Structural)]
pub struct Rgb {
    pub r: u8,
    pub g: u8,
    pub b: u8,
}

impl Rgb {
    pub fn rgb(r: u8, g: u8, b: u8) -> (c: Rgb)
        ensures
            c == (Rgb { r, g, b }),
    {
        Rgb { r, g, b }
    }
}

/// A colour wheel over a position byte: the three bands below 85, below 170
/// and above blend between the primaries. Within a band the rising channel
/// is `3 * pos` taken modulo 256 and the falling one its complement to 255.
pub open spec fn wheel_color(pos: u8) -> Rgb {
    let rising = ((pos * 3) % 256) as u8;
    let falling = (255 - rising) as u8;
    if pos < 85 {
        Rgb { r: rising, g: falling, b: 0 }
    } else if pos < 170 {
        Rgb { r: falling, g: 0, b: rising }
    } else {
        Rgb { r: 0, g: rising, b: falling }
    }
}

/// The colour of `pos` on the colour wheel.
pub fn wheel(pos: u8) -> (c: Rgb)
    ensures
        c == wheel_color(pos),
{
    let rising: u8 = ((pos as u16 * 3) % 256) as u8;
    let falling: u8 = 255 - rising;
    if pos < 85 {
        Rgb::rgb(rising, falling, 0)
    } else if pos < 170 {
        Rgb::rgb(falling, 0, rising)
    } else {
        Rgb::rgb(0, rising, falling)
    }
}

/// What a component shows: one optional colour per cell, indexed `[row][column]`;
/// `None` leaves the LED off.
pub type Frame = [[Option<Rgb>; 8]; 8];

/// What the driving loop hands to the components on each call.
pub struct Context {
    /// The tick counter; it never decreases between calls.
    pub timer: u32,
    /// Fresh bytes from the random source, one for each cell, row by row.
    pub random_bytes: [u8; 64],
}

/// The event names a cell of the grid, or there is no event.
pub open spec fn on_grid(event: Option<KeyEvent>) -> bool {
    match event {
        Some(e) => e.coordinate.0 < 8 && e.coordinate.1 < 8,
        None => true,
    }
}

/// The event is a key press at `(row, column)`.
pub open spec fn is_press_at(event: Option<KeyEvent>, row: u8, column: u8) -> bool {
    match event {
        Some(e) => e.coordinate == (row, column) && e.edge == Edge::Rising,
        None => false,
    }
}

/// An application that reacts to key events and shows its state on the grid.
pub trait Component {
    /// The internal invariant of the component.
    spec fn well_formed(&self) -> bool;

    /// The latest tick that the state has recorded.
    spec fn last_tick(&self) -> int;

    /// Handles one event, or a tick without one.
    fn update(&mut self, event: Option<KeyEvent>, context: &Context)
        requires
            old(self).well_formed(),
            old(self).last_tick() <= context.timer,
            on_grid(event),
        ensures
            final(self).well_formed(),
            final(self).last_tick() <= context.timer,
    ;

    /// The colours that show the current state.
    fn render(&self) -> (frame: Frame)
        requires
            self.well_formed(),
    ;
}

} // verus!
