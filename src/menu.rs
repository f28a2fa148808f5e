//! The menu: it owns the applications, routes key events to the active one,
//! and returns to its own screen on three quick presses of the home key
//! `(0, 0)`. On the menu's screen the key `(1, 2)` opens the paint program
//! and `(1, 3)` a new Game of Life.
use vstd::prelude::*;

use crate::gol::{cell_color, GoL};
use crate::paint::{step_color, PaintComponent};
use crate::{is_press_at, Component, Context, Edge, Frame, KeyEvent, Rgb};

verus! {

/// Three home-key presses spanning fewer ticks than this leave the active application.
pub const EXIT_WINDOW: u32 = 20;

/// The number of home-key presses that are weighed as one exit gesture.
pub const EXIT_PRESSES: u8 = 3;

/// The applications that the menu offers.
#[derive(Clone, Copy, Debug, PartialEq, Eq, Structural)]
pub enum Selected {
    Paint,
    GameOfLife,
}

/// The ticks of the home-key presses since the last gesture was weighed,
/// newest first; unused slots hold `u32::MAX`.
struct Exit {
    exit_presses: [u32; 3],
    count: u8,
}

impl Exit {
    pub closed spec fn recorded(&self) -> Seq<u32> {
        self.exit_presses@.take(self.count as int)
    }

    pub closed spec fn well_formed(&self) -> bool {
        &&& self.count < EXIT_PRESSES
        &&& forall|i: int| self.count <= i < 3 ==> #[trigger] self.exit_presses[i] == u32::MAX
        &&& self.count == 2 ==> self.exit_presses[1] <= self.exit_presses[0]
    }

    /// Records a press at tick `timer` as the newest.
    fn record(&mut self, timer: u32)
        requires
            old(self).well_formed(),
            old(self).count > 0 ==> old(self).exit_presses[0] <= timer,
        ensures
            final(self).count == old(self).count + 1,
            final(self).recorded() == seq![timer] + old(self).recorded(),
            final(self).exit_presses[0] == timer,
            final(self).count == 3 ==> final(self).exit_presses[2] <= final(self).exit_presses[1]
                <= final(self).exit_presses[0],
            final(self).count < 3 ==> final(self).well_formed(),
    {
        self.count = self.count + 1;
        self.exit_presses = [timer, self.exit_presses[0], self.exit_presses[1]];
        assert(self.recorded() =~= seq![timer] + old(self).recorded());
    }
}

impl Default for Exit {
    fn default() -> (e: Exit)
        ensures
            e.well_formed(),
            e.recorded() == Seq::<u32>::empty(),
    {
        Exit { exit_presses: [u32::MAX; 3], count: 0 }
    }
}

/// The menu state: the active application, if any, the registry of both
/// applications, and the pending home-key presses.
pub struct MenuComponent {
    exit: Exit,
    current_component: Option<Selected>,
    paint: PaintComponent,
    gol: GoL,
}

/// The home-key presses, newest first, once `event` at tick `timer` is
/// recorded (before a gesture is weighed).
pub open spec fn window_after(
    presses: Seq<u32>,
    event: Option<KeyEvent>,
    timer: u32,
) -> Seq<u32> {
    if is_press_at(event, 0, 0) {
        seq![timer] + presses
    } else {
        presses
    }
}

/// The application selected once `event` is routed, before a gesture is
/// weighed: a selector key chooses only while none is active.
pub open spec fn choice_after(active: Option<Selected>, event: Option<KeyEvent>) -> Option<Selected> {
    if is_press_at(event, 0, 0) {
        active
    } else if active is None && is_press_at(event, 1, 2) {
        Some(Selected::Paint)
    } else if active is None && is_press_at(event, 1, 3) {
        Some(Selected::GameOfLife)
    } else {
        active
    }
}

/// The event goes on to the active application `app`.
pub open spec fn forwards_to(
    active: Option<Selected>,
    event: Option<KeyEvent>,
    app: Selected,
) -> bool {
    !is_press_at(event, 0, 0) && active == Some(app)
}

/// Three recorded presses close a gesture; it succeeds when the newest and
/// the oldest lie fewer than `EXIT_WINDOW` ticks apart.
pub open spec fn gesture_succeeds(window: Seq<u32>) -> bool {
    window.len() == 3 && window[0] - window[2] < EXIT_WINDOW
}

/// The menu's own screen: the Paint selector blue, the Game of Life selector
/// green, every other cell off.
pub open spec fn menu_color(row: int, column: int) -> Option<Rgb> {
    if row == 1 && column == 2 {
        Some(Rgb { r: 0, g: 0, b: 255 })
    } else if row == 1 && column == 3 {
        Some(Rgb { r: 0, g: 255, b: 0 })
    } else {
        None
    }
}

impl MenuComponent {
    /// The active application, if any.
    pub closed spec fn active(&self) -> Option<Selected> {
        self.current_component
    }

    /// The home-key presses since the last gesture was weighed, newest first.
    pub closed spec fn presses(&self) -> Seq<u32> {
        self.exit.recorded()
    }

    /// The paint program of the registry.
    pub closed spec fn paint(&self) -> PaintComponent {
        self.paint
    }

    /// The Game of Life of the registry.
    pub closed spec fn game(&self) -> GoL {
        self.gol
    }

    /// The pending presses are well formed and the canvas holds counters
    /// below 4.
    pub closed spec fn inv(&self) -> bool {
        self.exit.well_formed() && self.paint.well_formed()
    }

    /// The colour of `(row, column)` on the screen of the active
    /// application, or on the menu's own.
    pub open spec fn shown(&self, row: int, column: int) -> Option<Rgb> {
        match self.active() {
            Some(Selected::Paint) => step_color(self.paint().counters()[row][column]),
            Some(Selected::GameOfLife) => cell_color(self.game().cells()[row][column]),
            None => menu_color(row, column),
        }
    }

    /// The menu screen with no application active, a blank canvas, and a
    /// game seeded from `context`.
    pub fn new(context: &Context) -> (menu: MenuComponent)
        ensures
            menu.well_formed(),
            menu.active() is None,
            menu.presses() == Seq::<u32>::empty(),
            menu.game().seeded_from(*context),
            forall|row: int, column: int|
                0 <= row < 8 && 0 <= column < 8 ==> #[trigger] menu.paint().counters()[row][column] == 0,
    {
        let paint = PaintComponent::new();
        let gol = GoL::new(context);
        MenuComponent { current_component: None, exit: Exit::default(), paint, gol }
    }
}

impl Component for MenuComponent {
    open spec fn well_formed(&self) -> bool {
        self.inv()
    }

    open spec fn last_tick(&self) -> int {
        if self.presses().len() > 0 && self.presses()[0] > self.game().last_step() {
            self.presses()[0] as int
        } else {
            self.game().last_step() as int
        }
    }

    /// A home-key press is recorded; otherwise a selector key chooses an
    /// application while none is active (Game of Life freshly seeded), and
    /// any other event goes on to the active application. Once three presses
    /// are recorded the gesture is weighed: the menu screen returns if they
    /// span fewer than `EXIT_WINDOW` ticks, and the presses are cleared
    /// either way.
    fn update(&mut self, event: Option<KeyEvent>, context: &Context)
        ensures
            final(self).active() == if gesture_succeeds(
                window_after(old(self).presses(), event, context.timer),
            ) {
                None
            } else {
                choice_after(old(self).active(), event)
            },
            window_after(old(self).presses(), event, context.timer).len() == EXIT_PRESSES
                ==> final(self).presses() == Seq::<u32>::empty(),
            window_after(old(self).presses(), event, context.timer).len() < EXIT_PRESSES
                ==> final(self).presses() == window_after(old(self).presses(), event, context.timer),
            forwards_to(old(self).active(), event, Selected::Paint) ==> final(self).paint().painted(
                old(self).paint(),
                event,
            ),
            !forwards_to(old(self).active(), event, Selected::Paint) ==> final(self).paint() == old(
                self,
            ).paint(),
            forwards_to(old(self).active(), event, Selected::GameOfLife) ==> final(self).game().follows(
                old(self).game(),
                context.timer,
            ),
            old(self).active() is None && choice_after(old(self).active(), event) == Some(
                Selected::GameOfLife,
            ) ==> final(self).game().seeded_from(*context),
            !forwards_to(old(self).active(), event, Selected::GameOfLife) && !(old(self).active() is None
                && choice_after(old(self).active(), event) == Some(Selected::GameOfLife))
                ==> final(self).game() == old(self).game(),
    {
        match event {
            Some(KeyEvent { coordinate: (0, 0), edge: Edge::Rising }) => {
                self.exit.record(context.timer);
            },
            Some(KeyEvent { coordinate: (1, 2), edge: Edge::Rising }) if self.current_component.is_none() => {
                self.current_component = Some(Selected::Paint);
            },
            Some(KeyEvent { coordinate: (1, 3), edge: Edge::Rising }) if self.current_component.is_none() => {
                self.gol = GoL::new(context);
                self.current_component = Some(Selected::GameOfLife);
            },
            _ => match self.current_component {
                Some(Selected::Paint) => self.paint.update(event, context),
                Some(Selected::GameOfLife) => self.gol.update(event, context),
                None => (),
            },
        }
        if self.exit.count >= EXIT_PRESSES {
            if self.exit.exit_presses[0] - self.exit.exit_presses[2] < EXIT_WINDOW {
                self.current_component = None;
            }
            self.exit = Exit::default();
        }
    }

    /// The active application's screen, or the menu's own.
    fn render(&self) -> (colors: Frame)
        ensures
            forall|row: int, column: int|
                0 <= row < 8 && 0 <= column < 8 ==> #[trigger] colors[row][column] == self.shown(
                    row,
                    column,
                ),
    {
        match self.current_component {
            Some(Selected::Paint) => self.paint.render(),
            Some(Selected::GameOfLife) => self.gol.render(),
            None => {
                let off: [Option<Rgb>; 8] = [None, None, None, None, None, None, None, None];
                let blue = Some(Rgb::rgb(0, 0, 255));
                let green = Some(Rgb::rgb(0, 255, 0));
                let selectors: [Option<Rgb>; 8] = [None, None, blue, green, None, None, None, None];
                [off, selectors, off, off, off, off, off, off]
            },
        }
    }
}

} // verus!
