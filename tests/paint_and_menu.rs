use trellis_games::menu::MenuComponent;
use trellis_games::paint::PaintComponent;
use trellis_games::{wheel, Component, Context, Edge, Frame, KeyEvent, Rgb};

fn press(row: u8, column: u8) -> Option<KeyEvent> {
    Some(KeyEvent { coordinate: (row, column), edge: Edge::Rising })
}

fn release(row: u8, column: u8) -> Option<KeyEvent> {
    Some(KeyEvent { coordinate: (row, column), edge: Edge::Falling })
}

fn at(timer: u32) -> Context {
    Context { timer, random_bytes: [255; 64] }
}

fn blank() -> Frame {
    [[None; 8]; 8]
}

fn menu_screen() -> Frame {
    let mut frame = blank();
    frame[1][2] = Some(Rgb { r: 0, g: 0, b: 255 });
    frame[1][3] = Some(Rgb { r: 0, g: 255, b: 0 });
    frame
}

const RED: Option<Rgb> = Some(Rgb { r: 125, g: 0, b: 0 });
const GREEN: Option<Rgb> = Some(Rgb { r: 0, g: 125, b: 0 });
const BLUE: Option<Rgb> = Some(Rgb { r: 0, g: 0, b: 125 });
const LIFE: Option<Rgb> = Some(Rgb { r: 12, g: 12, b: 12 });

#[test]
fn rgb_builds_the_colour() {
    assert_eq!(Rgb::rgb(1, 2, 3), Rgb { r: 1, g: 2, b: 3 });
}

#[test]
fn paint_starts_blank() {
    assert_eq!(PaintComponent::new().render(), blank());
}

#[test]
fn paint_cycles_through_four_states() {
    let mut paint = PaintComponent::new();
    let expected = [RED, GREEN, BLUE, None];
    for color in expected {
        paint.update(press(4, 6), &at(0));
        let frame = paint.render();
        assert_eq!(frame[4][6], color);
        let mut others = frame;
        others[4][6] = None;
        assert_eq!(others, blank());
    }
}

#[test]
fn paint_ignores_releases_and_empty_ticks() {
    let mut paint = PaintComponent::new();
    paint.update(press(7, 0), &at(0));
    paint.update(release(7, 0), &at(1));
    paint.update(None, &at(2));
    let mut expected = blank();
    expected[7][0] = RED;
    assert_eq!(paint.render(), expected);
}

#[test]
fn menu_shows_the_selectors() {
    let menu = MenuComponent::new(&at(0));
    assert_eq!(menu.render(), menu_screen());
}

#[test]
fn paint_selector_opens_paint() {
    let mut menu = MenuComponent::new(&at(0));
    menu.update(press(1, 2), &at(1));
    // The selecting press is not painted.
    assert_eq!(menu.render(), blank());
    menu.update(press(1, 2), &at(2));
    let mut expected = blank();
    expected[1][2] = RED;
    assert_eq!(menu.render(), expected);
}

#[test]
fn releases_and_other_keys_do_not_select() {
    let mut menu = MenuComponent::new(&at(0));
    menu.update(release(1, 2), &at(1));
    menu.update(release(1, 3), &at(2));
    menu.update(press(5, 5), &at(3));
    menu.update(None, &at(4));
    assert_eq!(menu.render(), menu_screen());
}

#[test]
fn game_selector_opens_a_freshly_seeded_game() {
    let mut menu = MenuComponent::new(&Context { timer: 0, random_bytes: [0; 64] });
    let mut first = [255u8; 64];
    first[9] = 0;
    menu.update(press(1, 3), &Context { timer: 1, random_bytes: first });
    let mut expected = blank();
    expected[1][1] = LIFE;
    assert_eq!(menu.render(), expected);

    menu.update(press(0, 0), &at(2));
    menu.update(press(0, 0), &at(3));
    menu.update(press(0, 0), &at(4));
    assert_eq!(menu.render(), menu_screen());

    let mut second = [255u8; 64];
    second[63] = 100;
    menu.update(press(1, 3), &Context { timer: 5, random_bytes: second });
    let mut expected = blank();
    expected[7][7] = LIFE;
    assert_eq!(menu.render(), expected);
}

#[test]
fn active_game_steps_on_ticks() {
    let mut seed = [255u8; 64];
    seed[3 * 8 + 2] = 0;
    seed[3 * 8 + 3] = 0;
    seed[3 * 8 + 4] = 0;
    let mut menu = MenuComponent::new(&at(0));
    menu.update(press(1, 3), &Context { timer: 100, random_bytes: seed });
    menu.update(None, &at(109));
    assert_eq!(menu.render()[3][2], LIFE);
    menu.update(None, &at(110));
    let frame = menu.render();
    assert_eq!(frame[3][2], None);
    assert_eq!(frame[2][3], LIFE);
    assert_eq!(frame[4][3], LIFE);
}

fn painting_menu() -> MenuComponent {
    let mut menu = MenuComponent::new(&at(0));
    menu.update(press(1, 2), &at(0));
    menu.update(press(6, 6), &at(0));
    menu
}

fn painted_frame() -> Frame {
    let mut frame = blank();
    frame[6][6] = RED;
    frame
}

#[test]
fn three_quick_home_presses_return_to_the_menu() {
    let mut menu = painting_menu();
    menu.update(press(0, 0), &at(0));
    menu.update(press(0, 0), &at(5));
    assert_eq!(menu.render(), painted_frame());
    menu.update(press(0, 0), &at(15));
    assert_eq!(menu.render(), menu_screen());
}

#[test]
fn three_slow_home_presses_keep_the_application() {
    let mut menu = painting_menu();
    menu.update(press(0, 0), &at(0));
    menu.update(press(0, 0), &at(5));
    menu.update(press(0, 0), &at(25));
    assert_eq!(menu.render(), painted_frame());
    // The presses were cleared: these count from scratch.
    menu.update(press(0, 0), &at(26));
    menu.update(press(0, 0), &at(30));
    assert_eq!(menu.render(), painted_frame());
    menu.update(press(0, 0), &at(40));
    assert_eq!(menu.render(), menu_screen());
}

#[test]
fn span_of_exactly_the_window_keeps_the_application() {
    let mut menu = painting_menu();
    menu.update(press(0, 0), &at(10));
    menu.update(press(0, 0), &at(20));
    menu.update(press(0, 0), &at(30));
    assert_eq!(menu.render(), painted_frame());
    let mut menu = painting_menu();
    menu.update(press(0, 0), &at(10));
    menu.update(press(0, 0), &at(20));
    menu.update(press(0, 0), &at(29));
    assert_eq!(menu.render(), menu_screen());
}

#[test]
fn home_presses_are_not_painted() {
    let mut menu = painting_menu();
    menu.update(press(0, 0), &at(100));
    assert_eq!(menu.render(), painted_frame());
}

#[test]
fn home_presses_in_the_menu_are_counted() {
    let mut menu = MenuComponent::new(&at(0));
    menu.update(press(0, 0), &at(1));
    menu.update(press(0, 0), &at(2));
    menu.update(press(0, 0), &at(3));
    assert_eq!(menu.render(), menu_screen());
    menu.update(press(1, 2), &at(4));
    assert_eq!(menu.render(), blank());
}

#[test]
fn paint_keeps_its_canvas_between_visits() {
    let mut menu = painting_menu();
    menu.update(press(0, 0), &at(1));
    menu.update(press(0, 0), &at(2));
    menu.update(press(0, 0), &at(3));
    assert_eq!(menu.render(), menu_screen());
    menu.update(press(1, 2), &at(4));
    assert_eq!(menu.render(), painted_frame());
}

#[test]
fn wheel_blends_between_primaries() {
    assert_eq!(wheel(0), Rgb { r: 0, g: 255, b: 0 });
    assert_eq!(wheel(84), Rgb { r: 252, g: 3, b: 0 });
    assert_eq!(wheel(85), Rgb { r: 0, g: 0, b: 255 });
    assert_eq!(wheel(100), Rgb { r: 211, g: 0, b: 44 });
    assert_eq!(wheel(200), Rgb { r: 0, g: 88, b: 167 });
    assert_eq!(wheel(252), Rgb { r: 0, g: 244, b: 11 });
}
