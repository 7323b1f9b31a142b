use cpu_lib::monitor::{clear_screen, init, Color, Screen};
use cpu_lib::ui::{game_area, next_area, stats_area, ColorPair, Rect, Ui, GAME_WIDTH, WINDOW_HEIGHT, WINDOW_X, WINDOW_Y};

#[test]
fn rect_construction() {
    let r = Rect::new(3, 4, 10, 20);
    assert_eq!((r.x, r.y, r.width, r.height), (3, 4, 10, 20));
}

#[test]
fn window_areas() {
    let g = game_area();
    assert_eq!((g.x, g.y, g.width, g.height), (WINDOW_X, WINDOW_Y, GAME_WIDTH, WINDOW_HEIGHT));
    let n = next_area();
    assert_eq!((n.x, n.y, n.width, n.height), (WINDOW_X + GAME_WIDTH, WINDOW_Y, GAME_WIDTH, 8));
    let s = stats_area();
    assert_eq!(
        (s.x, s.y, s.width, s.height),
        (WINDOW_X + GAME_WIDTH, WINDOW_Y + 8, GAME_WIDTH, WINDOW_HEIGHT - 8)
    );
}

#[test]
fn color_pairs() {
    let pair = ColorPair::default();
    assert_eq!(pair.fg, Color::White);
    assert_eq!(pair.bg, Color::Black);
    assert_eq!(pair.as_u8(), 0x07);

    let pair = ColorPair::new(Color::Red, Color::Blue);
    assert_eq!(pair.as_u8(), 0x41);
    assert_eq!(pair.bg(Color::Green).as_u8(), 0x21);
}

#[test]
fn border_drawing() {
    let mut screen = Screen::new();
    init(&mut screen);
    clear_screen(&mut screen);

    let rect = Rect::new(10, 5, 8, 4);
    rect.draw_border(&mut screen, "hi");

    // corners
    assert_eq!(screen.get_character(10, 5), 0xA2);
    assert_eq!(screen.get_character(17, 5), 0xA3);
    assert_eq!(screen.get_character(10, 8), 0xA4);
    assert_eq!(screen.get_character(17, 8), 0xA5);
    // edges
    assert_eq!(screen.get_character(11, 5), 0xA1);
    assert_eq!(screen.get_character(11, 8), 0xA1);
    assert_eq!(screen.get_character(10, 6), 0xA0);
    assert_eq!(screen.get_character(17, 7), 0xA0);
    // the centred title with one space either side: offset (8-4)/2 = 2
    assert_eq!(screen.get_character(12, 5), b' ');
    assert_eq!(screen.get_character(13, 5), b'h');
    assert_eq!(screen.get_character(14, 5), b'i');
    assert_eq!(screen.get_character(15, 5), b' ');
    // the interior is untouched
    assert_eq!(screen.get_character(12, 6), b' ');
    assert_eq!(screen.get_cell_color(13, 5), 0x07);
}

#[test]
fn window_borders() {
    let mut screen = Screen::new();
    init(&mut screen);
    clear_screen(&mut screen);

    let mut ui = Ui;
    ui.draw_border(&mut screen);
    // the three windows share the game area's top edge row
    assert_eq!(screen.get_character(WINDOW_X, WINDOW_Y), 0xA2);
    assert_eq!(screen.get_character(WINDOW_X + GAME_WIDTH, WINDOW_Y), 0xA2);
    assert_eq!(screen.get_character(WINDOW_X + GAME_WIDTH, WINDOW_Y + 8), 0xA2);
}
