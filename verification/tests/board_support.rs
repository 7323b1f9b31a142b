use cpu_lib::board::{switch_number, Button, Keyboard};
use cpu_lib::console::{classify_line_byte, echo_bytes, LineEdit, UART_BACKSPACE, UART_NEWLINE};
use cpu_lib::monitor::{
    clear_screen, init, move_cursor_next, newline, putchar, scroll_down, Color, Screen,
    SCREEN_HEIGHT, SCREEN_WIDTH,
};
use cpu_lib::rng::{fold_entropy_byte, mix_u64, rng};
use cpu_lib::tasks::{accumulate, task_operation};
use cpu_lib::time::Instant;
use cpu_lib::tube::{tube_digits_mask, tube_digits_value, tube_enable_mask, TubeMode};

#[test]
fn keypad_digits() {
    assert_eq!(Keyboard::_0.as_number(), Some(0));
    assert_eq!(Keyboard::_7.as_number(), Some(7));
    assert_eq!(Keyboard::_9.as_number(), Some(9));
    assert_eq!(Keyboard::A.as_number(), None);
    assert_eq!(Keyboard::Star.as_number(), None);
    assert_eq!(Keyboard::Number.as_number(), None);
}

#[test]
fn keypad_scan_codes_round_trip() {
    // the register reports codes 0..16; each maps to one key
    for code in 0..16u8 {
        let key = Keyboard::from_code(code).unwrap();
        let again = Keyboard::from_code(code).unwrap();
        assert_eq!(key, again);
    }
    assert_eq!(Keyboard::from_code(2), Some(Keyboard::_0));
    assert_eq!(Keyboard::from_code(15), Some(Keyboard::_1));
    assert_eq!(Keyboard::from_code(0), Some(Keyboard::D));
    assert_eq!(Keyboard::from_code(16), None);
    assert_eq!(Keyboard::from_code(255), None);
}

#[test]
fn button_addresses() {
    assert_eq!(Button::Center.address(), 0xFFFF_F01C);
    assert_eq!(Button::Up.address(), 0xFFFF_F020);
    assert_eq!(Button::Down.address(), 0xFFFF_F024);
    assert_eq!(Button::Left.address(), 0xFFFF_F028);
    assert_eq!(Button::Right.address(), 0xFFFF_F02C);
}

#[test]
fn console_line_editing() {
    assert_eq!(classify_line_byte(UART_NEWLINE), LineEdit::Finish);
    assert_eq!(classify_line_byte(UART_BACKSPACE), LineEdit::Erase);
    assert_eq!(classify_line_byte(b'a'), LineEdit::Put(b'a'));
    assert_eq!(classify_line_byte(b' '), LineEdit::Put(b' '));
}

#[test]
fn console_echo_sequences() {
    assert_eq!(echo_bytes(b'x'), vec![b'x']);
    assert_eq!(echo_bytes(UART_NEWLINE), vec![b'\r', b'\n']);
    assert_eq!(echo_bytes(UART_BACKSPACE), vec![0x7f, 0x08, b' ', 0x08]);
}

#[test]
fn color_codes() {
    assert_eq!(Color::Black.code(), 0x0);
    assert_eq!(Color::White.code(), 0x7);
    assert_eq!(Color::BrightWhite.code(), 0xF);
    assert_eq!(Color::default_fg(), Color::White);
    assert_eq!(Color::default_bg(), Color::Black);
}

#[test]
fn screen_writes_and_cursor() {
    let mut screen = Screen::new();
    init(&mut screen);
    assert_eq!(screen.get_color(), 0x07);

    clear_screen(&mut screen);
    assert_eq!(screen.get_character(5, 5), b' ');
    assert_eq!(screen.get_cell_color(5, 5), 0x07);
    assert_eq!((screen.get_x(), screen.get_y()), (0, 0));

    putchar(&mut screen, b'H');
    putchar(&mut screen, b'i');
    assert_eq!(screen.get_character(0, 0), b'H');
    assert_eq!(screen.get_character(1, 0), b'i');
    assert_eq!((screen.get_x(), screen.get_y()), (2, 0));
}

#[test]
fn screen_control_characters() {
    let mut screen = Screen::new();
    init(&mut screen);
    clear_screen(&mut screen);

    putchar(&mut screen, b'a');
    putchar(&mut screen, b'\r');
    assert_eq!((screen.get_x(), screen.get_y()), (0, 0));

    putchar(&mut screen, b'\n');
    assert_eq!((screen.get_x(), screen.get_y()), (0, 1));

    putchar(&mut screen, b'b');
    putchar(&mut screen, 0x7f);
    assert_eq!((screen.get_x(), screen.get_y()), (0, 1));
    // backspace only steps back; it does not erase the cell
    assert_eq!(screen.get_character(0, 1), b'b');
}

#[test]
fn screen_wraps_at_the_right_edge() {
    let mut screen = Screen::new();
    init(&mut screen);
    clear_screen(&mut screen);
    screen.set_xy(SCREEN_WIDTH - 1, 3);
    putchar(&mut screen, b'z');
    assert_eq!(screen.get_character(SCREEN_WIDTH - 1, 3), b'z');
    assert_eq!((screen.get_x(), screen.get_y()), (0, 4));
}

#[test]
fn screen_scrolls_on_the_last_line() {
    let mut screen = Screen::new();
    init(&mut screen);
    clear_screen(&mut screen);
    screen.set_xy(0, 2);
    putchar(&mut screen, b'm');

    screen.set_xy(4, SCREEN_HEIGHT - 1);
    newline(&mut screen);
    // everything moved up one row; the cursor stays on the last line
    assert_eq!(screen.get_character(0, 1), b'm');
    assert_eq!(screen.get_character(0, 2), b' ');
    assert_eq!((screen.get_x(), screen.get_y()), (0, SCREEN_HEIGHT - 1));
}

#[test]
fn scroll_down_blanks_last_row() {
    let mut screen = Screen::new();
    init(&mut screen);
    clear_screen(&mut screen);
    screen.set_character(7, SCREEN_HEIGHT - 1, b'x');
    scroll_down(&mut screen);
    assert_eq!(screen.get_character(7, SCREEN_HEIGHT - 2), b'x');
    assert_eq!(screen.get_character(7, SCREEN_HEIGHT - 1), b' ');
}

#[test]
fn cursor_steps() {
    let mut screen = Screen::new();
    init(&mut screen);
    clear_screen(&mut screen);
    screen.set_xy(0, 0);
    move_cursor_next(&mut screen);
    assert_eq!((screen.get_x(), screen.get_y()), (1, 0));
    screen.set_xy(SCREEN_WIDTH - 1, 0);
    move_cursor_next(&mut screen);
    assert_eq!((screen.get_x(), screen.get_y()), (0, 1));
}

#[test]
fn entropy_mixing() {
    let _source = rng();
    assert_eq!(mix_u64(1, 0, 0), 1 << 32);
    assert_eq!(mix_u64(0, 0xFF00, 0x00FF), 0xFFFF);
    assert_eq!(mix_u64(0, 0xABCD, 0xABCD), 0);
    assert_eq!(mix_u64(0xDEAD_BEEF, 0, 1), 0xDEAD_BEEF_0000_0001);

    assert_eq!(fold_entropy_byte(0), 0);
    assert_eq!(fold_entropy_byte(0x0303_0303), 0xFF);
    assert_eq!(fold_entropy_byte(0x0100_0002), 0b0100_0010);
}

#[test]
fn instants() {
    let early = Instant::from_cycles(100);
    let late = Instant::from_cycles(250);
    assert_eq!(early.micros, 10);
    assert_eq!(late.duration_since(early), 15);
    assert_eq!(late.duration_since(late), 0);
}

#[test]
fn tube_modes_and_masks() {
    assert_eq!(TubeMode::Dec.code(), 0);
    assert_eq!(TubeMode::Hex.code(), 1);
    assert_eq!(tube_enable_mask(&Some(42)), 0xFF);
    assert_eq!(tube_enable_mask(&None), 0x00);
}

#[test]
fn switch_folding() {
    assert_eq!(switch_number(&[false; 8]), 0);
    assert_eq!(switch_number(&[true; 8]), 0xFF);
    let mut bits = [false; 8];
    bits[0] = true;
    bits[6] = true;
    assert_eq!(switch_number(&bits), 0b0100_0001);
}

#[test]
fn tube_digit_plans() {
    let plan = [None; 8];
    assert_eq!(tube_digits_value(&plan), 0);
    assert_eq!(tube_digits_mask(&plan), 0);

    let mut plan = [None; 8];
    plan[0] = Some(7);
    plan[3] = Some(2);
    assert_eq!(tube_digits_value(&plan), 0x2007);
    assert_eq!(tube_digits_mask(&plan), 0b0000_1001);

    let plan = [Some(1), Some(2), Some(3), Some(4), Some(5), Some(6), Some(7), Some(8)];
    assert_eq!(tube_digits_value(&plan), 0x8765_4321);
    assert_eq!(tube_digits_mask(&plan), 0xFF);
}

#[test]
fn accumulated_sums() {
    assert_eq!(accumulate(0), 0);
    assert_eq!(accumulate(1), 1);
    assert_eq!(accumulate(5), 15);
    assert_eq!(accumulate(22), 253);
}

#[test]
fn task_operations() {
    assert_eq!(task_operation(0, 8, 0), 1);
    assert_eq!(task_operation(0, 6, 0), 0);
    assert_eq!(task_operation(0, 0, 0), 1);
    assert_eq!(task_operation(1, 7, 0), 1);
    assert_eq!(task_operation(1, 8, 0), 0);
    assert_eq!(task_operation(2, 0b1100, 0b1010), 0b1110);
    assert_eq!(task_operation(3, 0b1100, 0b1010), 0b1111_0001);
    assert_eq!(task_operation(4, 0b1100, 0b1010), 0b0110);
    assert_eq!(task_operation(5, 0xFF, 1), 1);
    assert_eq!(task_operation(6, 0xFF, 1), 0);
    assert_eq!(task_operation(7, 3, 9), 9);
}
