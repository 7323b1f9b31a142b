use cpu_lib::input::Input;
use cpu_lib::level::{ClearedLines, Level};
use cpu_lib::logic::{check_for_end, step, End};
use cpu_lib::math::{rotate_ccw, Vector2D};
use cpu_lib::menu::Menu;
use cpu_lib::monitor::Color;
use cpu_lib::state::{GameState, Square, FIELD_HEIGHT, FIELD_WIDTH};
use cpu_lib::tetromino::{Rotation, Tetromino, Two};

#[test]
fn level_speed_curve() {
    assert_eq!(Level::new(0).required_ticks(), 48);
    assert_eq!(Level::new(5).required_ticks(), 23);
    assert_eq!(Level::new(9).required_ticks(), 6);
    assert_eq!(Level::new(11).required_ticks(), 5);
    assert_eq!(Level::new(17).required_ticks(), 3);
    assert_eq!(Level::new(25).required_ticks(), 2);
    assert_eq!(Level::new(29).required_ticks(), 1);
    assert_eq!(Level::new(1000).required_ticks(), 1);
}

#[test]
fn level_scoring() {
    let mut level = Level::new(0);
    level.up(&ClearedLines::Single);
    assert_eq!(level.score, 40);
    assert_eq!(level.cleared_lines, 1);
    assert_eq!(level.current, 0);

    let mut level = Level::new(2);
    level.up(&ClearedLines::Tetrs);
    assert_eq!(level.score, 1200 * 3);
    assert_eq!(level.cleared_lines, 4);

    let mut level = Level::new(9);
    level.up(&ClearedLines::Double);
    assert_eq!(level.score, 100 * 10);
    level.up(&ClearedLines::Zero);
    assert_eq!(level.score, 100 * 10);
    assert_eq!(level.cleared_lines, 2);
}

#[test]
fn level_advances_after_enough_lines() {
    // level 0 requires 10 lines
    let mut level = Level::new(0);
    for _ in 0..2 {
        level.up(&ClearedLines::Tetrs);
    }
    assert_eq!(level.current, 0);
    level.up(&ClearedLines::Double);
    assert_eq!(level.cleared_lines, 10);
    assert_eq!(level.current, 1);
}

#[test]
fn cleared_lines_round_trip() {
    for n in 0..5 {
        assert_eq!(ClearedLines::from_count(n).value(), n as u32);
    }
}

#[test]
fn vector_rotation() {
    // a quarter turn counter-clockwise about the origin of the piece
    let center = Vector2D { x: 1, y: 1 };
    let v = Vector2D { x: 2, y: 1 };
    let r = v.rotate(&center, &rotate_ccw());
    assert_eq!(r, Vector2D { x: 1, y: 0 });

    // rotating the centre itself moves nothing
    let r = center.rotate(&center, &rotate_ccw());
    assert_eq!(r, center);
}

#[test]
fn vector_default_is_spawn_position() {
    let v = Vector2D::default();
    assert_eq!((v.x, v.y), (3, 0));
}

#[test]
fn tetromino_shapes() {
    assert_eq!(Tetromino::i().color, Color::Cyan);
    assert_eq!(Tetromino::o().rotation, Rotation::Fixed);
    assert_eq!(Tetromino::t().origin.vec, Vector2D { x: 1, y: 1 });
    assert_eq!(Tetromino::from_index(0), Tetromino::i());
    assert_eq!(Tetromino::from_index(6), Tetromino::l());
}

#[test]
fn tetromino_moves() {
    let mut t = Tetromino::t();
    t.move_right();
    t.move_right();
    t.move_down();
    t.move_left();
    t.move_up();
    assert_eq!(t.coords, Vector2D { x: 4, y: 0 });
}

#[test]
fn square_piece_never_turns() {
    let mut o = Tetromino::o();
    let before = o;
    o.rotate();
    assert_eq!(o, before);
}

#[test]
fn two_state_piece_rotation_round_trip() {
    let mut s = Tetromino::s();
    let before = s;
    s.rotate();
    assert_eq!(s.rotation, Rotation::Two(Two::Up));
    assert_ne!(s.blocks, before.blocks);
    s.rotate();
    assert_eq!(s, before);
}

#[test]
fn four_state_piece_rotation_cycle() {
    let mut t = Tetromino::t();
    let before = t;
    for _ in 0..4 {
        t.rotate();
    }
    assert_eq!(t, before);
}

#[test]
fn new_game_has_empty_field() {
    let state = GameState::new(1, Tetromino::i(), Tetromino::o());
    assert_eq!(state.field.len(), FIELD_HEIGHT);
    for row in state.field.iter() {
        assert_eq!(row.len(), FIELD_WIDTH);
        for square in row.iter() {
            assert_eq!(*square, Square::Empty);
        }
    }
    assert_eq!(state.level.current, 1);
    assert!(!state.is_finished());
}

#[test]
fn drop_solidifies_at_bottom() {
    let mut state = GameState::new(0, Tetromino::o(), Tetromino::i());
    assert!(state.drop());

    // the square piece spawns at columns 4..6 and lands on the floor
    let bottom = &state.field[FIELD_HEIGHT - 1];
    assert_eq!(bottom[4], Square::Occupied(Color::Yellow));
    assert_eq!(bottom[5], Square::Occupied(Color::Yellow));
    assert_eq!(state.field[FIELD_HEIGHT - 2][4], Square::Occupied(Color::Yellow));
    assert_eq!(bottom[0], Square::Empty);
}

#[test]
fn moves_kick_back_at_the_wall() {
    let mut state = GameState::new(0, Tetromino::o(), Tetromino::i());
    // the square piece spans columns 4..6 after spawning at x = 3
    for _ in 0..20 {
        state.move_left();
    }
    let leftmost = state.current.offset_blocks().iter().map(|b| b.vec.x).min().unwrap();
    assert_eq!(leftmost, 0);

    for _ in 0..20 {
        state.move_right();
    }
    let rightmost = state.current.offset_blocks().iter().map(|b| b.vec.x).max().unwrap();
    assert_eq!(rightmost, FIELD_WIDTH as i32 - 1);
}

#[test]
fn clear_lines_removes_full_rows() {
    let mut state = GameState::new(0, Tetromino::i(), Tetromino::i());
    // fill the bottom row by hand
    for x in 0..FIELD_WIDTH {
        state.field[FIELD_HEIGHT - 1][x] = Square::Occupied(Color::Red);
    }
    // and one marker above it
    state.field[FIELD_HEIGHT - 2][3] = Square::Occupied(Color::Blue);

    let cleared = state.clear_lines();
    assert_eq!(cleared.value(), 1);
    // the marker moved down one row, the top row is fresh
    assert_eq!(state.field[FIELD_HEIGHT - 1][3], Square::Occupied(Color::Blue));
    assert_eq!(state.field[0], vec![Square::Empty; FIELD_WIDTH]);
    assert_eq!(state.field.len(), FIELD_HEIGHT);
}

#[test]
fn clear_lines_without_full_rows_keeps_field() {
    let mut state = GameState::new(0, Tetromino::i(), Tetromino::i());
    state.field[5][5] = Square::Occupied(Color::Green);
    let cleared = state.clear_lines();
    assert_eq!(cleared.value(), 0);
    assert_eq!(state.field[5][5], Square::Occupied(Color::Green));
}

#[test]
fn preview_lands_on_floor() {
    let state = GameState::new(0, Tetromino::o(), Tetromino::i());
    let preview = state.determine_preview().unwrap();
    let lowest = preview.offset_blocks().iter().map(|b| b.vec.y).max().unwrap();
    assert_eq!(lowest, FIELD_HEIGHT as i32 - 1);
}

#[test]
fn advance_game_counts_ticks() {
    let mut state = GameState::new(29, Tetromino::o(), Tetromino::i());
    // on level 29 one tick may pass; the second moves the piece down
    let y0 = state.current.coords.y;
    let solidified = state.advance_game(false);
    assert!(!solidified);
    assert_eq!(state.ticks, 1);
    assert_eq!(state.current.coords.y, y0);

    let solidified = state.advance_game(false);
    assert!(!solidified);
    assert_eq!(state.ticks, 0);
    assert_eq!(state.current.coords.y, y0 + 1);

    let mut state = GameState::new(0, Tetromino::o(), Tetromino::i());
    // on level 0 the first tick only counts
    let y0 = state.current.coords.y;
    state.advance_game(false);
    assert_eq!(state.ticks, 1);
    assert_eq!(state.current.coords.y, y0);
}

#[test]
fn check_for_end_finds_first() {
    assert_eq!(check_for_end(&vec![]), None);
    assert_eq!(check_for_end(&vec![Input::Down, Input::Left]), None);
    assert_eq!(check_for_end(&vec![Input::Down, Input::Quit, Input::Restart]), Some(End::Quit));
    assert_eq!(check_for_end(&vec![Input::Restart, Input::Quit]), Some(End::Restart));
}

#[test]
fn menu_picks_first_number() {
    let menu = Menu {};
    assert_eq!(menu.handle(&vec![]), None);
    assert_eq!(menu.handle(&vec![Input::Left, Input::Drop]), None);
    assert_eq!(menu.handle(&vec![Input::Left, Input::Number(3), Input::Number(7)]), Some(3));
}

#[test]
fn key_bindings() {
    assert_eq!(Input::from_key('w'), Some(Input::Rotate));
    assert_eq!(Input::from_key('k'), Some(Input::Rotate));
    assert_eq!(Input::from_key('a'), Some(Input::Left));
    assert_eq!(Input::from_key('h'), Some(Input::Left));
    assert_eq!(Input::from_key('d'), Some(Input::Right));
    assert_eq!(Input::from_key('l'), Some(Input::Right));
    assert_eq!(Input::from_key('s'), Some(Input::Down));
    assert_eq!(Input::from_key('j'), Some(Input::Down));
    assert_eq!(Input::from_key(' '), Some(Input::Drop));
    assert_eq!(Input::from_key('q'), Some(Input::Quit));
    assert_eq!(Input::from_key('r'), Some(Input::Restart));
    assert_eq!(Input::from_key('7'), Some(Input::Number(7)));
    assert_eq!(Input::from_key('x'), None);
    assert_eq!(Input::from_key('\n'), None);
}

#[test]
fn step_counts_a_tick() {
    let mut state = GameState::new(0, Tetromino::o(), Tetromino::i());
    let finished = step(&mut state, &vec![], Tetromino::t());
    assert!(!finished);
    assert_eq!(state.ticks, 1);
    assert_eq!(state.current, Tetromino::o());
    assert_eq!(state.next, Tetromino::i());
}

#[test]
fn step_applies_the_first_input() {
    let mut state = GameState::new(0, Tetromino::o(), Tetromino::i());
    let x0 = state.current.coords.x;
    step(&mut state, &vec![Input::Right, Input::Left], Tetromino::t());
    assert_eq!(state.current.coords.x, x0 + 1);
}

#[test]
fn step_accounts_a_dropped_piece() {
    let mut state = GameState::new(0, Tetromino::o(), Tetromino::i());
    let finished = step(&mut state, &vec![Input::Drop], Tetromino::t());
    assert!(!finished);
    // the dropped square landed: the queued piece falls, the fresh draw queues
    assert_eq!(state.current, Tetromino::i());
    assert_eq!(state.next, Tetromino::t());
    assert_eq!(state.field[FIELD_HEIGHT - 1][4], Square::Occupied(Color::Yellow));
    assert_eq!(state.field[FIELD_HEIGHT - 1][5], Square::Occupied(Color::Yellow));
}

#[test]
fn step_reports_a_finished_game() {
    let mut state = GameState::new(0, Tetromino::o(), Tetromino::i());
    // a landed block under the spawn position ends the game
    state.field[1][4] = Square::Occupied(Color::Red);
    let finished = step(&mut state, &vec![], Tetromino::t());
    assert!(finished);
    assert_eq!(state.ticks, 0);
    assert_eq!(state.next, Tetromino::i());
}
