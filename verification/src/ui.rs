//! The game's screen layout: the bordered windows for the playing
//! field, the piece preview and the statistics, and the border drawing
//! itself over the display model.

use vstd::prelude::*;

use vstd::string::StringSliceAdditionalSpecFns;
use vstd::utf8::{is_ascii_chars, is_ascii_chars_encode_utf8};

use crate::monitor::{lemma_offset_injective, spec_offset, Color, Screen, SCREEN_HEIGHT, SCREEN_WIDTH};
use crate::state::{FIELD_HEIGHT, FIELD_WIDTH};

verus! {

/// Width of the statistics column in cells.
pub const LEVEL_WIDTH: usize = 17;

/// Width of the playing-field window: two cells per field column plus
/// the border.
pub const GAME_WIDTH: usize = FIELD_WIDTH * 2 + 2;

/// Height of the window: the field plus the border.
pub const WINDOW_HEIGHT: usize = FIELD_HEIGHT + 2;

/// Width of the whole window.
pub const WINDOW_WIDTH: usize = LEVEL_WIDTH + GAME_WIDTH;

/// Column of the window's left edge, centring it on the screen.
pub const WINDOW_X: usize = (SCREEN_WIDTH - WINDOW_WIDTH) / 2 - 1;

/// Row of the window's top edge, centring it on the screen.
pub const WINDOW_Y: usize = (SCREEN_HEIGHT - WINDOW_HEIGHT) / 2 - 1;

/// A rectangle of screen cells.
#[derive(Debug, Clone, Copy, PartialEq, Eq, Structural)]
pub struct Rect {
    /// Column of the left edge.
    pub x: usize,
    /// Row of the top edge.
    pub y: usize,
    /// Width in cells.
    pub width: usize,
    /// Height in cells.
    pub height: usize,
}

/// A foreground and background colour for drawn cells.
#[derive(Debug, Clone, Copy, PartialEq, Eq, Structural)]
pub struct ColorPair {
    /// The foreground colour.
    pub fg: Color,
    /// The background colour.
    pub bg: Color,
}

impl ColorPair {
    /// Pair the two given colours.
    pub fn new(fg: Color, bg: Color) -> (r: ColorPair)
        ensures
            r.fg == fg && r.bg == bg,
    {
        ColorPair { fg, bg }
    }

    /// This pair over another background.
    pub fn bg(&self, bg: Color) -> (r: ColorPair)
        ensures
            r.fg == self.fg && r.bg == bg,
    {
        ColorPair { fg: self.fg, bg }
    }

    /// The colour register byte: background in the high half,
    /// foreground in the low half.
    pub fn as_u8(&self) -> (r: u8)
        ensures
            r == crate::monitor::spec_color_code(self.bg) * 16 + crate::monitor::spec_color_code(
                self.fg,
            ),
    {
        let b = self.bg.code();
        let f = self.fg.code();
        proof {
            assert(b << 4 | f == b * 16 + f) by (bit_vector)
                requires
                    b < 16 && f < 16,
            ;
        }
        b << 4 | f
    }
}

impl Default for ColorPair {
    /// The console's default colours: white on black.
    fn default() -> (r: Self)
        ensures
            r.fg == Color::White && r.bg == Color::Black,
    {
        ColorPair { fg: Color::default_fg(), bg: Color::default_bg() }
    }
}

impl Rect {
    /// The rectangle at `(x, y)` of the given size.
    pub fn new(x: usize, y: usize, width: usize, height: usize) -> (r: Rect)
        ensures
            r.x == x && r.y == y && r.width == width && r.height == height,
    {
        Rect { x, y, width, height }
    }

    /// Draw this rectangle's border and centred title onto the screen
    /// in the default colours: straight edges, corner pieces, and the
    /// title with one space either side on the top edge.
    pub fn draw_border(&self, screen: &mut Screen, title: &str)
        requires
            old(screen).wf(),
            2 <= self.width,
            2 <= self.height,
            self.x + self.width < SCREEN_WIDTH,
            self.y + self.height <= SCREEN_HEIGHT,
            title.spec_bytes().len() + 2 <= self.width,
        ensures
            final(screen).wf(),
            final(screen).spec_color() == 7,
            forall|a: int, b: int|
                0 <= a < crate::monitor::SCREEN_BUFFER_MULTIPLIER && 0 <= b < SCREEN_HEIGHT ==> {
                    let o = #[trigger] spec_offset(a, b);
                    match spec_border_char(*self, title.spec_bytes(), a, b) {
                        Some(c) => final(screen).spec_chars()[o] == c
                            && final(screen).spec_colors()[o] == 7,
                        None => final(screen).spec_chars()[o] == old(screen).spec_chars()[o]
                            && final(screen).spec_colors()[o] == old(screen).spec_colors()[o],
                    }
                },
    {
        let pair = ColorPair::default();
        screen.set_color(pair.as_u8());

        let ghost s0 = (old(screen).spec_chars(), old(screen).spec_colors());
        let ghost tb = title.spec_bytes();

        // top and bottom edges
        draw_hline(screen, self.x, self.y, self.width, 0xA1);
        draw_hline(screen, self.x, self.y + self.height - 1, self.width, 0xA1);

        // the two sides, below the top edge
        let mut yy: usize = 1;
        while yy < self.height
            invariant
                screen.wf(),
                screen.spec_color() == 7,
                1 <= yy <= self.height,
                2 <= self.width,
                2 <= self.height,
                self.x + self.width < SCREEN_WIDTH,
                self.y + self.height <= SCREEN_HEIGHT,
                forall|a: int, b: int|
                    0 <= a < crate::monitor::SCREEN_BUFFER_MULTIPLIER && 0 <= b < SCREEN_HEIGHT
                        ==> {
                        let o = #[trigger] spec_offset(a, b);
                        if b == self.y && self.x <= a < self.x + self.width {
                            screen.spec_chars()[o] == 0xA1 && screen.spec_colors()[o] == 7
                        } else if (a == self.x || a == self.x + self.width - 1) && self.y < b
                            < self.y + yy {
                            screen.spec_chars()[o] == 0xA0 && screen.spec_colors()[o] == 7
                        } else if b == self.y + self.height - 1 && self.x <= a < self.x
                            + self.width {
                            screen.spec_chars()[o] == 0xA1 && screen.spec_colors()[o] == 7
                        } else {
                            screen.spec_chars()[o] == s0.0[o] && screen.spec_colors()[o] == s0.1[o]
                        }
                    },
            decreases self.height - yy,
        {
            put_cell(screen, self.x, yy + self.y, 0xA0);
            put_cell(screen, self.x + self.width - 1, yy + self.y, 0xA0);
            proof {
                lemma_offset_injective();
            }
            yy = yy + 1;
        }

        // the four corner pieces
        put_cell(screen, self.x, self.y, 0xA2);
        put_cell(screen, self.x + self.width - 1, self.y, 0xA3);
        put_cell(screen, self.x, self.y + self.height - 1, 0xA4);
        put_cell(screen, self.x + self.width - 1, self.y + self.height - 1, 0xA5);

        // the title, centred on the top edge with a space either side
        let bytes = title.as_bytes();
        let offset_x = (self.width - bytes.len() - 2) / 2;
        let tx = self.x + offset_x;
        put_cell(screen, tx, self.y, 32);
        let mut k: usize = 0;
        let ghost mid = (screen.spec_chars(), screen.spec_colors());
        while k < bytes.len()
            invariant
                screen.wf(),
                screen.spec_color() == 7,
                k <= bytes.len(),
                bytes@ == tb,
                tx + bytes.len() + 2 <= self.x + self.width,
                self.x + self.width < SCREEN_WIDTH,
                self.y < SCREEN_HEIGHT,
                tx == self.x + offset_x,
                forall|a: int, b: int|
                    0 <= a < crate::monitor::SCREEN_BUFFER_MULTIPLIER && 0 <= b < SCREEN_HEIGHT
                        ==> {
                        let o = #[trigger] spec_offset(a, b);
                        if b == self.y && tx + 1 <= a < tx + 1 + k {
                            screen.spec_chars()[o] == tb[a - (tx + 1)] && screen.spec_colors()[o]
                                == 7
                        } else {
                            screen.spec_chars()[o] == mid.0[o] && screen.spec_colors()[o]
                                == mid.1[o]
                        }
                    },
            decreases bytes.len() - k,
        {
            put_cell(screen, tx + 1 + k, self.y, bytes[k]);
            proof {
                lemma_offset_injective();
            }
            k = k + 1;
        }
        put_cell(screen, tx + 1 + bytes.len(), self.y, 32);
        proof {
            lemma_offset_injective();
            let off = (self.width - tb.len() - 2) / 2;
            assert(off == offset_x);
            assert forall|a: int, b: int|
                0 <= a < crate::monitor::SCREEN_BUFFER_MULTIPLIER && 0 <= b
                    < SCREEN_HEIGHT implies {
                let o = #[trigger] spec_offset(a, b);
                match spec_border_char(*self, tb, a, b) {
                    Some(c) => screen.spec_chars()[o] == c && screen.spec_colors()[o] == 7,
                    None => screen.spec_chars()[o] == s0.0[o] && screen.spec_colors()[o]
                        == s0.1[o],
                }
            } by {
                let o = spec_offset(a, b);
                if b == self.y as int && tx <= a < tx + tb.len() + 2 {
                } else if a == self.x as int && b == self.y as int {
                } else {
                }
            }
        }
    }
}

/// The byte the border drawing leaves in the cell `(x, y)`, if it
/// touches that cell: the title span wins over the top edge, corner
/// pieces over edges, and the side pieces over the bottom edge.
pub open spec fn spec_border_char(r: Rect, tb: Seq<u8>, x: int, y: int) -> Option<u8> {
    let off = (r.width - tb.len() - 2) / 2;
    let tx = r.x + off;
    if y == r.y && tx <= x < tx + tb.len() + 2 {
        if x == tx || x == tx + tb.len() + 1 {
            Some(32u8)
        } else {
            Some(tb[x - (tx + 1)])
        }
    } else if x == r.x && y == r.y {
        Some(0xA2u8)
    } else if x == r.x + r.width - 1 && y == r.y {
        Some(0xA3u8)
    } else if x == r.x && y == r.y + r.height - 1 {
        Some(0xA4u8)
    } else if x == r.x + r.width - 1 && y == r.y + r.height - 1 {
        Some(0xA5u8)
    } else if (x == r.x || x == r.x + r.width - 1) && r.y < y < r.y + r.height {
        Some(0xA0u8)
    } else if (y == r.y || y == r.y + r.height - 1) && r.x <= x < r.x + r.width {
        Some(0xA1u8)
    } else {
        None
    }
}

/// Write one cell in the current colour.
fn put_cell(screen: &mut Screen, x: usize, y: usize, ch: u8)
    requires
        old(screen).wf(),
        x < SCREEN_WIDTH,
        y < SCREEN_HEIGHT,
    ensures
        final(screen).wf(),
        final(screen).spec_x() == old(screen).spec_x(),
        final(screen).spec_y() == old(screen).spec_y(),
        final(screen).spec_color() == old(screen).spec_color(),
        final(screen).spec_chars() == old(screen).spec_chars().update(
            spec_offset(x as int, y as int),
            ch,
        ),
        final(screen).spec_colors() == old(screen).spec_colors().update(
            spec_offset(x as int, y as int),
            old(screen).spec_color(),
        ),
{
    let color = screen.get_color();
    screen.set_character(x, y, ch);
    screen.set_cell_color(x, y, color);
}

/// Draw a horizontal run of `n` copies of `ch` in the current colour.
fn draw_hline(screen: &mut Screen, x0: usize, y0: usize, n: usize, ch: u8)
    requires
        old(screen).wf(),
        x0 + n < SCREEN_WIDTH,
        y0 < SCREEN_HEIGHT,
    ensures
        final(screen).wf(),
        final(screen).spec_x() == old(screen).spec_x(),
        final(screen).spec_y() == old(screen).spec_y(),
        final(screen).spec_color() == old(screen).spec_color(),
        forall|a: int, b: int|
            0 <= a < crate::monitor::SCREEN_BUFFER_MULTIPLIER && 0 <= b < SCREEN_HEIGHT ==> {
                let o = #[trigger] spec_offset(a, b);
                if b == y0 && x0 <= a < x0 + n {
                    final(screen).spec_chars()[o] == ch && final(screen).spec_colors()[o] == old(screen).spec_color()
                } else {
                    final(screen).spec_chars()[o] == old(screen).spec_chars()[o] && final(screen).spec_colors()[o] == old(screen).spec_colors()[o]
                }
            },
{
    let mut k: usize = 0;
    while k < n
        invariant
            screen.wf(),
            k <= n,
            x0 + n < SCREEN_WIDTH,
            y0 < SCREEN_HEIGHT,
            screen.spec_x() == old(screen).spec_x(),
            screen.spec_y() == old(screen).spec_y(),
            screen.spec_color() == old(screen).spec_color(),
            forall|a: int, b: int|
                0 <= a < crate::monitor::SCREEN_BUFFER_MULTIPLIER && 0 <= b < SCREEN_HEIGHT ==> {
                    let o = #[trigger] spec_offset(a, b);
                    if b == y0 && x0 <= a < x0 + k {
                        screen.spec_chars()[o] == ch && screen.spec_colors()[o] == old(screen).spec_color()
                    } else {
                        screen.spec_chars()[o] == old(screen).spec_chars()[o]
                            && screen.spec_colors()[o] == old(screen).spec_colors()[o]
                    }
                },
        decreases n - k,
    {
        put_cell(screen, x0 + k, y0, ch);
        proof {
            lemma_offset_injective();
        }
        k = k + 1;
    }
}

/// The window holding the playing field.
pub open spec fn game_rect() -> Rect {
    Rect { x: WINDOW_X, y: WINDOW_Y, width: GAME_WIDTH, height: WINDOW_HEIGHT }
}

/// The window holding the preview of the next piece.
pub open spec fn next_rect() -> Rect {
    Rect { x: (WINDOW_X + GAME_WIDTH) as usize, y: WINDOW_Y, width: GAME_WIDTH, height: 8 }
}

/// The window holding the statistics.
pub open spec fn stats_rect() -> Rect {
    Rect {
        x: (WINDOW_X + GAME_WIDTH) as usize,
        y: (WINDOW_Y + 8) as usize,
        width: GAME_WIDTH,
        height: (WINDOW_HEIGHT - 8) as usize,
    }
}

/// The window holding the playing field.
pub fn game_area() -> (r: Rect)
    ensures
        r == game_rect(),
{
    Rect::new(WINDOW_X, WINDOW_Y, GAME_WIDTH, WINDOW_HEIGHT)
}

/// The window holding the preview of the next piece.
pub fn next_area() -> (r: Rect)
    ensures
        r == next_rect(),
{
    Rect::new(WINDOW_X + GAME_WIDTH, WINDOW_Y, GAME_WIDTH, 8)
}

/// The window holding the statistics.
pub fn stats_area() -> (r: Rect)
    ensures
        r == stats_rect(),
{
    Rect::new(WINDOW_X + GAME_WIDTH, WINDOW_Y + 8, GAME_WIDTH, WINDOW_HEIGHT - 8)
}

/// The byte a drawing layer leaves in a cell: its own where it touches
/// the cell, what lay below otherwise.
pub open spec fn spec_layered(m: Option<u8>, below: u8) -> u8 {
    match m {
        Some(c) => c,
        None => below,
    }
}

/// Whether a drawing layer touches a cell.
pub open spec fn spec_touched(m: Option<u8>) -> bool {
    m is Some
}

/// The screen-drawing side of the game.
#[derive(Debug, PartialEq, Eq, Structural)]
pub struct Ui;

impl Ui {
    /// Draw the borders of all three windows.
    pub fn draw_border(&mut self, screen: &mut Screen)
        requires
            old(screen).wf(),
        ensures
            final(screen).wf(),
            final(screen).spec_color() == 7,
            forall|a: int, b: int|
                0 <= a < crate::monitor::SCREEN_BUFFER_MULTIPLIER && 0 <= b < SCREEN_HEIGHT
                    ==> {
                    let o = #[trigger] spec_offset(a, b);
                    let m1 = spec_border_char(game_rect(), "tetris".spec_bytes(), a, b);
                    let m2 = spec_border_char(next_rect(), "next".spec_bytes(), a, b);
                    let m3 = spec_border_char(stats_rect(), "stats".spec_bytes(), a, b);
                    &&& final(screen).spec_chars()[o] == spec_layered(
                        m3,
                        spec_layered(m2, spec_layered(m1, old(screen).spec_chars()[o])),
                    )
                    &&& final(screen).spec_colors()[o] == (if spec_touched(m1) || spec_touched(
                        m2,
                    ) || spec_touched(m3) {
                        7
                    } else {
                        old(screen).spec_colors()[o]
                    })
                },
    {
        draw_border(screen);
    }
}

/// Draw the borders and titles of the three windows of the game's
/// layout: the field window, the preview window beside it, and the
/// statistics window below the preview.
pub fn draw_border(screen: &mut Screen)
    requires
        old(screen).wf(),
    ensures
        final(screen).wf(),
        final(screen).spec_color() == 7,
        forall|a: int, b: int|
            0 <= a < crate::monitor::SCREEN_BUFFER_MULTIPLIER && 0 <= b < SCREEN_HEIGHT ==> {
                let o = #[trigger] spec_offset(a, b);
                let m1 = spec_border_char(game_rect(), "tetris".spec_bytes(), a, b);
                let m2 = spec_border_char(next_rect(), "next".spec_bytes(), a, b);
                let m3 = spec_border_char(stats_rect(), "stats".spec_bytes(), a, b);
                &&& final(screen).spec_chars()[o] == spec_layered(
                    m3,
                    spec_layered(m2, spec_layered(m1, old(screen).spec_chars()[o])),
                )
                &&& final(screen).spec_colors()[o] == (if spec_touched(m1) || spec_touched(m2)
                    || spec_touched(m3) {
                    7
                } else {
                    old(screen).spec_colors()[o]
                })
            },
{
    proof {
        reveal_strlit("tetris");
        reveal_strlit("next");
        reveal_strlit("stats");
        assert(is_ascii_chars("tetris"@));
        assert(is_ascii_chars("next"@));
        assert(is_ascii_chars("stats"@));
        is_ascii_chars_encode_utf8("tetris"@);
        is_ascii_chars_encode_utf8("next"@);
        is_ascii_chars_encode_utf8("stats"@);
    }
    let area = game_area();
    area.draw_border(screen, "tetris");
    let area = next_area();
    area.draw_border(screen, "next");
    let area = stats_area();
    area.draw_border(screen, "stats");
}

} // verus!
