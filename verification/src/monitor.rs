//! Model of the text-mode display: a fixed grid of character and colour
//! cells plus a cursor and a current colour, with the exact wrapping,
//! newline and scrolling rules of the console.  The embedding program
//! mirrors every cell write into the display's memory-mapped registers.
//!
//! Rows are addressed with a fixed stride wider than the visible width,
//! matching the display controller's layout.

use vstd::prelude::*;

verus! {

/// Row stride of the display buffer in cells.
pub const SCREEN_BUFFER_MULTIPLIER: usize = 256;

/// Visible width of the display in character cells.
pub const SCREEN_WIDTH: usize = 800 / 8;

/// Visible height of the display in character rows.
pub const SCREEN_HEIGHT: usize = 600 / 16;

/// One of the sixteen display colours.
#[derive(Debug, Clone, Copy, PartialEq, Eq, Structural)]
pub enum Color {
    /// Black.
    Black,
    /// Red.
    Red,
    /// Green.
    Green,
    /// Yellow.
    Yellow,
    /// Blue.
    Blue,
    /// Magenta.
    Magenta,
    /// Cyan.
    Cyan,
    /// White.
    White,
    /// Bright black (grey).
    BrightBlack,
    /// Bright red.
    BrightRed,
    /// Bright green.
    BrightGreen,
    /// Bright yellow.
    BrightYellow,
    /// Bright blue.
    BrightBlue,
    /// Bright magenta.
    BrightMagenta,
    /// Bright cyan.
    BrightCyan,
    /// Bright white.
    BrightWhite,
}

/// The four-bit code of a colour in the display's colour registers.
pub open spec fn spec_color_code(c: Color) -> u8 {
    match c {
        Color::Black => 0u8,
        Color::Red => 1u8,
        Color::Green => 2u8,
        Color::Yellow => 3u8,
        Color::Blue => 4u8,
        Color::Magenta => 5u8,
        Color::Cyan => 6u8,
        Color::White => 7u8,
        Color::BrightBlack => 8u8,
        Color::BrightRed => 9u8,
        Color::BrightGreen => 10u8,
        Color::BrightYellow => 11u8,
        Color::BrightBlue => 12u8,
        Color::BrightMagenta => 13u8,
        Color::BrightCyan => 14u8,
        Color::BrightWhite => 15u8,
    }
}

impl Color {
    /// The four-bit code of this colour.
    pub fn code(self) -> (r: u8)
        ensures
            r == spec_color_code(self),
    {
        match self {
            Color::Black => 0,
            Color::Red => 1,
            Color::Green => 2,
            Color::Yellow => 3,
            Color::Blue => 4,
            Color::Magenta => 5,
            Color::Cyan => 6,
            Color::White => 7,
            Color::BrightBlack => 8,
            Color::BrightRed => 9,
            Color::BrightGreen => 10,
            Color::BrightYellow => 11,
            Color::BrightBlue => 12,
            Color::BrightMagenta => 13,
            Color::BrightCyan => 14,
            Color::BrightWhite => 15,
        }
    }

    /// The default foreground colour of the console.
    pub fn default_fg() -> (r: Color)
        ensures
            r == Color::White,
    {
        Color::White
    }

    /// The default background colour of the console.
    pub fn default_bg() -> (r: Color)
        ensures
            r == Color::Black,
    {
        Color::Black
    }
}

/// Cell index of the position `(x, y)` in the display buffer.
pub open spec fn spec_offset(x: int, y: int) -> int {
    y * SCREEN_BUFFER_MULTIPLIER + x
}

/// The character cells of `nc` show `oc` scrolled up one row, with the
/// last visible row blanked.
pub open spec fn scrolled_chars(nc: Seq<u8>, oc: Seq<u8>) -> bool {
    &&& forall|x: int, y: int|
        0 <= x < SCREEN_WIDTH && 0 <= y < SCREEN_HEIGHT - 1 ==> nc[#[trigger] spec_offset(x, y)]
            == oc[spec_offset(x, y + 1)]
    &&& forall|x: int|
        0 <= x < SCREEN_WIDTH ==> nc[#[trigger] spec_offset(x, SCREEN_HEIGHT - 1)] == 32
}

/// The colour cells of `nc` show `oc` scrolled up one row; the last
/// visible row keeps its colours.
pub open spec fn scrolled_colors(nc: Seq<u8>, oc: Seq<u8>) -> bool {
    &&& forall|x: int, y: int|
        0 <= x < SCREEN_WIDTH && 0 <= y < SCREEN_HEIGHT - 1 ==> nc[#[trigger] spec_offset(x, y)]
            == oc[spec_offset(x, y + 1)]
    &&& forall|x: int|
        0 <= x < SCREEN_WIDTH ==> nc[#[trigger] spec_offset(x, SCREEN_HEIGHT - 1)] == oc[
            spec_offset(x, SCREEN_HEIGHT - 1)
        ]
}

/// The state of the text-mode display: every character and colour cell,
/// the cursor position and the current drawing colour.
pub struct Screen {
    /// Character cell contents, row by row with the buffer stride.
    chars: Vec<u8>,
    /// Colour cell contents, row by row with the buffer stride.
    colors: Vec<u8>,
    /// Cursor column.
    x: usize,
    /// Cursor row.
    y: usize,
    /// Colour applied to newly written characters.
    color: u8,
}

impl Screen {
    /// The character cells.
    pub closed spec fn spec_chars(&self) -> Seq<u8> {
        self.chars@
    }

    /// The colour cells.
    pub closed spec fn spec_colors(&self) -> Seq<u8> {
        self.colors@
    }

    /// The cursor column.
    pub closed spec fn spec_x(&self) -> int {
        self.x as int
    }

    /// The cursor row.
    pub closed spec fn spec_y(&self) -> int {
        self.y as int
    }

    /// The current drawing colour.
    pub closed spec fn spec_color(&self) -> u8 {
        self.color
    }

    /// The screen invariant: both cell grids span the whole buffer and
    /// the cursor is on a visible cell.
    pub open spec fn wf(&self) -> bool {
        &&& self.spec_chars().len() == SCREEN_HEIGHT * SCREEN_BUFFER_MULTIPLIER
        &&& self.spec_colors().len() == SCREEN_HEIGHT * SCREEN_BUFFER_MULTIPLIER
        &&& 0 <= self.spec_x() < SCREEN_WIDTH
        &&& 0 <= self.spec_y() < SCREEN_HEIGHT
    }

    /// Character cell content at `(x, y)`.
    pub open spec fn spec_char_at(&self, x: int, y: int) -> u8 {
        self.spec_chars()[spec_offset(x, y)]
    }

    /// Colour cell content at `(x, y)`.
    pub open spec fn spec_color_at(&self, x: int, y: int) -> u8 {
        self.spec_colors()[spec_offset(x, y)]
    }

    /// Both cell grids are the same in `self` and `other`.
    pub open spec fn same_cells(&self, other: &Screen) -> bool {
        self.spec_chars() == other.spec_chars() && self.spec_colors() == other.spec_colors()
    }

    /// A blank screen: every cell zeroed, the cursor at the origin and
    /// the drawing colour cleared.
    pub fn new() -> (r: Self)
        ensures
            r.wf(),
            r.spec_x() == 0 && r.spec_y() == 0 && r.spec_color() == 0,
            forall|i: int|
                0 <= i < r.spec_chars().len() ==> r.spec_chars()[i] == 0 && r.spec_colors()[i]
                    == 0,
    {
        let total = SCREEN_HEIGHT * SCREEN_BUFFER_MULTIPLIER;
        let mut chars: Vec<u8> = Vec::new();
        let mut colors: Vec<u8> = Vec::new();
        let mut k: usize = 0;
        while k < total
            invariant
                k <= total,
                chars@.len() == k,
                colors@.len() == k,
                forall|i: int| 0 <= i < k ==> chars@[i] == 0 && colors@[i] == 0,
            decreases total - k,
        {
            chars.push(0);
            colors.push(0);
            k = k + 1;
        }
        Screen { chars, colors, x: 0, y: 0, color: 0 }
    }



    /// Write one character cell.
    pub fn set_character(&mut self, x: usize, y: usize, ch: u8)
        requires
            old(self).wf(),
            x < SCREEN_BUFFER_MULTIPLIER,
            y < SCREEN_HEIGHT,
        ensures
            final(self).wf(),
            final(self).spec_chars() == old(self).spec_chars().update(
                spec_offset(x as int, y as int),
                ch,
            ),
            final(self).spec_colors() == old(self).spec_colors(),
            final(self).spec_x() == old(self).spec_x(),
            final(self).spec_y() == old(self).spec_y(),
            final(self).spec_color() == old(self).spec_color(),
    {
        proof {
            lemma_offset_in_range(x as int, y as int);
        }
        self.chars.set(y * SCREEN_BUFFER_MULTIPLIER + x, ch);
    }

    /// Read one character cell.
    pub fn get_character(&self, x: usize, y: usize) -> (r: u8)
        requires
            self.wf(),
            x < SCREEN_BUFFER_MULTIPLIER,
            y < SCREEN_HEIGHT,
        ensures
            r == self.spec_char_at(x as int, y as int),
    {
        proof {
            lemma_offset_in_range(x as int, y as int);
        }
        self.chars[y * SCREEN_BUFFER_MULTIPLIER + x]
    }

    /// Write one colour cell.
    pub fn set_cell_color(&mut self, x: usize, y: usize, color: u8)
        requires
            old(self).wf(),
            x < SCREEN_BUFFER_MULTIPLIER,
            y < SCREEN_HEIGHT,
        ensures
            final(self).wf(),
            final(self).spec_colors() == old(self).spec_colors().update(
                spec_offset(x as int, y as int),
                color,
            ),
            final(self).spec_chars() == old(self).spec_chars(),
            final(self).spec_x() == old(self).spec_x(),
            final(self).spec_y() == old(self).spec_y(),
            final(self).spec_color() == old(self).spec_color(),
    {
        proof {
            lemma_offset_in_range(x as int, y as int);
        }
        self.colors.set(y * SCREEN_BUFFER_MULTIPLIER + x, color);
    }

    /// Read one colour cell.
    pub fn get_cell_color(&self, x: usize, y: usize) -> (r: u8)
        requires
            self.wf(),
            x < SCREEN_BUFFER_MULTIPLIER,
            y < SCREEN_HEIGHT,
        ensures
            r == self.spec_color_at(x as int, y as int),
    {
        proof {
            lemma_offset_in_range(x as int, y as int);
        }
        self.colors[y * SCREEN_BUFFER_MULTIPLIER + x]
    }

    /// The cursor column.
    pub fn get_x(&self) -> (r: usize)
        ensures
            r == self.spec_x(),
    {
        self.x
    }

    /// The cursor row.
    pub fn get_y(&self) -> (r: usize)
        ensures
            r == self.spec_y(),
    {
        self.y
    }

    /// Move the cursor to the given column.
    pub fn set_x(&mut self, x: usize)
        requires
            old(self).wf(),
            x < SCREEN_WIDTH,
        ensures
            final(self).wf(),
            final(self).spec_x() == x,
            final(self).spec_y() == old(self).spec_y(),
            final(self).spec_color() == old(self).spec_color(),
            final(self).same_cells(old(self)),
    {
        self.x = x;
    }

    /// Move the cursor to the given row.
    pub fn set_y(&mut self, y: usize)
        requires
            old(self).wf(),
            y < SCREEN_HEIGHT,
        ensures
            final(self).wf(),
            final(self).spec_y() == y,
            final(self).spec_x() == old(self).spec_x(),
            final(self).spec_color() == old(self).spec_color(),
            final(self).same_cells(old(self)),
    {
        self.y = y;
    }

    /// Move the cursor to the given cell.
    pub fn set_xy(&mut self, x: usize, y: usize)
        requires
            old(self).wf(),
            x < SCREEN_WIDTH,
            y < SCREEN_HEIGHT,
        ensures
            final(self).wf(),
            final(self).spec_x() == x,
            final(self).spec_y() == y,
            final(self).spec_color() == old(self).spec_color(),
            final(self).same_cells(old(self)),
    {
        self.x = x;
        self.y = y;
    }

    /// The current drawing colour.
    pub fn get_color(&self) -> (r: u8)
        ensures
            r == self.spec_color(),
    {
        self.color
    }

    /// Change the current drawing colour.
    pub fn set_color(&mut self, color: u8)
        requires
            old(self).wf(),
        ensures
            final(self).wf(),
            final(self).spec_color() == color,
            final(self).spec_x() == old(self).spec_x(),
            final(self).spec_y() == old(self).spec_y(),
            final(self).same_cells(old(self)),
    {
        self.color = color;
    }










}

/// Prepare the display for the console: white on black.
pub fn init(screen: &mut Screen)
    requires
        old(screen).wf(),
    ensures
        final(screen).wf(),
        final(screen).spec_color() == 0x07,
        final(screen).same_cells(old(screen)),
        final(screen).spec_x() == old(screen).spec_x(),
        final(screen).spec_y() == old(screen).spec_y(),
{
    screen.set_color(0x07);
}
/// Blank every visible cell with the current colour and home the
/// cursor.
pub fn clear_screen(screen: &mut Screen)
    requires
        old(screen).wf(),
    ensures
        final(screen).wf(),
        final(screen).spec_x() == 0 && final(screen).spec_y() == 0,
        final(screen).spec_color() == old(screen).spec_color(),
        forall|x: int, y: int|
            0 <= x < SCREEN_WIDTH && 0 <= y < SCREEN_HEIGHT ==> {
                let o = #[trigger] spec_offset(x, y);
                final(screen).spec_chars()[o] == 32 && final(screen).spec_colors()[o] == final(screen).spec_color()
            },
{
    let color = screen.get_color();
    let mut y: usize = 0;
    while y < SCREEN_HEIGHT
        invariant
            screen.wf(),
            y <= SCREEN_HEIGHT,
            screen.spec_color() == old(screen).spec_color(),
            color == old(screen).spec_color(),
            forall|xi: int, yi: int|
                0 <= xi < SCREEN_WIDTH && 0 <= yi < y ==> {
                    let o = #[trigger] spec_offset(xi, yi);
                    screen.spec_chars()[o] == 32 && screen.spec_colors()[o] == color
                },
        decreases SCREEN_HEIGHT - y,
    {
        let mut x: usize = 0;
        while x < SCREEN_WIDTH
            invariant
                screen.wf(),
                x <= SCREEN_WIDTH,
                y < SCREEN_HEIGHT,
                screen.spec_color() == old(screen).spec_color(),
                color == old(screen).spec_color(),
                forall|xi: int, yi: int|
                    0 <= xi < SCREEN_WIDTH && 0 <= yi < y ==> {
                        let o = #[trigger] spec_offset(xi, yi);
                        screen.spec_chars()[o] == 32 && screen.spec_colors()[o] == color
                    },
                forall|xi: int|
                    0 <= xi < x ==> {
                        let o = #[trigger] spec_offset(xi, y as int);
                        screen.spec_chars()[o] == 32 && screen.spec_colors()[o] == color
                    },
            decreases SCREEN_WIDTH - x,
        {
            screen.set_character(x, y, 32);
            screen.set_cell_color(x, y, color);
            proof {
                lemma_offset_injective();
            }
            x = x + 1;
        }
        y = y + 1;
    }
    screen.set_xy(0, 0);
}
/// Move every visible row up by one and blank the last row, keeping
/// the cursor and the colours of the last row.
pub fn scroll_down(screen: &mut Screen)
    requires
        old(screen).wf(),
    ensures
        final(screen).wf(),
        final(screen).spec_x() == old(screen).spec_x(),
        final(screen).spec_y() == old(screen).spec_y(),
        final(screen).spec_color() == old(screen).spec_color(),
        scrolled_chars(final(screen).spec_chars(), old(screen).spec_chars()),
        scrolled_colors(final(screen).spec_colors(), old(screen).spec_colors()),
{
    let mut y: usize = 0;
    while y < SCREEN_HEIGHT - 1
        invariant
            screen.wf(),
            y <= SCREEN_HEIGHT - 1,
            screen.spec_x() == old(screen).spec_x(),
            screen.spec_y() == old(screen).spec_y(),
            screen.spec_color() == old(screen).spec_color(),
            forall|xi: int, yi: int|
                0 <= xi < SCREEN_WIDTH && 0 <= yi < y ==> {
                    let o = #[trigger] spec_offset(xi, yi);
                    screen.spec_chars()[o] == old(screen).spec_chars()[spec_offset(xi, yi + 1)]
                        && screen.spec_colors()[o] == old(screen).spec_colors()[
                        spec_offset(xi, yi + 1)
                    ]
                },
            forall|xi: int, yi: int|
                0 <= xi < SCREEN_BUFFER_MULTIPLIER && y <= yi < SCREEN_HEIGHT ==> {
                    let o = #[trigger] spec_offset(xi, yi);
                    screen.spec_chars()[o] == old(screen).spec_chars()[o] && screen.spec_colors()[o]
                        == old(screen).spec_colors()[o]
                },
        decreases SCREEN_HEIGHT - 1 - y,
    {
        let mut x: usize = 0;
        while x < SCREEN_WIDTH
            invariant
                screen.wf(),
                y < SCREEN_HEIGHT - 1,
                x <= SCREEN_WIDTH,
                screen.spec_x() == old(screen).spec_x(),
                screen.spec_y() == old(screen).spec_y(),
                screen.spec_color() == old(screen).spec_color(),
                forall|xi: int, yi: int|
                    0 <= xi < SCREEN_WIDTH && 0 <= yi < y ==> {
                        let o = #[trigger] spec_offset(xi, yi);
                        screen.spec_chars()[o] == old(screen).spec_chars()[
                            spec_offset(xi, yi + 1)
                        ] && screen.spec_colors()[o] == old(screen).spec_colors()[
                            spec_offset(xi, yi + 1)
                        ]
                    },
                forall|xi: int|
                    0 <= xi < x ==> {
                        let o = #[trigger] spec_offset(xi, y as int);
                        screen.spec_chars()[o] == old(screen).spec_chars()[
                            spec_offset(xi, y as int + 1)
                        ] && screen.spec_colors()[o] == old(screen).spec_colors()[
                            spec_offset(xi, y as int + 1)
                        ]
                    },
                forall|xi: int, yi: int|
                    0 <= xi < SCREEN_BUFFER_MULTIPLIER && y < yi < SCREEN_HEIGHT ==> {
                        let o = #[trigger] spec_offset(xi, yi);
                        screen.spec_chars()[o] == old(screen).spec_chars()[o]
                            && screen.spec_colors()[o] == old(screen).spec_colors()[o]
                    },
                forall|xi: int|
                    x <= xi < SCREEN_BUFFER_MULTIPLIER ==> {
                        let o = #[trigger] spec_offset(xi, y as int);
                        screen.spec_chars()[o] == old(screen).spec_chars()[o]
                            && screen.spec_colors()[o] == old(screen).spec_colors()[o]
                    },
            decreases SCREEN_WIDTH - x,
        {
            let ch = screen.get_character(x, y + 1);
            let co = screen.get_cell_color(x, y + 1);
            screen.set_character(x, y, ch);
            screen.set_cell_color(x, y, co);
            proof {
                lemma_offset_injective();
            }
            x = x + 1;
        }
        y = y + 1;
    }
    let mut x: usize = 0;
    while x < SCREEN_WIDTH
        invariant
            screen.wf(),
            x <= SCREEN_WIDTH,
            screen.spec_x() == old(screen).spec_x(),
            screen.spec_y() == old(screen).spec_y(),
            screen.spec_color() == old(screen).spec_color(),
            forall|xi: int, yi: int|
                0 <= xi < SCREEN_WIDTH && 0 <= yi < SCREEN_HEIGHT - 1 ==> {
                    let o = #[trigger] spec_offset(xi, yi);
                    screen.spec_chars()[o] == old(screen).spec_chars()[spec_offset(xi, yi + 1)]
                        && screen.spec_colors()[o] == old(screen).spec_colors()[
                        spec_offset(xi, yi + 1)
                    ]
                },
            forall|xi: int|
                0 <= xi < x ==> screen.spec_chars()[#[trigger] spec_offset(
                    xi,
                    SCREEN_HEIGHT - 1,
                )] == 32,
            forall|xi: int|
                0 <= xi < SCREEN_BUFFER_MULTIPLIER ==> {
                    let o = #[trigger] spec_offset(xi, SCREEN_HEIGHT - 1);
                    screen.spec_colors()[o] == old(screen).spec_colors()[o]
                },
            forall|xi: int|
                x <= xi < SCREEN_BUFFER_MULTIPLIER ==> {
                    let o = #[trigger] spec_offset(xi, SCREEN_HEIGHT - 1);
                    screen.spec_chars()[o] == old(screen).spec_chars()[o]
                },
        decreases SCREEN_WIDTH - x,
    {
        screen.set_character(x, SCREEN_HEIGHT - 1, 32);
        proof {
            lemma_offset_injective();
        }
        x = x + 1;
    }
}
/// Move the cursor to the start of the next line, scrolling when it
/// already stands on the last one.
pub fn newline(screen: &mut Screen)
    requires
        old(screen).wf(),
    ensures
        final(screen).wf(),
        final(screen).spec_x() == 0,
        final(screen).spec_color() == old(screen).spec_color(),
        if old(screen).spec_y() + 1 == SCREEN_HEIGHT {
            final(screen).spec_y() == old(screen).spec_y() && scrolled_chars(
                final(screen).spec_chars(),
                old(screen).spec_chars(),
            ) && scrolled_colors(final(screen).spec_colors(), old(screen).spec_colors())
        } else {
            final(screen).spec_y() == old(screen).spec_y() + 1 && final(screen).same_cells(
                old(screen),
            )
        },
{
    let y = screen.get_y();
    if y + 1 == SCREEN_HEIGHT {
        scroll_down(screen);
        screen.set_x(0);
    } else {
        screen.set_xy(0, y + 1);
    }
}
/// Advance the cursor one cell, wrapping to a fresh line at the
/// right edge.
pub fn move_cursor_next(screen: &mut Screen)
    requires
        old(screen).wf(),
    ensures
        final(screen).wf(),
        final(screen).spec_color() == old(screen).spec_color(),
        if old(screen).spec_x() + 1 < SCREEN_WIDTH {
            final(screen).spec_x() == old(screen).spec_x() + 1 && final(screen).spec_y() == old(screen).spec_y() && final(screen).same_cells(old(screen))
        } else if old(screen).spec_y() + 1 < SCREEN_HEIGHT {
            final(screen).spec_x() == 0 && final(screen).spec_y() == old(screen).spec_y() + 1
                && final(screen).same_cells(old(screen))
        } else {
            final(screen).spec_x() == 0 && final(screen).spec_y() == old(screen).spec_y()
                && scrolled_chars(final(screen).spec_chars(), old(screen).spec_chars())
                && scrolled_colors(final(screen).spec_colors(), old(screen).spec_colors())
        },
{
    let x = screen.get_x();
    if x + 1 == SCREEN_WIDTH {
        newline(screen);
    } else {
        screen.set_x(x + 1);
    }
}
/// Print one byte at the cursor: carriage return homes the column,
/// line feed starts a fresh line, backspace steps back, and any
/// other byte is written in the current colour and advances the
/// cursor.
pub fn putchar(screen: &mut Screen, ch: u8)
    requires
        old(screen).wf(),
    ensures
        final(screen).wf(),
        final(screen).spec_color() == old(screen).spec_color(),
        ch == 13 ==> final(screen).spec_x() == 0 && final(screen).spec_y() == old(screen).spec_y()
            && final(screen).same_cells(old(screen)),
        ch == 10 ==> final(screen).spec_x() == 0 && (if old(screen).spec_y() + 1 == SCREEN_HEIGHT {
            final(screen).spec_y() == old(screen).spec_y() && scrolled_chars(
                final(screen).spec_chars(),
                old(screen).spec_chars(),
            ) && scrolled_colors(final(screen).spec_colors(), old(screen).spec_colors())
        } else {
            final(screen).spec_y() == old(screen).spec_y() + 1 && final(screen).same_cells(
                old(screen),
            )
        }),
        ch == 127 ==> final(screen).spec_y() == old(screen).spec_y() && final(screen).same_cells(
            old(screen),
        ) && final(screen).spec_x() == (if old(screen).spec_x() > 0 {
            old(screen).spec_x() - 1
        } else {
            0
        }),
        (ch != 13 && ch != 10 && ch != 127) ==> {
            let wc = old(screen).spec_chars().update(
                spec_offset(old(screen).spec_x(), old(screen).spec_y()),
                ch,
            );
            let wk = old(screen).spec_colors().update(
                spec_offset(old(screen).spec_x(), old(screen).spec_y()),
                old(screen).spec_color(),
            );
            if old(screen).spec_x() + 1 < SCREEN_WIDTH {
                final(screen).spec_chars() == wc && final(screen).spec_colors() == wk && final(screen).spec_x() == old(screen).spec_x() + 1 && final(screen).spec_y() == old(screen).spec_y()
            } else if old(screen).spec_y() + 1 < SCREEN_HEIGHT {
                final(screen).spec_chars() == wc && final(screen).spec_colors() == wk && final(screen).spec_x() == 0 && final(screen).spec_y() == old(screen).spec_y() + 1
            } else {
                final(screen).spec_x() == 0 && final(screen).spec_y() == old(screen).spec_y()
                    && scrolled_chars(final(screen).spec_chars(), wc) && scrolled_colors(
                    final(screen).spec_colors(),
                    wk,
                )
            }
        },
{
    if ch == 13 {
        screen.set_x(0);
    } else if ch == 10 {
        newline(screen);
    } else if ch == 127 {
        let x = screen.get_x();
        if x > 0 {
            screen.set_x(x - 1);
        }
    } else {
        let x = screen.get_x();
        let y = screen.get_y();
        let color = screen.get_color();
        screen.set_character(x, y, ch);
        screen.set_cell_color(x, y, color);
        move_cursor_next(screen);
    }
}

/// A visible cell's index lies within the display buffer.
proof fn lemma_offset_in_range(x: int, y: int)
    requires
        0 <= x < SCREEN_BUFFER_MULTIPLIER,
        0 <= y < SCREEN_HEIGHT,
    ensures
        0 <= spec_offset(x, y) < SCREEN_HEIGHT * SCREEN_BUFFER_MULTIPLIER,
{
}

/// Distinct visible cells have distinct buffer indices.
pub proof fn lemma_offset_injective()
    ensures
        forall|x1: int, y1: int, x2: int, y2: int|
            0 <= x1 < SCREEN_BUFFER_MULTIPLIER && 0 <= x2 < SCREEN_BUFFER_MULTIPLIER && 0 <= y1
                && 0 <= y2 && (x1 != x2 || y1 != y2) ==> #[trigger] spec_offset(x1, y1)
                != #[trigger] spec_offset(x2, y2),
{
}

} // verus!
