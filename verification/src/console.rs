//! The console's editing rules: what each received byte does to the
//! line being read, and which bytes are echoed back for it.  The serial
//! port itself is read and written by the embedding program.

use vstd::prelude::*;

verus! {

/// The byte the console treats as end of line.
pub const UART_NEWLINE: u8 = 13;

/// The byte the console treats as backspace.
pub const UART_BACKSPACE: u8 = 127;

/// What one received byte does to the line being read.
#[derive(Debug, Clone, Copy, PartialEq, Eq, Structural)]
pub enum LineEdit {
    /// The line is complete.
    Finish,
    /// The last byte of the line is taken back.
    Erase,
    /// The byte is appended to the line.
    Put(u8),
}

/// Classify one received byte: carriage return finishes the line,
/// backspace erases, anything else is stored.
pub fn classify_line_byte(c: u8) -> (r: LineEdit)
    ensures
        c == UART_NEWLINE ==> r == LineEdit::Finish,
        c == UART_BACKSPACE ==> r == LineEdit::Erase,
        c != UART_NEWLINE && c != UART_BACKSPACE ==> r == LineEdit::Put(c),
{
    if c == UART_NEWLINE {
        LineEdit::Finish
    } else if c == UART_BACKSPACE {
        LineEdit::Erase
    } else {
        LineEdit::Put(c)
    }
}

/// The bytes echoed back for one received byte: the byte itself, a line
/// feed after a carriage return, and the erase sequence after a
/// backspace.
pub fn echo_bytes(c: u8) -> (r: Vec<u8>)
    ensures
        c == UART_NEWLINE ==> r@ == seq![c, 10u8],
        c == UART_BACKSPACE ==> r@ == seq![c, 8u8, 32u8, 8u8],
        c != UART_NEWLINE && c != UART_BACKSPACE ==> r@ == seq![c],
{
    let mut v: Vec<u8> = Vec::new();
    v.push(c);
    if c == UART_NEWLINE {
        v.push(10);
        proof {
            assert(v@ =~= seq![c, 10u8]);
        }
    } else if c == UART_BACKSPACE {
        v.push(8);
        v.push(32);
        v.push(8);
        proof {
            assert(v@ =~= seq![c, 8u8, 32u8, 8u8]);
        }
    } else {
        proof {
            assert(v@ =~= seq![c]);
        }
    }
    v
}

} // verus!
