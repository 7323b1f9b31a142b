//! Game inputs and the key bindings that produce them.  Reading the
//! serial port itself is left to the embedding program, which hands each
//! received character to [`Input::from_key`].

use vstd::prelude::*;

verus! {

/// One player input.
#[derive(Debug, PartialEq, Eq, Structural, Clone, Copy)]
pub enum Input {
    /// Move the falling piece one column to the left.
    Left,
    /// Move the falling piece one column to the right.
    Right,
    /// Move the falling piece one row down.
    Down,
    /// Rotate the falling piece.
    Rotate,
    /// Drop the falling piece to the bottom.
    Drop,
    /// Quit the game.
    Quit,
    /// Restart the game.
    Restart,
    /// A digit, for menus.
    Number(u32),
}

/// The input a key stands for: both a left-hand and a right-hand
/// cluster move and rotate, space drops, and digits select.
pub open spec fn spec_input_of_key(key: char) -> Option<Input> {
    if key == 'w' || key == 'k' {
        Some(Input::Rotate)
    } else if key == 'd' || key == 'l' {
        Some(Input::Right)
    } else if key == 'a' || key == 'h' {
        Some(Input::Left)
    } else if key == 's' || key == 'j' {
        Some(Input::Down)
    } else if key == ' ' {
        Some(Input::Drop)
    } else if key == 'q' {
        Some(Input::Quit)
    } else if key == 'r' {
        Some(Input::Restart)
    } else if '0' <= key <= '9' {
        Some(Input::Number((key as u32 - '0' as u32) as u32))
    } else {
        None
    }
}

impl Input {
    /// The input the pressed key stands for, if the key is bound.
    pub fn from_key(key: char) -> (r: Option<Input>)
        ensures
            r == spec_input_of_key(key),
    {
        match key {
            'w' => Some(Input::Rotate),
            'd' => Some(Input::Right),
            'a' => Some(Input::Left),
            's' => Some(Input::Down),
            'k' => Some(Input::Rotate),
            'l' => Some(Input::Right),
            'h' => Some(Input::Left),
            'j' => Some(Input::Down),
            ' ' => Some(Input::Drop),
            'q' => Some(Input::Quit),
            'r' => Some(Input::Restart),
            c => {
                if '0' <= c && c <= '9' {
                    Some(Input::Number(c as u32 - '0' as u32))
                } else {
                    None
                }
            },
        }
    }
}

} // verus!
