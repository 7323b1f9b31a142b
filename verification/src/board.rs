//! Pure descriptions of the board peripherals: the matrix keypad's key
//! codes and the push buttons' register addresses.  Reading the
//! registers themselves is left to the embedding program.

use vstd::prelude::*;

verus! {

/// A key of the 16-key matrix keypad.
#[derive(Debug, Clone, Copy, PartialEq, Eq, Structural)]
pub enum Keyboard {
    /// The digit key 0.
    _0,
    /// The digit key 1.
    _1,
    /// The digit key 2.
    _2,
    /// The digit key 3.
    _3,
    /// The digit key 4.
    _4,
    /// The digit key 5.
    _5,
    /// The digit key 6.
    _6,
    /// The digit key 7.
    _7,
    /// The digit key 8.
    _8,
    /// The digit key 9.
    _9,
    /// The letter key A.
    A,
    /// The letter key B.
    B,
    /// The letter key C.
    C,
    /// The letter key D.
    D,
    /// The star key.
    Star,
    /// The number-sign key.
    Number,
}

/// The digit a key stands for, if it is a digit key.
pub open spec fn spec_key_number(key: Keyboard) -> Option<u32> {
    match key {
        Keyboard::_0 => Some(0u32),
        Keyboard::_1 => Some(1u32),
        Keyboard::_2 => Some(2u32),
        Keyboard::_3 => Some(3u32),
        Keyboard::_4 => Some(4u32),
        Keyboard::_5 => Some(5u32),
        Keyboard::_6 => Some(6u32),
        Keyboard::_7 => Some(7u32),
        Keyboard::_8 => Some(8u32),
        Keyboard::_9 => Some(9u32),
        _ => None,
    }
}

/// The scan code the keypad register reports for a key.
pub open spec fn spec_key_code(key: Keyboard) -> u8 {
    match key {
        Keyboard::_0 => 2u8,
        Keyboard::_1 => 15u8,
        Keyboard::_2 => 14u8,
        Keyboard::_3 => 13u8,
        Keyboard::_4 => 11u8,
        Keyboard::_5 => 10u8,
        Keyboard::_6 => 9u8,
        Keyboard::_7 => 7u8,
        Keyboard::_8 => 6u8,
        Keyboard::_9 => 5u8,
        Keyboard::A => 12u8,
        Keyboard::B => 8u8,
        Keyboard::C => 4u8,
        Keyboard::D => 0u8,
        Keyboard::Star => 3u8,
        Keyboard::Number => 1u8,
    }
}

impl Keyboard {
    /// The digit this key stands for, if it is a digit key.
    pub fn as_number(&self) -> (r: Option<u32>)
        ensures
            r == spec_key_number(*self),
    {
        match self {
            Keyboard::_0 => Some(0),
            Keyboard::_1 => Some(1),
            Keyboard::_2 => Some(2),
            Keyboard::_3 => Some(3),
            Keyboard::_4 => Some(4),
            Keyboard::_5 => Some(5),
            Keyboard::_6 => Some(6),
            Keyboard::_7 => Some(7),
            Keyboard::_8 => Some(8),
            Keyboard::_9 => Some(9),
            _ => None,
        }
    }

    /// The key the keypad register's scan code stands for, if any.
    pub fn from_code(code: u8) -> (r: Option<Keyboard>)
        ensures
            r matches Some(key) ==> spec_key_code(key) == code,
            code < 16 ==> r is Some,
    {
        match code {
            2 => Some(Keyboard::_0),
            15 => Some(Keyboard::_1),
            14 => Some(Keyboard::_2),
            13 => Some(Keyboard::_3),
            11 => Some(Keyboard::_4),
            10 => Some(Keyboard::_5),
            9 => Some(Keyboard::_6),
            7 => Some(Keyboard::_7),
            6 => Some(Keyboard::_8),
            5 => Some(Keyboard::_9),
            12 => Some(Keyboard::A),
            8 => Some(Keyboard::B),
            4 => Some(Keyboard::C),
            0 => Some(Keyboard::D),
            3 => Some(Keyboard::Star),
            1 => Some(Keyboard::Number),
            _ => None,
        }
    }
}

/// A push button of the board, named by its direction.
#[derive(Debug, Clone, Copy, PartialEq, Eq, Structural)]
pub enum Button {
    /// The centre button.
    Center,
    /// The up button.
    Up,
    /// The down button.
    Down,
    /// The left button.
    Left,
    /// The right button.
    Right,
}

impl Button {
    /// The memory-mapped register address the button is read from.
    pub fn address(self) -> (r: usize)
        ensures
            self is Center ==> r == 0xFFFF_F01C,
            self is Up ==> r == 0xFFFF_F020,
            self is Down ==> r == 0xFFFF_F024,
            self is Left ==> r == 0xFFFF_F028,
            self is Right ==> r == 0xFFFF_F02C,
    {
        match self {
            Button::Center => 0xFFFF_F01C,
            Button::Up => 0xFFFF_F020,
            Button::Down => 0xFFFF_F024,
            Button::Left => 0xFFFF_F028,
            Button::Right => 0xFFFF_F02C,
        }
    }
}

/// The byte the first eight switches spell after folding in the top
/// `k` of them, highest switch first: switch `i` lands in bit `i`.
pub open spec fn spec_switch_number(bits: [bool; 8], k: int) -> int
    decreases k,
{
    if k <= 0 {
        0
    } else {
        spec_switch_number(bits, k - 1) * 2 + (if bits[8 - k] {
            1int
        } else {
            0int
        })
    }
}

/// The byte the first eight switches spell: switch `i` gives bit `i`.
pub fn switch_number(bits: &[bool; 8]) -> (r: u8)
    ensures
        r == spec_switch_number(*bits, 8),
{
    let mut v: u8 = 0;
    let mut k: usize = 0;
    while k < 8
        invariant
            k <= 8,
            v == spec_switch_number(*bits, k as int),
        decreases 8 - k,
    {
        proof {
            lemma_switch_number_bound(*bits, k as int);
            lemma_switch_number_bound(*bits, k as int + 1);
        }
        let bit: u8 = if bits[7 - k] {
            1
        } else {
            0
        };
        v = v * 2 + bit;
        k = k + 1;
    }
    v
}

/// Folding `k` switches fills at most `k` bits.
proof fn lemma_switch_number_bound(bits: [bool; 8], k: int)
    requires
        0 <= k <= 8,
    ensures
        spec_switch_number(bits, k) <= (if k <= 0 {
            0
        } else if k == 1 {
            1
        } else if k == 2 {
            3
        } else if k == 3 {
            7
        } else if k == 4 {
            0xF
        } else if k == 5 {
            0x1F
        } else if k == 6 {
            0x3F
        } else if k == 7 {
            0x7F
        } else {
            0xFFint
        }),
    decreases k,
{
    if k > 0 {
        lemma_switch_number_bound(bits, k - 1);
    }
}

} // verus!
