//! The start menu: waiting for the player to pick a level.

use vstd::prelude::*;

use crate::input::Input;

verus! {

/// The menu phase, waiting for a digit.
#[derive(Debug, Clone, PartialEq, Eq, Structural)]
pub struct Menu {}

/// The number the first digit input of the prefix carries, if any
/// input of the prefix is a digit.
pub open spec fn spec_first_number(inputs: Seq<Input>, n: int) -> Option<u32>
    decreases n,
{
    if n <= 0 {
        None
    } else if spec_first_number(inputs, n - 1) is Some {
        spec_first_number(inputs, n - 1)
    } else {
        match inputs[n - 1] {
            Input::Number(number) => Some(number),
            _ => None,
        }
    }
}

impl Menu {
    /// The level the player picked: the first digit among the collected
    /// inputs, if there is one.
    pub fn handle(&self, inputs: &Vec<Input>) -> (r: Option<u32>)
        ensures
            r == spec_first_number(inputs@, inputs@.len() as int),
    {
        let mut i: usize = 0;
        while i < inputs.len()
            invariant
                i <= inputs@.len(),
                spec_first_number(inputs@, i as int) is None,
            decreases inputs@.len() - i,
        {
            match inputs[i] {
                Input::Number(number) => {
                    proof {
                        lemma_number_found(inputs@, i as int, inputs@.len() as int);
                    }
                    return Some(number);
                },
                _ => {},
            }
            i = i + 1;
        }
        None
    }
}

/// Once the first digit input is found, every longer prefix reports it.
proof fn lemma_number_found(inputs: Seq<Input>, i: int, n: int)
    requires
        0 <= i < n <= inputs.len(),
        spec_first_number(inputs, i) is None,
        inputs[i] is Number,
    ensures
        spec_first_number(inputs, n) == (match inputs[i] {
            Input::Number(number) => Some(number),
            _ => None::<u32>,
        }),
    decreases n,
{
    if n > i + 1 {
        lemma_number_found(inputs, i, n - 1);
    }
}

} // verus!
