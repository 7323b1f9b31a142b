//! The game's top-level decisions: which inputs end the round, and how.

use vstd::prelude::*;

use crate::input::Input;
use crate::state::{
    field_view, lemma_solidified_cleared_bound, solidified_into, spec_collision,
    spec_moved_down, spec_no_full_rows, spec_piece_ok, GameState,
};
use crate::tetromino::Tetromino;

verus! {

/// Why a round of the game ended.
#[derive(Debug, Clone, Copy, PartialEq, Eq, Structural)]
pub enum End {
    /// The player quit the game.
    Quit,
    /// The player asked for a fresh round.
    Restart,
}

/// The end an input asks for, if any.
pub open spec fn spec_end_of_input(input: Input) -> Option<End> {
    match input {
        Input::Restart => Some(End::Restart),
        Input::Quit => Some(End::Quit),
        _ => None,
    }
}

/// The end the first quitting or restarting input of the prefix asks
/// for, if any input of the prefix does.
pub open spec fn spec_end_of_inputs(inputs: Seq<Input>, n: int) -> Option<End>
    decreases n,
{
    if n <= 0 {
        None
    } else if spec_end_of_inputs(inputs, n - 1) is Some {
        spec_end_of_inputs(inputs, n - 1)
    } else {
        spec_end_of_input(inputs[n - 1])
    }
}

/// The end an input asks for, if any.
pub fn end_of_input(input: Input) -> (r: Option<End>)
    ensures
        r == spec_end_of_input(input),
{
    match input {
        Input::Restart => Some(End::Restart),
        Input::Quit => Some(End::Quit),
        _ => None,
    }
}

/// Scan the collected inputs for the first one that ends the round.
pub fn check_for_end(inputs: &Vec<Input>) -> (r: Option<End>)
    ensures
        r == spec_end_of_inputs(inputs@, inputs@.len() as int),
{
    let mut i: usize = 0;
    while i < inputs.len()
        invariant
            i <= inputs@.len(),
            spec_end_of_inputs(inputs@, i as int) is None,
        decreases inputs@.len() - i,
    {
        let e = end_of_input(inputs[i]);
        if e.is_some() {
            proof {
                lemma_end_found(inputs@, i as int, inputs@.len() as int);
            }
            return e;
        }
        i = i + 1;
    }
    None
}

/// Once the first ending input is found, every longer prefix reports
/// it.
proof fn lemma_end_found(inputs: Seq<Input>, i: int, n: int)
    requires
        0 <= i < n <= inputs.len(),
        spec_end_of_inputs(inputs, i) is None,
        spec_end_of_input(inputs[i]) is Some,
    ensures
        spec_end_of_inputs(inputs, n) == spec_end_of_input(inputs[i]),
    decreases n,
{
    if n > i + 1 {
        lemma_end_found(inputs, i, n - 1);
    }
}

/// One tick of a running game, fed the inputs collected this tick and
/// a freshly drawn piece for the moment the falling one lands.  A
/// finished game reports so and stays untouched.  Otherwise the first
/// input is applied, the tick counter advances the piece when due, and
/// a landed piece is accounted: full lines are cleared, the score
/// updated, the queued piece promoted and the fresh draw queued.  The
/// embedding runs this once per tick, drawing the fresh piece from the
/// board's random source.
pub fn step(state: &mut GameState, inputs: &Vec<Input>, fresh: Tetromino) -> (finished: bool)
    requires
        old(state).wf(),
        spec_no_full_rows(field_view(&old(state).field)),
        spec_piece_ok(fresh),
        old(state).ticks < u32::MAX,
        old(state).level.current <= 100_000_000,
        old(state).level.cleared_lines + 4 <= u32::MAX,
        old(state).level.score + 1200 * (old(state).level.current + 1) <= u32::MAX,
    ensures
        final(state).wf(),
        spec_no_full_rows(field_view(&final(state).field)),
        finished == (spec_collision(old(state).current, field_view(&old(state).field)) is Some),
        finished ==> *final(state) == *old(state),
        !finished ==> {
            ||| (final(state).next == old(state).next && final(state).level == old(state).level
                && field_view(&final(state).field) == field_view(&old(state).field))
            ||| (final(state).next == fresh && final(state).current == old(state).next && final(state).level.cleared_lines >= old(state).level.cleared_lines && final(state).level.score
                >= old(state).level.score)
        },
        !finished ==> (final(state).preview matches Some(p) ==> spec_collision(
            p,
            field_view(&final(state).field),
        ) is None && spec_collision(spec_moved_down(p), field_view(&final(state).field))
            is Some),
{
    if state.is_finished() {
        return true;
    }
    let ghost f0 = field_view(&state.field);
    let solidified = handle_inputs(state, inputs);
    let solidified = state.advance_game(solidified);
    if solidified {
        proof {
            lemma_solidified_cleared_bound(field_view(&state.field), f0, state.current);
        }
        let cleared = state.clear_lines();
        proof {
            assert(crate::level::spec_score(state.level.current as int, cleared) <= 1200 * (
            state.level.current as int + 1));
        }
        state.level.up(&cleared);
        state.current = state.next;
        state.next = fresh;
    }
    let preview = state.determine_preview();
    state.preview = preview;
    false
}

/// Apply the first collected input, if any, to the running game.
/// Reports whether it made the falling piece land.
fn handle_inputs(state: &mut GameState, inputs: &Vec<Input>) -> (r: bool)
    requires
        old(state).wf(),
        spec_collision(old(state).current, field_view(&old(state).field)) is None,
    ensures
        final(state).wf(),
        final(state).level == old(state).level,
        final(state).next == old(state).next,
        final(state).preview == old(state).preview,
        final(state).ticks == old(state).ticks,
        r ==> solidified_into(
            field_view(&final(state).field),
            field_view(&old(state).field),
            final(state).current,
        ),
        !r ==> final(state).field == old(state).field && spec_collision(
            final(state).current,
            field_view(&final(state).field),
        ) is None,
{
    if inputs.len() > 0 {
        let input = inputs[0];
        handle_input(state, &input)
    } else {
        false
    }
}

/// Apply one input: the lateral moves and the turn take themselves back
/// when they would collide; moving down and dropping may land the
/// piece, which is reported.
fn handle_input(state: &mut GameState, input: &Input) -> (r: bool)
    requires
        old(state).wf(),
        spec_collision(old(state).current, field_view(&old(state).field)) is None,
    ensures
        final(state).wf(),
        final(state).level == old(state).level,
        final(state).next == old(state).next,
        final(state).preview == old(state).preview,
        final(state).ticks == old(state).ticks,
        r ==> solidified_into(
            field_view(&final(state).field),
            field_view(&old(state).field),
            final(state).current,
        ),
        !r ==> final(state).field == old(state).field && spec_collision(
            final(state).current,
            field_view(&final(state).field),
        ) is None,
{
    match input {
        Input::Right => state.move_right(),
        Input::Left => state.move_left(),
        Input::Rotate => state.rotate(),
        _ => (),
    }

    match input {
        Input::Down => state.move_down(),
        Input::Drop => state.drop(),
        _ => false,
    }
}

} // verus!
