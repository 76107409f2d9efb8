//! A minimal game used to exercise the game-logic loop: a counter that inputs add to or
//! reset.
use vstd::prelude::*;

verus! {

#[derive(Debug, Clone, Copy, PartialEq, Eq, Structural)]
pub struct CounterGame;

#[derive(Debug, Clone, Copy, PartialEq, Eq, Structural)]
pub struct CounterState {
    pub value: i32,
}

#[derive(Debug, Clone, Copy, PartialEq, Eq, Structural)]
pub enum CounterInput {
    Add(i32),
    Reset,
}

impl CounterGame {
    /// The counter starts at zero.
    pub fn initial_state(&self) -> (r: CounterState)
        ensures
            r.value == 0,
    {
        CounterState { value: 0 }
    }

    /// Adding moves the counter by the delta; resetting brings it back to zero.
    pub fn step(&self, state: &CounterState, input: CounterInput) -> (r: CounterState)
        requires
            input matches CounterInput::Add(d) ==> i32::MIN <= state.value + d <= i32::MAX,
        ensures
            r.value == match input {
                CounterInput::Add(d) => state.value + d,
                CounterInput::Reset => 0,
            },
    {
        match input {
            CounterInput::Add(delta) => CounterState { value: state.value + delta },
            CounterInput::Reset => CounterState { value: 0 },
        }
    }
}

} // verus!
