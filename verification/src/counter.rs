//! A counter: the smallest state, action set and reducer a store can hold.
use vstd::prelude::*;

verus! {

/// The state of the counter.
#[derive(Debug)]
pub struct State {
    pub counter: i32,
}

/// What can be asked of the counter.
pub enum Action {
    Increment,
    Decrement,
}

/// The counter that `action` leads to from `counter`.
pub open spec fn step(counter: int, action: Action) -> int {
    match action {
        Action::Increment => counter + 1,
        Action::Decrement => counter - 1,
    }
}

/// Applies `action` to `state`: one up or one down. The result has to fit
/// the counter's type.
pub fn reducer(state: State, action: Action) -> (next: State)
    requires
        i32::MIN <= step(state.counter as int, action) <= i32::MAX,
    ensures
        next.counter == step(state.counter as int, action),
{
    match action {
        Action::Increment => State { counter: state.counter + 1 },
        Action::Decrement => State { counter: state.counter - 1 },
    }
}

} // verus!
