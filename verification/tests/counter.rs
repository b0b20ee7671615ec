use redux::{reducer, Action, State};

#[test]
fn increment_adds_one() {
    let next = reducer(State { counter: 5 }, Action::Increment);
    assert_eq!(next.counter, 6);
}

#[test]
fn decrement_takes_one() {
    let next = reducer(State { counter: 5 }, Action::Decrement);
    assert_eq!(next.counter, 4);
}

#[test]
fn counter_goes_below_zero() {
    let next = reducer(State { counter: 0 }, Action::Decrement);
    assert_eq!(next.counter, -1);
}

#[test]
fn counter_reaches_both_ends() {
    let top = reducer(State { counter: i32::MAX - 1 }, Action::Increment);
    assert_eq!(top.counter, i32::MAX);
    let bottom = reducer(State { counter: i32::MIN + 1 }, Action::Decrement);
    assert_eq!(bottom.counter, i32::MIN);
}

#[test]
fn state_prints_its_counter() {
    let shown = format!("{:?}", State { counter: 2 });
    assert_eq!(shown, "State { counter: 2 }");
}
