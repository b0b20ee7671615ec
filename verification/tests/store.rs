use redux::{reducer, Action, Dispatcher, Notice, State, Store};

type Reducer = fn(State, Action) -> State;
type Subscriber<E> =
    Box<dyn for<'a> Fn(Notice<'a, State, Action, E>) -> Notice<'a, State, Action, E>>;
type Middleware<E> =
    Box<dyn for<'a> Fn(Dispatcher<'a, State, Action, E>, Action) -> Dispatcher<'a, State, Action, E>>;
type CounterStore<E> = Store<State, Action, E, Reducer, Subscriber<E>, Middleware<E>>;

#[test]
fn test_store() {
    let initial_state = State { counter: 0 };
    let mut store: CounterStore<()> = Store::new(reducer, initial_state, ());
    store.dispatch(Action::Increment);
    store.dispatch(Action::Increment);
    store.dispatch(Action::Decrement);
    let current_state = store.get_state();
    assert_eq!(current_state.counter, 1);
}

#[test]
fn test_subscribe() {
    let initial_state = State { counter: 0 };
    let mut store: CounterStore<i32> = Store::new(reducer, initial_state, 0);
    store.subscribe(Box::new(|notice| notice.update_env(|count| count + 1)));
    store.dispatch(Action::Increment);
    assert_eq!(*store.get_env(), 1);
}

#[test]
fn test_middleware() {
    let initial_state = State { counter: 0 };
    let mut store: CounterStore<()> = Store::new(reducer, initial_state, ());
    store.apply_middleware(Box::new(|cx, action| {
        let cx = match action {
            Action::Decrement => cx.dispatch(Action::Increment),
            Action::Increment => cx,
        };
        cx.next(action)
    }));
    store.dispatch(Action::Decrement);
    let current_state = store.get_state();
    assert_eq!(current_state.counter, 0);
}

#[test]
fn new_store_holds_what_it_was_given() {
    let store: CounterStore<i32> = Store::new(reducer, State { counter: 7 }, 3);
    assert_eq!(store.get_state().counter, 7);
    assert_eq!(*store.get_env(), 3);
}

#[test]
fn dispatch_without_middleware_is_the_reducer() {
    let mut store: CounterStore<i32> = Store::new(reducer, State { counter: 41 }, 9);
    store.dispatch(Action::Increment);
    assert_eq!(store.get_state().counter, 42);
    assert_eq!(*store.get_env(), 9);
    store.dispatch(Action::Decrement);
    store.dispatch(Action::Decrement);
    assert_eq!(store.get_state().counter, 40);
    assert_eq!(*store.get_env(), 9);
}

#[test]
fn dispatch_with_another_state_and_action() {
    fn append(mut words: Vec<String>, word: &'static str) -> Vec<String> {
        words.push(word.to_string());
        words
    }
    type Words = Store<
        Vec<String>,
        &'static str,
        (),
        fn(Vec<String>, &'static str) -> Vec<String>,
        for<'a> fn(
            Notice<'a, Vec<String>, &'static str, ()>,
        ) -> Notice<'a, Vec<String>, &'static str, ()>,
        for<'a> fn(
            Dispatcher<'a, Vec<String>, &'static str, ()>,
            &'static str,
        ) -> Dispatcher<'a, Vec<String>, &'static str, ()>,
    >;
    let mut store: Words = Store::new(append, Vec::new(), ());
    store.dispatch("a");
    store.dispatch("b");
    assert_eq!(*store.get_state(), vec!["a".to_string(), "b".to_string()]);
}

#[test]
fn get_state_twice_gives_the_same() {
    let mut store: CounterStore<i32> = Store::new(reducer, State { counter: 0 }, 0);
    store.subscribe(Box::new(|notice| notice.update_env(|count| count + 1)));
    store.dispatch(Action::Increment);
    let first = store.get_state().counter;
    let second = store.get_state().counter;
    let third = store.get_state().counter;
    assert_eq!(first, 1);
    assert_eq!(second, first);
    assert_eq!(third, first);
    assert_eq!(*store.get_env(), 1);
    assert_eq!(*store.get_env(), 1);
}

#[test]
fn subscriber_is_notified_once_per_dispatch() {
    let mut store: CounterStore<u32> = Store::new(reducer, State { counter: 0 }, 0);
    store.subscribe(Box::new(|notice| notice.update_env(|count| count + 1)));
    assert_eq!(*store.get_env(), 0);
    for n in 1..=5u32 {
        store.dispatch(Action::Increment);
        assert_eq!(*store.get_env(), n);
    }
    assert_eq!(store.get_state().counter, 5);
}

#[test]
fn subscribers_are_notified_in_registration_order() {
    let mut store: CounterStore<Vec<&'static str>> =
        Store::new(reducer, State { counter: 0 }, Vec::new());
    store.subscribe(Box::new(|notice| {
        notice.update_env(|mut log| {
            log.push("a");
            log
        })
    }));
    store.subscribe(Box::new(|notice| {
        notice.update_env(|mut log| {
            log.push("b");
            log
        })
    }));
    store.dispatch(Action::Increment);
    assert_eq!(*store.get_env(), vec!["a", "b"]);
    store.dispatch(Action::Decrement);
    assert_eq!(*store.get_env(), vec!["a", "b", "a", "b"]);
}

#[test]
fn second_subscriber_sees_what_the_first_left() {
    let mut store: CounterStore<i64> = Store::new(reducer, State { counter: 0 }, 1);
    store.subscribe(Box::new(|notice| notice.update_env(|n| n + 10)));
    store.subscribe(Box::new(|notice| notice.update_env(|n| n * 2)));
    store.dispatch(Action::Increment);
    assert_eq!(*store.get_env(), 22);
}

#[test]
fn subscriber_registered_later_misses_earlier_dispatches() {
    let mut store: CounterStore<u32> = Store::new(reducer, State { counter: 0 }, 0);
    store.dispatch(Action::Increment);
    store.subscribe(Box::new(|notice| notice.update_env(|count| count + 1)));
    assert_eq!(*store.get_env(), 0);
    store.dispatch(Action::Increment);
    assert_eq!(*store.get_env(), 1);
    assert_eq!(store.get_state().counter, 2);
}

#[test]
fn registering_changes_neither_state_nor_environment() {
    let mut store: CounterStore<u32> = Store::new(reducer, State { counter: 3 }, 8);
    store.subscribe(Box::new(|notice| notice.update_env(|count| count + 1)));
    store.apply_middleware(Box::new(|cx, action| cx.next(action)));
    assert_eq!(store.get_state().counter, 3);
    assert_eq!(*store.get_env(), 8);
}

#[test]
fn subscriber_is_shown_the_state_the_reducer_made() {
    let mut store: CounterStore<Vec<i32>> = Store::new(reducer, State { counter: 10 }, Vec::new());
    store.subscribe(Box::new(|notice| {
        let counter = notice.get_state().counter;
        notice.update_env(|mut seen| {
            seen.push(counter);
            seen
        })
    }));
    store.dispatch(Action::Increment);
    store.dispatch(Action::Increment);
    store.dispatch(Action::Decrement);
    assert_eq!(*store.get_env(), vec![11, 12, 11]);
}

#[test]
fn subscriber_can_dispatch_in_turn() {
    let mut store: CounterStore<Vec<i32>> = Store::new(reducer, State { counter: 0 }, Vec::new());
    store.subscribe(Box::new(|notice| {
        let counter = notice.get_state().counter;
        let notice = notice.update_env(|mut seen| {
            seen.push(counter);
            seen
        });
        if counter == 1 {
            notice.dispatch(Action::Increment)
        } else {
            notice
        }
    }));
    store.subscribe(Box::new(|notice| {
        let counter = notice.get_state().counter;
        notice.update_env(|mut seen| {
            seen.push(-counter);
            seen
        })
    }));
    store.dispatch(Action::Increment);
    assert_eq!(store.get_state().counter, 2);
    assert_eq!(*store.get_env(), vec![1, 2, -2, -2]);
}

#[test]
fn notice_reads_the_environment() {
    let mut store: CounterStore<Vec<i32>> = Store::new(reducer, State { counter: 0 }, vec![5]);
    store.subscribe(Box::new(|notice| {
        let last = notice.get_env()[notice.get_env().len() - 1];
        notice.update_env(|mut log| {
            log.push(last * 2);
            log
        })
    }));
    store.dispatch(Action::Increment);
    store.dispatch(Action::Increment);
    assert_eq!(*store.get_env(), vec![5, 10, 20]);
}
