use redux::{reducer, Action, Dispatcher, Notice, State, Store};

type Reducer = fn(State, Action) -> State;
type Log = Vec<String>;
type Handle<'a, E> = Dispatcher<'a, State, Action, E>;
type Subscriber<E> =
    Box<dyn for<'a> Fn(Notice<'a, State, Action, E>) -> Notice<'a, State, Action, E>>;
type Middleware<E> = Box<dyn for<'a> Fn(Handle<'a, E>, Action) -> Handle<'a, E>>;
type CounterStore<E> = Store<State, Action, E, Reducer, Subscriber<E>, Middleware<E>>;

fn note(mut log: Log, entry: &str) -> Log {
    log.push(entry.to_string());
    log
}

fn logging_store() -> CounterStore<Log> {
    let mut store: CounterStore<Log> = Store::new(reducer, State { counter: 0 }, Vec::new());
    store.subscribe(Box::new(|notice| notice.update_env(|log| note(log, "notified"))));
    store
}

fn wrapper(name: &'static str) -> Middleware<Log> {
    Box::new(move |cx, action| {
        let cx = cx.update_env(|log| note(log, &format!("{name} before")));
        let cx = cx.next(action);
        cx.update_env(|log| note(log, &format!("{name} after")))
    })
}

#[test]
fn forwarding_middleware_changes_nothing() {
    let mut store = logging_store();
    store.apply_middleware(Box::new(|cx, action| cx.next(action)));
    store.dispatch(Action::Increment);
    assert_eq!(store.get_state().counter, 1);
    assert_eq!(*store.get_env(), vec!["notified"]);
}

#[test]
fn middleware_wrap_in_registration_order() {
    let mut store = logging_store();
    store.apply_middleware(wrapper("m1"));
    store.apply_middleware(wrapper("m2"));
    store.dispatch(Action::Increment);
    assert_eq!(
        *store.get_env(),
        vec!["m1 before", "m2 before", "notified", "m2 after", "m1 after"]
    );
    assert_eq!(store.get_state().counter, 1);
}

#[test]
fn three_middleware_wrap_in_registration_order() {
    let mut store = logging_store();
    store.apply_middleware(wrapper("m1"));
    store.apply_middleware(wrapper("m2"));
    store.apply_middleware(wrapper("m3"));
    store.dispatch(Action::Decrement);
    assert_eq!(
        *store.get_env(),
        vec![
            "m1 before",
            "m2 before",
            "m3 before",
            "notified",
            "m3 after",
            "m2 after",
            "m1 after"
        ]
    );
    assert_eq!(store.get_state().counter, -1);
}

#[test]
fn middleware_that_never_forwards_drops_the_action() {
    let mut store = logging_store();
    store.apply_middleware(Box::new(|cx, _action| cx));
    store.dispatch(Action::Increment);
    store.dispatch(Action::Decrement);
    assert_eq!(store.get_state().counter, 0);
    assert!(store.get_env().is_empty());
}

#[test]
fn inner_middleware_that_never_forwards_still_lets_the_outer_run() {
    let mut store = logging_store();
    store.apply_middleware(wrapper("m1"));
    store.apply_middleware(Box::new(|cx, _action| cx));
    store.apply_middleware(wrapper("m3"));
    store.dispatch(Action::Increment);
    assert_eq!(store.get_state().counter, 0);
    assert_eq!(*store.get_env(), vec!["m1 before", "m1 after"]);
}

#[test]
fn middleware_that_forwards_twice_repeats_reducer_and_notification() {
    let mut store = logging_store();
    store.apply_middleware(Box::new(|cx, action| {
        let again = match action {
            Action::Increment => Action::Increment,
            Action::Decrement => Action::Decrement,
        };
        cx.next(action).next(again)
    }));
    store.dispatch(Action::Increment);
    assert_eq!(store.get_state().counter, 2);
    assert_eq!(*store.get_env(), vec!["notified", "notified"]);
}

#[test]
fn middleware_can_forward_another_action() {
    let mut store = logging_store();
    store.apply_middleware(Box::new(|cx, _action| cx.next(Action::Decrement)));
    store.dispatch(Action::Increment);
    assert_eq!(store.get_state().counter, -1);
    assert_eq!(*store.get_env(), vec!["notified"]);
}

#[test]
fn reentrant_dispatch_completes_before_next_resumes() {
    let mut store: CounterStore<Vec<i32>> = Store::new(reducer, State { counter: 0 }, Vec::new());
    store.subscribe(Box::new(|notice| {
        notice.update_env(|mut seen| {
            seen.push(i32::MAX);
            seen
        })
    }));
    store.apply_middleware(Box::new(|cx, action| {
        let cx = match action {
            Action::Decrement => {
                let cx = cx.dispatch(Action::Increment);
                let counter = cx.get_state().counter;
                cx.update_env(|mut seen| {
                    seen.push(counter);
                    seen
                })
            }
            Action::Increment => cx,
        };
        cx.next(action)
    }));
    store.dispatch(Action::Decrement);
    assert_eq!(store.get_state().counter, 0);
    assert_eq!(*store.get_env(), vec![i32::MAX, 1, i32::MAX]);
}

#[test]
fn reentrant_dispatch_passes_every_layer_again() {
    let mut store = logging_store();
    store.apply_middleware(wrapper("outer"));
    store.apply_middleware(Box::new(|cx, action| {
        let cx = match action {
            Action::Decrement => cx.dispatch(Action::Increment),
            Action::Increment => cx,
        };
        cx.next(action)
    }));
    store.dispatch(Action::Decrement);
    assert_eq!(store.get_state().counter, 0);
    assert_eq!(
        *store.get_env(),
        vec![
            "outer before",
            "outer before",
            "notified",
            "outer after",
            "notified",
            "outer after"
        ]
    );
}

#[test]
fn middleware_applies_to_later_dispatches_only() {
    let mut store = logging_store();
    store.dispatch(Action::Increment);
    store.apply_middleware(Box::new(|cx, _action| cx));
    store.dispatch(Action::Increment);
    assert_eq!(store.get_state().counter, 1);
    assert_eq!(*store.get_env(), vec!["notified"]);
}

#[test]
fn handle_reads_state_and_environment() {
    let mut store: CounterStore<Vec<i32>> = Store::new(reducer, State { counter: 4 }, vec![7]);
    store.apply_middleware(Box::new(|cx, action| {
        let before = cx.get_state().counter;
        let first = cx.get_env()[0];
        let cx = cx.next(action);
        let after = cx.get_state().counter;
        cx.update_env(move |_| vec![first, before, after])
    }));
    store.dispatch(Action::Increment);
    assert_eq!(*store.get_env(), vec![7, 4, 5]);
}
