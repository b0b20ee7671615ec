//! What holds of every store, whatever its callbacks: proved from the
//! contracts of the store and of the pipeline.
//!
//! Each law speaks of a store `before` a dispatch and the store `after` it,
//! tied together by [`Store::dispatches`], which is what
//! [`Store::dispatch`] ensures.
use crate::pipeline::{handled, notified, reduced, Callbacks, Dispatcher, Notice, Pipeline, Route};
use crate::store::Store;
use vstd::prelude::*;

verus! {

/// Reading is idempotent: what [`Store::get_state`] returns is fixed by the
/// store, so two reads with no dispatch between them return equal states,
/// and a read, which only borrows the store, leaves it as it is.
pub proof fn reads_agree<S, A, E, R, L, M>(store: Store<S, A, E, R, L, M>, first: S, second: S) where
    R: Fn(S, A) -> S,
    L: for <'a>Fn(Notice<'a, S, A, E>) -> Notice<'a, S, A, E>,
    M: for <'a>Fn(Dispatcher<'a, S, A, E>, A) -> Dispatcher<'a, S, A, E>,

    requires
        first == store.state(),
        second == store.state(),
    ensures
        first == second,
{
}

/// A subscriber that leaves the state alone: it dispatches nothing, or
/// nothing that changes the state.
pub open spec fn quiet<S, A, E, L>(l: L) -> bool where
    L: for <'a>Fn(Notice<'a, S, A, E>) -> Notice<'a, S, A, E>,
 {
    forall|cx: Notice<S, A, E>, out: Notice<S, A, E>| #[trigger]
        notified(l, cx, out) ==> out.state() == cx.state()
}

/// Every subscriber of `ls` is quiet.
pub open spec fn all_quiet<S, A, E, L>(ls: Seq<L>) -> bool where
    L: for <'a>Fn(Notice<'a, S, A, E>) -> Notice<'a, S, A, E>,
 {
    forall|i: int| 0 <= i < ls.len() ==> quiet::<S, A, E, L>(#[trigger] ls[i])
}

/// Notifying quiet subscribers changes the environment only.
pub proof fn quiet_subscribers_keep_state<S, A, E, R, L, M>(
    callbacks: Callbacks<R, L, M>,
    from: int,
    to: int,
    s: S,
    e: E,
    s2: S,
    e2: E,
) where
    R: Fn(S, A) -> S,
    L: for <'a>Fn(Notice<'a, S, A, E>) -> Notice<'a, S, A, E>,
    M: for <'a>Fn(Dispatcher<'a, S, A, E>, A) -> Dispatcher<'a, S, A, E>,

    requires
        0 <= from,
        to <= callbacks.subscribers@.len(),
        all_quiet::<S, A, E, L>(callbacks.subscribers@),
        callbacks.notified_range(from, to, s, e, s2, e2),
    ensures
        s2 == s,
    decreases to - from,
{
    if from < to {
        let (s1, e1) = choose|s1: S, e1: E|
            callbacks.notified_range(from, to - 1, s, e, s1, e1) && #[trigger] callbacks.notified_at(
                to - 1,
                s1,
                e1,
                s2,
                e2,
            );
        quiet_subscribers_keep_state(callbacks, from, to - 1, s, e, s1, e1);
        assert(quiet::<S, A, E, L>(callbacks.subscribers@[to - 1]));
    }
}

/// With no middleware registered, a dispatch is the reducer followed by the
/// subscribers and nothing else: the reducer runs once on the old state and
/// the action, then each subscriber is notified once, in registration order,
/// the first of them with the state that the reducer made. The callbacks are
/// the same as before.
pub proof fn dispatch_without_middleware<S, A, E, R, L, M>(
    before: Store<S, A, E, R, L, M>,
    action: A,
    after: Store<S, A, E, R, L, M>,
) where
    R: Fn(S, A) -> S,
    L: for <'a>Fn(Notice<'a, S, A, E>) -> Notice<'a, S, A, E>,
    M: for <'a>Fn(Dispatcher<'a, S, A, E>, A) -> Dispatcher<'a, S, A, E>,

    requires
        before.middleware().len() == 0,
        before.dispatches(action, after),
    ensures
        exists|s1: S|
            reduced(before.reducer(), before.state(), action, s1)
                && #[trigger] before.callbacks().notified_range(
                0,
                before.subscribers().len() as int,
                s1,
                before.env(),
                after.state(),
                after.env(),
            ),
        after.callbacks() == before.callbacks(),
{
    let c = before.callbacks();
    let s1 = choose|s1: S| #[trigger]
        c.settles_via(before.state(), before.env(), action, s1, after.state(), after.env());
    assert(reduced(before.reducer(), before.state(), action, s1) && c.notified_range(
        0,
        before.subscribers().len() as int,
        s1,
        before.env(),
        after.state(),
        after.env(),
    ));
}

/// With no middleware registered and subscribers that leave the state
/// alone, the state after a dispatch is exactly what the reducer makes of
/// the old state and the action. With no subscribers at all, the
/// environment is unchanged as well.
pub proof fn dispatch_reduces<S, A, E, R, L, M>(
    before: Store<S, A, E, R, L, M>,
    action: A,
    after: Store<S, A, E, R, L, M>,
) where
    R: Fn(S, A) -> S,
    L: for <'a>Fn(Notice<'a, S, A, E>) -> Notice<'a, S, A, E>,
    M: for <'a>Fn(Dispatcher<'a, S, A, E>, A) -> Dispatcher<'a, S, A, E>,

    requires
        before.middleware().len() == 0,
        all_quiet::<S, A, E, L>(before.subscribers()),
        before.dispatches(action, after),
    ensures
        reduced(before.reducer(), before.state(), action, after.state()),
        before.callbacks().notified_range(
            0,
            before.subscribers().len() as int,
            after.state(),
            before.env(),
            after.state(),
            after.env(),
        ),
        before.subscribers().len() == 0 ==> after.env() == before.env(),
        after.callbacks() == before.callbacks(),
{
    let c = before.callbacks();
    let s1 = choose|s1: S| #[trigger]
        c.settles_via(before.state(), before.env(), action, s1, after.state(), after.env());
    quiet_subscribers_keep_state(
        c,
        0,
        before.subscribers().len() as int,
        s1,
        before.env(),
        after.state(),
        after.env(),
    );
}

/// A middleware that drops every action: it forwards nothing and
/// dispatches nothing, and all it does is to apply `own` to the environment.
pub open spec fn swallows<S, A, E, M>(m: M, own: spec_fn(E) -> E) -> bool where
    M: for <'a>Fn(Dispatcher<'a, S, A, E>, A) -> Dispatcher<'a, S, A, E>,
 {
    forall|cx: Dispatcher<S, A, E>, a: A, out: Dispatcher<S, A, E>| #[trigger]
        handled(m, cx, a, out) ==> out.state() == cx.state() && out.env() == own(cx.env())
}

/// Where the outermost middleware forwards nothing, a dispatch reaches
/// neither the reducer nor any subscriber: the state stays as it was, and
/// the environment changes by nothing but what that middleware itself does
/// to it.
pub proof fn dispatch_short_circuit<S, A, E, R, L, M>(
    before: Store<S, A, E, R, L, M>,
    action: A,
    after: Store<S, A, E, R, L, M>,
    own: spec_fn(E) -> E,
) where
    R: Fn(S, A) -> S,
    L: for <'a>Fn(Notice<'a, S, A, E>) -> Notice<'a, S, A, E>,
    M: for <'a>Fn(Dispatcher<'a, S, A, E>, A) -> Dispatcher<'a, S, A, E>,

    requires
        before.middleware().len() > 0,
        swallows::<S, A, E, M>(before.middleware()[0], own),
        before.dispatches(action, after),
    ensures
        after.state() == before.state(),
        after.env() == own(before.env()),
        after.callbacks() == before.callbacks(),
{
}

/// The notifications happen one after the other in registration order: at
/// every cut `k` of a range of subscribers, those before `k` have all been
/// notified, leaving some state and environment, before the rest start on
/// these.
pub proof fn notified_range_split<S, A, E, R, L, M>(
    callbacks: Callbacks<R, L, M>,
    from: int,
    k: int,
    to: int,
    s: S,
    e: E,
    s2: S,
    e2: E,
) where
    R: Fn(S, A) -> S,
    L: for <'a>Fn(Notice<'a, S, A, E>) -> Notice<'a, S, A, E>,
    M: for <'a>Fn(Dispatcher<'a, S, A, E>, A) -> Dispatcher<'a, S, A, E>,

    requires
        from <= k <= to,
        callbacks.notified_range(from, to, s, e, s2, e2),
    ensures
        exists|s1: S, e1: E| #[trigger]
            callbacks.notified_range(from, k, s, e, s1, e1) && callbacks.notified_range(
                k,
                to,
                s1,
                e1,
                s2,
                e2,
            ),
    decreases to - from,
{
    if k == to {
        assert(callbacks.notified_range(from, k, s, e, s2, e2) && callbacks.notified_range(
            k,
            to,
            s2,
            e2,
            s2,
            e2,
        ));
    } else {
        let (sl, el) = choose|sl: S, el: E|
            callbacks.notified_range(from, to - 1, s, e, sl, el) && #[trigger] callbacks.notified_at(
                to - 1,
                sl,
                el,
                s2,
                e2,
            );
        notified_range_split(callbacks, from, k, to - 1, s, e, sl, el);
        let (s1, e1) = choose|s1: S, e1: E| #[trigger]
            callbacks.notified_range(from, k, s, e, s1, e1) && callbacks.notified_range(
                k,
                to - 1,
                s1,
                e1,
                sl,
                el,
            );
        assert(callbacks.notified_range(k, to, s1, e1, s2, e2));
        assert(callbacks.notified_range(from, k, s, e, s1, e1) && callbacks.notified_range(
            k,
            to,
            s1,
            e1,
            s2,
            e2,
        ));
    }
}

/// With subscribers registered in the order first, second, a dispatch
/// notifies the first, and the second then works on the state and the
/// environment that the first has left.
pub proof fn first_subscriber_before_second<S, A, E, R, L, M>(
    before: Store<S, A, E, R, L, M>,
    action: A,
    after: Store<S, A, E, R, L, M>,
) where
    R: Fn(S, A) -> S,
    L: for <'a>Fn(Notice<'a, S, A, E>) -> Notice<'a, S, A, E>,
    M: for <'a>Fn(Dispatcher<'a, S, A, E>, A) -> Dispatcher<'a, S, A, E>,

    requires
        before.middleware().len() == 0,
        before.subscribers().len() == 2,
        before.dispatches(action, after),
    ensures
        exists|s1: S, sm: S, em: E|
            reduced(before.reducer(), before.state(), action, s1)
                && #[trigger] before.callbacks().notified_at(0, s1, before.env(), sm, em)
                && #[trigger] before.callbacks().notified_at(1, sm, em, after.state(), after.env()),
{
    let c = before.callbacks();
    let e = before.env();
    let s1 = choose|s1: S| #[trigger]
        c.settles_via(before.state(), e, action, s1, after.state(), after.env());
    let (sm, em) = choose|sm: S, em: E|
        c.notified_range(0, 1, s1, e, sm, em) && #[trigger] c.notified_at(
            1,
            sm,
            em,
            after.state(),
            after.env(),
        );
    let (s0, e0) = choose|s0: S, e0: E|
        c.notified_range(0, 0, s1, e, s0, e0) && #[trigger] c.notified_at(0, s0, e0, sm, em);
    assert(s0 == s1 && e0 == e);
    assert(reduced(before.reducer(), before.state(), action, s1) && c.notified_at(0, s1, e, sm, em)
        && c.notified_at(1, sm, em, after.state(), after.env()));
}

/// `g` applied `n` times to `e`.
pub open spec fn repeated<E>(g: spec_fn(E) -> E, n: nat, e: E) -> E
    decreases n,
{
    if n == 0 {
        e
    } else {
        g(repeated(g, (n - 1) as nat, e))
    }
}

/// `stores` is a history of dispatches: each store but the first is what a
/// dispatch of the action of the same index left of the store before it.
pub open spec fn history<S, A, E, R, L, M>(
    stores: Seq<Store<S, A, E, R, L, M>>,
    actions: Seq<A>,
) -> bool where
    R: Fn(S, A) -> S,
    L: for <'a>Fn(Notice<'a, S, A, E>) -> Notice<'a, S, A, E>,
    M: for <'a>Fn(Dispatcher<'a, S, A, E>, A) -> Dispatcher<'a, S, A, E>,
 {
    &&& stores.len() == actions.len() + 1
    &&& forall|i: int|
        0 <= i < actions.len() ==> (#[trigger] stores[i]).dispatches(actions[i], stores[i + 1])
}

/// A subscriber whose whole effect is to apply `g` to the environment.
pub open spec fn tallies<S, A, E, L>(l: L, g: spec_fn(E) -> E) -> bool where
    L: for <'a>Fn(Notice<'a, S, A, E>) -> Notice<'a, S, A, E>,
 {
    forall|cx: Notice<S, A, E>, out: Notice<S, A, E>| #[trigger]
        notified(l, cx, out) ==> out.state() == cx.state() && out.env() == g(cx.env())
}

/// One subscriber, no middleware: a dispatch notifies the subscriber exactly
/// once, and `n` dispatches notify it exactly `n` times. With a subscriber
/// whose effect is to apply `g` to the environment, the environment after
/// `n` dispatches is `g` applied `n` times to the first one.
pub proof fn single_subscriber_notified_each_time<S, A, E, R, L, M>(
    stores: Seq<Store<S, A, E, R, L, M>>,
    actions: Seq<A>,
    g: spec_fn(E) -> E,
) where
    R: Fn(S, A) -> S,
    L: for <'a>Fn(Notice<'a, S, A, E>) -> Notice<'a, S, A, E>,
    M: for <'a>Fn(Dispatcher<'a, S, A, E>, A) -> Dispatcher<'a, S, A, E>,

    requires
        history(stores, actions),
        stores[0].middleware().len() == 0,
        stores[0].subscribers().len() == 1,
        tallies::<S, A, E, L>(stores[0].subscribers()[0], g),
    ensures
        stores.last().callbacks() == stores[0].callbacks(),
        stores.last().env() == repeated(g, actions.len(), stores[0].env()),
    decreases actions.len(),
{
    if actions.len() > 0 {
        let n: int = actions.len() - 1;
        single_subscriber_notified_each_time(stores.drop_last(), actions.drop_last(), g);
        let before = stores[n];
        let after = stores[n + 1];
        assert(before == stores.drop_last().last());
        assert(before.dispatches(actions[n], after));
        let c = before.callbacks();
        let e = before.env();
        let s1 = choose|s1: S| #[trigger]
            c.settles_via(before.state(), e, actions[n], s1, after.state(), after.env());
        let (s0, e0) = choose|s0: S, e0: E|
            c.notified_range(0, 0, s1, e, s0, e0) && #[trigger] c.notified_at(
                0,
                s0,
                e0,
                after.state(),
                after.env(),
            );
        assert(e0 == e);
        assert(after.env() == g(e));
    }
}

/// A middleware that wraps the rest of the pipeline: it applies `enter` to
/// the environment, forwards the action it was given once, and applies
/// `leave` to the environment that comes back.
pub open spec fn wraps<S, A, E, M>(m: M, enter: spec_fn(E) -> E, leave: spec_fn(E) -> E) -> bool where
    M: for <'a>Fn(Dispatcher<'a, S, A, E>, A) -> Dispatcher<'a, S, A, E>,
 {
    forall|cx: Dispatcher<S, A, E>, a: A, out: Dispatcher<S, A, E>| #[trigger]
        handled(m, cx, a, out) ==> exists|inner: E| #[trigger]
            cx.forwards(cx.state(), enter(cx.env()), a, out.state(), inner) && out.env() == leave(
                inner,
            )
}

/// The environment after the layers from `at` inward have each applied
/// their `enter`, outermost first.
pub open spec fn entered<E>(enters: Seq<spec_fn(E) -> E>, at: int, e: E) -> E
    decreases enters.len() - at,
{
    if 0 <= at < enters.len() {
        entered(enters, at + 1, enters[at](e))
    } else {
        e
    }
}

/// The environment after the layers from `at` inward have each applied
/// their `leave`, innermost first.
pub open spec fn left<E>(leaves: Seq<spec_fn(E) -> E>, at: int, e: E) -> E
    decreases leaves.len() - at,
{
    if 0 <= at < leaves.len() {
        leaves[at](left(leaves, at + 1, e))
    } else {
        e
    }
}

/// Onion order, from any layer inward: where every middleware wraps, the
/// layers enter in registration order, the reducer and the subscribers run
/// once on what they have made of the environment, and the layers leave in
/// the opposite order.
pub proof fn wrapped_runs<S, A, E, R, L, M>(
    callbacks: Callbacks<R, L, M>,
    enters: Seq<spec_fn(E) -> E>,
    leaves: Seq<spec_fn(E) -> E>,
    at: int,
    s: S,
    e: E,
    action: A,
    s2: S,
    e2: E,
) where
    R: Fn(S, A) -> S,
    L: for <'a>Fn(Notice<'a, S, A, E>) -> Notice<'a, S, A, E>,
    M: for <'a>Fn(Dispatcher<'a, S, A, E>, A) -> Dispatcher<'a, S, A, E>,

    requires
        0 <= at <= callbacks.middleware@.len(),
        enters.len() == callbacks.middleware@.len(),
        leaves.len() == callbacks.middleware@.len(),
        forall|i: int|
            0 <= i < callbacks.middleware@.len() ==> wraps::<S, A, E, M>(
                #[trigger] callbacks.middleware@[i],
                enters[i],
                leaves[i],
            ),
        callbacks.runs(at, s, e, action, s2, e2),
    ensures
        exists|inner: E| #[trigger]
            callbacks.settles(s, entered(enters, at, e), action, s2, inner) && e2 == left(
                leaves,
                at,
                inner,
            ),
    decreases callbacks.middleware@.len() - at,
{
    if at < callbacks.middleware@.len() {
        let m = callbacks.middleware@[at];
        let (cx, out) = choose|cx: Dispatcher<S, A, E>, out: Dispatcher<S, A, E>|
            cx.route() == (Route { pipeline: &callbacks }) && cx.at() == at + 1 && cx.state() == s
                && cx.env() == e && #[trigger] handled(m, cx, action, out) && out.state() == s2
                && out.env() == e2;
        assert(wraps::<S, A, E, M>(m, enters[at], leaves[at]));
        let mid = choose|mid: E| #[trigger]
            cx.forwards(cx.state(), enters[at](cx.env()), action, out.state(), mid) && out.env()
                == leaves[at](mid);
        assert(callbacks.runs(at + 1, s, enters[at](e), action, s2, mid));
        wrapped_runs(callbacks, enters, leaves, at + 1, s, enters[at](e), action, s2, mid);
        let inner = choose|inner: E| #[trigger]
            callbacks.settles(s, entered(enters, at + 1, enters[at](e)), action, s2, inner) && mid
                == left(leaves, at + 1, inner);
        assert(callbacks.settles(s, entered(enters, at, e), action, s2, inner) && e2 == left(
            leaves,
            at,
            inner,
        ));
    } else {
        assert(callbacks.settles(s, entered(enters, at, e), action, s2, e2) && e2 == left(
            leaves,
            at,
            e2,
        ));
    }
}

/// Onion order for a whole dispatch: where every middleware wraps, the
/// layers enter in registration order, the reducer and the subscribers run
/// once on what they have made of the environment, and the layers leave in
/// the opposite order.
pub proof fn dispatch_through_wrappers<S, A, E, R, L, M>(
    before: Store<S, A, E, R, L, M>,
    action: A,
    after: Store<S, A, E, R, L, M>,
    enters: Seq<spec_fn(E) -> E>,
    leaves: Seq<spec_fn(E) -> E>,
) where
    R: Fn(S, A) -> S,
    L: for <'a>Fn(Notice<'a, S, A, E>) -> Notice<'a, S, A, E>,
    M: for <'a>Fn(Dispatcher<'a, S, A, E>, A) -> Dispatcher<'a, S, A, E>,

    requires
        enters.len() == before.middleware().len(),
        leaves.len() == before.middleware().len(),
        forall|i: int|
            0 <= i < before.middleware().len() ==> wraps::<S, A, E, M>(
                #[trigger] before.middleware()[i],
                enters[i],
                leaves[i],
            ),
        before.dispatches(action, after),
    ensures
        exists|inner: E| #[trigger]
            before.callbacks().settles(
                before.state(),
                entered(enters, 0, before.env()),
                action,
                after.state(),
                inner,
            ) && after.env() == left(leaves, 0, inner),
{
    wrapped_runs(
        before.callbacks(),
        enters,
        leaves,
        0,
        before.state(),
        before.env(),
        action,
        after.state(),
        after.env(),
    );
}

/// Onion order for two middleware: with `m1` registered before `m2`, a
/// dispatch applies the `enter` of `m1`, then that of `m2`, runs the reducer
/// and the subscribers once, then applies the `leave` of `m2` and last that
/// of `m1`.
pub proof fn dispatch_onion<S, A, E, R, L, M>(
    before: Store<S, A, E, R, L, M>,
    action: A,
    after: Store<S, A, E, R, L, M>,
    enter1: spec_fn(E) -> E,
    leave1: spec_fn(E) -> E,
    enter2: spec_fn(E) -> E,
    leave2: spec_fn(E) -> E,
) where
    R: Fn(S, A) -> S,
    L: for <'a>Fn(Notice<'a, S, A, E>) -> Notice<'a, S, A, E>,
    M: for <'a>Fn(Dispatcher<'a, S, A, E>, A) -> Dispatcher<'a, S, A, E>,

    requires
        before.middleware().len() == 2,
        wraps::<S, A, E, M>(before.middleware()[0], enter1, leave1),
        wraps::<S, A, E, M>(before.middleware()[1], enter2, leave2),
        before.dispatches(action, after),
    ensures
        exists|inner: E| #[trigger]
            before.callbacks().settles(
                before.state(),
                enter2(enter1(before.env())),
                action,
                after.state(),
                inner,
            ) && after.env() == leave1(leave2(inner)),
{
    let enters = seq![enter1, enter2];
    let leaves = seq![leave1, leave2];
    let e = before.env();
    dispatch_through_wrappers(before, action, after, enters, leaves);
    let inner = choose|inner: E| #[trigger]
        before.callbacks().settles(before.state(), entered(enters, 0, e), action, after.state(), inner)
            && after.env() == left(leaves, 0, inner);
    assert(entered(enters, 0, e) == enter2(enter1(e))) by {
        reveal_with_fuel(entered, 3);
    }
    assert(left(leaves, 0, inner) == leave1(leave2(inner))) by {
        reveal_with_fuel(left, 3);
    }
    assert(before.callbacks().settles(
        before.state(),
        enter2(enter1(before.env())),
        action,
        after.state(),
        inner,
    ) && after.env() == leave1(leave2(inner)));
}

/// A middleware that, given an action that `relays` picks out, first
/// dispatches `inner` afresh and then forwards the action it was given, and
/// that forwards every other action as it is.
pub open spec fn dispatches_first<S, A, E, M>(m: M, relays: spec_fn(A) -> bool, inner: A) -> bool where
    M: for <'a>Fn(Dispatcher<'a, S, A, E>, A) -> Dispatcher<'a, S, A, E>,
 {
    forall|cx: Dispatcher<S, A, E>, a: A, out: Dispatcher<S, A, E>| #[trigger]
        handled(m, cx, a, out) ==> if relays(a) {
            exists|s1: S, e1: E| #[trigger]
                cx.redispatches(cx.state(), cx.env(), inner, s1, e1) && cx.forwards(
                    s1,
                    e1,
                    a,
                    out.state(),
                    out.env(),
                )
        } else {
            cx.forwards(cx.state(), cx.env(), a, out.state(), out.env())
        }
}

/// A dispatch from inside a middleware is complete before the middleware
/// goes on: with one middleware that dispatches `inner` first, the reducer
/// and the subscribers run on `inner`, and only then, on the state and the
/// environment that this left, on the action that was dispatched.
pub proof fn reentrant_dispatch_order<S, A, E, R, L, M>(
    before: Store<S, A, E, R, L, M>,
    action: A,
    after: Store<S, A, E, R, L, M>,
    relays: spec_fn(A) -> bool,
    inner: A,
) where
    R: Fn(S, A) -> S,
    L: for <'a>Fn(Notice<'a, S, A, E>) -> Notice<'a, S, A, E>,
    M: for <'a>Fn(Dispatcher<'a, S, A, E>, A) -> Dispatcher<'a, S, A, E>,

    requires
        before.middleware().len() == 1,
        dispatches_first::<S, A, E, M>(before.middleware()[0], relays, inner),
        relays(action),
        !relays(inner),
        before.dispatches(action, after),
    ensures
        exists|s1: S, e1: E| #[trigger]
            before.callbacks().settles(before.state(), before.env(), inner, s1, e1)
                && before.callbacks().settles(s1, e1, action, after.state(), after.env()),
{
    let c = before.callbacks();
    let m = c.middleware@[0];
    let s = before.state();
    let e = before.env();
    let (cx, out) = choose|cx: Dispatcher<S, A, E>, out: Dispatcher<S, A, E>|
        cx.route() == (Route { pipeline: &c }) && cx.at() == 1 && cx.state() == s && cx.env() == e
            && #[trigger] handled(m, cx, action, out) && out.state() == after.state() && out.env()
            == after.env();
    let (s1, e1) = choose|s1: S, e1: E| #[trigger]
        cx.redispatches(cx.state(), cx.env(), inner, s1, e1) && cx.forwards(
            s1,
            e1,
            action,
            out.state(),
            out.env(),
        );
    assert(c.runs(0, s, e, inner, s1, e1));
    let (cx2, out2) = choose|cx2: Dispatcher<S, A, E>, out2: Dispatcher<S, A, E>|
        cx2.route() == (Route { pipeline: &c }) && cx2.at() == 1 && cx2.state() == s && cx2.env()
            == e && #[trigger] handled(m, cx2, inner, out2) && out2.state() == s1 && out2.env()
            == e1;
    assert(c.runs(1, s, e, inner, s1, e1));
    assert(c.runs(1, s1, e1, action, after.state(), after.env()));
    assert(c.settles(s, e, inner, s1, e1) && c.settles(s1, e1, action, after.state(), after.env()));
}

} // verus!
