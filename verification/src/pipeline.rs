//! The dispatch pipeline: the callbacks of a store, the order in which an
//! action passes through them, and the handles through which a middleware
//! reaches the layers behind it and a subscriber the store that notifies it.
//!
//! An action enters at the first middleware. Each middleware is handed a
//! [`Dispatcher`] that stands at the layer after it; behind the last one the
//! reducer runs and then each subscriber is handed a [`Notice`]. Neither
//! handle can register a callback, so the callbacks of a store stay as they
//! are for as long as a dispatch is in flight.
//!
//! Callbacks are ordinary function values. What a callback does is known to
//! the verifier only as the relation between what it is given and what it
//! hands back, so every statement below is a relation between the state and
//! environment before a step and those after it.
use vstd::prelude::*;

verus! {

/// A sequence of layers that an action can be sent through, starting at any
/// layer. The one implementation is [`Callbacks`]; the trait exists so that a
/// handle can point at the callbacks without naming their types.
pub trait Pipeline<S, A, E> {
    /// Every callback can be called on every input.
    spec fn ready(&self) -> bool;

    /// `action` can be sent in at layer `at` with state `s`: no callback
    /// that it can reach will be called on an input that it does not accept.
    spec fn admits(&self, at: int, s: S, action: A) -> bool;

    /// Sending `action` in at layer `at`, with state `s` and environment `e`,
    /// can end with state `s2` and environment `e2`.
    spec fn runs(&self, at: int, s: S, e: E, action: A, s2: S, e2: E) -> bool;

    /// Sends `action` through the layers from `at` on and returns the state
    /// and environment that result.
    fn run(&self, at: usize, state: S, env: E, action: A) -> (out: (S, E))
        requires
            self.ready() || self.admits(at as int, state, action),
        ensures
            self.runs(at as int, state, env, action, out.0, out.1),
    ;
}

/// A reference to the pipeline that a dispatch is travelling through.
#[verifier::reject_recursive_types(S)]
#[verifier::reject_recursive_types(A)]
#[verifier::reject_recursive_types(E)]
pub struct Route<'a, S, A, E> {
    pub pipeline: &'a dyn Pipeline<S, A, E>,
}

/// What a middleware is given in place of the store: the state and the
/// environment of the dispatch in flight, and the position of the layer that
/// comes after the middleware. A middleware takes it by value and hands it
/// back when it is done.
#[verifier::reject_recursive_types(S)]
#[verifier::reject_recursive_types(A)]
#[verifier::reject_recursive_types(E)]
pub struct Dispatcher<'a, S, A, E> {
    route: Route<'a, S, A, E>,
    at: usize,
    state: S,
    env: E,
}

impl<'a, S, A, E> Dispatcher<'a, S, A, E> {
    #[verifier::type_invariant]
    spec fn callable(self) -> bool {
        self.route.pipeline.ready()
    }

    /// The pipeline this handle belongs to.
    pub closed spec fn route(self) -> Route<'a, S, A, E> {
        self.route
    }

    /// The index of the layer that `next` enters.
    pub closed spec fn at(self) -> int {
        self.at as int
    }

    /// The state as the handle holds it.
    pub closed spec fn state(self) -> S {
        self.state
    }

    /// The environment as the handle holds it.
    pub closed spec fn env(self) -> E {
        self.env
    }

    /// `other` belongs to the same pipeline and stands at the same layer.
    pub open spec fn same_place(self, other: Self) -> bool {
        self.route() == other.route() && self.at() == other.at()
    }

    /// Forwarding `action` from state `s` and environment `e` can end in
    /// `s2` and `e2`.
    pub open spec fn forwards(self, s: S, e: E, action: A, s2: S, e2: E) -> bool {
        self.route().pipeline.runs(self.at(), s, e, action, s2, e2)
    }

    /// Dispatching `action` afresh from state `s` and environment `e` can end
    /// in `s2` and `e2`.
    pub open spec fn redispatches(self, s: S, e: E, action: A, s2: S, e2: E) -> bool {
        self.route().pipeline.runs(0, s, e, action, s2, e2)
    }

    fn enter(route: Route<'a, S, A, E>, at: usize, state: S, env: E) -> (cx: Self)
        requires
            route.pipeline.ready(),
        ensures
            cx.route() == route,
            cx.at() == at,
            cx.state() == state,
            cx.env() == env,
    {
        Dispatcher { route, at, state, env }
    }

    fn leave(self) -> (out: (S, E))
        ensures
            out.0 == self.state(),
            out.1 == self.env(),
    {
        (self.state, self.env)
    }

    /// The current state, read-only.
    pub fn get_state(&self) -> (state: &S)
        ensures
            *state == self.state(),
    {
        &self.state
    }

    /// The current environment, read-only.
    pub fn get_env(&self) -> (env: &E)
        ensures
            *env == self.env(),
    {
        &self.env
    }

    /// Runs the remainder of the pipeline on `action`: the next middleware,
    /// or behind the last one the reducer and then the subscribers.
    pub fn next(self, action: A) -> (out: Self)
        ensures
            out.same_place(self),
            self.forwards(self.state(), self.env(), action, out.state(), out.env()),
    {
        proof {
            use_type_invariant(&self);
        }
        let mut this = self;
        let (state, env) = this.route.pipeline.run(this.at, this.state, this.env, action);
        this.state = state;
        this.env = env;
        this
    }

    /// Dispatches `action` from the outermost layer while the outer dispatch
    /// is still in flight. The inner dispatch is complete when this returns.
    pub fn dispatch(self, action: A) -> (out: Self)
        ensures
            out.same_place(self),
            self.redispatches(self.state(), self.env(), action, out.state(), out.env()),
    {
        proof {
            use_type_invariant(&self);
        }
        let mut this = self;
        let (state, env) = this.route.pipeline.run(0, this.state, this.env, action);
        this.state = state;
        this.env = env;
        this
    }

    /// Applies `f` to the environment: the middleware's own side effect.
    /// The state is not touched.
    pub fn update_env<F: FnOnce(E) -> E>(self, f: F) -> (out: Self)
        requires
            call_requires(f, (self.env(),)),
        ensures
            out.same_place(self),
            out.state() == self.state(),
            call_ensures(f, (self.env(),), out.env()),
    {
        proof {
            use_type_invariant(&self);
        }
        let mut this = self;
        let env = f(this.env);
        this.env = env;
        this
    }
}

/// What a subscriber is given when it is notified: the state that the
/// reducer has just made and the environment as the subscribers before it
/// have left it. A subscriber takes it by value and hands it back when it is
/// done.
#[verifier::reject_recursive_types(S)]
#[verifier::reject_recursive_types(A)]
#[verifier::reject_recursive_types(E)]
pub struct Notice<'a, S, A, E> {
    route: Route<'a, S, A, E>,
    state: S,
    env: E,
}

impl<'a, S, A, E> Notice<'a, S, A, E> {
    #[verifier::type_invariant]
    spec fn callable(self) -> bool {
        self.route.pipeline.ready()
    }

    /// The pipeline this notice comes from.
    pub closed spec fn route(self) -> Route<'a, S, A, E> {
        self.route
    }

    /// The state as the notice holds it.
    pub closed spec fn state(self) -> S {
        self.state
    }

    /// The environment as the notice holds it.
    pub closed spec fn env(self) -> E {
        self.env
    }

    /// Dispatching `action` afresh from state `s` and environment `e` can end
    /// in `s2` and `e2`.
    pub open spec fn redispatches(self, s: S, e: E, action: A, s2: S, e2: E) -> bool {
        self.route().pipeline.runs(0, s, e, action, s2, e2)
    }

    fn enter(route: Route<'a, S, A, E>, state: S, env: E) -> (cx: Self)
        requires
            route.pipeline.ready(),
        ensures
            cx.route() == route,
            cx.state() == state,
            cx.env() == env,
    {
        Notice { route, state, env }
    }

    fn leave(self) -> (out: (S, E))
        ensures
            out.0 == self.state(),
            out.1 == self.env(),
    {
        (self.state, self.env)
    }

    /// The current state, read-only.
    pub fn get_state(&self) -> (state: &S)
        ensures
            *state == self.state(),
    {
        &self.state
    }

    /// The current environment, read-only.
    pub fn get_env(&self) -> (env: &E)
        ensures
            *env == self.env(),
    {
        &self.env
    }

    /// Dispatches `action` from the outermost layer while the dispatch that
    /// caused this notification is still in flight. The inner dispatch is
    /// complete when this returns.
    pub fn dispatch(self, action: A) -> (out: Self)
        ensures
            out.route() == self.route(),
            self.redispatches(self.state(), self.env(), action, out.state(), out.env()),
    {
        proof {
            use_type_invariant(&self);
        }
        let mut this = self;
        let (state, env) = this.route.pipeline.run(0, this.state, this.env, action);
        this.state = state;
        this.env = env;
        this
    }

    /// Applies `f` to the environment: the subscriber's side effect. The
    /// state is not touched.
    pub fn update_env<F: FnOnce(E) -> E>(self, f: F) -> (out: Self)
        requires
            call_requires(f, (self.env(),)),
        ensures
            out.route() == self.route(),
            out.state() == self.state(),
            call_ensures(f, (self.env(),), out.env()),
    {
        proof {
            use_type_invariant(&self);
        }
        let mut this = self;
        let env = f(this.env);
        this.env = env;
        this
    }
}

/// The reducer `r` can turn state `s` into `s2` on `action`.
pub open spec fn reduced<S, A, R: Fn(S, A) -> S>(r: R, s: S, action: A, s2: S) -> bool {
    call_ensures(r, (s, action), s2)
}

/// The subscriber `l`, given the notice `cx`, can hand back `out`.
pub open spec fn notified<'a, S, A, E, L: Fn(Notice<'a, S, A, E>) -> Notice<'a, S, A, E>>(
    l: L,
    cx: Notice<'a, S, A, E>,
    out: Notice<'a, S, A, E>,
) -> bool {
    call_ensures(l, (cx,), out)
}

/// The middleware `m`, given the handle `cx` and `action`, can hand back `out`.
pub open spec fn handled<'a, S, A, E, M: Fn(Dispatcher<'a, S, A, E>, A) -> Dispatcher<'a, S, A, E>>(
    m: M,
    cx: Dispatcher<'a, S, A, E>,
    action: A,
    out: Dispatcher<'a, S, A, E>,
) -> bool {
    call_ensures(m, (cx, action), out)
}

/// The callbacks of a store: the reducer, the subscribers in the order in
/// which they were registered, and the middleware likewise.
pub struct Callbacks<R, L, M> {
    pub reducer: R,
    pub subscribers: Vec<L>,
    pub middleware: Vec<M>,
}

impl<R, L, M> Callbacks<R, L, M> {
    /// Every subscriber and every middleware can be called on every input.
    pub open spec fn listening<S, A, E>(&self) -> bool where
        L: for <'a>Fn(Notice<'a, S, A, E>) -> Notice<'a, S, A, E>,
        M: for <'a>Fn(Dispatcher<'a, S, A, E>, A) -> Dispatcher<'a, S, A, E>,
     {
        &&& forall|i: int, cx: Notice<S, A, E>|
            0 <= i < self.subscribers@.len() ==> #[trigger] call_requires(
                self.subscribers@[i],
                (cx,),
            )
        &&& forall|i: int, cx: Dispatcher<S, A, E>, a: A|
            0 <= i < self.middleware@.len() ==> #[trigger] call_requires(
                self.middleware@[i],
                (cx, a),
            )
    }

    /// The subscriber of index `i`, notified with state `s` and environment
    /// `e`, can leave state `s2` and environment `e2`.
    pub open spec fn notified_at<S, A, E>(&self, i: int, s: S, e: E, s2: S, e2: E) -> bool where
        R: Fn(S, A) -> S,
        L: for <'a>Fn(Notice<'a, S, A, E>) -> Notice<'a, S, A, E>,
        M: for <'a>Fn(Dispatcher<'a, S, A, E>, A) -> Dispatcher<'a, S, A, E>,
     {
        exists|cx: Notice<S, A, E>, out: Notice<S, A, E>|
            cx.route() == (Route { pipeline: self }) && cx.state() == s && cx.env() == e
                && #[trigger] notified(self.subscribers@[i], cx, out) && out.state() == s2
                && out.env() == e2
    }

    /// Notifying the subscribers of the indices `from` up to `to`, each once,
    /// in registration order, each on the state and the environment that the
    /// one before it left, can turn `s` and `e` into `s2` and `e2`.
    pub open spec fn notified_range<S, A, E>(
        &self,
        from: int,
        to: int,
        s: S,
        e: E,
        s2: S,
        e2: E,
    ) -> bool where
        R: Fn(S, A) -> S,
        L: for <'a>Fn(Notice<'a, S, A, E>) -> Notice<'a, S, A, E>,
        M: for <'a>Fn(Dispatcher<'a, S, A, E>, A) -> Dispatcher<'a, S, A, E>,

        decreases to - from,
    {
        if to <= from {
            s2 == s && e2 == e
        } else {
            exists|s1: S, e1: E|
                self.notified_range(from, to - 1, s, e, s1, e1) && #[trigger] self.notified_at(
                    to - 1,
                    s1,
                    e1,
                    s2,
                    e2,
                )
        }
    }

    /// The innermost step of a dispatch: the reducer runs once on `action`
    /// and makes the state `s1`, then every subscriber is notified once, in
    /// registration order, the first of them with `s1`.
    pub open spec fn settles_via<S, A, E>(&self, s: S, e: E, action: A, s1: S, s2: S, e2: E) -> bool where
        R: Fn(S, A) -> S,
        L: for <'a>Fn(Notice<'a, S, A, E>) -> Notice<'a, S, A, E>,
        M: for <'a>Fn(Dispatcher<'a, S, A, E>, A) -> Dispatcher<'a, S, A, E>,
     {
        reduced(self.reducer, s, action, s1) && self.notified_range(
            0,
            self.subscribers@.len() as int,
            s1,
            e,
            s2,
            e2,
        )
    }

    /// The innermost step of a dispatch can turn `s` and `e` into `s2` and
    /// `e2`.
    pub open spec fn settles<S, A, E>(&self, s: S, e: E, action: A, s2: S, e2: E) -> bool where
        R: Fn(S, A) -> S,
        L: for <'a>Fn(Notice<'a, S, A, E>) -> Notice<'a, S, A, E>,
        M: for <'a>Fn(Dispatcher<'a, S, A, E>, A) -> Dispatcher<'a, S, A, E>,
     {
        exists|s1: S| #[trigger] self.settles_via(s, e, action, s1, s2, e2)
    }
}

impl<S, A, E, R, L, M> Pipeline<S, A, E> for Callbacks<R, L, M> where
    R: Fn(S, A) -> S,
    L: for <'a>Fn(Notice<'a, S, A, E>) -> Notice<'a, S, A, E>,
    M: for <'a>Fn(Dispatcher<'a, S, A, E>, A) -> Dispatcher<'a, S, A, E>,
 {
    open spec fn ready(&self) -> bool {
        &&& self.listening::<S, A, E>()
        &&& forall|s: S, a: A| #[trigger] call_requires(self.reducer, (s, a))
    }

    /// Where no middleware and no subscriber can be reached, only the
    /// reducer call at hand has to be accepted. Otherwise what reaches the
    /// reducer is up to them, so the reducer has to accept everything.
    open spec fn admits(&self, at: int, s: S, action: A) -> bool {
        &&& self.listening::<S, A, E>()
        &&& if 0 <= at < self.middleware@.len() || self.subscribers@.len() > 0 {
            forall|t: S, a: A| #[trigger] call_requires(self.reducer, (t, a))
        } else {
            call_requires(self.reducer, (s, action))
        }
    }

    /// At a middleware, the outcome is whatever that middleware hands back
    /// when given a handle that stands at the layer after it. Behind the
    /// last middleware, the outcome is that of the innermost step.
    open spec fn runs(&self, at: int, s: S, e: E, action: A, s2: S, e2: E) -> bool {
        if 0 <= at < self.middleware@.len() {
            exists|cx: Dispatcher<S, A, E>, out: Dispatcher<S, A, E>|
                cx.route() == (Route { pipeline: self }) && cx.at() == at + 1 && cx.state() == s
                    && cx.env() == e && #[trigger] handled(self.middleware@[at], cx, action, out)
                    && out.state() == s2 && out.env() == e2
        } else {
            self.settles(s, e, action, s2, e2)
        }
    }

    fn run(&self, at: usize, state: S, env: E, action: A) -> (out: (S, E)) {
        let ghost old_state = state;
        if at < self.middleware.len() {
            let cx = Dispatcher::enter(Route { pipeline: self }, at + 1, state, env);
            let out = (self.middleware[at])(cx, action);
            assert(handled(self.middleware@[at as int], cx, action, out));
            out.leave()
        } else {
            let made = (self.reducer)(state, action);
            let ghost first = (made, env);
            let mut state = made;
            let mut env = env;
            let n: usize = self.subscribers.len();
            let mut i: usize = 0;
            while i < n
                invariant
                    i <= n,
                    n == self.subscribers@.len(),
                    n > 0 ==> self.ready(),
                    self.notified_range(0, i as int, first.0, first.1, state, env),
                decreases n - i,
            {
                let ghost before = (state, env);
                let cx = Notice::enter(Route { pipeline: self }, state, env);
                let out = (self.subscribers[i])(cx);
                proof {
                    assert(notified(self.subscribers@[i as int], cx, out));
                    assert(self.notified_at(i as int, before.0, before.1, out.state(), out.env()));
                    assert(self.notified_range(0, i + 1 - 1, first.0, first.1, before.0, before.1));
                }
                let (next_state, next_env) = out.leave();
                state = next_state;
                env = next_env;
                i += 1;
            }
            proof {
                assert(self.settles_via(old_state, first.1, action, first.0, state, env));
            }
            (state, env)
        }
    }
}

} // verus!
