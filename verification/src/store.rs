//! The store: the single owner of the state, of the environment that
//! subscribers and middleware act on, and of the registered callbacks.
use crate::pipeline::{Callbacks, Dispatcher, Notice, Pipeline};
use core::marker::PhantomData;
use vstd::prelude::*;

verus! {

/// A state container that changes only through dispatched actions.
///
/// `S` is the state and `A` the action. `E` is the environment: whatever a
/// subscriber or a middleware changes besides the state, held by the store so
/// that the effect of a notification is a value that can be read back. `R` is
/// the reducer, `L` the type of the subscribers and `M` that of the
/// middleware.
pub struct Store<S, A, E, R, L, M> {
    callbacks: Callbacks<R, L, M>,
    state: Option<S>,
    env: Option<E>,
    action: PhantomData<A>,
}

impl<S, A, E, R, L, M> Store<S, A, E, R, L, M> where
    R: Fn(S, A) -> S,
    L: for <'a>Fn(Notice<'a, S, A, E>) -> Notice<'a, S, A, E>,
    M: for <'a>Fn(Dispatcher<'a, S, A, E>, A) -> Dispatcher<'a, S, A, E>,
 {
    /// The store holds a state and an environment, and each registered
    /// subscriber and middleware can be called on every input. This holds
    /// of a store from its creation on. While a dispatch is in flight the
    /// state and the environment travel with the action, so a callback that
    /// panics takes them with it.
    pub closed spec fn wf(&self) -> bool {
        self.state is Some && self.env is Some && self.callbacks.listening::<S, A, E>()
    }

    /// `action` can be dispatched: the reducer accepts it in the current
    /// state or, where subscribers or middleware are registered, which may
    /// dispatch in turn, accepts every state and action.
    pub open spec fn admits(&self, action: A) -> bool {
        if self.middleware().len() == 0 && self.subscribers().len() == 0 {
            call_requires(self.reducer(), (self.state(), action))
        } else {
            forall|s: S, a: A| #[trigger] call_requires(self.reducer(), (s, a))
        }
    }

    /// The current state.
    pub closed spec fn state(&self) -> S {
        self.state->0
    }

    /// The current environment.
    pub closed spec fn env(&self) -> E {
        self.env->0
    }

    /// The reducer and the registered subscribers and middleware.
    pub closed spec fn callbacks(&self) -> Callbacks<R, L, M> {
        self.callbacks
    }

    /// The reducer given at construction.
    pub open spec fn reducer(&self) -> R {
        self.callbacks().reducer
    }

    /// The subscribers, in registration order.
    pub open spec fn subscribers(&self) -> Seq<L> {
        self.callbacks().subscribers@
    }

    /// The middleware, in registration order: the first is the outermost.
    pub open spec fn middleware(&self) -> Seq<M> {
        self.callbacks().middleware@
    }

    /// `after` is a store that one dispatch of `action` on this store can
    /// leave: the callbacks are those of this store, and the state and the
    /// environment are what sending `action` in at the outermost layer
    /// yields.
    pub open spec fn dispatches(&self, action: A, after: Self) -> bool {
        &&& after.wf()
        &&& after.callbacks() == self.callbacks()
        &&& self.callbacks().runs(
            0,
            self.state(),
            self.env(),
            action,
            after.state(),
            after.env(),
        )
    }

    /// Creates a store with the given reducer, initial state and initial
    /// environment, and with no subscribers and no middleware.
    pub fn new(reducer: R, initial_state: S, env: E) -> (store: Self)
        ensures
            store.wf(),
            store.state() == initial_state,
            store.env() == env,
            store.reducer() == reducer,
            store.subscribers() == Seq::<L>::empty(),
            store.middleware() == Seq::<M>::empty(),
    {
        Store {
            callbacks: Callbacks { reducer, subscribers: Vec::new(), middleware: Vec::new() },
            state: Some(initial_state),
            env: Some(env),
            action: PhantomData,
        }
    }

    /// Sends `action` through the middleware, first registered outermost,
    /// and behind them to the reducer and then to the subscribers.
    pub fn dispatch(&mut self, action: A)
        requires
            old(self).wf(),
            old(self).admits(action),
        ensures
            old(self).dispatches(action, *final(self)),
    {
        let state = self.state.take().unwrap();
        let env = self.env.take().unwrap();
        proof {
            assert(old(self).reducer() == self.callbacks.reducer);
            if self.callbacks.middleware@.len() != 0 || self.callbacks.subscribers@.len() != 0 {
                assert(forall|s: S, a: A| #[trigger] call_requires(old(self).reducer(), (s, a)));
            }
            assert(self.callbacks.admits(0, state, action));
        }
        let (state, env) = self.callbacks.run(0, state, env, action);
        self.state = Some(state);
        self.env = Some(env);
    }

    /// The current state, read-only.
    pub fn get_state(&self) -> (state: &S)
        requires
            self.wf(),
        ensures
            *state == self.state(),
    {
        self.state.as_ref().unwrap()
    }

    /// The current environment, read-only.
    pub fn get_env(&self) -> (env: &E)
        requires
            self.wf(),
        ensures
            *env == self.env(),
    {
        self.env.as_ref().unwrap()
    }

    /// Registers `subscriber` behind the subscribers already registered.
    pub fn subscribe(&mut self, subscriber: L)
        requires
            old(self).wf(),
            forall|cx: Notice<S, A, E>| #[trigger] call_requires(subscriber, (cx,)),
        ensures
            final(self).wf(),
            final(self).state() == old(self).state(),
            final(self).env() == old(self).env(),
            final(self).reducer() == old(self).reducer(),
            final(self).subscribers() == old(self).subscribers().push(subscriber),
            final(self).middleware() == old(self).middleware(),
    {
        self.callbacks.subscribers.push(subscriber);
    }

    /// Registers `middleware` inside the middleware already registered.
    pub fn apply_middleware(&mut self, middleware: M)
        requires
            old(self).wf(),
            forall|cx: Dispatcher<S, A, E>, a: A| #[trigger] call_requires(middleware, (cx, a)),
        ensures
            final(self).wf(),
            final(self).state() == old(self).state(),
            final(self).env() == old(self).env(),
            final(self).reducer() == old(self).reducer(),
            final(self).subscribers() == old(self).subscribers(),
            final(self).middleware() == old(self).middleware().push(middleware),
    {
        self.callbacks.middleware.push(middleware);
    }
}

} // verus!
