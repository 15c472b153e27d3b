use vstd::prelude::*;
use std::marker::PhantomData;
use crate::node::Status;
use crate::reactive::events::EventKind;
use crate::reactive::node::Bhv;

verus! {

/// Adapt a function from context to context into a reactive behavior:
/// consuming any one event replaces the context with the function's
/// answer and reports [`Status::Success`].
#[verifier::reject_recursive_types(C)]
pub struct Action<A, C>(pub A, pub PhantomData<C>) where A: Fn(&C) -> C;

/// Adapt a predicate into a reactive behavior, answering
/// [`Status::Success`] on an event when the predicate answers `true` and
/// [`Status::Failure`] otherwise.
#[verifier::reject_recursive_types(C)]
pub struct Cond<P, C>(pub P, pub PhantomData<C>) where P: Fn(&C) -> bool;

/// Adapt a function that answers a new context together with a status of
/// its own choosing; such a leaf may stay [`Status::Running`] over several
/// consumed events.
#[verifier::reject_recursive_types(C)]
pub struct AsyncAction<A, C>(pub A, pub PhantomData<C>) where A: Fn(&C) -> (C, Status);

/// Wrap a context-transforming function into a reactive behavior node.
pub fn action<A: Fn(&C) -> C, C>(a: A) -> (r: Action<A, C>)
    requires
        forall|x: &C| call_requires(a, (x,)),
    ensures
        r.wf(),
        r.0 == a,
{
    Action(a, PhantomData)
}

/// Wrap a predicate into a reactive behavior node.
pub fn cond<P: Fn(&C) -> bool, C>(p: P) -> (r: Cond<P, C>)
    requires
        forall|x: &C| call_requires(p, (x,)),
    ensures
        r.wf(),
        r.0 == p,
{
    Cond(p, PhantomData)
}

/// Wrap a function that picks its own status into a reactive behavior
/// node.
pub fn async_action<A: Fn(&C) -> (C, Status), C>(a: A) -> (r: AsyncAction<A, C>)
    requires
        forall|x: &C| call_requires(a, (x,)),
    ensures
        r.wf(),
        r.0 == a,
{
    AsyncAction(a, PhantomData)
}

impl<A: Fn(&C) -> C, C> Bhv for Action<A, C> {
    type Context = C;

    open spec fn wf(self) -> bool {
        forall|x: &C| call_requires(self.0, (x,))
    }

    open spec fn interested(self, kind: EventKind) -> bool {
        true
    }

    open spec fn reacts(self, kind: EventKind, c: C, n: Self, c2: C, s: Status) -> bool {
        &&& n == self
        &&& s == Status::Success
        &&& call_ensures(self.0, (&c,), c2)
    }

    fn should_react_to(&self, _kind: EventKind) -> (r: bool) {
        true
    }

    fn react<E: crate::reactive::events::Event>(&mut self, _event: &E, ctx: &mut C) -> (s: Status) {
        *ctx = (self.0)(ctx);
        Status::Success
    }
}

impl<P: Fn(&C) -> bool, C> Bhv for Cond<P, C> {
    type Context = C;

    open spec fn wf(self) -> bool {
        forall|x: &C| call_requires(self.0, (x,))
    }

    open spec fn interested(self, kind: EventKind) -> bool {
        true
    }

    open spec fn reacts(self, kind: EventKind, c: C, n: Self, c2: C, s: Status) -> bool {
        &&& n == self
        &&& c2 == c
        &&& s != Status::Running
        &&& call_ensures(self.0, (&c,), s == Status::Success)
    }

    fn should_react_to(&self, _kind: EventKind) -> (r: bool) {
        true
    }

    fn react<E: crate::reactive::events::Event>(&mut self, _event: &E, ctx: &mut C) -> (s: Status) {
        if (self.0)(ctx) {
            Status::Success
        } else {
            Status::Failure
        }
    }
}

impl<A: Fn(&C) -> (C, Status), C> Bhv for AsyncAction<A, C> {
    type Context = C;

    open spec fn wf(self) -> bool {
        forall|x: &C| call_requires(self.0, (x,))
    }

    open spec fn interested(self, kind: EventKind) -> bool {
        true
    }

    open spec fn reacts(self, kind: EventKind, c: C, n: Self, c2: C, s: Status) -> bool {
        &&& n == self
        &&& call_ensures(self.0, (&c,), (c2, s))
    }

    fn should_react_to(&self, _kind: EventKind) -> (r: bool) {
        true
    }

    fn react<E: crate::reactive::events::Event>(&mut self, _event: &E, ctx: &mut C) -> (s: Status) {
        let pair = (self.0)(ctx);
        *ctx = pair.0;
        pair.1
    }
}

} // verus!
