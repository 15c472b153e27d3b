use vstd::prelude::*;
use std::marker::PhantomData;
use crate::node::{Bhv, Status};

verus! {

/// Adapt a predicate into a behavior, answering [`Status::Success`] when the
/// predicate answers `true` and [`Status::Failure`] otherwise.
#[verifier::reject_recursive_types(Ctx)]
pub struct Cond<Ctx, C>(pub C, pub PhantomData<Ctx>) where C: Fn(&Ctx) -> bool;

/// Adapt a function from context to context into a behavior: one
/// [`Bhv::update`] replaces the context with the function's answer and
/// reports [`Status::Success`].
#[verifier::reject_recursive_types(Ctx)]
pub struct Action<Ctx, A>(pub A, pub PhantomData<Ctx>) where A: Fn(&Ctx) -> Ctx;

/// Adapt a function that answers a new context together with a status of its
/// own choosing; such a leaf may stay [`Status::Running`] over several calls.
#[verifier::reject_recursive_types(Ctx)]
pub struct AsyncAction<Ctx, A>(pub A, pub PhantomData<Ctx>) where A: Fn(&Ctx) -> (Ctx, Status);

/// Wrap a predicate into a behavior node.
pub fn cond<Ctx, C: Fn(&Ctx) -> bool>(c: C) -> (r: Cond<Ctx, C>)
    requires
        forall|x: &Ctx| call_requires(c, (x,)),
    ensures
        r.wf(),
        r.0 == c,
{
    Cond(c, PhantomData)
}

/// Wrap a context-transforming function into a behavior node.
pub fn action<Ctx, A: Fn(&Ctx) -> Ctx>(a: A) -> (r: Action<Ctx, A>)
    requires
        forall|x: &Ctx| call_requires(a, (x,)),
    ensures
        r.wf(),
        r.0 == a,
{
    Action(a, PhantomData)
}

/// Wrap a function that picks its own status into a behavior node.
pub fn async_action<Ctx, A: Fn(&Ctx) -> (Ctx, Status)>(a: A) -> (r: AsyncAction<Ctx, A>)
    requires
        forall|x: &Ctx| call_requires(a, (x,)),
    ensures
        r.wf(),
        r.0 == a,
{
    AsyncAction(a, PhantomData)
}

impl<Ctx, C: Fn(&Ctx) -> bool> Bhv for Cond<Ctx, C> {
    type Context = Ctx;

    open spec fn wf(self) -> bool {
        forall|x: &Ctx| call_requires(self.0, (x,))
    }

    open spec fn step(self, c: Ctx, n: Self, c2: Ctx, s: Status) -> bool {
        &&& n == self
        &&& c2 == c
        &&& s != Status::Running
        &&& call_ensures(self.0, (&c,), s == Status::Success)
    }

    open spec fn resets(self, s: Status, n: Self) -> bool {
        n == self
    }

    fn update(&mut self, ctx: &mut Ctx) -> (s: Status) {
        if (self.0)(ctx) {
            Status::Success
        } else {
            Status::Failure
        }
    }

    fn reset(&mut self, _s: Status) {
    }
}

impl<Ctx, A: Fn(&Ctx) -> Ctx> Bhv for Action<Ctx, A> {
    type Context = Ctx;

    open spec fn wf(self) -> bool {
        forall|x: &Ctx| call_requires(self.0, (x,))
    }

    open spec fn step(self, c: Ctx, n: Self, c2: Ctx, s: Status) -> bool {
        &&& n == self
        &&& s == Status::Success
        &&& call_ensures(self.0, (&c,), c2)
    }

    open spec fn resets(self, s: Status, n: Self) -> bool {
        n == self
    }

    fn update(&mut self, ctx: &mut Ctx) -> (s: Status) {
        *ctx = (self.0)(ctx);
        Status::Success
    }

    fn reset(&mut self, _s: Status) {
    }
}

impl<Ctx, A: Fn(&Ctx) -> (Ctx, Status)> Bhv for AsyncAction<Ctx, A> {
    type Context = Ctx;

    open spec fn wf(self) -> bool {
        forall|x: &Ctx| call_requires(self.0, (x,))
    }

    open spec fn step(self, c: Ctx, n: Self, c2: Ctx, s: Status) -> bool {
        &&& n == self
        &&& call_ensures(self.0, (&c,), (c2, s))
    }

    open spec fn resets(self, s: Status, n: Self) -> bool {
        n == self
    }

    fn update(&mut self, ctx: &mut Ctx) -> (s: Status) {
        let pair = (self.0)(ctx);
        *ctx = pair.0;
        pair.1
    }

    fn reset(&mut self, _s: Status) {
    }
}

} // verus!
