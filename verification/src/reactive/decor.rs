use vstd::prelude::*;
use crate::node::Status;
use crate::decor::{invert, force};
use crate::reactive::events::{Event, EventKind};
use crate::reactive::node::Bhv;

verus! {

/// A reactive decorator that lets the given node consume events until it
/// is done and inverts the result: [`Status::Success`] becomes
/// [`Status::Failure`] and the other way round, while [`Status::Running`]
/// is kept.
#[derive(Clone)]
pub struct Inv<B: Bhv>(pub B);

/// A reactive decorator that lets the given node consume events until it
/// is done and then answers [`Status::Success`], whatever the node
/// answered.
#[derive(Clone)]
pub struct Pass<B: Bhv>(pub B);

/// A reactive decorator that lets the given node consume events until it
/// is done and then answers [`Status::Failure`], whatever the node
/// answered.
#[derive(Clone)]
pub struct Fail<B: Bhv>(pub B);

/// A reactive decorator that lets the given node complete `count` runs,
/// answering [`Status::Running`] for each, and then declares itself
/// uninterested in every event: inside a composite's prefix scan an
/// exhausted `Repeat` blocks the events it no longer wants.  The count of
/// completed runs starts at 0 and can be rearmed with [`Repeat::reset`].
#[derive(Clone)]
pub struct Repeat<B: Bhv> {
    pub bhv: B,
    pub count: u32,
    pub current: u32,
}

/// A reactive decorator that lets the given node consume events until it
/// answers [`Status::Success`], which is propagated; a completed run that
/// failed is swallowed, the decorator answering [`Status::Running`] and
/// the node — which rearms itself on its own terminal answers — being
/// retried on the following events.
#[derive(Clone)]
pub struct RepeatUntilPass<B: Bhv>(pub B);

/// A reactive decorator that lets the given node consume events until it
/// answers [`Status::Failure`], which is propagated; a completed run that
/// succeeded is swallowed, the decorator answering [`Status::Running`].
#[derive(Clone)]
pub struct RepeatUntilFail<B: Bhv>(pub B);

/// A reactive decorator that gates the given node on one event kind: it
/// is interested in exactly that kind, so inside a composite's prefix
/// scan every event of another kind is blocked — for the gated node and
/// for every sibling after it.
#[derive(Clone)]
pub struct WaitFor<B: Bhv> {
    pub bhv: B,
    pub kind: EventKind,
}

impl<B: Bhv> Bhv for Inv<B> {
    type Context = B::Context;

    open spec fn wf(self) -> bool {
        self.0.wf()
    }

    open spec fn interested(self, kind: EventKind) -> bool {
        self.0.interested(kind)
    }

    open spec fn reacts(self, kind: EventKind, c: B::Context, n: Self, c2: B::Context, s: Status) -> bool {
        exists|s0: Status| #[trigger] self.0.reacts(kind, c, n.0, c2, s0) && s == invert(s0)
    }

    fn should_react_to(&self, kind: EventKind) -> (r: bool) {
        self.0.should_react_to(kind)
    }

    fn react<E: Event>(&mut self, event: &E, ctx: &mut B::Context) -> (s: Status) {
        let s0 = self.0.react(event, ctx);
        let r = match s0 {
            Status::Running => Status::Running,
            Status::Success => Status::Failure,
            Status::Failure => Status::Success,
        };
        proof {
            assert(old(self).0.reacts(crate::reactive::events::kind_of(*event), *old(ctx), self.0, *ctx, s0));
            assert(r == invert(s0));
        }
        r
    }
}

impl<B: Bhv> Bhv for Pass<B> {
    type Context = B::Context;

    open spec fn wf(self) -> bool {
        self.0.wf()
    }

    open spec fn interested(self, kind: EventKind) -> bool {
        self.0.interested(kind)
    }

    open spec fn reacts(self, kind: EventKind, c: B::Context, n: Self, c2: B::Context, s: Status) -> bool {
        exists|s0: Status| #[trigger] self.0.reacts(kind, c, n.0, c2, s0) && s == force(s0, Status::Success)
    }

    fn should_react_to(&self, kind: EventKind) -> (r: bool) {
        self.0.should_react_to(kind)
    }

    fn react<E: Event>(&mut self, event: &E, ctx: &mut B::Context) -> (s: Status) {
        let s0 = self.0.react(event, ctx);
        let r = match s0 {
            Status::Running => Status::Running,
            _ => Status::Success,
        };
        proof {
            assert(old(self).0.reacts(crate::reactive::events::kind_of(*event), *old(ctx), self.0, *ctx, s0));
            assert(r == force(s0, Status::Success));
        }
        r
    }
}

impl<B: Bhv> Bhv for Fail<B> {
    type Context = B::Context;

    open spec fn wf(self) -> bool {
        self.0.wf()
    }

    open spec fn interested(self, kind: EventKind) -> bool {
        self.0.interested(kind)
    }

    open spec fn reacts(self, kind: EventKind, c: B::Context, n: Self, c2: B::Context, s: Status) -> bool {
        exists|s0: Status| #[trigger] self.0.reacts(kind, c, n.0, c2, s0) && s == force(s0, Status::Failure)
    }

    fn should_react_to(&self, kind: EventKind) -> (r: bool) {
        self.0.should_react_to(kind)
    }

    fn react<E: Event>(&mut self, event: &E, ctx: &mut B::Context) -> (s: Status) {
        let s0 = self.0.react(event, ctx);
        let r = match s0 {
            Status::Running => Status::Running,
            _ => Status::Failure,
        };
        proof {
            assert(old(self).0.reacts(crate::reactive::events::kind_of(*event), *old(ctx), self.0, *ctx, s0));
            assert(r == force(s0, Status::Failure));
        }
        r
    }
}

impl<B: Bhv> Bhv for Repeat<B> {
    type Context = B::Context;

    open spec fn wf(self) -> bool {
        self.bhv.wf()
    }

    open spec fn interested(self, kind: EventKind) -> bool {
        self.current < self.count && self.bhv.interested(kind)
    }

    open spec fn reacts(self, kind: EventKind, c: B::Context, n: Self, c2: B::Context, s: Status) -> bool {
        &&& s == Status::Running
        &&& n.count == self.count
        &&& exists|s0: Status|
            #[trigger] self.bhv.reacts(kind, c, n.bhv, c2, s0) && n.current == (if s0
                == Status::Running || self.current >= self.count {
                self.current as int
            } else {
                self.current + 1
            })
    }

    fn should_react_to(&self, kind: EventKind) -> (r: bool) {
        self.current < self.count && self.bhv.should_react_to(kind)
    }

    fn react<E: Event>(&mut self, event: &E, ctx: &mut B::Context) -> (s: Status) {
        let s0 = self.bhv.react(event, ctx);
        if s0 != Status::Running && self.current < self.count {
            self.current = self.current + 1;
        }
        proof {
            let k = crate::reactive::events::kind_of(*event);
            assert(old(self).bhv.reacts(k, *old(ctx), self.bhv, *ctx, s0));
            assert(old(self).reacts(k, *old(ctx), *self, *ctx, Status::Running));
        }
        Status::Running
    }
}

impl<B: Bhv> Repeat<B> {
    /// Rearm the decorator so that it lets its node complete `count` runs
    /// again.
    pub fn reset(&mut self)
        ensures
            final(self).bhv == old(self).bhv,
            final(self).count == old(self).count,
            final(self).current == 0,
    {
        self.current = 0;
    }
}

impl<B: Bhv> Bhv for RepeatUntilPass<B> {
    type Context = B::Context;

    open spec fn wf(self) -> bool {
        self.0.wf()
    }

    open spec fn interested(self, kind: EventKind) -> bool {
        self.0.interested(kind)
    }

    open spec fn reacts(self, kind: EventKind, c: B::Context, n: Self, c2: B::Context, s: Status) -> bool {
        exists|s0: Status|
            #[trigger] self.0.reacts(kind, c, n.0, c2, s0) && s == (if s0 == Status::Success {
                Status::Success
            } else {
                Status::Running
            })
    }

    fn should_react_to(&self, kind: EventKind) -> (r: bool) {
        self.0.should_react_to(kind)
    }

    fn react<E: Event>(&mut self, event: &E, ctx: &mut B::Context) -> (s: Status) {
        let s0 = self.0.react(event, ctx);
        proof {
            assert(old(self).0.reacts(crate::reactive::events::kind_of(*event), *old(ctx), self.0, *ctx, s0));
        }
        match s0 {
            Status::Success => Status::Success,
            _ => Status::Running,
        }
    }
}

impl<B: Bhv> Bhv for RepeatUntilFail<B> {
    type Context = B::Context;

    open spec fn wf(self) -> bool {
        self.0.wf()
    }

    open spec fn interested(self, kind: EventKind) -> bool {
        self.0.interested(kind)
    }

    open spec fn reacts(self, kind: EventKind, c: B::Context, n: Self, c2: B::Context, s: Status) -> bool {
        exists|s0: Status|
            #[trigger] self.0.reacts(kind, c, n.0, c2, s0) && s == (if s0 == Status::Failure {
                Status::Failure
            } else {
                Status::Running
            })
    }

    fn should_react_to(&self, kind: EventKind) -> (r: bool) {
        self.0.should_react_to(kind)
    }

    fn react<E: Event>(&mut self, event: &E, ctx: &mut B::Context) -> (s: Status) {
        let s0 = self.0.react(event, ctx);
        proof {
            assert(old(self).0.reacts(crate::reactive::events::kind_of(*event), *old(ctx), self.0, *ctx, s0));
        }
        match s0 {
            Status::Failure => Status::Failure,
            _ => Status::Running,
        }
    }
}

impl<B: Bhv> Bhv for WaitFor<B> {
    type Context = B::Context;

    open spec fn wf(self) -> bool {
        self.bhv.wf()
    }

    open spec fn interested(self, kind: EventKind) -> bool {
        kind == self.kind
    }

    open spec fn reacts(self, kind: EventKind, c: B::Context, n: Self, c2: B::Context, s: Status) -> bool {
        &&& n.kind == self.kind
        &&& self.bhv.reacts(kind, c, n.bhv, c2, s)
    }

    fn should_react_to(&self, kind: EventKind) -> (r: bool) {
        self.kind == kind
    }

    fn react<E: Event>(&mut self, event: &E, ctx: &mut B::Context) -> (s: Status) {
        self.bhv.react(event, ctx)
    }
}

} // verus!
