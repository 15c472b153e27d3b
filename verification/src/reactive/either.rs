use vstd::prelude::*;
use crate::node::Status;
use crate::either::Either;
use crate::reactive::events::{Event, EventKind};
use crate::reactive::node::Bhv;

verus! {

impl<L: Bhv, R: Bhv<Context = L::Context>> Bhv for Either<L, R> {
    type Context = L::Context;

    open spec fn wf(self) -> bool {
        match self {
            Either::First(a) => a.wf(),
            Either::Second(b) => b.wf(),
        }
    }

    open spec fn interested(self, kind: EventKind) -> bool {
        match self {
            Either::First(a) => a.interested(kind),
            Either::Second(b) => b.interested(kind),
        }
    }

    open spec fn reacts(self, kind: EventKind, c: L::Context, n: Self, c2: L::Context, s: Status) -> bool {
        match (self, n) {
            (Either::First(a), Either::First(a2)) => a.reacts(kind, c, a2, c2, s),
            (Either::Second(b), Either::Second(b2)) => b.reacts(kind, c, b2, c2, s),
            _ => false,
        }
    }

    fn should_react_to(&self, kind: EventKind) -> (r: bool) {
        match self {
            Either::First(a) => a.should_react_to(kind),
            Either::Second(b) => b.should_react_to(kind),
        }
    }

    fn react<E: Event>(&mut self, event: &E, ctx: &mut L::Context) -> (s: Status) {
        match self {
            Either::First(a) => a.react(event, ctx),
            Either::Second(b) => b.react(event, ctx),
        }
    }
}

} // verus!
