use vstd::prelude::*;
use crate::node::{Bhv, Status};

verus! {

/// A node that is one of two node types sharing a context.
///
/// A composite owns children of one type, so a tree mixing leaf,
/// decorator and composite nodes names their mix through this sum: it is
/// the owned, polymorphic child that a heap-indirected interface object
/// would be elsewhere.  Nesting `Either` mixes any number of node types.
pub enum Either<L, R> {
    /// A child of the first type.
    First(L),
    /// A child of the second type.
    Second(R),
}

impl<L: Bhv, R: Bhv<Context = L::Context>> Bhv for Either<L, R> {
    type Context = L::Context;

    open spec fn wf(self) -> bool {
        match self {
            Either::First(a) => a.wf(),
            Either::Second(b) => b.wf(),
        }
    }

    open spec fn step(self, c: L::Context, n: Self, c2: L::Context, s: Status) -> bool {
        match (self, n) {
            (Either::First(a), Either::First(a2)) => a.step(c, a2, c2, s),
            (Either::Second(b), Either::Second(b2)) => b.step(c, b2, c2, s),
            _ => false,
        }
    }

    open spec fn resets(self, s: Status, n: Self) -> bool {
        match (self, n) {
            (Either::First(a), Either::First(a2)) => a.resets(s, a2),
            (Either::Second(b), Either::Second(b2)) => b.resets(s, b2),
            _ => false,
        }
    }

    fn update(&mut self, ctx: &mut L::Context) -> (s: Status) {
        match self {
            Either::First(a) => a.update(ctx),
            Either::Second(b) => b.update(ctx),
        }
    }

    fn reset(&mut self, s: Status) {
        match self {
            Either::First(a) => a.reset(s),
            Either::Second(b) => b.reset(s),
        }
    }
}

} // verus!
