use vstd::prelude::*;
use crate::node::{Bhv, Status};

verus! {

/// Status transform of [`Inv`]: swap success and failure, keep running.
pub open spec fn invert(s: Status) -> Status {
    match s {
        Status::Running => Status::Running,
        Status::Success => Status::Failure,
        Status::Failure => Status::Success,
    }
}

/// Status transform of [`Pass`] and [`Fail`]: keep running, force any
/// terminal status to `t`.
pub open spec fn force(s: Status, t: Status) -> Status {
    if s == Status::Running {
        Status::Running
    } else {
        t
    }
}

/// A decorator that runs the given node until it is done and inverts the
/// result: [`Status::Success`] becomes [`Status::Failure`] and the other way
/// round, while [`Status::Running`] is kept.
#[derive(Clone)]
pub struct Inv<B: Bhv>(pub B);

/// A decorator that runs the given node until it is done and then answers
/// [`Status::Success`], whatever the node answered.
#[derive(Clone)]
pub struct Pass<B: Bhv>(pub B);

/// A decorator that runs the given node until it is done and then answers
/// [`Status::Failure`], whatever the node answered.
#[derive(Clone)]
pub struct Fail<B: Bhv>(pub B);

/// A decorator that lets the given node complete `count` times, answering
/// [`Status::Running`] while the first `count - 1` completed runs are
/// silently restarted, and surfacing the node's own status on the last run.
///
/// The completed runs are counted from 1, so a fresh `Repeat` lets the node
/// complete `count - 1` times silently and surfaces the result of run
/// number `count`; this off-by-one convention is part of the interface.
#[derive(Clone)]
pub struct Repeat<B: Bhv> {
    pub bhv: B,
    pub count: u32,
    pub current: u32,
}

/// A decorator that runs the given node to completion over and over,
/// checking the predicate once after each completed run (and once at the
/// very first call): when the predicate answers `true` the decorator
/// answers [`Status::Success`], otherwise it keeps answering
/// [`Status::Running`].  The `checked_cond` flag guards the predicate from
/// being asked twice while the node is mid-run.
#[derive(Clone)]
pub struct RepeatUntil<B, C> where B: Bhv, C: Fn(&B::Context) -> bool {
    pub bhv: B,
    pub cond: C,
    pub checked_cond: bool,
}

/// A decorator that runs the given node until it answers
/// [`Status::Success`], which is propagated; a completed run that failed is
/// reset and retried, the decorator answering [`Status::Running`].
#[derive(Clone)]
pub struct RepeatUntilPass<B: Bhv>(pub B);

/// A decorator that runs the given node until it answers
/// [`Status::Failure`], which is propagated; a completed run that succeeded
/// is reset and retried, the decorator answering [`Status::Running`].
#[derive(Clone)]
pub struct RepeatUntilFail<B: Bhv>(pub B);

/// A decorator that gates the given node on a context predicate, asked anew
/// on every call: when the predicate answers `true` the node is stepped as
/// usual, otherwise the decorator answers [`Status::Failure`] and the node
/// is not touched.
#[derive(Clone)]
pub struct RunIf<B, C> where B: Bhv, C: Fn(&B::Context) -> bool {
    pub bhv: B,
    pub cond: C,
}

/// Repeat a behavior the given number of times; see [`Repeat`].
pub fn repeat<B: Bhv>(bhv: B, count: u32) -> (r: Repeat<B>)
    requires
        bhv.wf(),
        count >= 1,
    ensures
        r.wf(),
        r == (Repeat { bhv, count, current: 1u32 }),
{
    Repeat { bhv, count, current: 1 }
}

/// Repeat a behavior until the given predicate holds; see [`RepeatUntil`].
pub fn repeat_until<B: Bhv, C: Fn(&B::Context) -> bool>(bhv: B, cond: C) -> (r: RepeatUntil<B, C>)
    requires
        bhv.wf(),
        forall|x: &B::Context| call_requires(cond, (x,)),
    ensures
        r.wf(),
        r == (RepeatUntil { bhv, cond, checked_cond: false }),
{
    RepeatUntil { bhv, cond, checked_cond: false }
}

impl<B: Bhv> Bhv for Inv<B> {
    type Context = B::Context;

    open spec fn wf(self) -> bool {
        self.0.wf()
    }

    open spec fn step(self, c: B::Context, n: Self, c2: B::Context, s: Status) -> bool {
        exists|s0: Status| #[trigger] self.0.step(c, n.0, c2, s0) && s == invert(s0)
    }

    open spec fn resets(self, s: Status, n: Self) -> bool {
        self.0.resets(s, n.0)
    }

    fn update(&mut self, ctx: &mut B::Context) -> (s: Status) {
        let s0 = self.0.update(ctx);
        let r = match s0 {
            Status::Running => Status::Running,
            Status::Failure => Status::Success,
            Status::Success => Status::Failure,
        };
        proof {
            assert(old(self).0.step(*old(ctx), self.0, *ctx, s0));
            assert(r == invert(s0));
        }
        r
    }

    fn reset(&mut self, s: Status) {
        self.0.reset(s)
    }
}

impl<B: Bhv> Bhv for Pass<B> {
    type Context = B::Context;

    open spec fn wf(self) -> bool {
        self.0.wf()
    }

    open spec fn step(self, c: B::Context, n: Self, c2: B::Context, s: Status) -> bool {
        exists|s0: Status| #[trigger] self.0.step(c, n.0, c2, s0) && s == force(s0, Status::Success)
    }

    open spec fn resets(self, s: Status, n: Self) -> bool {
        self.0.resets(s, n.0)
    }

    fn update(&mut self, ctx: &mut B::Context) -> (s: Status) {
        let s0 = self.0.update(ctx);
        let r = match s0 {
            Status::Running => Status::Running,
            _ => Status::Success,
        };
        proof {
            assert(old(self).0.step(*old(ctx), self.0, *ctx, s0));
            assert(r == force(s0, Status::Success));
        }
        r
    }

    fn reset(&mut self, s: Status) {
        self.0.reset(s)
    }
}

impl<B: Bhv> Bhv for Fail<B> {
    type Context = B::Context;

    open spec fn wf(self) -> bool {
        self.0.wf()
    }

    open spec fn step(self, c: B::Context, n: Self, c2: B::Context, s: Status) -> bool {
        exists|s0: Status| #[trigger] self.0.step(c, n.0, c2, s0) && s == force(s0, Status::Failure)
    }

    open spec fn resets(self, s: Status, n: Self) -> bool {
        self.0.resets(s, n.0)
    }

    fn update(&mut self, ctx: &mut B::Context) -> (s: Status) {
        let s0 = self.0.update(ctx);
        let r = match s0 {
            Status::Running => Status::Running,
            _ => Status::Failure,
        };
        proof {
            assert(old(self).0.step(*old(ctx), self.0, *ctx, s0));
            assert(r == force(s0, Status::Failure));
        }
        r
    }

    fn reset(&mut self, s: Status) {
        self.0.reset(s)
    }
}

impl<B: Bhv> Bhv for Repeat<B> {
    type Context = B::Context;

    open spec fn wf(self) -> bool {
        &&& self.bhv.wf()
        &&& 1 <= self.current <= self.count
    }

    open spec fn step(self, c: B::Context, n: Self, c2: B::Context, s: Status) -> bool {
        if self.current >= self.count {
            &&& self.bhv.step(c, n.bhv, c2, s)
            &&& n.count == self.count
            &&& n.current == self.current
        } else {
            &&& s == Status::Running
            &&& n.count == self.count
            &&& exists|b1: B, s0: Status| #[trigger] self.bhv.step(c, b1, c2, s0) && (if s0
                == Status::Running {
                n.bhv == b1 && n.current == self.current
            } else {
                b1.resets(s0, n.bhv) && n.current == self.current + 1
            })
        }
    }

    open spec fn resets(self, s: Status, n: Self) -> bool {
        &&& self.bhv.resets(s, n.bhv)
        &&& n.count == self.count
        &&& n.current == 1
    }

    fn update(&mut self, ctx: &mut B::Context) -> (s: Status) {
        if self.current >= self.count {
            self.bhv.update(ctx)
        } else {
            let s0 = self.bhv.update(ctx);
            if s0 != Status::Running {
                self.bhv.reset(s0);
                self.current = self.current + 1;
            }
            Status::Running
        }
    }

    fn reset(&mut self, s: Status) {
        self.bhv.reset(s);
        self.current = 1;
    }
}

impl<B: Bhv, C: Fn(&B::Context) -> bool> RepeatUntil<B, C> {
    /// What holds after the child part of one [`RepeatUntil`] step: the
    /// child has become `bmid` with the checked flag at `chk`, and the
    /// predicate part answers `s` on context `c2`, leaving the decorator
    /// `n`.
    pub open spec fn tail(self, bmid: B, chk: bool, c2: B::Context, n: Self, s: Status) -> bool {
        &&& n.cond == self.cond
        &&& n.bhv == bmid
        &&& if !chk {
            ||| (s == Status::Success && call_ensures(self.cond, (&c2,), true) && n.checked_cond
                == false)
            ||| (s == Status::Running && call_ensures(self.cond, (&c2,), false) && n.checked_cond
                == true)
        } else {
            s == Status::Running && n.checked_cond == true
        }
    }
}

impl<B: Bhv, C: Fn(&B::Context) -> bool> Bhv for RepeatUntil<B, C> {
    type Context = B::Context;

    open spec fn wf(self) -> bool {
        &&& self.bhv.wf()
        &&& forall|x: &B::Context| call_requires(self.cond, (x,))
    }

    open spec fn step(self, c: B::Context, n: Self, c2: B::Context, s: Status) -> bool {
        exists|s0: Status, b1: B|
            #[trigger] self.bhv.step(c, b1, c2, s0) && (if s0 == Status::Running {
                self.tail(b1, self.checked_cond, c2, n, s)
            } else {
                exists|bmid: B| #[trigger] b1.resets(s0, bmid) && self.tail(bmid, false, c2, n, s)
            })
    }

    open spec fn resets(self, s: Status, n: Self) -> bool {
        &&& self.bhv.resets(s, n.bhv)
        &&& n.cond == self.cond
        &&& n.checked_cond == self.checked_cond
    }

    fn update(&mut self, ctx: &mut B::Context) -> (s: Status) {
        let s0 = self.bhv.update(ctx);
        if s0 != Status::Running {
            self.checked_cond = false;
            self.bhv.reset(s0);
        }
        if !self.checked_cond {
            if (self.cond)(ctx) {
                return Status::Success;
            } else {
                self.checked_cond = true;
            }
        }
        Status::Running
    }

    fn reset(&mut self, s: Status) {
        self.bhv.reset(s)
    }
}

impl<B: Bhv> Bhv for RepeatUntilPass<B> {
    type Context = B::Context;

    open spec fn wf(self) -> bool {
        self.0.wf()
    }

    open spec fn step(self, c: B::Context, n: Self, c2: B::Context, s: Status) -> bool {
        exists|s0: Status, b1: B|
            #[trigger] self.0.step(c, b1, c2, s0) && (if s0 == Status::Failure {
                s == Status::Running && exists|b2: B| #[trigger] b1.resets(Status::Failure, b2)
                    && n.0 == b2
            } else {
                s == s0 && n.0 == b1
            })
    }

    open spec fn resets(self, s: Status, n: Self) -> bool {
        self.0.resets(s, n.0)
    }

    fn update(&mut self, ctx: &mut B::Context) -> (s: Status) {
        match self.0.update(ctx) {
            Status::Failure => {
                self.0.reset(Status::Failure);
                Status::Running
            },
            s => s,
        }
    }

    fn reset(&mut self, s: Status) {
        self.0.reset(s)
    }
}

impl<B: Bhv> Bhv for RepeatUntilFail<B> {
    type Context = B::Context;

    open spec fn wf(self) -> bool {
        self.0.wf()
    }

    open spec fn step(self, c: B::Context, n: Self, c2: B::Context, s: Status) -> bool {
        exists|s0: Status, b1: B|
            #[trigger] self.0.step(c, b1, c2, s0) && (if s0 == Status::Success {
                s == Status::Running && exists|b2: B| #[trigger] b1.resets(Status::Success, b2)
                    && n.0 == b2
            } else {
                s == s0 && n.0 == b1
            })
    }

    open spec fn resets(self, s: Status, n: Self) -> bool {
        self.0.resets(s, n.0)
    }

    fn update(&mut self, ctx: &mut B::Context) -> (s: Status) {
        match self.0.update(ctx) {
            Status::Success => {
                self.0.reset(Status::Success);
                Status::Running
            },
            s => s,
        }
    }

    fn reset(&mut self, s: Status) {
        self.0.reset(s)
    }
}

impl<B: Bhv, C: Fn(&B::Context) -> bool> Bhv for RunIf<B, C> {
    type Context = B::Context;

    open spec fn wf(self) -> bool {
        &&& self.bhv.wf()
        &&& forall|x: &B::Context| call_requires(self.cond, (x,))
    }

    open spec fn step(self, c: B::Context, n: Self, c2: B::Context, s: Status) -> bool {
        &&& n.cond == self.cond
        &&& {
            ||| (call_ensures(self.cond, (&c,), true) && self.bhv.step(c, n.bhv, c2, s))
            ||| (call_ensures(self.cond, (&c,), false) && n.bhv == self.bhv && c2 == c && s
                == Status::Failure)
        }
    }

    open spec fn resets(self, s: Status, n: Self) -> bool {
        &&& self.bhv.resets(s, n.bhv)
        &&& n.cond == self.cond
    }

    fn update(&mut self, ctx: &mut B::Context) -> (s: Status) {
        if (self.cond)(ctx) {
            self.bhv.update(ctx)
        } else {
            Status::Failure
        }
    }

    fn reset(&mut self, s: Status) {
        self.bhv.reset(s)
    }
}

} // verus!
