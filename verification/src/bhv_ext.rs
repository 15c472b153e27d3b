use vstd::prelude::*;
use crate::node::{Bhv, Status, run_steps, reaches, terminal, halts, halts_within};
use crate::decor::{Inv, Pass, Fail, Repeat, RepeatUntil, RepeatUntilPass, RepeatUntilFail, RunIf};

verus! {

/// Helper methods available on every poll-model node: the builder methods
/// that wrap a node in a decorator, and the driver that runs a tree to
/// completion.
pub trait BhvExt: Bhv {
    /// Wrap this node so that its result is inverted; see [`Inv`].
    fn inv(self) -> (r: Inv<Self>)
        requires
            self.wf(),
        ensures
            r.wf(),
            r.0 == self,
    {
        Inv(self)
    }

    /// Wrap this node so that it succeeds whenever it completes; see
    /// [`Pass`].
    fn pass(self) -> (r: Pass<Self>)
        requires
            self.wf(),
        ensures
            r.wf(),
            r.0 == self,
    {
        Pass(self)
    }

    /// Wrap this node so that it fails whenever it completes; see
    /// [`Fail`].
    fn fail(self) -> (r: Fail<Self>)
        requires
            self.wf(),
        ensures
            r.wf(),
            r.0 == self,
    {
        Fail(self)
    }

    /// Wrap this node so that it is run the given number of times; see
    /// [`Repeat`].
    fn repeat(self, count: u32) -> (r: Repeat<Self>)
        requires
            self.wf(),
            count >= 1,
        ensures
            r.wf(),
            r == (Repeat { bhv: self, count, current: 1u32 }),
    {
        Repeat { bhv: self, count, current: 1 }
    }

    /// Wrap this node so that it is rerun until the given predicate over
    /// the context answers `true`; see [`RepeatUntil`].
    fn repeat_until<C: Fn(&Self::Context) -> bool>(self, cond: C) -> (r: RepeatUntil<Self, C>)
        requires
            self.wf(),
            forall|x: &Self::Context| call_requires(cond, (x,)),
        ensures
            r.wf(),
            r == (RepeatUntil { bhv: self, cond, checked_cond: false }),
    {
        RepeatUntil { bhv: self, cond, checked_cond: false }
    }

    /// Wrap this node so that it only runs while the given predicate over
    /// the context answers `true`; see [`RunIf`].
    fn run_if<C: Fn(&Self::Context) -> bool>(self, cond: C) -> (r: RunIf<Self, C>)
        requires
            self.wf(),
            forall|x: &Self::Context| call_requires(cond, (x,)),
        ensures
            r.wf(),
            r == (RunIf { bhv: self, cond }),
    {
        RunIf { bhv: self, cond }
    }

    /// Wrap this node so that it is rerun until it succeeds; see
    /// [`RepeatUntilPass`].
    fn repeat_until_pass(self) -> (r: RepeatUntilPass<Self>)
        requires
            self.wf(),
        ensures
            r.wf(),
            r.0 == self,
    {
        RepeatUntilPass(self)
    }

    /// Wrap this node so that it is rerun until it fails; see
    /// [`RepeatUntilFail`].
    fn repeat_until_fail(self) -> (r: RepeatUntilFail<Self>)
        requires
            self.wf(),
        ensures
            r.wf(),
            r.0 == self,
    {
        RepeatUntilFail(self)
    }

    /// Step the node until it returns a terminal status; `true` means the
    /// run succeeded.  Polling busy-loops without yielding, so it asks the
    /// caller for a tree whose runs cannot answer [`Status::Running`]
    /// forever.
    fn execute(self, ctx: &mut Self::Context) -> (r: bool)
        requires
            self.wf(),
            halts(self, *old(ctx)),
        ensures
            exists|n: Self, s: Status|
                #[trigger] reaches(self, *old(ctx), n, *final(ctx), s) && terminal(s) && r == (s
                    == Status::Success),
    {
        let ghost orig = self;
        let ghost c0 = *ctx;
        let mut node = self;
        let ghost mut fuel: nat = choose|k: nat| halts_within(node, *ctx, k);
        loop
            invariant
                node.wf(),
                orig == self,
                c0 == *old(ctx),
                halts_within(node, *ctx, fuel),
                forall|k: nat, n: Self, c2: Self::Context, s: Status|
                    #[trigger] run_steps(node, *ctx, k, n, c2, s) ==> exists|k2: nat|
                        run_steps(orig, c0, k2, n, c2, s),
            decreases fuel,
        {
            let ghost cpre = *ctx;
            let ghost npre = node;
            let ghost fuelpre = fuel;
            let s = node.update(ctx);
            if s != Status::Running {
                let r = s == Status::Success;
                proof {
                    assert(run_steps(npre, cpre, 0, node, *ctx, s));
                    assert(reaches(self, *old(ctx), node, *ctx, s));
                }
                return r;
            }
            proof {
                assert(npre.step(cpre, node, *ctx, Status::Running));
                fuel = (fuelpre - 1) as nat;
                assert forall|k: nat, n: Self, c2: Self::Context, s2: Status|
                    #[trigger] run_steps(node, *ctx, k, n, c2, s2) implies exists|k2: nat|
                    run_steps(orig, c0, k2, n, c2, s2) by {
                    assert(npre.step(cpre, node, *ctx, Status::Running));
                    assert(run_steps(npre, cpre, k + 1, n, c2, s2));
                }
            }
        }
    }
}

impl<B: Bhv> BhvExt for B {

}

} // verus!
