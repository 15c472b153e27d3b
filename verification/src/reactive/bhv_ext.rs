use vstd::prelude::*;
use crate::node::Status;
use crate::reactive::events::{Event, EventExt, EventType, EventTypeExt, EventKind, fingerprint, kind_of};
use crate::reactive::node::Bhv;
use crate::reactive::decor::{Inv, Pass, Fail, Repeat, RepeatUntilPass, RepeatUntilFail, WaitFor};

verus! {

/// The tree driven by consuming the given events one at a time, starting
/// as node `b` in context `c` and ending in context `c2`: each event the
/// root is interested in is handed to it; the run ends when the root
/// answers a terminal status, when the root is not interested in the next
/// event's kind, or when the events are exhausted.
pub open spec fn reactive_run<B: Bhv, E: Event>(
    b: B,
    evs: Seq<E>,
    c: B::Context,
    c2: B::Context,
) -> bool
    decreases evs.len(),
{
    if evs.len() == 0 {
        c2 == c
    } else if !b.interested(kind_of(evs[0])) {
        c2 == c
    } else {
        exists|n: B, cm: B::Context, s: Status|
            #[trigger] b.reacts(kind_of(evs[0]), c, n, cm, s) && (if s == Status::Running {
                reactive_run(n, evs.skip(1), cm, c2)
            } else {
                c2 == cm
            })
    }
}

/// Helper methods available on every reactive node: the builder methods
/// that wrap a node in a decorator, and the driver that feeds a tree from
/// a queue of events.
pub trait BhvExt: Bhv {
    /// Wrap this node so that its result is inverted; see [`Inv`].
    fn inv(self) -> (r: Inv<Self>)
        requires
            self.wf(),
        ensures
            r.wf(),
            r.0 == self,
    {
        Inv(self)
    }

    /// Wrap this node so that it succeeds whenever it completes; see
    /// [`Pass`].
    fn pass(self) -> (r: Pass<Self>)
        requires
            self.wf(),
        ensures
            r.wf(),
            r.0 == self,
    {
        Pass(self)
    }

    /// Wrap this node so that it fails whenever it completes; see
    /// [`Fail`].
    fn fail(self) -> (r: Fail<Self>)
        requires
            self.wf(),
        ensures
            r.wf(),
            r.0 == self,
    {
        Fail(self)
    }

    /// Wrap this node so that it completes the given number of runs and
    /// then stops listening; see [`Repeat`].
    fn repeat(self, count: u32) -> (r: Repeat<Self>)
        requires
            self.wf(),
        ensures
            r.wf(),
            r == (Repeat { bhv: self, count, current: 0u32 }),
    {
        Repeat { bhv: self, count, current: 0 }
    }

    /// Wrap this node so that it is retried until it succeeds; see
    /// [`RepeatUntilPass`].
    fn repeat_until_pass(self) -> (r: RepeatUntilPass<Self>)
        requires
            self.wf(),
        ensures
            r.wf(),
            r.0 == self,
    {
        RepeatUntilPass(self)
    }

    /// Wrap this node so that it is retried until it fails; see
    /// [`RepeatUntilFail`].
    fn repeat_until_fail(self) -> (r: RepeatUntilFail<Self>)
        requires
            self.wf(),
        ensures
            r.wf(),
            r.0 == self,
    {
        RepeatUntilFail(self)
    }

    /// Wrap this node so that it only sees events of the one kind the
    /// marker type `T` declares; see [`WaitFor`].
    fn wait_for<T: EventType>(self) -> (r: WaitFor<Self>)
        requires
            self.wf(),
        ensures
            r.wf(),
            r.bhv == self,
            r.kind == (EventKind(fingerprint(T::declared_name_spec()))),
    {
        WaitFor { bhv: self, kind: T::static_event_type() }
    }

    /// Feed the tree from the given queue of events, one at a time, until
    /// it answers a terminal status, declines an event's kind, or the
    /// queue is exhausted.
    fn execute<E: Event>(self, events: &Vec<E>, ctx: &mut Self::Context)
        requires
            self.wf(),
        ensures
            reactive_run(self, events@, *old(ctx), *final(ctx)),
    {
        let ghost orig = self;
        let ghost c0 = *ctx;
        let mut node = self;
        let mut i: usize = 0;
        proof {
            assert(events@.skip(0) =~= events@);
        }
        loop
            invariant
                node.wf(),
                orig == self,
                c0 == *old(ctx),
                i <= events@.len(),
                forall|c2: Self::Context|
                    #[trigger] reactive_run(node, events@.skip(i as int), *ctx, c2)
                        ==> reactive_run(orig, events@, c0, c2),
            decreases events@.len() - i,
        {
            let ghost evs = events@.skip(i as int);
            let ghost npre = node;
            let ghost cpre = *ctx;
            if i == events.len() {
                proof {
                    assert(evs.len() == 0);
                    assert(reactive_run(npre, evs, *ctx, *ctx));
                }
                return ;
            }
            proof {
                assert(evs[0] == events@[i as int]);
            }
            let k = events[i].event_type();
            if !node.should_react_to(k) {
                proof {
                    assert(reactive_run(npre, evs, *ctx, *ctx));
                }
                return ;
            }
            let s = node.react(&events[i], ctx);
            proof {
                assert(npre.reacts(kind_of(events@[i as int]), cpre, node, *ctx, s));
            }
            if s != Status::Running {
                proof {
                    assert(reactive_run(npre, evs, cpre, *ctx));
                }
                return ;
            }
            i = i + 1;
            proof {
                assert(evs.skip(1) =~= events@.skip(i as int));
                assert forall|c2: Self::Context|
                    #[trigger] reactive_run(node, events@.skip(i as int), *ctx, c2) implies reactive_run(
                    orig,
                    events@,
                    c0,
                    c2,
                ) by {
                    assert(reactive_run(npre, evs, cpre, c2));
                }
            }
        }
    }
}

impl<B: Bhv> BhvExt for B {

}

} // verus!
