use vstd::prelude::*;
use crate::node::{Bhv, Status};
use crate::decor::invert;

verus! {

/// One sweep of the stateless composites [`WhenAny`] and [`WhenAll`] over
/// the children `ns` from index `i` on: every child is stepped once per
/// call, in order, until one answers the short-circuit status `sc`, which
/// is propagated at once; when no child does, the sweep answers
/// [`Status::Running`] as soon as some child did (`running` carries that
/// in), and the dual of `sc` otherwise.
pub open spec fn sweep_step<B: Bhv>(
    ns: Seq<B>,
    i: int,
    sc: Status,
    running: bool,
    c: B::Context,
    ns2: Seq<B>,
    c2: B::Context,
    s: Status,
) -> bool
    decreases ns.len() - i,
{
    if i < 0 || i > ns.len() {
        false
    } else if i == ns.len() {
        ns2 == ns && c2 == c && s == (if running {
            Status::Running
        } else {
            invert(sc)
        })
    } else {
        exists|b1: B, cm: B::Context, s0: Status|
            #[trigger] ns[i].step(c, b1, cm, s0) && (if s0 == sc {
                s == sc && c2 == cm && ns2 == ns.update(i, b1)
            } else {
                sweep_step(
                    ns.update(i, b1),
                    i + 1,
                    sc,
                    running || (s0 == Status::Running),
                    cm,
                    ns2,
                    c2,
                    s,
                )
            })
    }
}

/// The shared engine of [`WhenAny`] and [`WhenAll`]: step every child once,
/// short-circuiting on `sc`.
fn sweep_update<B: Bhv>(nodes: &mut Vec<B>, sc: Status, ctx: &mut B::Context) -> (s: Status)
    requires
        sc != Status::Running,
        forall|t: int| 0 <= t < old(nodes)@.len() ==> (#[trigger] old(nodes)@[t]).wf(),
    ensures
        final(nodes)@.len() == old(nodes)@.len(),
        forall|t: int| 0 <= t < final(nodes)@.len() ==> (#[trigger] final(nodes)@[t]).wf(),
        sweep_step(old(nodes)@, 0, sc, false, *old(ctx), final(nodes)@, *final(ctx), s),
{
    let ghost ns0 = nodes@;
    let ghost c0 = *ctx;
    let mut any_running = false;
    let mut i: usize = 0;
    loop
        invariant
            sc != Status::Running,
            ns0 == old(nodes)@,
            c0 == *old(ctx),
            nodes@.len() == ns0.len(),
            i <= nodes@.len(),
            forall|t: int| 0 <= t < nodes@.len() ==> (#[trigger] nodes@[t]).wf(),
            forall|ns2: Seq<B>, c2: B::Context, s: Status|
                #[trigger] sweep_step(nodes@, i as int, sc, any_running, *ctx, ns2, c2, s)
                    ==> sweep_step(ns0, 0, sc, false, c0, ns2, c2, s),
        decreases nodes@.len() - i,
    {
        let ghost nspre = nodes@;
        let ghost ipre = i as int;
        let ghost cpre = *ctx;
        let ghost rpre = any_running;
        if i >= nodes.len() {
            let r = if any_running {
                Status::Running
            } else if sc == Status::Success {
                Status::Failure
            } else {
                Status::Success
            };
            proof {
                assert(sweep_step(nspre, ipre, sc, rpre, cpre, nodes@, *ctx, r));
            }
            return r;
        }
        let s0 = nodes[i].update(ctx);
        proof {
            assert(nspre[ipre].step(cpre, nodes@[ipre], *ctx, s0));
            assert(nodes@ == nspre.update(ipre, nodes@[ipre]));
        }
        if s0 == sc {
            proof {
                assert(sweep_step(nspre, ipre, sc, rpre, cpre, nodes@, *ctx, sc));
            }
            return sc;
        }
        if s0 == Status::Running {
            any_running = true;
        }
        i = i + 1;
        proof {
            let ghost b1 = nodes@[ipre];
            assert forall|ns2: Seq<B>, c2: B::Context, s: Status|
                #[trigger] sweep_step(nodes@, i as int, sc, any_running, *ctx, ns2, c2, s)
                    implies sweep_step(ns0, 0, sc, false, c0, ns2, c2, s) by {
                assert(nspre[ipre].step(cpre, b1, *ctx, s0));
                assert(sweep_step(nspre, ipre, sc, rpre, cpre, ns2, c2, s));
            }
        }
    }
}

/// A composite that steps every child each call, in order, succeeding as
/// soon as one child succeeds; when no child is running any more and none
/// succeeded, it fails.  Unlike [`crate::Sel`] it keeps stepping children
/// that answered [`Status::Running`] on the same call as the others: there
/// is no cursor.
pub struct WhenAny<B: Bhv> {
    pub nodes: Vec<B>,
}

/// A composite that steps every child each call, in order, failing as soon
/// as one child fails; when no child is running any more and none failed,
/// it succeeds.  Unlike [`crate::Sequence`] it keeps stepping children
/// that answered [`Status::Running`] on the same call as the others: there
/// is no cursor.
pub struct WhenAll<B: Bhv> {
    pub nodes: Vec<B>,
}

impl<B: Bhv> WhenAny<B> {
    /// Build the composite over the given children.
    pub fn new(bhvs: Vec<B>) -> (r: Self)
        requires
            bhvs@.len() >= 1,
            forall|t: int| 0 <= t < bhvs@.len() ==> (#[trigger] bhvs@[t]).wf(),
        ensures
            r.wf(),
            r.nodes == bhvs,
    {
        WhenAny { nodes: bhvs }
    }
}

impl<B: Bhv> WhenAll<B> {
    /// Build the composite over the given children.
    pub fn new(bhvs: Vec<B>) -> (r: Self)
        requires
            bhvs@.len() >= 1,
            forall|t: int| 0 <= t < bhvs@.len() ==> (#[trigger] bhvs@[t]).wf(),
        ensures
            r.wf(),
            r.nodes == bhvs,
    {
        WhenAll { nodes: bhvs }
    }
}

impl<B: Bhv> Bhv for WhenAny<B> {
    type Context = B::Context;

    open spec fn wf(self) -> bool {
        &&& self.nodes@.len() >= 1
        &&& forall|t: int| 0 <= t < self.nodes@.len() ==> (#[trigger] self.nodes@[t]).wf()
    }

    open spec fn step(self, c: B::Context, n: Self, c2: B::Context, s: Status) -> bool {
        sweep_step(self.nodes@, 0, Status::Success, false, c, n.nodes@, c2, s)
    }

    open spec fn resets(self, s: Status, n: Self) -> bool {
        n == self
    }

    fn update(&mut self, ctx: &mut B::Context) -> (s: Status) {
        sweep_update(&mut self.nodes, Status::Success, ctx)
    }

    fn reset(&mut self, _s: Status) {
    }
}

impl<B: Bhv> Bhv for WhenAll<B> {
    type Context = B::Context;

    open spec fn wf(self) -> bool {
        &&& self.nodes@.len() >= 1
        &&& forall|t: int| 0 <= t < self.nodes@.len() ==> (#[trigger] self.nodes@[t]).wf()
    }

    open spec fn step(self, c: B::Context, n: Self, c2: B::Context, s: Status) -> bool {
        sweep_step(self.nodes@, 0, Status::Failure, false, c, n.nodes@, c2, s)
    }

    open spec fn resets(self, s: Status, n: Self) -> bool {
        n == self
    }

    fn update(&mut self, ctx: &mut B::Context) -> (s: Status) {
        sweep_update(&mut self.nodes, Status::Failure, ctx)
    }

    fn reset(&mut self, _s: Status) {
    }
}

} // verus!
