use vstd::prelude::*;
use crate::node::{Bhv, Status};

verus! {

/// Pointwise reset of the first `k` children: `ns2` is `ns` with every
/// child before `k` replaced by an outcome of its own reset with status
/// `st`, and every child from `k` on unchanged.
pub open spec fn resets_upto<B: Bhv>(ns: Seq<B>, k: int, st: Status, ns2: Seq<B>) -> bool {
    &&& ns2.len() == ns.len()
    &&& forall|t: int| 0 <= t < k ==> ns[t].resets(st, #[trigger] ns2[t])
    &&& forall|t: int| k <= t < ns.len() ==> #[trigger] ns2[t] == ns[t]
}

/// One step of the composite engine over children `ns` with cursor `i` and
/// continue-status `cont`, starting in context `c`: the engine advances
/// from the cursor, stepping one child after the other within the same
/// call while children keep answering `cont`.  A child answering
/// [`Status::Running`] stops the sweep with the cursor left on it; a child
/// answering the other terminal status short-circuits, all visited children
/// (the short-circuiting one included) are reset and the cursor goes back
/// to 0; when the cursor passes the last child, every child is reset, the
/// cursor goes back to 0 and the engine answers `cont` itself.  The
/// children end as `ns2`, the cursor as `j`, the context as `c2` and the
/// answer is `s`.
pub open spec fn list_step<B: Bhv>(
    ns: Seq<B>,
    i: int,
    cont: Status,
    c: B::Context,
    ns2: Seq<B>,
    j: int,
    c2: B::Context,
    s: Status,
) -> bool
    decreases ns.len() - i, 1int,
{
    if i < 0 || i > ns.len() {
        false
    } else if i == ns.len() {
        s == cont && j == 0 && c2 == c && resets_upto(ns, ns.len() as int, cont, ns2)
    } else {
        exists|b1: B, cm: B::Context, s0: Status|
            #[trigger] ns[i].step(c, b1, cm, s0) && list_step_tail(
                ns,
                i,
                cont,
                b1,
                cm,
                s0,
                ns2,
                j,
                c2,
                s,
            )
    }
}

/// What remains of [`list_step`] once the child at the cursor has stepped:
/// the child became `b1`, the context `cm` and the child's answer was `s0`.
pub open spec fn list_step_tail<B: Bhv>(
    ns: Seq<B>,
    i: int,
    cont: Status,
    b1: B,
    cm: B::Context,
    s0: Status,
    ns2: Seq<B>,
    j: int,
    c2: B::Context,
    s: Status,
) -> bool
    decreases ns.len() - i, 0int,
{
    if i < 0 || i >= ns.len() {
        false
    } else if s0 == cont {
        list_step(ns.update(i, b1), i + 1, cont, cm, ns2, j, c2, s)
    } else if s0 == Status::Running {
        s == Status::Running && j == i && c2 == cm && ns2 == ns.update(i, b1)
    } else {
        s == s0 && j == 0 && c2 == cm && resets_upto(ns.update(i, b1), i + 1, cont, ns2)
    }
}

/// Reset every child before the cursor with status `cont` and put the
/// cursor back to 0; shared by the composite nodes.
fn list_reset<B: Bhv>(nodes: &mut Vec<B>, current: &mut usize, cont: Status)
    requires
        *old(current) <= old(nodes)@.len(),
        forall|t: int| 0 <= t < old(nodes)@.len() ==> (#[trigger] old(nodes)@[t]).wf(),
    ensures
        final(nodes)@.len() == old(nodes)@.len(),
        forall|t: int| 0 <= t < final(nodes)@.len() ==> (#[trigger] final(nodes)@[t]).wf(),
        resets_upto(old(nodes)@, *old(current) as int, cont, final(nodes)@),
        *final(current) == 0,
{
    let end = *current;
    let mut t: usize = 0;
    while t < end
        invariant
            t <= end,
            end <= nodes@.len(),
            nodes@.len() == old(nodes)@.len(),
            forall|u: int| 0 <= u < nodes@.len() ==> (#[trigger] nodes@[u]).wf(),
            forall|u: int| 0 <= u < t ==> old(nodes)@[u].resets(cont, #[trigger] nodes@[u]),
            forall|u: int| t <= u < nodes@.len() ==> #[trigger] nodes@[u] == old(nodes)@[u],
        decreases end - t,
    {
        nodes[t].reset(cont);
        t += 1;
    }
    *current = 0;
}

/// One sweep of the composite engine; see [`list_step`] for the relation
/// between the state before the call and after it.
fn list_update<B: Bhv>(
    nodes: &mut Vec<B>,
    current: &mut usize,
    cont: Status,
    ctx: &mut B::Context,
) -> (s: Status)
    requires
        cont != Status::Running,
        *old(current) <= old(nodes)@.len(),
        forall|t: int| 0 <= t < old(nodes)@.len() ==> (#[trigger] old(nodes)@[t]).wf(),
    ensures
        final(nodes)@.len() == old(nodes)@.len(),
        forall|t: int| 0 <= t < final(nodes)@.len() ==> (#[trigger] final(nodes)@[t]).wf(),
        *final(current) <= final(nodes)@.len(),
        s == Status::Running ==> *final(current) < final(nodes)@.len(),
        s != Status::Running ==> *final(current) == 0,
        list_step(
            old(nodes)@,
            *old(current) as int,
            cont,
            *old(ctx),
            final(nodes)@,
            *final(current) as int,
            *final(ctx),
            s,
        ),
{
    let ghost ns0 = nodes@;
    let ghost i0 = *current as int;
    let ghost c0 = *ctx;
    loop
        invariant
            cont != Status::Running,
            ns0 == old(nodes)@,
            i0 == *old(current) as int,
            c0 == *old(ctx),
            nodes@.len() == ns0.len(),
            *current <= nodes@.len(),
            forall|t: int| 0 <= t < nodes@.len() ==> (#[trigger] nodes@[t]).wf(),
            forall|ns2: Seq<B>, j: int, c2: B::Context, s: Status|
                #[trigger] list_step(nodes@, *current as int, cont, *ctx, ns2, j, c2, s)
                    ==> list_step(ns0, i0, cont, c0, ns2, j, c2, s),
        decreases nodes@.len() - *current,
    {
        let ghost nspre = nodes@;
        let ghost ipre = *current as int;
        let ghost cpre = *ctx;
        if *current >= nodes.len() {
            list_reset(nodes, current, cont);
            proof {
                assert(list_step(nspre, ipre, cont, cpre, nodes@, 0int, *ctx, cont));
            }
            return cont;
        }
        let idx = *current;
        let s0 = nodes[idx].update(ctx);
        proof {
            assert(nspre[idx as int].step(cpre, nodes@[idx as int], *ctx, s0));
            assert(nodes@ == nspre.update(idx as int, nodes@[idx as int]));
        }
        if s0 == cont {
            *current = idx + 1;
            proof {
                let ghost b1 = nodes@[idx as int];
                assert forall|ns2: Seq<B>, j: int, c2: B::Context, s: Status|
                    #[trigger] list_step(nodes@, *current as int, cont, *ctx, ns2, j, c2, s)
                        implies list_step(ns0, i0, cont, c0, ns2, j, c2, s) by {
                    assert(nspre[ipre].step(cpre, b1, *ctx, s0));
                    assert(list_step(nspre, ipre, cont, cpre, ns2, j, c2, s));
                }
            }
        } else if s0 == Status::Running {
            proof {
                let ghost b1 = nodes@[idx as int];
                assert(nspre[ipre].step(cpre, b1, *ctx, s0));
                assert(list_step(nspre, ipre, cont, cpre, nodes@, idx as int, *ctx, Status::Running));
            }
            return Status::Running;
        } else {
            let ghost b1 = nodes@[idx as int];
            let ghost nsmid = nodes@;
            let ghost cmid = *ctx;
            *current = idx + 1;
            list_reset(nodes, current, cont);
            proof {
                assert(nspre[ipre].step(cpre, b1, cmid, s0));
                assert(resets_upto(nsmid, ipre + 1, cont, nodes@));
                assert(list_step(nspre, ipre, cont, cpre, nodes@, 0int, *ctx, s0));
            }
            return s0;
        }
    }
}

/// A selector: a composite that runs its children in order until one of
/// them succeeds, in which case the selector succeeds too; when every child
/// has failed, the selector fails.  The continue-status of its engine is
/// [`Status::Failure`].
pub struct Sel<B: Bhv> {
    pub nodes: Vec<B>,
    pub current: usize,
}

/// A sequence: a composite that runs its children in order until one of
/// them fails, in which case the sequence fails too; when every child has
/// succeeded, the sequence succeeds.  The continue-status of its engine is
/// [`Status::Success`].
pub struct Sequence<B: Bhv> {
    pub nodes: Vec<B>,
    pub current: usize,
}

impl<B: Bhv> Sel<B> {
    /// Build a selector over the given children; a composite must own at
    /// least one child.
    pub fn with_nodes(nodes: Vec<B>) -> (r: Self)
        requires
            nodes@.len() >= 1,
            forall|t: int| 0 <= t < nodes@.len() ==> (#[trigger] nodes@[t]).wf(),
        ensures
            r.wf(),
            r.nodes == nodes,
            r.current == 0,
    {
        Sel { nodes, current: 0 }
    }
}

impl<B: Bhv> Sequence<B> {
    /// Build a sequence over the given children; a composite must own at
    /// least one child.
    pub fn with_nodes(nodes: Vec<B>) -> (r: Self)
        requires
            nodes@.len() >= 1,
            forall|t: int| 0 <= t < nodes@.len() ==> (#[trigger] nodes@[t]).wf(),
        ensures
            r.wf(),
            r.nodes == nodes,
            r.current == 0,
    {
        Sequence { nodes, current: 0 }
    }
}

impl<B: Bhv> Bhv for Sel<B> {
    type Context = B::Context;

    open spec fn wf(self) -> bool {
        &&& self.nodes@.len() >= 1
        &&& self.current <= self.nodes@.len()
        &&& forall|t: int| 0 <= t < self.nodes@.len() ==> (#[trigger] self.nodes@[t]).wf()
    }

    open spec fn step(self, c: B::Context, n: Self, c2: B::Context, s: Status) -> bool {
        list_step(
            self.nodes@,
            self.current as int,
            Status::Failure,
            c,
            n.nodes@,
            n.current as int,
            c2,
            s,
        )
    }

    open spec fn resets(self, s: Status, n: Self) -> bool {
        &&& resets_upto(self.nodes@, self.current as int, Status::Failure, n.nodes@)
        &&& n.current == 0
    }

    fn update(&mut self, ctx: &mut B::Context) -> (s: Status) {
        list_update(&mut self.nodes, &mut self.current, Status::Failure, ctx)
    }

    fn reset(&mut self, _s: Status) {
        list_reset(&mut self.nodes, &mut self.current, Status::Failure)
    }
}

impl<B: Bhv> Bhv for Sequence<B> {
    type Context = B::Context;

    open spec fn wf(self) -> bool {
        &&& self.nodes@.len() >= 1
        &&& self.current <= self.nodes@.len()
        &&& forall|t: int| 0 <= t < self.nodes@.len() ==> (#[trigger] self.nodes@[t]).wf()
    }

    open spec fn step(self, c: B::Context, n: Self, c2: B::Context, s: Status) -> bool {
        list_step(
            self.nodes@,
            self.current as int,
            Status::Success,
            c,
            n.nodes@,
            n.current as int,
            c2,
            s,
        )
    }

    open spec fn resets(self, s: Status, n: Self) -> bool {
        &&& resets_upto(self.nodes@, self.current as int, Status::Success, n.nodes@)
        &&& n.current == 0
    }

    fn update(&mut self, ctx: &mut B::Context) -> (s: Status) {
        list_update(&mut self.nodes, &mut self.current, Status::Success, ctx)
    }

    fn reset(&mut self, _s: Status) {
        list_reset(&mut self.nodes, &mut self.current, Status::Success)
    }
}

} // verus!
