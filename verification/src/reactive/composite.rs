use vstd::prelude::*;
use crate::node::Status;
use crate::reactive::events::{Event, EventExt, EventKind, kind_of};
use crate::reactive::node::Bhv;

verus! {

/// Every child at or before position `upto` is interested in events of
/// this kind.  The reactive composites offer an event only to the prefix
/// of interested children: the first uninterested child blocks the event
/// for itself and for everything after it.
pub open spec fn prefix_interested<B: Bhv>(ns: Seq<B>, kind: EventKind, upto: int) -> bool {
    forall|t: int| 0 <= t <= upto ==> (#[trigger] ns[t]).interested(kind)
}

/// One event consumed by the reactive composite engine over children `ns`
/// with cursor `i` and continue-status `cont`.  When some child at or
/// before the cursor is not interested in the event's kind, the event is
/// blocked: nothing changes and the engine answers [`Status::Running`].
/// Otherwise the child at the cursor consumes the event: answering `cont`
/// advances the cursor — past the last child, the whole composite is done
/// and answers `cont` with the cursor rearmed to 0; answering
/// [`Status::Running`] keeps the cursor; answering the short-circuit
/// status rearms the cursor to 0 and is propagated.  One event is consumed
/// by at most one child.
pub open spec fn list_react<B: Bhv>(
    ns: Seq<B>,
    i: int,
    cont: Status,
    kind: EventKind,
    c: B::Context,
    ns2: Seq<B>,
    j: int,
    c2: B::Context,
    s: Status,
) -> bool {
    if i < 0 || i >= ns.len() {
        false
    } else if !prefix_interested(ns, kind, i) {
        ns2 == ns && j == i && c2 == c && s == Status::Running
    } else {
        exists|b1: B, s0: Status|
            #[trigger] ns[i].reacts(kind, c, b1, c2, s0) && ns2 == ns.update(i, b1) && (if s0
                == cont {
                if i + 1 == ns.len() {
                    j == 0 && s == cont
                } else {
                    j == i + 1 && s == Status::Running
                }
            } else if s0 == Status::Running {
                j == i && s == Status::Running
            } else {
                j == 0 && s == s0
            })
    }
}

/// The engine shared by the reactive composites; see [`list_react`].
fn list_react_exec<B: Bhv, E: Event>(
    nodes: &mut Vec<B>,
    current: &mut usize,
    cont: Status,
    event: &E,
    ctx: &mut B::Context,
) -> (s: Status)
    requires
        cont != Status::Running,
        *old(current) < old(nodes)@.len(),
        forall|t: int| 0 <= t < old(nodes)@.len() ==> (#[trigger] old(nodes)@[t]).wf(),
    ensures
        final(nodes)@.len() == old(nodes)@.len(),
        forall|t: int| 0 <= t < final(nodes)@.len() ==> (#[trigger] final(nodes)@[t]).wf(),
        *final(current) < final(nodes)@.len(),
        list_react(
            old(nodes)@,
            *old(current) as int,
            cont,
            kind_of(*event),
            *old(ctx),
            final(nodes)@,
            *final(current) as int,
            *final(ctx),
            s,
        ),
{
    let k = event.event_type();
    let idx = *current;
    let mut t: usize = 0;
    while t < idx
        invariant
            t <= idx,
            idx < nodes@.len(),
            k == kind_of(*event),
            nodes@ == old(nodes)@,
            *current == *old(current),
            idx == *old(current),
            *ctx == *old(ctx),
            forall|u: int| 0 <= u < t ==> (#[trigger] nodes@[u]).interested(k),
            forall|u: int| 0 <= u < nodes@.len() ==> (#[trigger] nodes@[u]).wf(),
        decreases idx - t,
    {
        if !nodes[t].should_react_to(k) {
            proof {
                assert(!nodes@[t as int].interested(k));
                assert(!prefix_interested(nodes@, k, idx as int));
            }
            return Status::Running;
        }
        t += 1;
    }
    if !nodes[idx].should_react_to(k) {
        proof {
            assert(!nodes@[idx as int].interested(k));
            assert(!prefix_interested(nodes@, k, idx as int));
        }
        return Status::Running;
    }
    proof {
        assert(prefix_interested(nodes@, k, idx as int));
    }
    let ghost nspre = nodes@;
    let s0 = nodes[idx].react(event, ctx);
    proof {
        assert(nspre[idx as int].reacts(k, *old(ctx), nodes@[idx as int], *ctx, s0));
        assert(nodes@ == nspre.update(idx as int, nodes@[idx as int]));
    }
    let len = nodes.len();
    if s0 == cont {
        if idx + 1 == len {
            *current = 0;
            cont
        } else {
            *current = idx + 1;
            Status::Running
        }
    } else if s0 == Status::Running {
        Status::Running
    } else {
        *current = 0;
        s0
    }
}

/// A reactive selector: its children consume events in order, one child
/// per event, until one child succeeds, in which case the selector
/// succeeds too; when every child has failed, the selector fails.
pub struct Sel<B: Bhv> {
    pub nodes: Vec<B>,
    pub current: usize,
}

/// A reactive sequence: its children consume events in order, one child
/// per event, until one child fails, in which case the sequence fails
/// too; when every child has succeeded, the sequence succeeds.
pub struct Sequence<B: Bhv> {
    pub nodes: Vec<B>,
    pub current: usize,
}

impl<B: Bhv> Sel<B> {
    /// Build a reactive selector over the given children; a composite
    /// must own at least one child.
    pub fn with_nodes(nodes: Vec<B>) -> (r: Self)
        requires
            nodes@.len() >= 1,
            forall|t: int| 0 <= t < nodes@.len() ==> (#[trigger] nodes@[t]).wf(),
        ensures
            r.wf(),
            r.nodes == nodes,
            r.current == 0,
    {
        Sel { nodes, current: 0 }
    }
}

impl<B: Bhv> Sequence<B> {
    /// Build a reactive sequence over the given children; a composite
    /// must own at least one child.
    pub fn with_nodes(nodes: Vec<B>) -> (r: Self)
        requires
            nodes@.len() >= 1,
            forall|t: int| 0 <= t < nodes@.len() ==> (#[trigger] nodes@[t]).wf(),
        ensures
            r.wf(),
            r.nodes == nodes,
            r.current == 0,
    {
        Sequence { nodes, current: 0 }
    }
}

impl<B: Bhv> Bhv for Sel<B> {
    type Context = B::Context;

    open spec fn wf(self) -> bool {
        &&& self.current < self.nodes@.len()
        &&& forall|t: int| 0 <= t < self.nodes@.len() ==> (#[trigger] self.nodes@[t]).wf()
    }

    open spec fn interested(self, kind: EventKind) -> bool {
        true
    }

    open spec fn reacts(self, kind: EventKind, c: B::Context, n: Self, c2: B::Context, s: Status) -> bool {
        list_react(
            self.nodes@,
            self.current as int,
            Status::Failure,
            kind,
            c,
            n.nodes@,
            n.current as int,
            c2,
            s,
        )
    }

    fn should_react_to(&self, _kind: EventKind) -> (r: bool) {
        true
    }

    fn react<E: Event>(&mut self, event: &E, ctx: &mut B::Context) -> (s: Status) {
        list_react_exec(&mut self.nodes, &mut self.current, Status::Failure, event, ctx)
    }
}

impl<B: Bhv> Bhv for Sequence<B> {
    type Context = B::Context;

    open spec fn wf(self) -> bool {
        &&& self.current < self.nodes@.len()
        &&& forall|t: int| 0 <= t < self.nodes@.len() ==> (#[trigger] self.nodes@[t]).wf()
    }

    open spec fn interested(self, kind: EventKind) -> bool {
        true
    }

    open spec fn reacts(self, kind: EventKind, c: B::Context, n: Self, c2: B::Context, s: Status) -> bool {
        list_react(
            self.nodes@,
            self.current as int,
            Status::Success,
            kind,
            c,
            n.nodes@,
            n.current as int,
            c2,
            s,
        )
    }

    fn should_react_to(&self, _kind: EventKind) -> (r: bool) {
        true
    }

    fn react<E: Event>(&mut self, event: &E, ctx: &mut B::Context) -> (s: Status) {
        list_react_exec(&mut self.nodes, &mut self.current, Status::Success, event, ctx)
    }
}

} // verus!
