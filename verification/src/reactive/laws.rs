//! The laws of reactive event gating, stated over the transition
//! relations of the reactive nodes and proved once and for all.
use vstd::prelude::*;
use crate::node::Status;
use crate::reactive::events::EventKind;
use crate::reactive::node::Bhv;
use crate::reactive::composite::{list_react, prefix_interested};
use crate::reactive::decor::WaitFor;

verus! {

/// A node gated on one kind is interested in exactly that kind: a
/// [`WaitFor`] never sees — and so never reacts to — an event of another
/// kind, wherever the combinators of this crate honor
/// [`Bhv::should_react_to`].
pub proof fn lemma_wait_for_filters<B: Bhv>(w: WaitFor<B>, kind: EventKind)
    ensures
        w.interested(kind) <==> kind == w.kind,
{
}

/// A composite list with an uninterested child at position `g` never
/// offers the event to the gated child nor to anything after it: when the
/// cursor has not passed `g`, every child from `g` on keeps its state
/// exactly; and when the cursor stands at `g` or beyond, the whole
/// composite ignores the event — nothing changes at all and the answer is
/// [`Status::Running`].
pub proof fn lemma_event_gate_blocks<B: Bhv>(
    ns: Seq<B>,
    i: int,
    cont: Status,
    kind: EventKind,
    c: B::Context,
    ns2: Seq<B>,
    j: int,
    c2: B::Context,
    s: Status,
    g: int,
)
    requires
        list_react(ns, i, cont, kind, c, ns2, j, c2, s),
        0 <= g < ns.len(),
        !ns[g].interested(kind),
    ensures
        forall|t: int| g <= t < ns.len() ==> ns2[t] == ns[t],
        i >= g ==> (ns2 == ns && c2 == c && s == Status::Running && j == i),
{
    if prefix_interested(ns, kind, i) {
        assert(i < g);
        let (b1, s0) = choose|b1: B, s0: Status|
            #[trigger] ns[i].reacts(kind, c, b1, c2, s0) && ns2 == ns.update(i, b1);
        assert forall|t: int| g <= t < ns.len() implies ns2[t] == ns[t] by {
            assert(ns2 == ns.update(i, b1));
        }
    }
}

} // verus!
