use vstd::prelude::*;
use crate::node::Status;
use crate::reactive::events::{Event, EventKind, kind_of};

verus! {

/// A behavior-tree node driven by discrete events.
///
/// Instead of being polled every tick, a reactive node consumes one
/// external event per [`Bhv::react`] call, and declares through
/// [`Bhv::should_react_to`] which kinds of event it is interested in;
/// the driver and the composite nodes only offer an event to a node that
/// is interested in its kind.
///
/// Each implementation describes itself by the spec functions
/// [`Bhv::interested`] and [`Bhv::reacts`]: the latter relates the node
/// and context before one `react` call to the node, context and status
/// after it, given the kind of the consumed event.  The contracts here
/// only speak of the event's kind, so everything the combinators of this
/// crate do with events is captured; a node of the host's own whose
/// reaction depends on an event's payload can only be specified up to its
/// kind.
pub trait Bhv: Sized {
    /// The shared state threaded through every node of one tree.
    type Context;

    /// Well-formedness of the node's private state.
    spec fn wf(self) -> bool;

    /// Which event kinds the node wants to see.
    spec fn interested(self, kind: EventKind) -> bool;

    /// Transition relation of [`Bhv::react`]: consuming one event of kind
    /// `kind` takes node `self` with context `c` to node `n` with context
    /// `c2`, answering `s`.
    spec fn reacts(self, kind: EventKind, c: Self::Context, n: Self, c2: Self::Context, s: Status) -> bool;

    /// Whether the node should run in response to events of this kind.
    fn should_react_to(&self, kind: EventKind) -> (r: bool)
        requires
            self.wf(),
        ensures
            r == self.interested(kind),
    ;

    /// Consume one event, given the shared context.
    fn react<E: Event>(&mut self, event: &E, ctx: &mut Self::Context) -> (s: Status)
        requires
            old(self).wf(),
        ensures
            final(self).wf(),
            old(self).reacts(kind_of(*event), *old(ctx), *final(self), *final(ctx), s),
    ;
}

} // verus!
