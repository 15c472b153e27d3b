use vstd::prelude::*;

verus! {

/// The outcome of advancing a behavior node by one step.
#[derive(Clone, Copy, Debug, PartialEq, Eq, Structural)]
pub enum Status {
    /// The behavior is still running and wants to be advanced again.
    Running,
    /// The behavior completed successfully.
    Success,
    /// The behavior failed to complete.
    Failure,
}

/// A status that ends a run: anything but [`Status::Running`].
pub open spec fn terminal(s: Status) -> bool {
    s != Status::Running
}

/// A behavior-tree node driven by polling.
///
/// The driver (or an enclosing composite) calls [`Bhv::update`] with the
/// shared context until a terminal status comes back.  A node that returned
/// a terminal status must be told to [`Bhv::reset`] before it is stepped
/// again, so that private resumption state (cursors, repeat counters) is
/// rearmed for a fresh run.
///
/// Each implementation describes itself by two transition relations:
/// [`Bhv::step`] relates the node and context before one `update` call to
/// the node, context and status after it, and [`Bhv::resets`] relates the
/// node before a `reset` call to the node after it.  The contracts of
/// `update` and `reset` tie the executable code to those relations, so
/// everything proved about the relations holds of the running tree.
pub trait Bhv: Sized {
    /// The shared state threaded through every node of one tree.
    type Context;

    /// Well-formedness of the node's private resumption state.
    spec fn wf(self) -> bool;

    /// One-step transition relation of [`Bhv::update`]: from node `self`
    /// and context `c` to node `n`, context `c2` and status `s`.
    spec fn step(self, c: Self::Context, n: Self, c2: Self::Context, s: Status) -> bool;

    /// Transition relation of [`Bhv::reset`] with status argument `s`:
    /// from node `self` to node `n`.
    spec fn resets(self, s: Status, n: Self) -> bool;

    /// Advance the behavior one step, given the shared context.
    fn update(&mut self, ctx: &mut Self::Context) -> (s: Status)
        requires
            old(self).wf(),
        ensures
            final(self).wf(),
            old(self).step(*old(ctx), *final(self), *final(ctx), s),
    ;

    /// Rearm the node for a fresh run after it produced the terminal
    /// status `s`.
    fn reset(&mut self, s: Status)
        requires
            old(self).wf(),
        ensures
            final(self).wf(),
            old(self).resets(s, *final(self)),
    ;
}

/// A trace of exactly `k + 1` calls of [`Bhv::update`]: the first `k` calls
/// answer [`Status::Running`] and the last answers `s`, taking node `b` with
/// context `c` to node `n` with context `c2`.
pub open spec fn run_steps<B: Bhv>(b: B, c: B::Context, k: nat, n: B, c2: B::Context, s: Status) -> bool
    decreases k,
{
    if k == 0 {
        b.step(c, n, c2, s)
    } else {
        exists|bm: B, cm: B::Context|
            #[trigger] b.step(c, bm, cm, Status::Running) && run_steps(
                bm,
                cm,
                (k - 1) as nat,
                n,
                c2,
                s,
            )
    }
}

/// Some number of [`Bhv::update`] calls takes node `b` with context `c` to
/// node `n` with context `c2`, the last call answering `s`.
pub open spec fn reaches<B: Bhv>(b: B, c: B::Context, n: B, c2: B::Context, s: Status) -> bool {
    exists|k: nat| run_steps(b, c, k, n, c2, s)
}

/// Every chain of [`Status::Running`] answers starting from node `b` with
/// context `c` is shorter than `k`.
pub open spec fn halts_within<B: Bhv>(b: B, c: B::Context, k: nat) -> bool
    decreases k,
{
    forall|n: B, c2: B::Context| #[trigger]
        b.step(c, n, c2, Status::Running) ==> k > 0 && halts_within(n, c2, (k - 1) as nat)
}

/// The node cannot answer [`Status::Running`] forever: every run from `b`
/// with context `c` reaches a terminal status after boundedly many steps.
pub open spec fn halts<B: Bhv>(b: B, c: B::Context) -> bool {
    exists|k: nat| halts_within(b, c, k)
}

} // verus!
