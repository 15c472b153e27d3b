//! The algebraic laws of the poll-model combinators, stated over the
//! transition relations of the nodes and proved once and for all.
use vstd::prelude::*;
use crate::node::{Bhv, Status, run_steps, reaches, terminal};
use crate::composite::{Sel, Sequence, list_step, list_step_tail, resets_upto};
use crate::decor::{Inv, invert, Repeat, RepeatUntil};

verus! {

/// Each child from position `i` on is activated exactly once, in list
/// order, each one stepping from the context its predecessor produced and
/// answering [`Status::Success`]; the last context is `c2`.
pub open spec fn succ_chain<B: Bhv>(ns: Seq<B>, i: int, c: B::Context, c2: B::Context) -> bool
    decreases ns.len() - i,
{
    if i < 0 || i > ns.len() {
        false
    } else if i == ns.len() {
        c2 == c
    } else {
        exists|b1: B, cm: B::Context|
            #[trigger] ns[i].step(c, b1, cm, Status::Success) && succ_chain(ns, i + 1, cm, c2)
    }
}

/// [`succ_chain`] only looks at the children from position `i` on.
proof fn lemma_succ_chain_congruence<B: Bhv>(
    ns: Seq<B>,
    ms: Seq<B>,
    i: int,
    c: B::Context,
    c2: B::Context,
)
    requires
        0 <= i <= ns.len(),
        ms.len() == ns.len(),
        forall|t: int| i <= t < ns.len() ==> ns[t] == ms[t],
        succ_chain(ms, i, c, c2),
    ensures
        succ_chain(ns, i, c, c2),
    decreases ns.len() - i,
{
    if i < ns.len() {
        let (b1, cm) = choose|b1: B, cm: B::Context|
            #[trigger] ms[i].step(c, b1, cm, Status::Success) && succ_chain(ms, i + 1, cm, c2);
        lemma_succ_chain_congruence(ns, ms, i + 1, cm, c2);
        assert(ns[i].step(c, b1, cm, Status::Success));
    }
}

/// The engine of a sequence whose remaining children can only answer
/// [`Status::Success`] sweeps to the end: it answers `Success` itself,
/// after activating each remaining child exactly once, in list order, the
/// context flowing from each child to the next.
proof fn lemma_list_all_success<B: Bhv>(
    ns: Seq<B>,
    i: int,
    c: B::Context,
    ns2: Seq<B>,
    j: int,
    c2: B::Context,
    s: Status,
)
    requires
        0 <= i <= ns.len(),
        forall|k: int, cc: B::Context, b2: B, cc2: B::Context, ss: Status|
            i <= k < ns.len() && #[trigger] ns[k].step(cc, b2, cc2, ss) ==> ss == Status::Success,
        list_step(ns, i, Status::Success, c, ns2, j, c2, s),
    ensures
        s == Status::Success,
        succ_chain(ns, i, c, c2),
    decreases ns.len() - i,
{
    if i < ns.len() {
        let (b1, cm, s0) = choose|b1: B, cm: B::Context, s0: Status|
            #[trigger] ns[i].step(c, b1, cm, s0) && list_step_tail(
                ns,
                i,
                Status::Success,
                b1,
                cm,
                s0,
                ns2,
                j,
                c2,
                s,
            );
        assert(s0 == Status::Success);
        let ms = ns.update(i, b1);
        assert forall|k: int, cc: B::Context, b2: B, cc2: B::Context, ss: Status|
            i + 1 <= k < ms.len() && #[trigger] ms[k].step(cc, b2, cc2, ss) implies ss
            == Status::Success by {
            assert(ms[k] == ns[k]);
        }
        lemma_list_all_success(ms, i + 1, cm, ns2, j, c2, s);
        lemma_succ_chain_congruence(ns, ms, i + 1, cm, c2);
        assert(ns[i].step(c, b1, cm, Status::Success));
    }
}

/// If every child of a fresh sequence can only answer
/// [`Status::Success`], then one [`crate::Bhv::update`] of the sequence
/// answers `Success`, every child is activated exactly once, in list
/// order, and the final context carries each child's effect in that order.
pub proof fn lemma_sequence_all_success<B: Bhv>(
    t: Sequence<B>,
    c: B::Context,
    n: Sequence<B>,
    c2: B::Context,
    s: Status,
)
    requires
        t.current == 0,
        forall|k: int, cc: B::Context, b2: B, cc2: B::Context, ss: Status|
            0 <= k < t.nodes@.len() && #[trigger] t.nodes@[k].step(cc, b2, cc2, ss) ==> ss
                == Status::Success,
        t.step(c, n, c2, s),
    ensures
        s == Status::Success,
        succ_chain(t.nodes@, 0, c, c2),
{
    lemma_list_all_success(t.nodes@, 0, c, n.nodes@, n.current as int, c2, s);
}

/// The engine of a sequence short-circuits at child `f`: children before
/// `f` can only succeed, child `f` can only fail, so the sweep answers
/// [`Status::Failure`], the cursor goes back to 0, and the children after
/// `f` are left exactly as they were: they are neither activated nor
/// reset.
proof fn lemma_list_fail_at<B: Bhv>(
    ns: Seq<B>,
    i: int,
    f: int,
    c: B::Context,
    ns2: Seq<B>,
    j: int,
    c2: B::Context,
    s: Status,
)
    requires
        0 <= i <= f < ns.len(),
        forall|k: int, cc: B::Context, b2: B, cc2: B::Context, ss: Status|
            i <= k < f && #[trigger] ns[k].step(cc, b2, cc2, ss) ==> ss == Status::Success,
        forall|cc: B::Context, b2: B, cc2: B::Context, ss: Status|
            #[trigger] ns[f].step(cc, b2, cc2, ss) ==> ss == Status::Failure,
        list_step(ns, i, Status::Success, c, ns2, j, c2, s),
    ensures
        s == Status::Failure,
        j == 0,
        forall|k: int| f < k < ns.len() ==> ns2[k] == ns[k],
    decreases ns.len() - i,
{
    let (b1, cm, s0) = choose|b1: B, cm: B::Context, s0: Status|
        #[trigger] ns[i].step(c, b1, cm, s0) && list_step_tail(
            ns,
            i,
            Status::Success,
            b1,
            cm,
            s0,
            ns2,
            j,
            c2,
            s,
        );
    let ms = ns.update(i, b1);
    if i == f {
        assert(s0 == Status::Failure);
        assert(resets_upto(ms, i + 1, Status::Success, ns2));
        assert forall|k: int| f < k < ns.len() implies ns2[k] == ns[k] by {
            assert(ns2[k] == ms[k]);
        }
    } else {
        assert(s0 == Status::Success);
        assert forall|k: int, cc: B::Context, b2: B, cc2: B::Context, ss: Status|
            i + 1 <= k < f && #[trigger] ms[k].step(cc, b2, cc2, ss) implies ss
            == Status::Success by {
            assert(ms[k] == ns[k]);
        }
        assert(ms[f] == ns[f]);
        lemma_list_fail_at(ms, i + 1, f, cm, ns2, j, c2, s);
        assert forall|k: int| f < k < ns.len() implies ns2[k] == ns[k] by {
            assert(ns2[k] == ms[k]);
        }
    }
}

/// The first child of a fresh sequence to fail aborts the sweep at once:
/// the sequence answers [`Status::Failure`] and the children after the
/// failing one are never activated for that run, nor told to reset.
pub proof fn lemma_sequence_failure_aborts<B: Bhv>(
    t: Sequence<B>,
    f: int,
    c: B::Context,
    n: Sequence<B>,
    c2: B::Context,
    s: Status,
)
    requires
        t.current == 0,
        0 <= f < t.nodes@.len(),
        forall|k: int, cc: B::Context, b2: B, cc2: B::Context, ss: Status|
            0 <= k < f && #[trigger] t.nodes@[k].step(cc, b2, cc2, ss) ==> ss == Status::Success,
        forall|cc: B::Context, b2: B, cc2: B::Context, ss: Status|
            #[trigger] t.nodes@[f].step(cc, b2, cc2, ss) ==> ss == Status::Failure,
        t.step(c, n, c2, s),
    ensures
        s == Status::Failure,
        n.current == 0,
        forall|k: int| f < k < t.nodes@.len() ==> n.nodes@[k] == t.nodes@[k],
{
    lemma_list_fail_at(t.nodes@, 0, f, c, n.nodes@, n.current as int, c2, s);
}

/// A reset outcome for node `b` with status `st`, when there is one.
pub open spec fn reset_choice<B: Bhv>(b: B, st: Status) -> B {
    choose|b2: B| b.resets(st, b2)
}

/// Every node of type `B` can be reset with any status: the reset
/// relation is inhabited everywhere.  Every node type of this crate
/// satisfies this; it has to be assumed of an abstract node type.
pub open spec fn resets_total<B: Bhv>() -> bool {
    forall|b: B, st: Status| #[trigger] b.resets(st, reset_choice(b, st))
}

/// Each child of the prefix replaced by a reset outcome of its own.
pub open spec fn reset_prefix<B: Bhv>(ns: Seq<B>, k: int, st: Status) -> Seq<B> {
    Seq::new(
        ns.len(),
        |t: int|
            if t < k {
                reset_choice(ns[t], st)
            } else {
                ns[t]
            },
    )
}

proof fn lemma_reset_prefix<B: Bhv>(ns: Seq<B>, k: int, st: Status)
    requires
        resets_total::<B>(),
        0 <= k <= ns.len(),
    ensures
        resets_upto(ns, k, st, reset_prefix(ns, k, st)),
{
    assert forall|t: int| 0 <= t < k implies ns[t].resets(st, #[trigger] reset_prefix(ns, k, st)[t]) by {
        assert(ns[t].resets(st, reset_choice(ns[t], st)));
    }
}

/// The children of the dual tree: each child wrapped in an [`Inv`].
pub open spec fn wrap_inv<B: Bhv>(ns: Seq<B>) -> Seq<Inv<B>> {
    ns.map_values(|b: B| Inv(b))
}

proof fn lemma_wrap_inv_update<B: Bhv>(ns: Seq<B>, i: int, b: B)
    requires
        0 <= i < ns.len(),
    ensures
        wrap_inv(ns.update(i, b)) == wrap_inv(ns).update(i, Inv(b)),
{
    assert(wrap_inv(ns.update(i, b)) =~= wrap_inv(ns).update(i, Inv(b)));
}

proof fn lemma_inv_resets_total<B: Bhv>()
    requires
        resets_total::<B>(),
    ensures
        resets_total::<Inv<B>>(),
{
    assert forall|m: Inv<B>, st: Status| #[trigger] m.resets(st, reset_choice(m, st)) by {
        assert(m.0.resets(st, reset_choice(m.0, st)));
        assert(m == Inv(m.0));
        assert(m.resets(st, Inv(reset_choice(m.0, st))));
    }
}

/// De Morgan, forward: every outcome of one step of the selector engine
/// over children `ns` is an outcome of one step of the *sequence* engine
/// over the inverted children `wrap_inv(ns)` — same starting and final
/// context, same final cursor, and the inverted status; wrapping that
/// sequence in one more [`Inv`] turns `invert(s)` back into `s`, so
/// `Sel([a, b, ...])` and `Inv(Sequence([Inv(a), Inv(b), ...]))` answer
/// alike.
pub proof fn lemma_selector_demorgan_fwd<B: Bhv>(
    ns: Seq<B>,
    i: int,
    c: B::Context,
    ns2: Seq<B>,
    j: int,
    c2: B::Context,
    s: Status,
)
    requires
        resets_total::<B>(),
        0 <= i <= ns.len(),
        list_step(ns, i, Status::Failure, c, ns2, j, c2, s),
    ensures
        exists|ms2: Seq<Inv<B>>|
            #[trigger] list_step(wrap_inv(ns), i, Status::Success, c, ms2, j, c2, invert(s)),
    decreases ns.len() - i,
{
    lemma_inv_resets_total::<B>();
    let ms = wrap_inv(ns);
    if i == ns.len() {
        let ms2 = reset_prefix(ms, ms.len() as int, Status::Success);
        lemma_reset_prefix(ms, ms.len() as int, Status::Success);
        assert(list_step(ms, i, Status::Success, c, ms2, 0, c, Status::Success));
    } else {
        let (b1, cm, s0) = choose|b1: B, cm: B::Context, s0: Status|
            #[trigger] ns[i].step(c, b1, cm, s0) && list_step_tail(
                ns,
                i,
                Status::Failure,
                b1,
                cm,
                s0,
                ns2,
                j,
                c2,
                s,
            );
        assert(ms[i] == Inv(ns[i]));
        assert(ms[i].0.step(c, Inv(b1).0, cm, s0));
        assert(ms[i].step(c, Inv(b1), cm, invert(s0)));
        lemma_wrap_inv_update(ns, i, b1);
        let mu = ms.update(i, Inv(b1));
        if s0 == Status::Failure {
            lemma_selector_demorgan_fwd(ns.update(i, b1), i + 1, cm, ns2, j, c2, s);
            let ms2 = choose|ms2: Seq<Inv<B>>|
                #[trigger] list_step(mu, i + 1, Status::Success, cm, ms2, j, c2, invert(s));
            assert(list_step_tail(
                ms,
                i,
                Status::Success,
                Inv(b1),
                cm,
                Status::Success,
                ms2,
                j,
                c2,
                invert(s),
            ));
            assert(list_step(ms, i, Status::Success, c, ms2, j, c2, invert(s)));
        } else if s0 == Status::Running {
            assert(list_step_tail(
                ms,
                i,
                Status::Success,
                Inv(b1),
                cm,
                Status::Running,
                mu,
                i,
                cm,
                Status::Running,
            ));
            assert(list_step(ms, i, Status::Success, c, mu, j, c2, invert(s)));
        } else {
            let ms2 = reset_prefix(mu, i + 1, Status::Success);
            lemma_reset_prefix(mu, i + 1, Status::Success);
            assert(list_step_tail(
                ms,
                i,
                Status::Success,
                Inv(b1),
                cm,
                Status::Failure,
                ms2,
                0,
                cm,
                Status::Failure,
            ));
            assert(list_step(ms, i, Status::Success, c, ms2, j, c2, invert(s)));
        }
    }
}

/// De Morgan, backward: every outcome of one step of the sequence engine
/// over the inverted children is an outcome of one step of the selector
/// engine over the children themselves, with the status inverted back.
pub proof fn lemma_selector_demorgan_bwd<B: Bhv>(
    ns: Seq<B>,
    i: int,
    c: B::Context,
    ms2: Seq<Inv<B>>,
    j: int,
    c2: B::Context,
    s: Status,
)
    requires
        resets_total::<B>(),
        0 <= i <= ns.len(),
        list_step(wrap_inv(ns), i, Status::Success, c, ms2, j, c2, s),
    ensures
        exists|ns2: Seq<B>| #[trigger] list_step(ns, i, Status::Failure, c, ns2, j, c2, invert(s)),
    decreases ns.len() - i,
{
    let ms = wrap_inv(ns);
    if i == ns.len() {
        let ns2 = reset_prefix(ns, ns.len() as int, Status::Failure);
        lemma_reset_prefix(ns, ns.len() as int, Status::Failure);
        assert(list_step(ns, i, Status::Failure, c, ns2, 0, c, Status::Failure));
    } else {
        let (m1, cm, s0) = choose|m1: Inv<B>, cm: B::Context, s0: Status|
            #[trigger] ms[i].step(c, m1, cm, s0) && list_step_tail(
                ms,
                i,
                Status::Success,
                m1,
                cm,
                s0,
                ms2,
                j,
                c2,
                s,
            );
        let b1 = m1.0;
        assert(m1 == Inv(b1));
        assert(ms[i] == Inv(ns[i]));
        let s0i = choose|s0i: Status| #[trigger] ns[i].step(c, b1, cm, s0i) && s0 == invert(s0i);
        assert(invert(s0) == s0i);
        lemma_wrap_inv_update(ns, i, b1);
        let nu = ns.update(i, b1);
        if s0 == Status::Success {
            assert(s0i == Status::Failure);
            assert(list_step(wrap_inv(nu), i + 1, Status::Success, cm, ms2, j, c2, s));
            lemma_selector_demorgan_bwd(nu, i + 1, cm, ms2, j, c2, s);
            let ns2 = choose|ns2: Seq<B>|
                #[trigger] list_step(nu, i + 1, Status::Failure, cm, ns2, j, c2, invert(s));
            assert(list_step_tail(
                ns,
                i,
                Status::Failure,
                b1,
                cm,
                Status::Failure,
                ns2,
                j,
                c2,
                invert(s),
            ));
            assert(list_step(ns, i, Status::Failure, c, ns2, j, c2, invert(s)));
        } else if s0 == Status::Running {
            assert(s0i == Status::Running);
            assert(list_step_tail(
                ns,
                i,
                Status::Failure,
                b1,
                cm,
                Status::Running,
                nu,
                i,
                cm,
                Status::Running,
            ));
            assert(list_step(ns, i, Status::Failure, c, nu, j, c2, invert(s)));
        } else {
            assert(s0i == Status::Success);
            let ns2 = reset_prefix(nu, i + 1, Status::Failure);
            lemma_reset_prefix(nu, i + 1, Status::Failure);
            assert(list_step_tail(
                ns,
                i,
                Status::Failure,
                b1,
                cm,
                Status::Success,
                ns2,
                0,
                cm,
                Status::Success,
            ));
            assert(list_step(ns, i, Status::Failure, c, ns2, j, c2, invert(s)));
        }
    }
}

/// Inverting twice is the identity: one step of `Inv(Inv(b))` relates the
/// same contexts and statuses as one step of `b` itself, and the same
/// holds of reset.
pub proof fn lemma_invert_involution<B: Bhv>(
    b: B,
    c: B::Context,
    n: B,
    c2: B::Context,
    s: Status,
)
    ensures
        Inv(Inv(b)).step(c, Inv(Inv(n)), c2, s) <==> b.step(c, n, c2, s),
        Inv(Inv(b)).resets(s, Inv(Inv(n))) <==> b.resets(s, n),
        Inv(Inv(b)).wf() <==> b.wf(),
{
    if b.step(c, n, c2, s) {
        assert((Inv(b).0).step(c, Inv(n).0, c2, s));
        assert(Inv(b).step(c, Inv(n), c2, invert(s)));
        assert((Inv(Inv(b)).0).step(c, Inv(Inv(n)).0, c2, invert(s)));
        assert(Inv(Inv(b)).step(c, Inv(Inv(n)), c2, invert(invert(s))));
        assert(invert(invert(s)) == s);
    }
    if Inv(Inv(b)).step(c, Inv(Inv(n)), c2, s) {
        let s1 = choose|s1: Status| #[trigger] Inv(b).step(c, Inv(n), c2, s1) && s == invert(s1);
        let s0 = choose|s0: Status| #[trigger] b.step(c, n, c2, s0) && s1 == invert(s0);
        assert(s == invert(invert(s0)));
        assert(s == s0);
    }
}

/// Node `b` goes through `times` complete runs: each run is a trace ending
/// in a terminal status, after which the node is reset with that status;
/// the node ends as `n` and the context as `c2`.
pub open spec fn resetting_runs<B: Bhv>(b: B, c: B::Context, times: nat, n: B, c2: B::Context) -> bool
    decreases times,
{
    if times == 0 {
        n == b && c2 == c
    } else {
        exists|n1: B, c1: B::Context, s1: Status, n1r: B|
            #![trigger reaches(b, c, n1, c1, s1), n1.resets(s1, n1r)]
            reaches(b, c, n1, c1, s1) && terminal(s1) && n1.resets(s1, n1r) && resetting_runs(
                n1r,
                c1,
                (times - 1) as nat,
                n,
                c2,
            )
    }
}

/// Node `b` goes through `times` complete runs, the first `times - 1` of
/// them followed by a reset, and the last one ending as node `n` in
/// context `c2` with terminal status `s` — which is not followed by a
/// reset, so `s` is the status the node's owner sees surfaced.
pub open spec fn full_runs<B: Bhv>(
    b: B,
    c: B::Context,
    times: nat,
    n: B,
    c2: B::Context,
    s: Status,
) -> bool {
    &&& times >= 1
    &&& exists|bm: B, c1: B::Context|
        #![trigger reaches(bm, c1, n, c2, s)]
        resetting_runs(b, c, (times - 1) as nat, bm, c1) && reaches(bm, c1, n, c2, s) && terminal(
            s,
        )
}

/// A running answer in front of a bundle of complete runs belongs to the
/// first of those runs.
proof fn lemma_resetting_runs_prepend<B: Bhv>(
    b: B,
    c: B::Context,
    b1: B,
    c1: B::Context,
    t: nat,
    n: B,
    c2: B::Context,
)
    requires
        b.step(c, b1, c1, Status::Running),
        resetting_runs(b1, c1, t, n, c2),
        t >= 1,
    ensures
        resetting_runs(b, c, t, n, c2),
{
    let (n1, cc1, s1, n1r) = choose|n1: B, cc1: B::Context, s1: Status, n1r: B|
        #![trigger reaches(b1, c1, n1, cc1, s1), n1.resets(s1, n1r)]
        reaches(b1, c1, n1, cc1, s1) && terminal(s1) && n1.resets(s1, n1r) && resetting_runs(
            n1r,
            cc1,
            (t - 1) as nat,
            n,
            c2,
        );
    let k = choose|k: nat| run_steps(b1, c1, k, n1, cc1, s1);
    assert(run_steps(b, c, k + 1, n1, cc1, s1));
    assert(reaches(b, c, n1, cc1, s1));
}

/// A running answer in front of a surfacing bundle of runs belongs to the
/// first of those runs.
proof fn lemma_full_runs_prepend<B: Bhv>(
    b: B,
    c: B::Context,
    b1: B,
    c1: B::Context,
    t: nat,
    n: B,
    c2: B::Context,
    s: Status,
)
    requires
        b.step(c, b1, c1, Status::Running),
        full_runs(b1, c1, t, n, c2, s),
    ensures
        full_runs(b, c, t, n, c2, s),
{
    let (bm, cm) = choose|bm: B, cm: B::Context|
        #![trigger reaches(bm, cm, n, c2, s)]
        resetting_runs(b1, c1, (t - 1) as nat, bm, cm) && reaches(bm, cm, n, c2, s) && terminal(s);
    if t == 1 {
        assert(bm == b1 && cm == c1);
        let k = choose|k: nat| run_steps(b1, c1, k, n, c2, s);
        assert(run_steps(b, c, k + 1, n, c2, s));
        assert(reaches(b, c, n, c2, s));
        assert(resetting_runs(b, c, 0, b, c));
    } else {
        lemma_resetting_runs_prepend(b, c, b1, c1, (t - 1) as nat, bm, cm);
    }
}

/// A complete, reset run in front of a bundle of complete runs.
proof fn lemma_resetting_runs_cons<B: Bhv>(
    b: B,
    c: B::Context,
    n1: B,
    c1: B::Context,
    s1: Status,
    n1r: B,
    t: nat,
    n: B,
    c2: B::Context,
)
    requires
        reaches(b, c, n1, c1, s1),
        terminal(s1),
        n1.resets(s1, n1r),
        resetting_runs(n1r, c1, t, n, c2),
    ensures
        resetting_runs(b, c, t + 1, n, c2),
{
}

/// One terminal answer of a fresh `Repeat` decorator surfaces the `count`-th
/// complete run of its child: the decorator's whole trace decomposes into
/// exactly `count` complete runs of the child, the first `count - 1` reset
/// in between, and the surfaced status is the last run's own.
pub proof fn lemma_repeat_counts<B: Bhv>(
    r: Repeat<B>,
    c: B::Context,
    k: nat,
    n: Repeat<B>,
    c2: B::Context,
    s: Status,
)
    requires
        r.count >= 1,
        r.current == 1,
        run_steps(r, c, k, n, c2, s),
        terminal(s),
    ensures
        full_runs(r.bhv, c, r.count as nat, n.bhv, c2, s),
        n.count == r.count,
        n.current == r.count,
{
    lemma_repeat_runs(r, c, k, n, c2, s);
}

/// The generalization of [`lemma_repeat_counts`] to a decorator that has
/// already let `current - 1` child runs complete.
proof fn lemma_repeat_runs<B: Bhv>(
    r: Repeat<B>,
    c: B::Context,
    k: nat,
    n: Repeat<B>,
    c2: B::Context,
    s: Status,
)
    requires
        1 <= r.current <= r.count,
        run_steps(r, c, k, n, c2, s),
        terminal(s),
    ensures
        full_runs(r.bhv, c, (r.count - r.current + 1) as nat, n.bhv, c2, s),
        n.count == r.count,
        n.current == r.count,
    decreases k,
{
    if k == 0 {
        assert(r.step(c, n, c2, s));
        assert(r.current == r.count);
        assert(reaches(r.bhv, c, n.bhv, c2, s)) by {
            assert(run_steps(r.bhv, c, 0, n.bhv, c2, s));
        }
        assert(resetting_runs(r.bhv, c, 0, r.bhv, c));
    } else {
        let (rm, cm) = choose|rm: Repeat<B>, cm: B::Context|
            #[trigger] r.step(c, rm, cm, Status::Running) && run_steps(
                rm,
                cm,
                (k - 1) as nat,
                n,
                c2,
                s,
            );
        if r.current >= r.count {
            assert(r.bhv.step(c, rm.bhv, cm, Status::Running));
            lemma_repeat_runs(rm, cm, (k - 1) as nat, n, c2, s);
            lemma_full_runs_prepend(r.bhv, c, rm.bhv, cm, 1nat, n.bhv, c2, s);
        } else {
            let (b1, s0) = choose|b1: B, s0: Status|
                #[trigger] r.bhv.step(c, b1, cm, s0) && (if s0 == Status::Running {
                    rm.bhv == b1 && rm.current == r.current
                } else {
                    b1.resets(s0, rm.bhv) && rm.current == r.current + 1
                });
            lemma_repeat_runs(rm, cm, (k - 1) as nat, n, c2, s);
            if s0 == Status::Running {
                lemma_full_runs_prepend(
                    r.bhv,
                    c,
                    rm.bhv,
                    cm,
                    (r.count - r.current + 1) as nat,
                    n.bhv,
                    c2,
                    s,
                );
            } else {
                let t = (r.count - rm.current + 1) as nat;
                let (bm, cmid) = choose|bm: B, cmid: B::Context|
                    #![trigger reaches(bm, cmid, n.bhv, c2, s)]
                    resetting_runs(rm.bhv, cm, (t - 1) as nat, bm, cmid) && reaches(
                        bm,
                        cmid,
                        n.bhv,
                        c2,
                        s,
                    ) && terminal(s);
                assert(reaches(r.bhv, c, b1, cm, s0)) by {
                    assert(run_steps(r.bhv, c, 0, b1, cm, s0));
                }
                lemma_resetting_runs_cons(r.bhv, c, b1, cm, s0, rm.bhv, (t - 1) as nat, bm, cmid);
                assert(resetting_runs(r.bhv, c, t, bm, cmid));
                assert(full_runs(r.bhv, c, (t + 1) as nat, n.bhv, c2, s));
            }
        }
    }
}

/// `Repeat(1)` is a transparent pass-through: a fresh decorator with count
/// 1 surfaces exactly one complete run of its child, with the child's own
/// status and contexts; and resetting the decorator resets the child.
pub proof fn lemma_repeat_one_transparent<B: Bhv>(
    r: Repeat<B>,
    c: B::Context,
    k: nat,
    n: Repeat<B>,
    c2: B::Context,
    s: Status,
)
    requires
        r.count == 1,
        r.current == 1,
        run_steps(r, c, k, n, c2, s),
        terminal(s),
    ensures
        reaches(r.bhv, c, n.bhv, c2, s),
        forall|st: Status, m: Repeat<B>| #[trigger] r.resets(st, m) ==> r.bhv.resets(st, m.bhv)
            && m.current == 1,
{
    lemma_repeat_counts(r, c, k, n, c2, s);
    let (bm, cm) = choose|bm: B, cm: B::Context|
        #![trigger reaches(bm, cm, n.bhv, c2, s)]
        resetting_runs(r.bhv, c, 0nat, bm, cm) && reaches(bm, cm, n.bhv, c2, s) && terminal(s);
    assert(bm == r.bhv && cm == c);
}

/// A `RepeatUntil` whose child counts a value in the context down by one
/// per completed run, gated by the predicate "the counter is at zero",
/// ends exactly when the counter does reach zero, with success: starting
/// from counter `cnt(c) >= 1`, any terminal answer of the decorator is
/// [`Status::Success`], and the final context has the counter at zero —
/// the child having completed exactly `cnt(c)` runs, each reset before the
/// next.
pub proof fn lemma_repeat_until_countdown<B: Bhv, C: Fn(&B::Context) -> bool>(
    r: RepeatUntil<B, C>,
    cnt: spec_fn(B::Context) -> int,
    c: B::Context,
    k: nat,
    n: RepeatUntil<B, C>,
    c2: B::Context,
    s: Status,
)
    requires
        cnt(c) >= 1,
        forall|b: B, cc: B::Context, b2: B, cc2: B::Context, ss: Status|
            #[trigger] b.step(cc, b2, cc2, ss) ==> cnt(cc2) == (if ss == Status::Running {
                cnt(cc)
            } else {
                cnt(cc) - 1
            }),
        forall|cc: B::Context, bb: bool| #[trigger] call_ensures(r.cond, (&cc,), bb) ==> (bb <==> cnt(
            cc,
        ) == 0),
        run_steps(r, c, k, n, c2, s),
        terminal(s),
    ensures
        s == Status::Success,
        cnt(c2) == 0,
        resetting_runs(r.bhv, c, cnt(c) as nat, n.bhv, c2),
    decreases k,
{
    let (rm, cm, sfst) = choose|rm: RepeatUntil<B, C>, cm: B::Context, sfst: Status|
        #[trigger] r.step(c, rm, cm, sfst) && (if k == 0 {
            rm == n && cm == c2 && sfst == s
        } else {
            sfst == Status::Running && run_steps(rm, cm, (k - 1) as nat, n, c2, s)
        });
    let (s0, b1) = choose|s0: Status, b1: B|
        #[trigger] r.bhv.step(c, b1, cm, s0) && (if s0 == Status::Running {
            r.tail(b1, r.checked_cond, cm, rm, sfst)
        } else {
            exists|bmid: B| #[trigger] b1.resets(s0, bmid) && r.tail(bmid, false, cm, rm, sfst)
        })
    ;
    if s0 == Status::Running {
        assert(cnt(cm) == cnt(c));
        assert(sfst != Status::Success) by {
            if sfst == Status::Success {
                assert(call_ensures(r.cond, (&cm,), true));
            }
        }
        assert(k != 0);
        lemma_repeat_until_countdown(rm, cnt, cm, (k - 1) as nat, n, c2, s);
        lemma_resetting_runs_prepend(r.bhv, c, b1, cm, cnt(cm) as nat, n.bhv, c2);
    } else {
        let bmid = choose|bmid: B| #[trigger] b1.resets(s0, bmid) && r.tail(bmid, false, cm, rm, sfst);
        assert(cnt(cm) == cnt(c) - 1);
        assert(reaches(r.bhv, c, b1, cm, s0)) by {
            assert(run_steps(r.bhv, c, 0, b1, cm, s0));
        }
        if sfst == Status::Success {
            assert(call_ensures(r.cond, (&cm,), true));
            assert(cnt(cm) == 0);
            assert(k == 0);
            assert(n.bhv == bmid && c2 == cm);
            lemma_resetting_runs_cons(r.bhv, c, b1, cm, s0, bmid, 0nat, bmid, cm);
        } else {
            assert(call_ensures(r.cond, (&cm,), false));
            assert(cnt(cm) >= 1);
            assert(k != 0);
            lemma_repeat_until_countdown(rm, cnt, cm, (k - 1) as nat, n, c2, s);
            lemma_resetting_runs_cons(
                r.bhv,
                c,
                b1,
                cm,
                s0,
                bmid,
                cnt(cm) as nat,
                n.bhv,
                c2,
            );
        }
    }
}

/// Inverting twice is also the identity over whole runs: a trace of
/// `Inv(Inv(b))` with `k` running answers before its last status is a
/// trace of `b` with the same contexts, the same count of running answers
/// and the same last status, and the other way round.
pub proof fn lemma_invert_involution_runs<B: Bhv>(
    b: B,
    c: B::Context,
    k: nat,
    n: B,
    c2: B::Context,
    s: Status,
)
    ensures
        run_steps(Inv(Inv(b)), c, k, Inv(Inv(n)), c2, s) <==> run_steps(b, c, k, n, c2, s),
    decreases k,
{
    if k == 0 {
        lemma_invert_involution(b, c, n, c2, s);
    } else {
        if run_steps(b, c, k, n, c2, s) {
            let (bm, cm) = choose|bm: B, cm: B::Context|
                #[trigger] b.step(c, bm, cm, Status::Running) && run_steps(
                    bm,
                    cm,
                    (k - 1) as nat,
                    n,
                    c2,
                    s,
                );
            lemma_invert_involution(b, c, bm, cm, Status::Running);
            lemma_invert_involution_runs(bm, cm, (k - 1) as nat, n, c2, s);
            assert(Inv(Inv(b)).step(c, Inv(Inv(bm)), cm, Status::Running));
            assert(run_steps(Inv(Inv(b)), c, k, Inv(Inv(n)), c2, s));
        }
        if run_steps(Inv(Inv(b)), c, k, Inv(Inv(n)), c2, s) {
            let (mm, cm) = choose|mm: Inv<Inv<B>>, cm: B::Context|
                #[trigger] Inv(Inv(b)).step(c, mm, cm, Status::Running) && run_steps(
                    mm,
                    cm,
                    (k - 1) as nat,
                    Inv(Inv(n)),
                    c2,
                    s,
                );
            let bm = mm.0.0;
            assert(mm == Inv(Inv(bm)));
            lemma_invert_involution(b, c, bm, cm, Status::Running);
            lemma_invert_involution_runs(bm, cm, (k - 1) as nat, n, c2, s);
            assert(run_steps(b, c, k, n, c2, s));
        }
    }
}

} // verus!
