use bhv::{
    action, async_action, cond, repeat, repeat_until, BhvExt, Either, Sel, Sequence, Status,
    WhenAll, WhenAny,
};

#[test]
fn cond_answers_status() {
    let check: fn(&i64) -> bool = |v| *v >= 10;
    let mut big: i64 = 10;
    assert_eq!(cond(check).execute(&mut big), true);
    let mut small: i64 = 5;
    assert_eq!(cond(check).execute(&mut small), false);
}

#[test]
fn action_updates_context() {
    let put: fn(&i64) -> i64 = |v| *v + 42;
    let mut ctx: i64 = 0;
    assert_eq!(action(put).execute(&mut ctx), true);
    assert_eq!(ctx, 42);
}

#[test]
fn async_action_spans_ticks() {
    let countdown: fn(&i64) -> (i64, Status) = |v| {
        if *v == 0 {
            (0, Status::Success)
        } else {
            (*v - 1, Status::Running)
        }
    };
    let mut ctx: i64 = 5;
    assert_eq!(async_action(countdown).execute(&mut ctx), true);
    assert_eq!(ctx, 0);
}

#[test]
fn sequence_runs_children_in_order() {
    // Scenario: Sequence([Action(print), Action(i += 1), Action(i += 1)])
    // from i = 0 ends with i == 2 and overall Success; the printing leaf
    // becomes an identity action here.
    let keep: fn(&i64) -> i64 = |v| *v;
    let inc: fn(&i64) -> i64 = |v| *v + 1;
    let tree = Sequence::with_nodes(vec![action(keep), action(inc), action(inc)]);
    let mut i: i64 = 0;
    assert_eq!(tree.execute(&mut i), true);
    assert_eq!(i, 2);
}

#[test]
fn sequence_first_failure_aborts() {
    let inc: fn(&i64) -> (i64, Status) = |v| (*v + 1, Status::Success);
    let bad: fn(&i64) -> (i64, Status) = |v| (*v, Status::Failure);
    let tree = Sequence::with_nodes(vec![
        async_action(inc),
        async_action(bad),
        async_action(inc),
    ]);
    let mut i: i64 = 0;
    assert_eq!(tree.execute(&mut i), false);
    // only the first child ran; the one after the failing child never did
    assert_eq!(i, 1);
}

#[test]
fn selector_takes_first_success() {
    let no: fn(&i64) -> (i64, Status) = |v| (*v, Status::Failure);
    let yes: fn(&i64) -> (i64, Status) = |v| (*v + 10, Status::Success);
    let tree = Sel::with_nodes(vec![async_action(no), async_action(yes), async_action(no)]);
    let mut i: i64 = 0;
    assert_eq!(tree.execute(&mut i), true);
    assert_eq!(i, 10);
}

#[test]
fn selector_of_guarded_branches() {
    // Scenario: Selector([Sequence([Cond(v in 0..5), Action]),
    // Sequence([Cond(v in 5..25), Action]), Action]) with v = 25 takes the
    // third branch and succeeds.  The context is (v, branch).
    type Ctx = (i64, i64);
    type Leaf = fn(&Ctx) -> (Ctx, Status);
    let low: Leaf = |c| (*c, if c.0 >= 0 && c.0 < 5 { Status::Success } else { Status::Failure });
    let mid: Leaf = |c| (*c, if c.0 >= 5 && c.0 < 25 { Status::Success } else { Status::Failure });
    let mark1: Leaf = |c| ((c.0, 1), Status::Success);
    let mark2: Leaf = |c| ((c.0, 2), Status::Success);
    let mark3: Leaf = |c| ((c.0, 3), Status::Success);
    let tree = Sel::with_nodes(vec![
        Sequence::with_nodes(vec![async_action(low), async_action(mark1)]),
        Sequence::with_nodes(vec![async_action(mid), async_action(mark2)]),
        Sequence::with_nodes(vec![async_action(mark3)]),
    ]);
    let mut ctx: Ctx = (25, 0);
    assert_eq!(tree.execute(&mut ctx), true);
    assert_eq!(ctx, (25, 3));
}

#[test]
fn single_child_composite_is_transparent() {
    let no: fn(&i64) -> bool = |_| false;
    let mut ctx: i64 = 0;
    assert_eq!(Sequence::with_nodes(vec![cond(no)]).execute(&mut ctx), false);
    let yes: fn(&i64) -> bool = |_| true;
    assert_eq!(Sel::with_nodes(vec![cond(yes)]).execute(&mut ctx), true);
}

#[test]
fn inv_swaps_outcomes() {
    let yes: fn(&i64) -> bool = |_| true;
    let mut ctx: i64 = 0;
    assert_eq!(cond(yes).execute(&mut ctx), true);
    assert_eq!(cond(yes).inv().execute(&mut ctx), false);
    assert_eq!(cond(yes).inv().inv().execute(&mut ctx), true);
}

#[test]
fn double_inversion_is_identity() {
    // Invert(Invert(n)) behaves as n, running answers included: the
    // counting leaf takes the same steps and leaves the same context.
    let countdown: fn(&i64) -> (i64, Status) = |v| {
        if *v == 0 {
            (0, Status::Success)
        } else {
            (*v - 1, Status::Running)
        }
    };
    let mut plain: i64 = 7;
    let mut wrapped: i64 = 7;
    let r1 = async_action(countdown).execute(&mut plain);
    let r2 = async_action(countdown).inv().inv().execute(&mut wrapped);
    assert_eq!(r1, r2);
    assert_eq!(plain, wrapped);
}

#[test]
fn pass_and_fail_force_outcomes() {
    let no: fn(&i64) -> bool = |_| false;
    let yes: fn(&i64) -> bool = |_| true;
    let mut ctx: i64 = 0;
    assert_eq!(cond(no).pass().execute(&mut ctx), true);
    assert_eq!(cond(yes).fail().execute(&mut ctx), false);
}

#[test]
fn repeat_runs_child_count_times() {
    // Scenario: a decrementing action repeated 3 times takes 10 to 7.
    let dec: fn(&i64) -> i64 = |v| *v - 1;
    let tree = action(dec).repeat(3);
    let mut v: i64 = 10;
    assert_eq!(tree.execute(&mut v), true);
    assert_eq!(v, 7);
}

#[test]
fn repeat_free_function_matches_builder() {
    let dec: fn(&i64) -> i64 = |v| *v - 1;
    let tree = repeat(action(dec), 4);
    let mut v: i64 = 10;
    assert_eq!(tree.execute(&mut v), true);
    assert_eq!(v, 6);
}

#[test]
fn repeat_once_is_transparent() {
    let no: fn(&i64) -> bool = |_| false;
    let mut ctx: i64 = 0;
    assert_eq!(cond(no).repeat(1).execute(&mut ctx), false);
    let yes: fn(&i64) -> bool = |_| true;
    assert_eq!(cond(yes).repeat(1).execute(&mut ctx), true);
}

#[test]
fn repeat_surfaces_last_run_status() {
    // the child fails only on its third run; Repeat(3) surfaces that
    let third_fails: fn(&i64) -> (i64, Status) = |v| {
        (
            *v + 1,
            if *v + 1 >= 3 { Status::Failure } else { Status::Success },
        )
    };
    let mut runs: i64 = 0;
    assert_eq!(async_action(third_fails).repeat(3).execute(&mut runs), false);
    assert_eq!(runs, 3);
}

#[test]
fn repeat_until_counts_down_to_zero() {
    // Scenario: a child that decrements once per completed run, gated on
    // "counter is zero", started from 2: exactly two completions, then
    // success.
    let dec: fn(&i64) -> i64 = |v| *v - 1;
    let at_zero: fn(&i64) -> bool = |v| *v == 0;
    let tree = action(dec).repeat_until(at_zero);
    let mut v: i64 = 2;
    assert_eq!(tree.execute(&mut v), true);
    assert_eq!(v, 0);
}

#[test]
fn repeat_until_free_function_matches_example() {
    let dec: fn(&i64) -> i64 = |v| *v - 1;
    let below: fn(&i64) -> bool = |v| *v < 8;
    let tree = repeat_until(action(dec), below);
    let mut v: i64 = 10;
    assert_eq!(tree.execute(&mut v), true);
    assert_eq!(v, 7);
}

#[test]
fn repeat_until_pass_retries_failures() {
    let try_thrice: fn(&i64) -> (i64, Status) = |v| {
        (
            *v + 1,
            if *v + 1 >= 3 { Status::Success } else { Status::Failure },
        )
    };
    let mut tries: i64 = 0;
    assert_eq!(async_action(try_thrice).repeat_until_pass().execute(&mut tries), true);
    assert_eq!(tries, 3);
}

#[test]
fn repeat_until_fail_retries_successes() {
    let third_fails: fn(&i64) -> (i64, Status) = |v| {
        (
            *v + 1,
            if *v + 1 >= 3 { Status::Failure } else { Status::Success },
        )
    };
    let mut runs: i64 = 0;
    assert_eq!(async_action(third_fails).repeat_until_fail().execute(&mut runs), false);
    assert_eq!(runs, 3);
}

#[test]
fn run_if_gates_on_context() {
    let inc: fn(&i64) -> i64 = |v| *v + 1;
    let low: fn(&i64) -> bool = |v| *v < 5;
    let mut ctx: i64 = 0;
    assert_eq!(action(inc).run_if(low).execute(&mut ctx), true);
    assert_eq!(ctx, 1);
    let mut high: i64 = 9;
    assert_eq!(action(inc).run_if(low).execute(&mut high), false);
    assert_eq!(high, 9);
}

#[test]
fn run_if_with_repeat_until_fail_loops() {
    let inc: fn(&i64) -> i64 = |v| *v + 1;
    let low: fn(&i64) -> bool = |v| *v < 5;
    let mut v: i64 = 0;
    let code = action(inc).run_if(low).repeat_until_fail();
    assert_eq!(code.execute(&mut v), false);
    assert_eq!(v, 5);
}

#[test]
fn selector_demorgan_on_concrete_children() {
    // Selector([a, b]) answers as Invert(Sequence([Invert(a), Invert(b)]))
    // for every combination of child outcomes.
    let yes: fn(&i64) -> bool = |_| true;
    let no: fn(&i64) -> bool = |_| false;
    for (a, b) in [(yes, yes), (yes, no), (no, yes), (no, no)] {
        let mut c1: i64 = 0;
        let sel = Sel::with_nodes(vec![cond(a), cond(b)]);
        let lhs = sel.execute(&mut c1);
        let mut c2: i64 = 0;
        let dual = Sequence::with_nodes(vec![cond(a).inv(), cond(b).inv()]).inv();
        let rhs = dual.execute(&mut c2);
        assert_eq!(lhs, rhs);
        assert_eq!(c1, c2);
    }
}

#[test]
fn when_any_succeeds_on_first_success() {
    let no: fn(&i64) -> (i64, Status) = |v| (*v, Status::Failure);
    let yes: fn(&i64) -> (i64, Status) = |v| (*v + 1, Status::Success);
    let mut ctx: i64 = 0;
    let tree = WhenAny::new(vec![async_action(no), async_action(yes), async_action(yes)]);
    assert_eq!(tree.execute(&mut ctx), true);
    // the child after the succeeding one was not stepped
    assert_eq!(ctx, 1);
}

#[test]
fn when_any_fails_when_all_fail() {
    let no: fn(&i64) -> (i64, Status) = |v| (*v + 1, Status::Failure);
    let mut ctx: i64 = 0;
    assert_eq!(WhenAny::new(vec![async_action(no), async_action(no)]).execute(&mut ctx), false);
    assert_eq!(ctx, 2);
}

#[test]
fn when_all_fails_on_first_failure() {
    let yes: fn(&i64) -> (i64, Status) = |v| (*v + 1, Status::Success);
    let no: fn(&i64) -> (i64, Status) = |v| (*v, Status::Failure);
    let mut ctx: i64 = 0;
    let tree = WhenAll::new(vec![async_action(yes), async_action(no), async_action(yes)]);
    assert_eq!(tree.execute(&mut ctx), false);
    assert_eq!(ctx, 1);
}

#[test]
fn when_all_succeeds_when_all_succeed() {
    let yes: fn(&i64) -> (i64, Status) = |v| (*v + 1, Status::Success);
    let mut ctx: i64 = 0;
    assert_eq!(WhenAll::new(vec![async_action(yes), async_action(yes)]).execute(&mut ctx), true);
    assert_eq!(ctx, 2);
}

#[test]
fn either_mixes_node_types() {
    let check: fn(&i64) -> bool = |v| *v >= 0;
    let inc: fn(&i64) -> i64 = |v| *v + 1;
    let tree = Sequence::with_nodes(vec![
        Either::First(cond(check)),
        Either::Second(action(inc)),
        Either::Second(action(inc)),
    ]);
    let mut ctx: i64 = 0;
    assert_eq!(tree.execute(&mut ctx), true);
    assert_eq!(ctx, 2);
}

#[test]
fn sequence_resumes_across_running_children() {
    // a two-tick leaf in the middle: the sequence stays on it while it
    // runs, then moves on without re-running the first child
    let inc: fn(&i64) -> (i64, Status) = |v| (*v + 100, Status::Success);
    let two_tick: fn(&i64) -> (i64, Status) = |v| {
        if *v % 2 == 1 {
            (*v + 1, Status::Success)
        } else {
            (*v + 1, Status::Running)
        }
    };
    let tree = Sequence::with_nodes(vec![async_action(inc), async_action(two_tick)]);
    let mut ctx: i64 = 0;
    assert_eq!(tree.execute(&mut ctx), true);
    // one run of the first child (+100), two ticks of the second (+2)
    assert_eq!(ctx, 102);
}

#[test]
fn status_is_plain_data() {
    assert_eq!(Status::Running, Status::Running);
    assert_ne!(Status::Success, Status::Failure);
    let s = Status::Success;
    let t = s;
    assert_eq!(s, t);
}
