use bhv::reactive::{
    action, async_action, cond, Bhv, BhvExt, Either, Event, EventExt, EventTypeExt, NamedEvent,
    Sel, Sequence, UnitEventPump, WaitFor,
};
use bhv::Status;

#[test]
fn event_kinds_come_from_names() {
    let tick = NamedEvent::new(String::from("Tick"));
    let tock = NamedEvent::new(String::from("Tick"));
    let exit = NamedEvent::new(String::from("Exit"));
    assert_eq!(tick.event_type(), tock.event_type());
    assert_ne!(tick.event_type(), exit.event_type());
    assert_eq!(tick.event_name(), "Tick");
}

#[test]
fn unit_is_an_event_type() {
    assert_eq!(<() as EventTypeExt>::static_event_name(), "unit");
    assert_eq!(<() as EventTypeExt>::static_event_type(), ().event_type());
}

#[test]
fn unit_pump_produces_batches() {
    let evs = UnitEventPump::events(4);
    assert_eq!(evs.len(), 4);
}

#[test]
fn reactive_action_consumes_one_event() {
    let inc: fn(&i64) -> i64 = |v| *v + 1;
    let mut ctx: i64 = 0;
    action(inc).execute(&UnitEventPump::events(5), &mut ctx);
    // the leaf finishes on its first event; the rest are not consumed
    assert_eq!(ctx, 1);
}

#[test]
fn reactive_cond_answers_on_one_event() {
    let check: fn(&i64) -> bool = |v| *v >= 10;
    let mut ctx: i64 = 3;
    let mut node = cond(check);
    let s = node.react(&(), &mut ctx);
    assert_eq!(s, Status::Failure);
}

#[test]
fn reactive_sequence_consumes_one_event_per_child() {
    let inc: fn(&i64) -> i64 = |v| *v + 1;
    let mut tree = Sequence::with_nodes(vec![action(inc), action(inc), action(inc)]);
    let mut ctx: i64 = 0;
    assert_eq!(tree.react(&(), &mut ctx), Status::Running);
    assert_eq!(ctx, 1);
    assert_eq!(tree.react(&(), &mut ctx), Status::Running);
    assert_eq!(ctx, 2);
    assert_eq!(tree.react(&(), &mut ctx), Status::Success);
    assert_eq!(ctx, 3);
}

#[test]
fn reactive_selector_stops_on_success() {
    let no: fn(&i64) -> (i64, Status) = |v| (*v, Status::Failure);
    let yes: fn(&i64) -> (i64, Status) = |v| (*v + 10, Status::Success);
    let mut tree = Sel::with_nodes(vec![
        async_action(no),
        async_action(yes),
        async_action(no),
    ]);
    let mut ctx: i64 = 0;
    assert_eq!(tree.react(&(), &mut ctx), Status::Running);
    assert_eq!(tree.react(&(), &mut ctx), Status::Success);
    assert_eq!(ctx, 10);
}

#[test]
fn reactive_selector_fails_after_all_children() {
    let no: fn(&i64) -> (i64, Status) = |v| (*v + 1, Status::Failure);
    let mut tree = Sel::with_nodes(vec![async_action(no), async_action(no)]);
    let mut ctx: i64 = 0;
    assert_eq!(tree.react(&(), &mut ctx), Status::Running);
    assert_eq!(tree.react(&(), &mut ctx), Status::Failure);
    assert_eq!(ctx, 2);
}

#[test]
fn event_gate_blocks_other_kinds() {
    // a node gated on Exit never reacts to Tick events; later siblings
    // never see those events either
    let exit_kind = NamedEvent::new(String::from("Exit")).event_type();
    let inc: fn(&i64) -> i64 = |v| *v + 1;
    let mark: fn(&i64) -> i64 = |v| *v + 100;
    let mut tree = Sequence::with_nodes(vec![
        Either::First(WaitFor { bhv: action(inc), kind: exit_kind }),
        Either::Second(action(mark)),
    ]);
    let mut ctx: i64 = 0;
    let tick = NamedEvent::new(String::from("Tick"));
    for _ in 0..5 {
        assert_eq!(tree.react(&tick, &mut ctx), Status::Running);
    }
    // nothing ran: neither the gated child nor its later sibling
    assert_eq!(ctx, 0);
    let exit = NamedEvent::new(String::from("Exit"));
    assert_eq!(tree.react(&exit, &mut ctx), Status::Running);
    assert_eq!(ctx, 1);
    assert_eq!(tree.react(&exit, &mut ctx), Status::Success);
    assert_eq!(ctx, 101);
}

#[test]
fn gated_sequence_ends_on_exit_event() {
    // Scenario: Sequence([Action(i += 1), Action(i += 1),
    // EventGate(Exit, Action)]) driven by five non-Exit events and then
    // one Exit event ends with i == 2, succeeding exactly on the Exit
    // event and not before.
    let exit_kind = NamedEvent::new(String::from("Exit")).event_type();
    let inc: fn(&i64) -> i64 = |v| *v + 1;
    let keep: fn(&i64) -> i64 = |v| *v;
    let mut tree = Sequence::with_nodes(vec![
        Either::First(action(inc)),
        Either::First(action(inc)),
        Either::Second(WaitFor { bhv: action(keep), kind: exit_kind }),
    ]);
    let mut i: i64 = 0;
    let mut events: Vec<NamedEvent> = Vec::new();
    for n in 0..5 {
        events.push(NamedEvent::new(format!("Tick{}", n)));
    }
    for ev in &events {
        assert_eq!(tree.react(ev, &mut i), Status::Running);
    }
    assert_eq!(i, 2);
    let exit = NamedEvent::new(String::from("Exit"));
    assert_eq!(tree.react(&exit, &mut i), Status::Success);
    assert_eq!(i, 2);
}

#[test]
fn execute_stops_when_root_declines() {
    let exit_kind = NamedEvent::new(String::from("Exit")).event_type();
    let inc: fn(&i64) -> i64 = |v| *v + 1;
    let tree = WaitFor { bhv: action(inc), kind: exit_kind };
    let mut ctx: i64 = 0;
    let events = vec![
        NamedEvent::new(String::from("Tick")),
        NamedEvent::new(String::from("Exit")),
    ];
    // the root itself declines the very first event, so the run ends
    // without a verdict and nothing happens
    tree.execute(&events, &mut ctx);
    assert_eq!(ctx, 0);
}

#[test]
fn reactive_repeat_completes_count_runs() {
    let inc: fn(&i64) -> i64 = |v| *v + 1;
    let mut tree = action(inc).repeat(2);
    let mut ctx: i64 = 0;
    assert!(tree.should_react_to(().event_type()));
    assert_eq!(tree.react(&(), &mut ctx), Status::Running);
    assert_eq!(tree.react(&(), &mut ctx), Status::Running);
    assert_eq!(ctx, 2);
    // two completed runs: the decorator stops listening
    assert!(!tree.should_react_to(().event_type()));
    // rearming brings the interest back
    tree.reset();
    assert!(tree.should_react_to(().event_type()));
}

#[test]
fn reactive_repeat_drains_through_execute() {
    let inc: fn(&i64) -> i64 = |v| *v + 1;
    let tree = action(inc).repeat(3);
    let mut ctx: i64 = 0;
    tree.execute(&UnitEventPump::events(10), &mut ctx);
    // after three completed runs the root declines further events
    assert_eq!(ctx, 3);
}

#[test]
fn reactive_repeat_until_pass_swallows_failures() {
    let try_thrice: fn(&i64) -> (i64, Status) = |v| {
        (
            *v + 1,
            if *v + 1 >= 3 { Status::Success } else { Status::Failure },
        )
    };
    let mut tree = async_action(try_thrice).repeat_until_pass();
    let mut tries: i64 = 0;
    assert_eq!(tree.react(&(), &mut tries), Status::Running);
    assert_eq!(tree.react(&(), &mut tries), Status::Running);
    assert_eq!(tree.react(&(), &mut tries), Status::Success);
    assert_eq!(tries, 3);
}

#[test]
fn reactive_repeat_until_fail_swallows_successes() {
    let third_fails: fn(&i64) -> (i64, Status) = |v| {
        (
            *v + 1,
            if *v + 1 >= 3 { Status::Failure } else { Status::Success },
        )
    };
    let mut tree = async_action(third_fails).repeat_until_fail();
    let mut runs: i64 = 0;
    assert_eq!(tree.react(&(), &mut runs), Status::Running);
    assert_eq!(tree.react(&(), &mut runs), Status::Running);
    assert_eq!(tree.react(&(), &mut runs), Status::Failure);
    assert_eq!(runs, 3);
}

#[test]
fn reactive_inv_pass_fail_transform_outcomes() {
    let yes: fn(&i64) -> bool = |_| true;
    let mut ctx: i64 = 0;
    let mut inverted = cond(yes).inv();
    assert_eq!(inverted.react(&(), &mut ctx), Status::Failure);
    let mut forced_ok = cond(yes).fail().pass();
    assert_eq!(forced_ok.react(&(), &mut ctx), Status::Success);
    let mut forced_no = cond(yes).fail();
    assert_eq!(forced_no.react(&(), &mut ctx), Status::Failure);
}

#[test]
fn reactive_execute_runs_sequence_to_success() {
    let inc: fn(&i64) -> i64 = |v| *v + 1;
    let tree = Sequence::with_nodes(vec![action(inc), action(inc)]);
    let mut ctx: i64 = 0;
    tree.execute(&UnitEventPump::events(10), &mut ctx);
    assert_eq!(ctx, 2);
}

#[test]
fn reactive_async_action_fibonacci() {
    // the stateful leaf spans many events before succeeding
    type St = (i64, i64, i64);
    let fib: fn(&St) -> (St, Status) = |s| {
        if s.2 == 0 {
            (*s, Status::Success)
        } else {
            ((s.1, s.0 + s.1, s.2 - 1), Status::Running)
        }
    };
    let mut state: St = (0, 1, 10);
    async_action(fib).execute(&UnitEventPump::events(64), &mut state);
    assert_eq!(state.1, 89);
}
