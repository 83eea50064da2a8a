//! End-to-end scenarios driven through the program's cycle driver.

use feo::events::EventId;
use feo::ids::{ActivityId, AgentId};
use feo::program::{build_program, build_program_of, count_invocations, RunPlan};
use feo::tasks::{Hook, HookBehavior, InvokePlan, Op, TraceEntry};

fn pos_of_invoke(trace: &Vec<TraceEntry>, activity: u64, hook: Hook) -> usize {
    trace
        .iter()
        .position(|e| e.op == Op::Invoke(ActivityId(activity), hook))
        .expect("hook invocation missing from trace")
}

fn pos_of_trigger(trace: &Vec<TraceEntry>, event: EventId) -> usize {
    trace
        .iter()
        .position(|e| e.op == Op::Trigger(event))
        .expect("trigger missing from trace")
}

fn has_step_trigger(trace: &Vec<TraceEntry>) -> bool {
    trace
        .iter()
        .any(|e| matches!(e.op, Op::Trigger(EventId::ActivityStep(_))))
}

#[test]
fn two_activity_chain_single_agent() {
    // Activities {A:0, B:1}; deps: B -> A; period 10 ms; three cycles.
    let assignments = vec![(AgentId(100), vec![ActivityId(0), ActivityId(1)])];
    let graph = vec![
        (ActivityId(0), vec![]),
        (ActivityId(1), vec![ActivityId(0)]),
    ];
    let program = build_program_of(assignments, graph, 10);
    let plan = RunPlan::all_ok(3);
    let report = program.run_n(3, &plan);

    assert!(report.startup_ok);
    let pa = pos_of_invoke(&report.startup_trace, 0, Hook::Start);
    let pb = pos_of_invoke(&report.startup_trace, 1, Hook::Start);
    assert_eq!(count_invocations(&report.startup_trace, ActivityId(0), Hook::Start), 1);
    assert_eq!(count_invocations(&report.startup_trace, ActivityId(1), Hook::Start), 1);
    assert!(pa < pb);

    assert_eq!(report.cycles.len(), 3);
    for cycle in &report.cycles {
        assert!(cycle.complete);
        assert!(!cycle.overrun);
        let a = pos_of_invoke(&cycle.trace, 0, Hook::Step);
        let b = pos_of_invoke(&cycle.trace, 1, Hook::Step);
        assert!(a < b);
        assert_eq!(count_invocations(&cycle.trace, ActivityId(0), Hook::Step), 1);
        assert_eq!(count_invocations(&cycle.trace, ActivityId(1), Hook::Step), 1);
    }
    // Paced on the fixed 10 ms schedule, no overruns.
    assert_eq!(report.overrun_count, 0);
    assert_eq!(report.cycles[0].start_ms, 0);
    assert_eq!(report.cycles[1].start_ms, 10);
    assert_eq!(report.cycles[2].start_ms, 20);

    assert!(report.shutdown_ok);
    assert_eq!(count_invocations(&report.shutdown_trace, ActivityId(0), Hook::Stop), 1);
    assert_eq!(count_invocations(&report.shutdown_trace, ActivityId(1), Hook::Stop), 1);
}

#[test]
fn diamond_dependency() {
    // Deps: B -> A, C -> A, D -> {B, C}; five cycles.
    let assignments = vec![(
        AgentId(100),
        vec![ActivityId(0), ActivityId(1), ActivityId(2), ActivityId(3)],
    )];
    let graph = vec![
        (ActivityId(0), vec![]),
        (ActivityId(1), vec![ActivityId(0)]),
        (ActivityId(2), vec![ActivityId(0)]),
        (ActivityId(3), vec![ActivityId(1), ActivityId(2)]),
    ];
    let program = build_program_of(assignments, graph, 10);
    let plan = RunPlan::all_ok(5);
    let report = program.run_n(5, &plan);

    assert!(report.startup_ok);
    assert_eq!(report.cycles.len(), 5);
    for cycle in &report.cycles {
        assert!(cycle.complete);
        let a = pos_of_invoke(&cycle.trace, 0, Hook::Step);
        let b = pos_of_invoke(&cycle.trace, 1, Hook::Step);
        let c = pos_of_invoke(&cycle.trace, 2, Hook::Step);
        let d = pos_of_invoke(&cycle.trace, 3, Hook::Step);
        assert!(a < b);
        assert!(a < c);
        assert!(b.max(c) < d);
    }
    assert!(report.shutdown_ok);
}

#[test]
fn cross_process_fan_out() {
    // Primary runs {Camera:0, Radar:1}; one secondary runs {NeuralNet:2,
    // EnvRenderer:3}; another runs {EmergencyBrake:4, BrakeCtl:5,
    // LaneAssist:6, SteerCtl:7}. External shutdown after the fifth cycle.
    let assignments = vec![
        (AgentId(100), vec![ActivityId(0), ActivityId(1)]),
        (AgentId(101), vec![ActivityId(2), ActivityId(3)]),
        (AgentId(102), vec![ActivityId(4), ActivityId(5), ActivityId(6), ActivityId(7)]),
    ];
    let graph = vec![
        (ActivityId(0), vec![]),
        (ActivityId(1), vec![]),
        (ActivityId(2), vec![ActivityId(0), ActivityId(1)]),
        (ActivityId(3), vec![ActivityId(2)]),
        (ActivityId(4), vec![ActivityId(2)]),
        (ActivityId(5), vec![ActivityId(4)]),
        (ActivityId(6), vec![ActivityId(2)]),
        (ActivityId(7), vec![ActivityId(6)]),
    ];
    let program = build_program_of(assignments, graph, 1000);
    let mut plan = RunPlan::all_ok(8);
    plan.external_shutdown_at = Some(4);
    let report = program.run(&plan);

    assert!(report.startup_ok);
    // The external shutdown after cycle index 4 caps the run at five cycles.
    assert_eq!(report.cycles.len(), 5);
    for cycle in &report.cycles {
        assert!(cycle.complete);
        let neural = pos_of_invoke(&cycle.trace, 2, Hook::Step);
        let camera_done =
            pos_of_trigger(&cycle.trace, EventId::ActivityStepCompleted(ActivityId(0)));
        let radar_done =
            pos_of_trigger(&cycle.trace, EventId::ActivityStepCompleted(ActivityId(1)));
        assert!(camera_done < neural);
        assert!(radar_done < neural);
        let brake_ctl = pos_of_invoke(&cycle.trace, 5, Hook::Step);
        let emergency_done =
            pos_of_trigger(&cycle.trace, EventId::ActivityStepCompleted(ActivityId(4)));
        assert!(emergency_done < brake_ctl);
    }
    // Clean termination: every agent acknowledged, every activity stopped.
    assert!(report.shutdown_ok);
    for x in 0..8u64 {
        assert_eq!(count_invocations(&report.shutdown_trace, ActivityId(x), Hook::Stop), 1);
    }
    for agent in [100u64, 101, 102] {
        assert!(report
            .shutdown_trace
            .iter()
            .any(|e| e.op == Op::Trigger(EventId::AgentShutdownCompleted(AgentId(agent)))));
    }
}

#[test]
fn cycle_overrun_recovers() {
    // One activity sleeps 150% of the period in the second cycle.
    let assignments = vec![(AgentId(100), vec![ActivityId(0)])];
    let graph = vec![(ActivityId(0), vec![])];
    let program = build_program_of(assignments, graph, 10);
    let mut plan = RunPlan::all_ok(4);
    plan.cycles[1] = InvokePlan {
        entries: vec![HookBehavior {
            activity: ActivityId(0),
            hook: Hook::Step,
            ok: true,
            duration_ms: 15,
        }],
    };
    let report = program.run_n(4, &plan);

    assert!(report.startup_ok);
    assert_eq!(report.overrun_count, 1);
    assert!(!report.cycles[0].overrun);
    assert!(report.cycles[1].overrun);
    assert!(!report.cycles[2].overrun);
    assert!(!report.cycles[3].overrun);
    // The overrunning cycle pushes its successor back; afterwards the
    // schedule continues without further drift.
    assert_eq!(report.cycles[0].start_ms, 0);
    assert_eq!(report.cycles[1].start_ms, 10);
    assert_eq!(report.cycles[1].end_ms, 25);
    assert_eq!(report.cycles[2].start_ms, 25);
    assert_eq!(report.cycles[3].start_ms, 35);
}

#[test]
fn step_failure_isolation() {
    // B's step fails in the third cycle; the other cycles complete, and both
    // activities still step once per cycle.
    let assignments = vec![(AgentId(100), vec![ActivityId(0), ActivityId(1)])];
    let graph = vec![
        (ActivityId(0), vec![]),
        (ActivityId(1), vec![ActivityId(0)]),
    ];
    let program = build_program_of(assignments, graph, 10);
    let mut plan = RunPlan::all_ok(6);
    plan.cycles[2] = InvokePlan {
        entries: vec![HookBehavior {
            activity: ActivityId(1),
            hook: Hook::Step,
            ok: false,
            duration_ms: 0,
        }],
    };
    let report = program.run_n(6, &plan);

    assert!(report.startup_ok);
    assert_eq!(report.cycles.len(), 6);
    for (i, cycle) in report.cycles.iter().enumerate() {
        assert_eq!(cycle.complete, i != 2);
        assert_eq!(count_invocations(&cycle.trace, ActivityId(0), Hook::Step), 1);
        assert_eq!(count_invocations(&cycle.trace, ActivityId(1), Hook::Step), 1);
    }
    // The failed invocation is recorded as such.
    assert!(report.cycles[2]
        .trace
        .iter()
        .any(|e| e.op == Op::Invoke(ActivityId(1), Hook::Step) && !e.ok));
    assert!(report.shutdown_ok);
    assert_eq!(count_invocations(&report.shutdown_trace, ActivityId(0), Hook::Stop), 1);
    assert_eq!(count_invocations(&report.shutdown_trace, ActivityId(1), Hook::Stop), 1);
}

#[test]
fn missing_alive_signal() {
    // A declared secondary never starts: startup cannot complete, and no
    // step event is ever released.
    let agents = vec![AgentId(100), AgentId(101)];
    let assignments = vec![(AgentId(100), vec![ActivityId(0)])];
    let graph = vec![(ActivityId(0), vec![])];
    let program = build_program(agents, assignments, graph, 10);
    let plan = RunPlan::all_ok(3);
    let report = program.run_n(3, &plan);

    assert!(!report.startup_ok);
    assert_eq!(report.cycles.len(), 0);
    assert!(!has_step_trigger(&report.startup_trace));
    // The present agent still announced itself.
    assert!(report
        .startup_trace
        .iter()
        .any(|e| e.op == Op::Trigger(EventId::AgentAlive(AgentId(100)))));
    // The absent agent never acknowledges the shutdown broadcast either.
    assert!(!report.shutdown_ok);
}

#[test]
fn startup_handshake_order() {
    // The global release fires only after every agent announced itself, and
    // completions come after the release.
    let assignments = vec![
        (AgentId(100), vec![ActivityId(0)]),
        (AgentId(101), vec![ActivityId(1)]),
    ];
    let graph = vec![
        (ActivityId(0), vec![]),
        (ActivityId(1), vec![ActivityId(0)]),
    ];
    let program = build_program_of(assignments, graph, 10);
    let plan = RunPlan::all_ok(1);
    let report = program.run_n(1, &plan);

    assert!(report.startup_ok);
    let release = pos_of_trigger(&report.startup_trace, EventId::StartupRelease);
    for agent in [100u64, 101] {
        let alive =
            pos_of_trigger(&report.startup_trace, EventId::AgentAlive(AgentId(agent)));
        let completed = pos_of_trigger(
            &report.startup_trace,
            EventId::AgentStartupCompleted(AgentId(agent)),
        );
        assert!(alive < release);
        assert!(release < completed);
    }
}

#[test]
fn startup_failure_aborts_to_shutdown() {
    // A's startup hook fails: no cycle runs, and the shutdown hook still
    // runs.
    let assignments = vec![(AgentId(100), vec![ActivityId(0), ActivityId(1)])];
    let graph = vec![
        (ActivityId(0), vec![]),
        (ActivityId(1), vec![ActivityId(0)]),
    ];
    let program = build_program_of(assignments, graph, 10);
    let mut plan = RunPlan::all_ok(3);
    plan.startup = InvokePlan {
        entries: vec![HookBehavior {
            activity: ActivityId(0),
            hook: Hook::Start,
            ok: false,
            duration_ms: 0,
        }],
    };
    let report = program.run_n(3, &plan);

    assert!(!report.startup_ok);
    assert!(report
        .startup_trace
        .iter()
        .any(|e| e.op == Op::Invoke(ActivityId(0), Hook::Start) && !e.ok));
    assert_eq!(report.cycles.len(), 0);
    // The shutdown broadcast still goes out and the stop hooks still run.
    assert!(report.shutdown_ok);
    assert_eq!(count_invocations(&report.shutdown_trace, ActivityId(0), Hook::Stop), 1);
    assert_eq!(count_invocations(&report.shutdown_trace, ActivityId(1), Hook::Stop), 1);
}
