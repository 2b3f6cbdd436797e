use oxidizer::{
    CounterSet, ExitStatus, FailureKind, Fraction, Harness, HarnessAction, PerfCounters,
    RunConfig, RunOutcome,
};

fn config(runs: u32, warmup: u32) -> RunConfig {
    RunConfig {
        runs,
        warmup,
        timeout_secs: None,
        ignore_failure: false,
        measure_memory: false,
        counters: None,
    }
}

fn ok(ns: u64) -> RunOutcome {
    RunOutcome { elapsed_ns: ns, status: ExitStatus::Exited(0), memory_peak_kb: Some(512), counters: None }
}

fn exited(code: i32) -> RunOutcome {
    RunOutcome { elapsed_ns: 10, status: ExitStatus::Exited(code), memory_peak_kb: None, counters: None }
}

fn drive(h: &mut Harness, outs: &[RunOutcome]) -> usize {
    let mut launched = 0;
    for o in outs {
        match h.next_action() {
            HarnessAction::Invoke { index, .. } => {
                assert_eq!(index as usize, launched);
                launched += 1;
                h.record(*o);
            }
            HarnessAction::Finished => break,
        }
    }
    launched
}

#[test]
fn succeeding_runs_give_exactly_the_measured_samples() {
    let mut h = Harness::new(config(3, 2));
    let launched = drive(&mut h, &[ok(100), ok(200), ok(30), ok(60), ok(90), ok(1)]);
    assert_eq!(launched, 5);
    assert_eq!(h.next_action(), HarnessAction::Finished);
    assert_eq!(h.measured(), vec![30, 60, 90]);
    let report = h.into_report();
    assert_eq!(report.samples.len(), 5);
    assert!(report.samples[0].warmup && report.samples[1].warmup && !report.samples[2].warmup);
    let s = report.summary.unwrap();
    assert_eq!(s.count, 3);
    assert_eq!(s.mean, Fraction { num: 180, den: 3 });
    assert_eq!(report.halted_by, None);
}

#[test]
fn warmup_flag_in_actions() {
    let mut h = Harness::new(config(1, 1));
    assert_eq!(h.next_action(), HarnessAction::Invoke { index: 0, warmup: true, sample_counters: false });
    h.record(ok(5));
    assert_eq!(h.next_action(), HarnessAction::Invoke { index: 1, warmup: false, sample_counters: false });
}

#[test]
fn timeout_gives_one_failure_and_no_sample() {
    let mut c = config(2, 0);
    c.timeout_secs = Some(1);
    c.ignore_failure = true;
    let mut h = Harness::new(c);
    h.record(ok(1_500_000_000));
    h.record(ok(400));
    let report = h.into_report();
    assert_eq!(report.failures.len(), 1);
    assert_eq!(report.failures[0].kind, FailureKind::TimedOut);
    assert_eq!(report.failures[0].index, 0);
    assert_eq!(report.samples.len(), 1);
    assert_eq!(report.samples[0].duration_ns, 400);
}

#[test]
fn timeout_at_exactly_the_limit() {
    let mut c = config(1, 0);
    c.timeout_secs = Some(2);
    let mut h = Harness::new(c);
    h.record(RunOutcome { elapsed_ns: 2_000_000_000, status: ExitStatus::Killed, memory_peak_kb: None, counters: None });
    let report = h.into_report();
    assert_eq!(report.failures[0].kind, FailureKind::TimedOut);
    assert!(report.samples.is_empty());
}

#[test]
fn first_failure_halts_the_runs() {
    let mut h = Harness::new(config(5, 1));
    let launched = drive(&mut h, &[ok(1), ok(20), exited(3), ok(40), ok(50)]);
    assert_eq!(launched, 3);
    assert_eq!(h.next_action(), HarnessAction::Finished);
    let report = h.into_report();
    assert_eq!(report.samples.len(), 2);
    assert_eq!(report.failures.len(), 1);
    let cause = report.halted_by.unwrap();
    assert_eq!(cause.index, 2);
    assert_eq!(cause.kind, FailureKind::ExitCode(3));
    assert_eq!(report.summary.unwrap().mean, Fraction { num: 20, den: 1 });
}

#[test]
fn failing_warmup_also_halts() {
    let mut h = Harness::new(config(2, 1));
    h.record(exited(1));
    assert!(h.is_finished());
    assert!(h.into_report().summary.is_none());
}

#[test]
fn tolerated_failures_are_excluded_and_runs_go_on() {
    let mut c = config(3, 0);
    c.ignore_failure = true;
    let mut h = Harness::new(c);
    let launched = drive(&mut h, &[ok(10), RunOutcome { elapsed_ns: 5, status: ExitStatus::Killed, memory_peak_kb: None, counters: None }, ok(30)]);
    assert_eq!(launched, 3);
    let report = h.into_report();
    assert_eq!(report.failures[0].kind, FailureKind::Signalled);
    assert_eq!(report.halted_by, None);
    assert_eq!(report.summary.unwrap().mean, Fraction { num: 40, den: 2 });
}

#[test]
fn memory_is_kept_only_when_measured() {
    let mut c = config(1, 0);
    let mut h = Harness::new(c);
    h.record(ok(7));
    assert_eq!(h.into_report().samples[0].memory_peak_kb, None);
    c.measure_memory = true;
    let mut h = Harness::new(c);
    h.record(ok(7));
    assert_eq!(h.into_report().samples[0].memory_peak_kb, Some(512));
}

#[test]
fn counters_are_restricted_and_degrade_on_unsupported_host() {
    let mut c = config(3, 0);
    c.counters = Some(CounterSet {
        cycles: true,
        instructions: false,
        cache_misses: false,
        branch_misses: true,
        page_faults: false,
    });
    let all = PerfCounters {
        cycles: Some(1000),
        instructions: Some(2000),
        cache_misses: Some(3),
        branch_misses: Some(4),
        page_faults: Some(5),
    };
    let mut h = Harness::new(c);
    assert_eq!(h.next_action(), HarnessAction::Invoke { index: 0, warmup: false, sample_counters: true });
    h.record(RunOutcome { counters: Some(all), ..ok(10) });
    h.record(ok(11));
    assert_eq!(h.next_action(), HarnessAction::Invoke { index: 2, warmup: false, sample_counters: false });
    h.record(RunOutcome { counters: Some(all), ..ok(12) });
    let report = h.into_report();
    assert!(report.counters_unsupported);
    assert_eq!(
        report.samples[0].counters,
        Some(PerfCounters { cycles: Some(1000), instructions: None, cache_misses: None, branch_misses: Some(4), page_faults: None })
    );
    assert_eq!(report.samples[2].counters, None);
    assert_eq!(report.summary.unwrap().count, 3);
}
