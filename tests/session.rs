use oxidizer::{
    BenchmarkArgs, BenchmarkTarget, BuildError, BuilderSystem, Cli, Command, CommandError, Ctx,
    DaemonAction, Exec, ExecAction, ExecEvent, ExitStatus, Fraction, ProjectType, RunOutcome,
    Oxidizer, Task, TargetOutcome,
};

fn args(targets: Vec<BenchmarkTarget>, runs: u32, warmup: u32) -> BenchmarkArgs {
    BenchmarkArgs {
        targets,
        runs,
        warmup,
        prepare: None,
        cleanup: None,
        time_unit: None,
        export_json: None,
        export_markdown: None,
        export_csv: None,
        ignore_failure: false,
        timeout: None,
        measure_memory: false,
        relative_comparison: true,
        baseline: None,
        perf_metrics: false,
        perf_events: None,
        sampling_frequency: 999,
        flamegraph: false,
        call_graph: false,
        annotate_source: false,
        system_wide: false,
        analyze_latency: false,
        perf_record_options: None,
        perf_report_options: None,
    }
}

fn target(path: &str, tool: BuilderSystem, mode: ProjectType) -> BenchmarkTarget {
    BenchmarkTarget { path: path.to_string(), tool, mode, compiler_flags: None }
}

/// Plays a host on which every directory holds `listing`, every build step
/// succeeds and each run of a program takes the time `duration` gives it.
fn play(exec: &mut Exec, listing: &dyn Fn(&str) -> Vec<String>, duration: &dyn Fn(&str) -> u64) -> Vec<String> {
    let mut log = Vec::new();
    let mut action = exec.exec(ExecEvent::Begin);
    loop {
        let event = match action {
            ExecAction::ListDirectory(p) => {
                log.push(format!("list {}", p));
                ExecEvent::Listed(listing(&p))
            }
            ExecAction::Build(inv) => {
                log.push(format!("build {}", inv.program));
                ExecEvent::BuildEnded { success: true, diagnostic: String::new() }
            }
            ExecAction::Run { program, .. } => {
                let d = duration(&program);
                ExecEvent::RunEnded(RunOutcome { elapsed_ns: d, status: ExitStatus::Exited(0), memory_peak_kb: None, counters: None })
            }
            ExecAction::Done => break,
        };
        action = exec.exec(event);
    }
    log
}

#[test]
fn three_targets_one_missing_manifest() {
    let a = args(
        vec![
            target("rustproj", BuilderSystem::Cargo, ProjectType::Workspace),
            target("cppproj", BuilderSystem::Cmake, ProjectType::Workspace),
            target("main.c", BuilderSystem::Clang, ProjectType::Standalone),
        ],
        3,
        1,
    );
    let mut exec = Exec::new(a, Ctx);
    let listing = |p: &str| -> Vec<String> {
        if p == "rustproj" { vec!["Cargo.toml".to_string(), "src".to_string()] } else if p == "cppproj" { vec!["main.cpp".to_string()] } else { vec![] }
    };
    let duration = |p: &str| -> u64 { if p == "cargo" { 200 } else { 100 } };
    let log = play(&mut exec, &listing, &duration);
    assert_eq!(log, vec!["list rustproj", "build cargo", "list cppproj", "list main.c", "build clang"]);
    let outcomes = exec.outcomes_list();
    assert_eq!(outcomes.len(), 3);
    match &outcomes[0] {
        TargetOutcome::Completed(r) => assert_eq!(r.summary.unwrap().mean, Fraction { num: 600, den: 3 }),
        _ => panic!("the cargo target builds"),
    }
    match &outcomes[1] {
        TargetOutcome::Failed(BuildError::MissingManifest(m)) => assert_eq!(m, "CMakeLists.txt"),
        _ => panic!("the cmake target lacks its manifest"),
    }
    match &outcomes[2] {
        TargetOutcome::Completed(r) => {
            assert_eq!(r.samples.len(), 4);
            assert_eq!(r.summary.unwrap().median, Fraction { num: 100, den: 1 });
        }
        _ => panic!("the clang target builds"),
    }
    assert_eq!(exec.exit_code(), 1);
    let ratios = exec.comparisons();
    assert_eq!(ratios.len(), 3);
    assert_eq!(ratios[0], Some(Fraction { num: 1800, den: 1800 }));
    assert_eq!(ratios[1], None);
    assert_eq!(ratios[2], Some(Fraction { num: 900, den: 1800 }));
}

#[test]
fn all_targets_succeeding_exit_zero() {
    let mut a = args(vec![target("a.c", BuilderSystem::Gcc, ProjectType::Standalone)], 2, 0);
    a.baseline = Some(0);
    let mut exec = Exec::new(a, Ctx);
    play(&mut exec, &|_: &str| -> Vec<String> { vec![] }, &|_: &str| -> u64 { 50 });
    assert_eq!(exec.exit_code(), 0);
    assert_eq!(exec.comparisons()[0], Some(Fraction { num: 200, den: 200 }));
}

#[test]
fn build_failure_ends_only_that_target() {
    let a = args(
        vec![
            target("bad.c", BuilderSystem::Clang, ProjectType::Standalone),
            target("good.c", BuilderSystem::Clang, ProjectType::Standalone),
        ],
        1,
        0,
    );
    let mut exec = Exec::new(a, Ctx);
    let mut action = exec.exec(ExecEvent::Begin);
    let mut builds = 0;
    loop {
        let event = match action {
            ExecAction::ListDirectory(_) => ExecEvent::Listed(vec![]),
            ExecAction::Build(_) => {
                builds += 1;
                ExecEvent::BuildEnded { success: builds > 1, diagnostic: "error: x".to_string() }
            }
            ExecAction::Run { .. } => ExecEvent::RunEnded(RunOutcome { elapsed_ns: 9, status: ExitStatus::Exited(0), memory_peak_kb: None, counters: None }),
            ExecAction::Done => break,
        };
        action = exec.exec(event);
    }
    let outcomes = exec.outcomes_list();
    assert!(matches!(&outcomes[0], TargetOutcome::Failed(BuildError::ToolFailed(0, d)) if d == "error: x"));
    assert!(matches!(&outcomes[1], TargetOutcome::Completed(_)));
    assert_eq!(exec.exit_code(), 1);
}

#[test]
fn empty_target_list_is_done_at_once() {
    let mut exec = Exec::new(args(vec![], 1, 0), Ctx);
    assert!(matches!(exec.exec(ExecEvent::Begin), ExecAction::Done));
    assert_eq!(exec.exit_code(), 0);
}

#[test]
fn stray_event_is_ignored() {
    let mut exec = Exec::new(args(vec![target("a.c", BuilderSystem::Gcc, ProjectType::Standalone)], 1, 0), Ctx);
    assert!(matches!(exec.exec(ExecEvent::Begin), ExecAction::ListDirectory(_)));
    assert!(matches!(exec.exec(ExecEvent::BuildEnded { success: false, diagnostic: String::new() }), ExecAction::ListDirectory(_)));
    assert_eq!(exec.outcomes_list().len(), 0);
}

#[test]
fn benchmark_without_runs_is_refused() {
    let c = Command::Benchmark(Box::new(args(vec![], 0, 0)));
    assert!(matches!(c.exec(Ctx), Err(CommandError::NoRuns)));
}

#[test]
fn commands_start_their_work() {
    assert!(matches!(Command::Daemon { action: DaemonAction::Status }.exec(Ctx), Ok(Task::Daemon(DaemonAction::Status))));
    assert!(matches!(Command::Benchmark(Box::new(args(vec![], 1, 0))).exec(Ctx), Ok(Task::Benchmark(_))));
}

#[test]
fn runs_carry_preparation_and_cleanup() {
    let mut a = args(vec![target("a.c", BuilderSystem::Gcc, ProjectType::Standalone)], 1, 0);
    a.prepare = Some("sync".to_string());
    a.cleanup = Some("rm -f out".to_string());
    let mut exec = Exec::new(a, Ctx);
    assert!(matches!(exec.exec(ExecEvent::Begin), ExecAction::ListDirectory(_)));
    assert!(matches!(exec.exec(ExecEvent::Listed(vec![])), ExecAction::Build(_)));
    match exec.exec(ExecEvent::BuildEnded { success: true, diagnostic: String::new() }) {
        ExecAction::Run { program, prepare, cleanup, index, warmup, .. } => {
            assert_eq!(program, "a.c.out");
            assert_eq!(prepare.as_deref(), Some("sync"));
            assert_eq!(cleanup.as_deref(), Some("rm -f out"));
            assert_eq!(index, 0);
            assert!(!warmup);
        }
        _ => panic!("expected a run"),
    }
}

#[test]
fn oxidizer_starts_the_command() {
    let cli = Cli { command: Command::Daemon { action: DaemonAction::Start }, config: Some("cfg.toml".to_string()), verbose: true };
    let oxi = Oxidizer::new(cli);
    assert!(oxi.verbose());
    assert_eq!(oxi.config().as_deref(), Some("cfg.toml"));
    assert!(matches!(oxi.run(Ctx), Ok(Task::Daemon(DaemonAction::Start))));
}

#[test]
fn counters_follow_the_requested_events() {
    let mut a = args(vec![], 4, 1);
    a.timeout = Some(30);
    let c = oxidizer::benchmark::run_config(&a);
    assert_eq!(c.runs, 4);
    assert_eq!(c.warmup, 1);
    assert_eq!(c.timeout_secs, Some(30));
    assert_eq!(c.counters, None);
    a.perf_metrics = true;
    let all = oxidizer::benchmark::run_config(&a).counters.unwrap();
    assert!(all.cycles && all.instructions && all.cache_misses && all.branch_misses && all.page_faults);
    a.perf_events = Some(vec!["cache-misses".to_string(), "cycles".to_string(), "bogus".to_string()]);
    let some = oxidizer::benchmark::run_config(&a).counters.unwrap();
    assert!(some.cycles && some.cache_misses);
    assert!(!some.instructions && !some.branch_misses && !some.page_faults);
}

#[test]
fn each_target_runs_its_own_artifact_from_the_first_run() {
    let a = args(
        vec![
            target("one.c", BuilderSystem::Gcc, ProjectType::Standalone),
            target("two.c", BuilderSystem::Clang, ProjectType::Standalone),
        ],
        2,
        1,
    );
    let mut exec = Exec::new(a, Ctx);
    assert_eq!(exec.args().runs, 2);
    assert!(exec.outcomes_list().is_empty());
    let mut runs: Vec<(String, u64, bool)> = Vec::new();
    let mut action = exec.exec(ExecEvent::Begin);
    loop {
        let event = match action {
            ExecAction::ListDirectory(_) => ExecEvent::Listed(vec![]),
            ExecAction::Build(_) => ExecEvent::BuildEnded { success: true, diagnostic: String::new() },
            ExecAction::Run { program, index, warmup, .. } => {
                runs.push((program, index, warmup));
                ExecEvent::RunEnded(RunOutcome { elapsed_ns: 5, status: ExitStatus::Exited(0), memory_peak_kb: None, counters: None })
            }
            ExecAction::Done => break,
        };
        action = exec.exec(event);
    }
    let expected: Vec<(String, u64, bool)> = vec![
        ("one.c.out".to_string(), 0, true),
        ("one.c.out".to_string(), 1, false),
        ("one.c.out".to_string(), 2, false),
        ("two.c.out".to_string(), 0, true),
        ("two.c.out".to_string(), 1, false),
        ("two.c.out".to_string(), 2, false),
    ];
    assert_eq!(runs, expected);
    assert_eq!(exec.exit_code(), 0);
}
