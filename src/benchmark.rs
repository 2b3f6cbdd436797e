//! The benchmark command: its options, and the session that drives every
//! target through planning, building and repeated runs, one outcome per
//! target, a failed target never stopping the others.

use vstd::prelude::*;
use crate::build_system::{copy_strings, BuildError, BuildFault, Invocation, InvocationView};
use crate::harness::{
    is_finished, reports, sampling, start_of, step, BenchmarkReport, CounterSet, Harness,
    HarnessAction, HarnessView, RunConfig, RunOutcome,
};
use crate::pipeline::{
    build_finished, lemma_plan_not_empty, plan_build, plan_of, ArtifactView, BuildArtifact,
    BuildPipeline, PipelineView,
};
use crate::stats::{relative, ratio_of, Fraction};
use crate::target::{BenchmarkTarget, TargetView, TimeUnit};
use crate::Ctx;

verus! {

/// Options of the benchmark command.
pub struct BenchmarkArgs {
    pub targets: Vec<BenchmarkTarget>,
    pub runs: u32,
    pub warmup: u32,
    pub prepare: Option<String>,
    pub cleanup: Option<String>,
    pub time_unit: Option<TimeUnit>,
    pub export_json: Option<String>,
    pub export_markdown: Option<String>,
    pub export_csv: Option<String>,
    pub ignore_failure: bool,
    pub timeout: Option<u64>,
    pub measure_memory: bool,
    pub relative_comparison: bool,
    /// Position of the baseline among the targets; the first when unset.
    pub baseline: Option<usize>,
    pub perf_metrics: bool,
    pub perf_events: Option<Vec<String>>,
    pub sampling_frequency: u32,
    pub flamegraph: bool,
    pub call_graph: bool,
    pub annotate_source: bool,
    pub system_wide: bool,
    pub analyze_latency: bool,
    pub perf_record_options: Option<String>,
    pub perf_report_options: Option<String>,
}

pub open spec fn counters_named(events: Seq<Seq<char>>) -> CounterSet {
    CounterSet {
        cycles: events.contains("cycles"@),
        instructions: events.contains("instructions"@),
        cache_misses: events.contains("cache-misses"@),
        branch_misses: events.contains("branch-misses"@),
        page_faults: events.contains("page-faults"@),
    }
}

pub open spec fn all_counters() -> CounterSet {
    CounterSet {
        cycles: true,
        instructions: true,
        cache_misses: true,
        branch_misses: true,
        page_faults: true,
    }
}

/// The run configuration the options describe: counters only with
/// performance metrics on, all of them unless events are listed.
pub open spec fn config_of(a: BenchmarkArgs) -> RunConfig {
    RunConfig {
        runs: a.runs,
        warmup: a.warmup,
        timeout_secs: a.timeout,
        ignore_failure: a.ignore_failure,
        measure_memory: a.measure_memory,
        counters: if !a.perf_metrics {
            None
        } else {
            match a.perf_events {
                Some(e) => Some(counters_named(e.deep_view())),
                None => Some(all_counters()),
            }
        },
    }
}

/// The run configuration of the options.
pub fn run_config(a: &BenchmarkArgs) -> (r: RunConfig)
    ensures
        r == config_of(*a),
{
    let counters = if !a.perf_metrics {
        None
    } else {
        match &a.perf_events {
            Some(e) => Some(
                CounterSet {
                    cycles: crate::pipeline::has_entry(e, "cycles"),
                    instructions: crate::pipeline::has_entry(e, "instructions"),
                    cache_misses: crate::pipeline::has_entry(e, "cache-misses"),
                    branch_misses: crate::pipeline::has_entry(e, "branch-misses"),
                    page_faults: crate::pipeline::has_entry(e, "page-faults"),
                },
            ),
            None => Some(
                CounterSet {
                    cycles: true,
                    instructions: true,
                    cache_misses: true,
                    branch_misses: true,
                    page_faults: true,
                },
            ),
        }
    };
    RunConfig {
        runs: a.runs,
        warmup: a.warmup,
        timeout_secs: a.timeout,
        ignore_failure: a.ignore_failure,
        measure_memory: a.measure_memory,
        counters,
    }
}

/// How one target ended.
#[derive(Clone, Debug)]
pub enum TargetOutcome {
    /// Built and run; the report holds the failure that stopped the runs
    /// early, if one did.
    Completed(BenchmarkReport),
    /// Not built.
    Failed(BuildError),
}

/// What the caller is to do for the session to go on.
pub enum ExecAction {
    /// List the names in the target's directory (none for a plain file).
    ListDirectory(String),
    /// Run one build invocation.
    Build(Invocation),
    /// Run the built artifact once, with the preparation command before it
    /// and the cleanup command after it when they are set.
    Run {
        program: String,
        args: Vec<String>,
        index: u64,
        warmup: bool,
        sample_counters: bool,
        prepare: Option<String>,
        cleanup: Option<String>,
    },
    /// Every target has an outcome.
    Done,
}

/// What the caller observed after the last action.
pub enum ExecEvent {
    /// Nothing yet: the session is starting.
    Begin,
    Listed(Vec<String>),
    BuildEnded { success: bool, diagnostic: String },
    RunEnded(RunOutcome),
}

enum Stage {
    Listing,
    Building(BuildPipeline),
    Running(Harness, BuildArtifact),
    Done,
}

/// A benchmark session over the targets of the options, in their order.
pub struct Exec {
    args: BenchmarkArgs,
    ctx: Ctx,
    config: RunConfig,
    current: usize,
    stage: Stage,
    results: Vec<TargetOutcome>,
}

impl Exec {
    pub closed spec fn targets(&self) -> Seq<TargetView> {
        self.args.targets@.map_values(|t: BenchmarkTarget| t@)
    }

    /// Position of the target in progress; the count of targets at the end.
    pub closed spec fn current(&self) -> nat {
        self.current as nat
    }

    /// One outcome per finished target, in target order.
    pub closed spec fn outcomes(&self) -> Seq<TargetOutcome> {
        self.results@
    }

    pub closed spec fn config(&self) -> RunConfig {
        self.config
    }

    /// The command run before each invocation of an artifact.
    pub closed spec fn prepare(&self) -> Option<Seq<char>> {
        command_view(self.args.prepare)
    }

    /// The command run after each invocation of an artifact.
    pub closed spec fn cleanup(&self) -> Option<Seq<char>> {
        command_view(self.args.cleanup)
    }

    /// The options the session was started with.
    pub closed spec fn options(&self) -> BenchmarkArgs {
        self.args
    }

    /// What the session is doing for the current target.
    pub closed spec fn phase(&self) -> SessionPhase {
        match self.stage {
            Stage::Listing => SessionPhase::Listing,
            Stage::Building(p) => SessionPhase::Building(p@),
            Stage::Running(h, a) => SessionPhase::Running(h@, a@),
            Stage::Done => SessionPhase::Done,
        }
    }

    /// The session waits for the listing of the current target's directory.
    pub open spec fn listing(&self) -> bool {
        self.phase() is Listing
    }

    /// The build in progress, if any.
    pub open spec fn building(&self) -> Option<PipelineView> {
        match self.phase() {
            SessionPhase::Building(p) => Some(p),
            _ => None,
        }
    }

    /// The runs in progress, if any.
    pub open spec fn running(&self) -> Option<HarnessView> {
        match self.phase() {
            SessionPhase::Running(h, _) => Some(h),
            _ => None,
        }
    }

    /// The artifact being run, if any.
    pub open spec fn artifact(&self) -> Option<ArtifactView> {
        match self.phase() {
            SessionPhase::Running(_, a) => Some(a),
            _ => None,
        }
    }

    closed spec fn linked_build(&self) -> Option<ArtifactView> {
        match self.stage {
            Stage::Building(p) => if p@.failure is None && p@.next >= p@.plan.invocations.len() {
                Some(p@.plan.artifact)
            } else {
                None
            },
            _ => None,
        }
    }

    closed spec fn pending_build(&self) -> Option<PipelineView> {
        match self.stage {
            Stage::Building(p) => if p@.failure is None && p@.next < p@.plan.invocations.len() {
                Some(p@)
            } else {
                None
            },
            _ => None,
        }
    }

    closed spec fn build_failure(&self) -> Option<BuildFault> {
        match self.stage {
            Stage::Building(p) => p@.failure,
            _ => None,
        }
    }

    closed spec fn wf_core(&self) -> bool {
        &&& self.current <= self.args.targets.len()
        &&& self.results.len() == self.current
        &&& self.config.runs >= 1
        &&& match self.stage {
            Stage::Listing => true,
            Stage::Building(p) => p.wf() && self.current < self.args.targets.len(),
            Stage::Running(h, _) => h.wf() && h@.config == self.config && self.current
                < self.args.targets.len(),
            Stage::Done => self.current == self.args.targets.len(),
        }
    }

    pub closed spec fn wf(&self) -> bool {
        &&& self.wf_core()
        &&& match self.stage {
            Stage::Building(p) => p@.begun && !build_finished(p@),
            Stage::Running(h, _) => !is_finished(h@),
            _ => true,
        }
    }

    pub fn new(args: BenchmarkArgs, ctx: Ctx) -> (r: Exec)
        requires
            args.runs >= 1,
        ensures
            r.wf(),
            r.targets() == args.targets@.map_values(|t: BenchmarkTarget| t@),
            r.config() == config_of(args),
            r.current() == 0,
            r.listing(),
            r.prepare() == command_view(args.prepare),
            r.cleanup() == command_view(args.cleanup),
            r.options() == args,
            r.outcomes().len() == 0,
            r.baseline() == match args.baseline {
                Some(b) => b as int,
                None => 0,
            },
    {
        let config = run_config(&args);
        Exec { args, ctx, config, current: 0, stage: Stage::Listing, results: Vec::new() }
    }

    fn finish_target(&mut self, outcome: TargetOutcome)
        requires
            old(self).current < old(self).args.targets.len(),
            old(self).results.len() == old(self).current,
            old(self).config.runs >= 1,
        ensures
            final(self).wf(),
            final(self).stage is Listing,
            final(self).current == old(self).current + 1,
            final(self).results@ == old(self).results@.push(outcome),
            final(self).args == old(self).args,
            final(self).config == old(self).config,
    {
        self.results.push(outcome);
        self.current = self.current + 1;
        self.stage = Stage::Listing;
    }

    /// Moves past finished builds and runs to the next thing for the caller
    /// to do.
    fn settle(&mut self) -> (r: ExecAction)
        requires
            old(self).wf_core(),
        ensures
            final(self).wf(),
            final(self).args == old(self).args,
            final(self).config == old(self).config,
            final(self).current >= old(self).current,
            final(self).results@.take(old(self).results@.len() as int) == old(self).results@,
            old(self).stage is Listing ==> final(self).results@ == old(self).results@
                && final(self).current == old(self).current && ends_target(r),
            old(self).stage matches Stage::Running(h, _) && !is_finished(h@) ==> final(self).stage
                == old(self).stage && final(self).results@ == old(self).results@ && r is Run,
            old(self).linked_build() matches Some(a) ==> {
                &&& final(self).results@ == old(self).results@
                &&& final(self).phase() == SessionPhase::Running(start_of(final(self).config), a)
                &&& r is Run
            },
            old(self).pending_build() matches Some(pv) ==> {
                &&& final(self).results@ == old(self).results@
                &&& final(self).building() == Some(PipelineView { begun: true, ..pv })
                &&& launches(r, pv.plan.invocations[pv.next as int])
            },
            old(self).build_failure() matches Some(f) ==> adds_failure(
                old(self).results@,
                final(self).results@,
                f,
            ) && ends_target(r),
            r is Done <==> final(self).current == final(self).args.targets.len(),
            r matches ExecAction::ListDirectory(p) ==> final(self).stage is Listing && p@
                == final(self).args.targets@[final(self).current as int]@.path,
            r matches ExecAction::Run { prepare, cleanup, .. } ==> {
                &&& command_view(prepare) == command_view(final(self).args.prepare)
                &&& command_view(cleanup) == command_view(final(self).args.cleanup)
            },
            r is Run ==> (final(self).phase() matches SessionPhase::Running(h, a) && runs_next(r, h)
                && runs_artifact(r, a)),
            r matches ExecAction::Build(inv) ==> (final(self).building() matches Some(p) && inv@
                == p.plan.invocations[p.next as int]),
    {
        let ghost start = self.results@;
        let ghost linked0 = old(self).linked_build();
        let ghost failure0 = old(self).build_failure();
        loop
            invariant
                self.wf_core(),
                self.args == old(self).args,
                self.config == old(self).config,
                self.current >= old(self).current,
                self.results@.take(start.len() as int) == start,
                start.len() <= self.results@.len(),
                start == old(self).results@,
                old(self).stage is Listing ==> self.results@ == start && self.stage is Listing
                    && self.current == old(self).current,
                linked0 == old(self).linked_build(),
                linked0 is Some ==> (self.stage == old(self).stage && self.results@ == start) || (
                self.results@ == start && (self.stage matches Stage::Running(h, a) && h@
                    == start_of(self.config) && Some(a@) == linked0)),
                old(self).stage matches Stage::Running(h, _) && !is_finished(h@) ==> self.stage
                    == old(self).stage && self.results@ == start,
                failure0 == old(self).build_failure(),
                old(self).pending_build() is Some ==> self.stage == old(self).stage && self.results@
                    == start,
                failure0 is Some ==> (self.stage == old(self).stage && self.results@ == start) || (
                self.results@.len() == start.len() + 1 && (self.results@.last() matches
                    TargetOutcome::Failed(e)
                    && Some(e@) == failure0) && self.stage is Listing),
            decreases (self.args.targets.len() - self.current) * 3 + match self.stage {
                Stage::Listing => 0int,
                Stage::Running(_, _) => 1int,
                Stage::Building(_) => 2int,
                Stage::Done => 0int,
            },
        {
            let mut stage = Stage::Done;
            std::mem::swap(&mut self.stage, &mut stage);
            match stage {
                Stage::Done => {
                    return ExecAction::Done;
                },
                Stage::Listing => {
                    if self.current >= self.args.targets.len() {
                        return ExecAction::Done;
                    }
                    self.stage = Stage::Listing;
                    return ExecAction::ListDirectory(self.args.targets[self.current].path.clone());
                },
                Stage::Building(mut p) => {
                    match p.next_invocation() {
                        Some(inv) => {
                            self.stage = Stage::Building(p);
                            return ExecAction::Build(inv);
                        },
                        None => {
                            match p.outcome() {
                                Ok(artifact) => {
                                    let h = Harness::new(self.config);
                                    self.stage = Stage::Running(h, artifact);
                                },
                                Err(e) => {
                                    let ghost before = self.results@;
                                    self.finish_target(TargetOutcome::Failed(e));
                                    assert(self.results@.take(start.len() as int) =~= before.take(
                                        start.len() as int,
                                    ));
                                },
                            }
                        },
                    }
                },
                Stage::Running(h, artifact) => {
                    match h.next_action() {
                        HarnessAction::Invoke { index, warmup, sample_counters } => {
                            let program = artifact.program.clone();
                            let args = copy_strings(&artifact.args);
                            let prepare = copy_command(&self.args.prepare);
                            let cleanup = copy_command(&self.args.cleanup);
                            self.stage = Stage::Running(h, artifact);
                            return ExecAction::Run {
                                program,
                                args,
                                index,
                                warmup,
                                sample_counters,
                                prepare,
                                cleanup,
                            };
                        },
                        HarnessAction::Finished => {
                            let ghost before = self.results@;
                            self.finish_target(TargetOutcome::Completed(h.into_report()));
                            assert(self.results@.take(start.len() as int) =~= before.take(
                                start.len() as int,
                            ));
                        },
                    }
                },
            }
        }
    }

    /// Takes what the caller observed after the last action and says what
    /// to do next. An event that does not fit the session's state is
    /// ignored.
    pub fn exec(&mut self, event: ExecEvent) -> (r: ExecAction)
        requires
            old(self).wf(),
        ensures
            final(self).wf(),
            final(self).options() == old(self).options(),
            final(self).targets() == old(self).targets(),
            final(self).config() == old(self).config(),
            final(self).prepare() == old(self).prepare(),
            final(self).cleanup() == old(self).cleanup(),
            final(self).current() >= old(self).current(),
            final(self).outcomes().len() == final(self).current(),
            final(self).outcomes().take(old(self).outcomes().len() as int) == old(self).outcomes(),
            r is Done <==> final(self).current() == final(self).targets().len(),
            r matches ExecAction::ListDirectory(p) ==> final(self).listing() && p@
                == final(self).targets()[final(self).current() as int].path,
            r matches ExecAction::Build(inv) ==> (final(self).building() matches Some(p) && inv@
                == p.plan.invocations[p.next as int]),
            r is Run ==> (final(self).phase() matches SessionPhase::Running(h, a) && runs_next(r, h)
                && runs_artifact(r, a)),
            r matches ExecAction::Run { prepare, cleanup, .. } ==> command_view(prepare)
                == final(self).prepare() && command_view(cleanup) == final(self).cleanup(),
            // A listing plans the current target's build: its first invocation
            // is handed out, or the target fails with the planning error.
            event matches ExecEvent::Listed(entries) ==> (old(self).listing() && old(self).current()
                < old(self).targets().len() ==> match plan_of(
                old(self).targets()[old(self).current() as int],
                entries.deep_view(),
            ) {
                Err(f) => adds_failure(old(self).outcomes(), final(self).outcomes(), f)
                    && ends_target(r),
                Ok(p) => {
                    &&& final(self).outcomes() == old(self).outcomes()
                    &&& final(self).building() == Some(
                        PipelineView { plan: p, next: 0, begun: true, failure: None },
                    )
                    &&& launches(r, p.invocations[0])
                },
            }),
            // A failed build invocation ends the target with the tool's
            // diagnostic; a successful one hands out the next invocation, or
            // after the last starts the runs of the built artifact.
            event matches ExecEvent::BuildEnded { success, diagnostic } ==> match old(self)
                .building() {
                Some(p) => if !success {
                    adds_failure(
                        old(self).outcomes(),
                        final(self).outcomes(),
                        BuildFault::ToolFailed(p.next as int, diagnostic@),
                    ) && ends_target(r)
                } else if p.next + 1 < p.plan.invocations.len() {
                    &&& final(self).outcomes() == old(self).outcomes()
                    &&& final(self).building() == Some(PipelineView { next: p.next + 1, ..p })
                    &&& launches(r, p.plan.invocations[p.next + 1 as int])
                } else {
                    &&& final(self).outcomes() == old(self).outcomes()
                    &&& final(self).phase() == SessionPhase::Running(
                        start_of(old(self).config()),
                        p.plan.artifact,
                    )
                    &&& r is Run
                },
                None => true,
            },
            // A finished run is one step of the harness; when that ends the
            // runs, the target's report is added.
            event matches ExecEvent::RunEnded(o) ==> match old(self).running() {
                Some(h) => if is_finished(step(h, o)) {
                    adds_report(old(self).outcomes(), final(self).outcomes(), step(h, o))
                        && ends_target(r)
                } else {
                    &&& final(self).outcomes() == old(self).outcomes()
                    &&& final(self).phase() == SessionPhase::Running(
                        step(h, o),
                        old(self).artifact()->0,
                    )
                    &&& r is Run
                },
                None => true,
            },
    {
        let mut stage = Stage::Done;
        std::mem::swap(&mut self.stage, &mut stage);
        match (stage, event) {
            (Stage::Listing, ExecEvent::Listed(entries)) => {
                if self.current < self.args.targets.len() {
                    proof {
                        lemma_plan_not_empty(self.args.targets@[self.current as int]@);
                    }
                    match plan_build(&self.args.targets[self.current], &entries) {
                        Ok(plan) => {
                            self.stage = Stage::Building(BuildPipeline::new(plan));
                        },
                        Err(e) => {
                            self.finish_target(TargetOutcome::Failed(e));
                            let ghost n = old(self).results@.len() as int;
                            assert(self.results@.take(n) =~= old(self).results@);
                        },
                    }
                } else {
                    self.stage = Stage::Listing;
                }
            },
            (Stage::Building(mut p), ExecEvent::BuildEnded { success, diagnostic }) => {
                p.record(success, diagnostic);
                self.stage = Stage::Building(p);
            },
            (Stage::Running(mut h, artifact), ExecEvent::RunEnded(o)) => {
                h.record(o);
                if h.is_finished() {
                    self.finish_target(TargetOutcome::Completed(h.into_report()));
                    let ghost n = old(self).results@.len() as int;
                    assert(self.results@.take(n) =~= old(self).results@);
                } else {
                    self.stage = Stage::Running(h, artifact);
                }
            },
            (s, _) => {
                self.stage = s;
            },
        }
        self.settle()
    }

    /// The outcomes so far, one per finished target.
    pub fn outcomes_list(&self) -> (r: &Vec<TargetOutcome>)
        ensures
            r@ == self.outcomes(),
    {
        &self.results
    }

    /// The options the session was started with.
    pub fn args(&self) -> (r: &BenchmarkArgs)
        ensures
            *r == self.options(),
    {
        &self.args
    }

    /// Position of the baseline target: the one the options name, else the
    /// first.
    pub closed spec fn baseline(&self) -> int {
        match self.args.baseline {
            Some(b) => b as int,
            None => 0,
        }
    }

    /// 0 when every target was built and all its runs succeeded or their
    /// failures were tolerated; 1 when any target failed in part or whole.
    pub fn exit_code(&self) -> (r: i32)
        ensures
            r == 0 || r == 1,
            r == 0 <==> forall|i: int|
                0 <= i < self.outcomes().len() ==> target_ok(#[trigger] self.outcomes()[i]),
    {
        let mut i: usize = 0;
        while i < self.results.len()
            invariant
                i <= self.results.len(),
                forall|j: int| 0 <= j < i ==> target_ok(#[trigger] self.results@[j]),
            decreases self.results.len() - i,
        {
            let ok = match &self.results[i] {
                TargetOutcome::Completed(rep) => rep.halted_by.is_none(),
                TargetOutcome::Failed(_) => false,
            };
            if !ok {
                assert(!target_ok(self.outcomes()[i as int]));
                return 1;
            }
            i += 1;
        }
        0
    }

    /// For each outcome, its mean relative to the baseline's mean, where
    /// both targets have statistics and the ratio can be formed.
    pub fn comparisons(&self) -> (r: Vec<Option<Fraction>>)
        ensures
            r@.len() == self.outcomes().len(),
            forall|i: int|
                0 <= i < r@.len() ==> #[trigger] r@[i] == comparison(
                    self.outcomes(),
                    self.baseline(),
                    i,
                ),
    {
        let b = match self.args.baseline {
            Some(b) => b,
            None => 0,
        };
        let base = if b < self.results.len() {
            outcome_mean(&self.results[b])
        } else {
            None
        };
        let mut out: Vec<Option<Fraction>> = Vec::new();
        let mut i: usize = 0;
        while i < self.results.len()
            invariant
                i <= self.results.len(),
                out@.len() == i,
                b == self.baseline(),
                base == (if 0 <= b < self.results@.len() {
                    mean_of_outcome(self.results@[b as int])
                } else {
                    None
                }),
                forall|j: int|
                    0 <= j < i ==> #[trigger] out@[j] == comparison(self.results@, b as int, j),
            decreases self.results.len() - i,
        {
            let c = match (outcome_mean(&self.results[i]), base) {
                (Some(t), Some(m)) => relative(t, m),
                _ => None,
            };
            out.push(c);
            i += 1;
        }
        out
    }
}

/// `new` is `old` with one more outcome: a build failure `f`.
pub open spec fn adds_failure(
    old: Seq<TargetOutcome>,
    new: Seq<TargetOutcome>,
    f: BuildFault,
) -> bool {
    &&& new.len() == old.len() + 1
    &&& new.take(old.len() as int) == old
    &&& new.last() matches TargetOutcome::Failed(e) && e@ == f
}

/// `new` is `old` with one more outcome: the report of the runs `v`.
pub open spec fn adds_report(
    old: Seq<TargetOutcome>,
    new: Seq<TargetOutcome>,
    v: HarnessView,
) -> bool {
    &&& new.len() == old.len() + 1
    &&& new.take(old.len() as int) == old
    &&& new.last() matches TargetOutcome::Completed(rep) && reports(rep, v)
}

/// What a session is doing for its current target.
pub enum SessionPhase {
    Listing,
    Building(PipelineView),
    Running(HarnessView, ArtifactView),
    Done,
}

/// After a target has ended, the session lists the next target's directory
/// or is done.
pub open spec fn ends_target(r: ExecAction) -> bool {
    r is Done || r is ListDirectory
}

/// `r` runs the artifact `a`.
pub open spec fn runs_artifact(r: ExecAction, a: ArtifactView) -> bool {
    r matches ExecAction::Run { program, args, .. } && program@ == a.program && args.deep_view()
        == a.args
}

/// `r` hands out the build invocation `inv`.
pub open spec fn launches(r: ExecAction, inv: InvocationView) -> bool {
    r matches ExecAction::Build(i) && i@ == inv
}

/// `r` runs the invocation the harness `h` asks for next.
pub open spec fn runs_next(r: ExecAction, h: HarnessView) -> bool {
    r matches ExecAction::Run { index, warmup, sample_counters, .. } && index == h.next && warmup
        == (h.next < h.config.warmup) && sample_counters == sampling(h)
}

/// The target was built and its runs were not stopped by a failure.
pub open spec fn target_ok(o: TargetOutcome) -> bool {
    o matches TargetOutcome::Completed(r) && r.halted_by is None
}

pub open spec fn mean_of_outcome(o: TargetOutcome) -> Option<Fraction> {
    match o {
        TargetOutcome::Completed(r) => match r.summary {
            Some(s) => Some(s.mean),
            None => None,
        },
        TargetOutcome::Failed(_) => None,
    }
}

/// The `i`-th outcome's mean relative to the baseline's, when both exist.
pub open spec fn comparison(outs: Seq<TargetOutcome>, b: int, i: int) -> Option<Fraction> {
    if 0 <= b < outs.len() && mean_of_outcome(outs[b]) is Some && mean_of_outcome(outs[i]) is Some {
        ratio_of(mean_of_outcome(outs[i])->0, mean_of_outcome(outs[b])->0)
    } else {
        None
    }
}

fn outcome_mean(o: &TargetOutcome) -> (r: Option<Fraction>)
    ensures
        r == mean_of_outcome(*o),
{
    match o {
        TargetOutcome::Completed(rep) => match rep.summary {
            Some(s) => Some(s.mean),
            None => None,
        },
        TargetOutcome::Failed(_) => None,
    }
}

pub open spec fn command_view(c: Option<String>) -> Option<Seq<char>> {
    match c {
        Some(s) => Some(s@),
        None => None,
    }
}

fn copy_command(c: &Option<String>) -> (r: Option<String>)
    ensures
        command_view(r) == command_view(*c),
{
    match c {
        Some(s) => Some(s.clone()),
        None => None,
    }
}

} // verus!
