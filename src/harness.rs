//! The execution harness: decides, run by run, what to launch next and what
//! each finished invocation contributes, under the warmup, timeout and
//! failure-tolerance policy of a run configuration. Launching processes is
//! the caller's part; every decision is here.

use vstd::prelude::*;
use crate::stats::{summarize, summary_of, sum_of, Fraction, Summary};

verus! {

/// Which performance counters to keep from each run.
#[derive(Clone, Copy, Debug, PartialEq, Eq, Structural)]
pub struct CounterSet {
    pub cycles: bool,
    pub instructions: bool,
    pub cache_misses: bool,
    pub branch_misses: bool,
    pub page_faults: bool,
}

/// The counters sampled during one run; only requested fields are set.
#[derive(Clone, Copy, Debug, PartialEq, Eq, Structural)]
pub struct PerfCounters {
    pub cycles: Option<u64>,
    pub instructions: Option<u64>,
    pub cache_misses: Option<u64>,
    pub branch_misses: Option<u64>,
    pub page_faults: Option<u64>,
}

/// How a process ended.
#[derive(Clone, Copy, Debug, PartialEq, Eq, Structural)]
pub enum ExitStatus {
    Exited(i32),
    /// Ended by a signal, with no exit code.
    Killed,
}

/// What the caller observed of one invocation.
#[derive(Clone, Copy, Debug, PartialEq, Eq, Structural)]
pub struct RunOutcome {
    /// Wall-clock time from launch to exit or kill.
    pub elapsed_ns: u64,
    pub status: ExitStatus,
    pub memory_peak_kb: Option<u64>,
    /// `None` when the host could not sample counters for this run.
    pub counters: Option<PerfCounters>,
}

/// One successful run's measurements.
#[derive(Clone, Copy, Debug, PartialEq, Eq, Structural)]
pub struct RunSample {
    pub index: u64,
    pub warmup: bool,
    pub duration_ns: u64,
    pub memory_peak_kb: Option<u64>,
    pub counters: Option<PerfCounters>,
}

#[derive(Clone, Copy, Debug, PartialEq, Eq, Structural)]
pub enum FailureKind {
    /// The process exited with a non-zero code.
    ExitCode(i32),
    /// The process was ended by a signal before the time limit.
    Signalled,
    /// The process ran for the configured limit or longer and was stopped.
    TimedOut,
}

/// A failed run; it contributes no sample.
#[derive(Clone, Copy, Debug, PartialEq, Eq, Structural)]
pub struct RunFailure {
    pub index: u64,
    pub warmup: bool,
    pub kind: FailureKind,
}

/// How a target's artifact is run.
#[derive(Clone, Copy, Debug, PartialEq, Eq, Structural)]
pub struct RunConfig {
    /// Measured runs; at least one.
    pub runs: u32,
    /// Runs made first and left out of the statistics.
    pub warmup: u32,
    pub timeout_secs: Option<u64>,
    pub ignore_failure: bool,
    pub measure_memory: bool,
    /// The counters to sample, when any are requested.
    pub counters: Option<CounterSet>,
}

pub open spec fn total_runs(c: RunConfig) -> int {
    c.warmup + c.runs
}

/// Why a run failed, or `None` when it succeeded. A run that reached the
/// time limit is a timeout whatever its exit status.
pub open spec fn classify(c: RunConfig, o: RunOutcome) -> Option<FailureKind> {
    if c.timeout_secs is Some && o.elapsed_ns >= c.timeout_secs->0 * 1_000_000_000 {
        Some(FailureKind::TimedOut)
    } else {
        match o.status {
            ExitStatus::Exited(code) => if code == 0 {
                None
            } else {
                Some(FailureKind::ExitCode(code))
            },
            ExitStatus::Killed => Some(FailureKind::Signalled),
        }
    }
}

pub open spec fn restrict(p: PerfCounters, w: CounterSet) -> PerfCounters {
    PerfCounters {
        cycles: if w.cycles { p.cycles } else { None },
        instructions: if w.instructions { p.instructions } else { None },
        cache_misses: if w.cache_misses { p.cache_misses } else { None },
        branch_misses: if w.branch_misses { p.branch_misses } else { None },
        page_faults: if w.page_faults { p.page_faults } else { None },
    }
}

pub struct HarnessView {
    pub config: RunConfig,
    /// Position of the next invocation, warmup runs first.
    pub next: nat,
    pub samples: Seq<RunSample>,
    pub failures: Seq<RunFailure>,
    pub halted: bool,
    /// The host failed to sample counters once; no more are asked for.
    pub counters_unsupported: bool,
}

pub open spec fn start_of(c: RunConfig) -> HarnessView {
    HarnessView {
        config: c,
        next: 0,
        samples: Seq::empty(),
        failures: Seq::empty(),
        halted: false,
        counters_unsupported: false,
    }
}

pub open spec fn is_finished(v: HarnessView) -> bool {
    v.halted || v.next >= total_runs(v.config)
}

pub open spec fn sampling(v: HarnessView) -> bool {
    v.config.counters is Some && !v.counters_unsupported
}

pub open spec fn sample_of(v: HarnessView, o: RunOutcome) -> RunSample {
    RunSample {
        index: v.next as u64,
        warmup: v.next < v.config.warmup,
        duration_ns: o.elapsed_ns,
        memory_peak_kb: if v.config.measure_memory {
            o.memory_peak_kb
        } else {
            None
        },
        counters: if sampling(v) && o.counters is Some {
            Some(restrict(o.counters->0, v.config.counters->0))
        } else {
            None
        },
    }
}

/// What one finished invocation does to the harness. Once it has finished,
/// nothing changes it.
pub open spec fn step(v: HarnessView, o: RunOutcome) -> HarnessView {
    if is_finished(v) {
        v
    } else {
        let unsupported = v.counters_unsupported || (sampling(v) && o.counters is None);
        match classify(v.config, o) {
            None => HarnessView {
                next: v.next + 1,
                samples: v.samples.push(sample_of(v, o)),
                counters_unsupported: unsupported,
                ..v
            },
            Some(k) => HarnessView {
                next: v.next + 1,
                failures: v.failures.push(
                    RunFailure { index: v.next as u64, warmup: v.next < v.config.warmup, kind: k },
                ),
                halted: !v.config.ignore_failure,
                counters_unsupported: unsupported,
                ..v
            },
        }
    }
}

/// The harness after the invocations ended as `outs`, in order.
pub open spec fn run_all(c: RunConfig, outs: Seq<RunOutcome>) -> HarnessView
    decreases outs.len(),
{
    if outs.len() == 0 {
        start_of(c)
    } else {
        step(run_all(c, outs.drop_last()), outs.last())
    }
}

/// Durations of the measured (non-warmup) samples, in order.
pub open spec fn measured_durations(s: Seq<RunSample>) -> Seq<u64>
    decreases s.len(),
{
    if s.len() == 0 {
        Seq::empty()
    } else if s.last().warmup {
        measured_durations(s.drop_last())
    } else {
        measured_durations(s.drop_last()).push(s.last().duration_ns)
    }
}

pub open spec fn elapsed_of(outs: Seq<RunOutcome>) -> Seq<u64> {
    outs.map_values(|o: RunOutcome| o.elapsed_ns)
}

/// What the caller is to do next.
#[derive(Clone, Copy, Debug, PartialEq, Eq, Structural)]
pub enum HarnessAction {
    /// Launch the artifact once (with the preparation command before and
    /// the cleanup command after, when configured).
    Invoke { index: u64, warmup: bool, sample_counters: bool },
    /// No more runs for this target.
    Finished,
}

/// The per-target result: every sample in invocation order, the failed
/// runs, the statistics over the measured samples, and the failure that
/// stopped the runs early, if one did.
#[derive(Clone, Debug)]
pub struct BenchmarkReport {
    pub samples: Vec<RunSample>,
    pub failures: Vec<RunFailure>,
    pub summary: Option<Summary>,
    pub halted_by: Option<RunFailure>,
    pub counters_unsupported: bool,
}

/// `r` reports the harness state `v`: its samples and failures, the
/// statistics over its measured samples, and the failure that stopped the
/// runs, if they were stopped.
pub open spec fn reports(r: BenchmarkReport, v: HarnessView) -> bool {
    &&& r.samples@ == v.samples
    &&& r.failures@ == v.failures
    &&& r.summary == summary_of(measured_durations(v.samples))
    &&& r.halted_by == (if v.halted && v.failures.len() > 0 {
        Some(v.failures.last())
    } else {
        None
    })
    &&& r.counters_unsupported == v.counters_unsupported
}

/// Runs one artifact `warmup + runs` times, one invocation at a time.
pub struct Harness {
    config: RunConfig,
    next: u64,
    samples: Vec<RunSample>,
    failures: Vec<RunFailure>,
    halted: bool,
    counters_unsupported: bool,
}

impl View for Harness {
    type V = HarnessView;

    closed spec fn view(&self) -> HarnessView {
        HarnessView {
            config: self.config,
            next: self.next as nat,
            samples: self.samples@,
            failures: self.failures@,
            halted: self.halted,
            counters_unsupported: self.counters_unsupported,
        }
    }
}

impl Harness {
    pub closed spec fn wf(&self) -> bool {
        self.next <= total_runs(self.config)
    }

    pub fn new(config: RunConfig) -> (r: Harness)
        ensures
            r.wf(),
            r@ == start_of(config),
    {
        Harness {
            config,
            next: 0,
            samples: Vec::new(),
            failures: Vec::new(),
            halted: false,
            counters_unsupported: false,
        }
    }

    pub fn is_finished(&self) -> (r: bool)
        requires
            self.wf(),
        ensures
            r == is_finished(self@),
    {
        self.halted || self.next >= self.config.warmup as u64 + self.config.runs as u64
    }

    /// The next invocation to make, or `Finished`.
    pub fn next_action(&self) -> (r: HarnessAction)
        requires
            self.wf(),
        ensures
            is_finished(self@) ==> r == HarnessAction::Finished,
            !is_finished(self@) ==> r == (HarnessAction::Invoke {
                index: self@.next as u64,
                warmup: self@.next < self@.config.warmup,
                sample_counters: sampling(self@),
            }),
    {
        if self.is_finished() {
            HarnessAction::Finished
        } else {
            HarnessAction::Invoke {
                index: self.next,
                warmup: self.next < self.config.warmup as u64,
                sample_counters: self.config.counters.is_some() && !self.counters_unsupported,
            }
        }
    }

    /// Records how the last invocation ended.
    pub fn record(&mut self, o: RunOutcome)
        requires
            old(self).wf(),
        ensures
            final(self).wf(),
            final(self)@ == step(old(self)@, o),
    {
        if self.is_finished() {
            return;
        }
        let sampling = self.config.counters.is_some() && !self.counters_unsupported;
        let unsupported = self.counters_unsupported || (sampling && o.counters.is_none());
        let warmup = self.next < self.config.warmup as u64;
        let timed_out = match self.config.timeout_secs {
            Some(t) => o.elapsed_ns as u128 >= t as u128 * 1_000_000_000u128,
            None => false,
        };
        let failure = if timed_out {
            Some(FailureKind::TimedOut)
        } else {
            match o.status {
                ExitStatus::Exited(code) => if code == 0 {
                    None
                } else {
                    Some(FailureKind::ExitCode(code))
                },
                ExitStatus::Killed => Some(FailureKind::Signalled),
            }
        };
        match failure {
            None => {
                let counters = if sampling && o.counters.is_some() {
                    let p = o.counters.unwrap();
                    let w = self.config.counters.unwrap();
                    Some(
                        PerfCounters {
                            cycles: if w.cycles { p.cycles } else { None },
                            instructions: if w.instructions { p.instructions } else { None },
                            cache_misses: if w.cache_misses { p.cache_misses } else { None },
                            branch_misses: if w.branch_misses { p.branch_misses } else { None },
                            page_faults: if w.page_faults { p.page_faults } else { None },
                        },
                    )
                } else {
                    None
                };
                let memory_peak_kb = if self.config.measure_memory {
                    o.memory_peak_kb
                } else {
                    None
                };
                self.samples.push(
                    RunSample {
                        index: self.next,
                        warmup,
                        duration_ns: o.elapsed_ns,
                        memory_peak_kb,
                        counters,
                    },
                );
            },
            Some(kind) => {
                self.failures.push(RunFailure { index: self.next, warmup, kind });
                self.halted = !self.config.ignore_failure;
            },
        }
        self.counters_unsupported = unsupported;
        self.next = self.next + 1;
    }

    /// Durations of the measured samples, in invocation order.
    pub fn measured(&self) -> (r: Vec<u64>)
        ensures
            r@ == measured_durations(self@.samples),
    {
        let mut out: Vec<u64> = Vec::new();
        let mut i: usize = 0;
        proof {
            assert(self.samples@.take(0) =~= Seq::<RunSample>::empty());
        }
        while i < self.samples.len()
            invariant
                i <= self.samples.len(),
                out@ == measured_durations(self.samples@.take(i as int)),
            decreases self.samples.len() - i,
        {
            proof {
                assert(self.samples@.take(i + 1).drop_last() =~= self.samples@.take(i as int));
            }
            if !self.samples[i].warmup {
                out.push(self.samples[i].duration_ns);
            }
            i += 1;
        }
        proof {
            assert(self.samples@.take(self.samples.len() as int) =~= self.samples@);
        }
        out
    }

    /// The report: samples, failures, statistics over the measured samples,
    /// and the failure that stopped the runs if they were stopped.
    pub fn into_report(self) -> (r: BenchmarkReport)
        ensures
            reports(r, self@),
    {
        let durations = self.measured();
        let summary = summarize(&durations);
        let halted_by = if self.halted && self.failures.len() > 0 {
            Some(self.failures[self.failures.len() - 1])
        } else {
            None
        };
        BenchmarkReport {
            samples: self.samples,
            failures: self.failures,
            summary,
            halted_by,
            counters_unsupported: self.counters_unsupported,
        }
    }
}


proof fn lemma_succeeding_runs(c: RunConfig, outs: Seq<RunOutcome>)
    requires
        outs.len() <= total_runs(c),
        forall|i: int| 0 <= i < outs.len() ==> classify(c, #[trigger] outs[i]) is None,
    ensures
        run_all(c, outs).config == c,
        run_all(c, outs).next == outs.len(),
        !run_all(c, outs).halted,
        run_all(c, outs).failures.len() == 0,
        run_all(c, outs).samples.len() == outs.len(),
        measured_durations(run_all(c, outs).samples) == (if outs.len() <= c.warmup {
            Seq::<u64>::empty()
        } else {
            elapsed_of(outs.subrange(c.warmup as int, outs.len() as int))
        }),
    decreases outs.len(),
{
    if outs.len() > 0 {
        let t = outs.drop_last();
        assert forall|i: int| 0 <= i < t.len() implies classify(c, #[trigger] t[i]) is None by {
            assert(t[i] == outs[i]);
        }
        lemma_succeeding_runs(c, t);
        let v = run_all(c, t);
        let o = outs.last();
        assert(classify(c, outs[outs.len() - 1]) is None);
        let w = step(v, o);
        assert(w.samples == v.samples.push(sample_of(v, o)));
        assert(w.samples.drop_last() =~= v.samples);
        if outs.len() > c.warmup + 1 {
            assert(outs.subrange(c.warmup as int, outs.len() as int).drop_last() =~= t.subrange(
                c.warmup as int,
                t.len() as int,
            ));
            assert(elapsed_of(outs.subrange(c.warmup as int, outs.len() as int)) =~= elapsed_of(
                t.subrange(c.warmup as int, t.len() as int),
            ).push(o.elapsed_ns));
        } else if outs.len() == c.warmup + 1 {
            assert(elapsed_of(outs.subrange(c.warmup as int, outs.len() as int)) =~= seq![
                o.elapsed_ns,
            ]);
        }
    }
}

/// When every run succeeds, the runs give exactly `runs` measured samples,
/// the durations of the runs after the warmup in their order, and the mean
/// reported over them is their arithmetic mean.
pub proof fn lemma_all_runs_measured(c: RunConfig, outs: Seq<RunOutcome>)
    requires
        c.runs >= 1,
        outs.len() == total_runs(c),
        forall|i: int| 0 <= i < outs.len() ==> classify(c, #[trigger] outs[i]) is None,
    ensures
        is_finished(run_all(c, outs)),
        run_all(c, outs).failures.len() == 0,
        measured_durations(run_all(c, outs).samples) == elapsed_of(outs.skip(c.warmup as int)),
        measured_durations(run_all(c, outs).samples).len() == c.runs,
        summary_of(measured_durations(run_all(c, outs).samples)) matches Some(m) && m.mean == (
        Fraction {
            num: sum_of(elapsed_of(outs.skip(c.warmup as int))) as u128,
            den: c.runs as u128,
        }),
{
    lemma_succeeding_runs(c, outs);
    assert(outs.subrange(c.warmup as int, outs.len() as int) =~= outs.skip(c.warmup as int));
}

/// A run that reaches the time limit is recorded as exactly one timeout
/// failure for that run, and adds no duration sample.
pub proof fn lemma_timeout_recorded(v: HarnessView, o: RunOutcome)
    requires
        !is_finished(v),
        v.config.timeout_secs is Some,
        o.elapsed_ns >= v.config.timeout_secs->0 * 1_000_000_000,
    ensures
        step(v, o).samples == v.samples,
        step(v, o).failures == v.failures.push(
            RunFailure {
                index: v.next as u64,
                warmup: v.next < v.config.warmup,
                kind: FailureKind::TimedOut,
            },
        ),
        step(v, o).next == v.next + 1,
{
}

proof fn lemma_finished_stays(c: RunConfig, outs: Seq<RunOutcome>, k: int, j: int)
    requires
        0 <= k <= j <= outs.len(),
        is_finished(run_all(c, outs.take(k))),
    ensures
        run_all(c, outs.take(j)) == run_all(c, outs.take(k)),
    decreases j - k,
{
    if j > k {
        lemma_finished_stays(c, outs, k, j - 1);
        assert(outs.take(j).drop_last() =~= outs.take(j - 1));
    }
}

/// When failures are not ignored, the first failing run stops the runs for
/// the target: the samples are those collected before it, and it is the
/// one failure recorded.
pub proof fn lemma_first_failure_halts(c: RunConfig, outs: Seq<RunOutcome>, k: int)
    requires
        !c.ignore_failure,
        0 <= k < outs.len(),
        k < total_runs(c),
        classify(c, outs[k]) is Some,
        forall|i: int| 0 <= i < k ==> classify(c, #[trigger] outs[i]) is None,
    ensures
        run_all(c, outs).halted,
        is_finished(run_all(c, outs)),
        run_all(c, outs).next == k + 1,
        run_all(c, outs).samples == run_all(c, outs.take(k)).samples,
        run_all(c, outs).samples.len() == k,
        run_all(c, outs).failures == seq![
            RunFailure {
                index: k as u64,
                warmup: k < c.warmup,
                kind: classify(c, outs[k])->0,
            },
        ],
{
    let t = outs.take(k);
    assert forall|i: int| 0 <= i < t.len() implies classify(c, #[trigger] t[i]) is None by {
        assert(t[i] == outs[i]);
    }
    lemma_succeeding_runs(c, t);
    assert(outs.take(k + 1).drop_last() =~= t);
    assert(run_all(c, t).failures =~= Seq::<RunFailure>::empty());
    lemma_finished_stays(c, outs, k + 1, outs.len() as int);
    assert(outs.take(outs.len() as int) =~= outs);
}

} // verus!
