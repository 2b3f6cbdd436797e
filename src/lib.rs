//! Benchmark orchestration engine: target descriptors, toolchain adapters,
//! build pipelines, the repeated-execution harness and the statistics that
//! summarise its samples.

pub mod benchmark;
pub mod build_system;
pub mod commands;
pub mod harness;
pub mod pipeline;
pub mod stats;
pub mod target;

use vstd::prelude::*;
use crate::commands::starts;

pub use target::{
    parse_benchmark_target, parse_duration, BenchmarkTarget, BuilderSystem, ParseError,
    ProjectType, TimeUnit,
};
pub use build_system::{
    BuildError, BuildSystem, CompilationRecipe, CompilationStep, Compiler, Invocation, Language,
    Phase,
};
pub use benchmark::{BenchmarkArgs, Exec, ExecAction, ExecEvent, TargetOutcome};
pub use commands::{AnalyzeArgs, Command, CommandError, DaemonAction, Task};
pub use harness::{
    BenchmarkReport, CounterSet, ExitStatus, FailureKind, Harness, HarnessAction, PerfCounters,
    RunConfig, RunFailure, RunOutcome, RunSample,
};
pub use pipeline::{plan_build, BuildArtifact, BuildPipeline, BuildPlan, BuildStage};
pub use stats::{Fraction, Summary};

verus! {

/// Context shared by the commands.
#[derive(Clone, Copy, Debug, Default)]
pub struct Ctx;

/// The parsed command line.
pub struct Cli {
    pub command: Command,
    /// Path to the configuration file.
    pub config: Option<String>,
    /// Verbose output.
    pub verbose: bool,
}

/// The program: a command and how to run it.
pub struct Oxidizer {
    verbose: bool,
    command: Command,
    config: Option<String>,
}

impl Oxidizer {
    pub closed spec fn spec_verbose(&self) -> bool {
        self.verbose
    }

    pub closed spec fn spec_command(&self) -> Command {
        self.command
    }

    pub closed spec fn spec_config(&self) -> Option<String> {
        self.config
    }

    pub fn new(cli: Cli) -> (r: Self)
        ensures
            r.spec_verbose() == cli.verbose,
            r.spec_command() == cli.command,
            r.spec_config() == cli.config,
    {
        Self { config: cli.config, command: cli.command, verbose: cli.verbose }
    }

    /// Whether debug logging is to be switched on.
    pub fn verbose(&self) -> (r: bool)
        ensures
            r == self.spec_verbose(),
    {
        self.verbose
    }

    pub fn config(&self) -> (r: &Option<String>)
        ensures
            *r == self.spec_config(),
    {
        &self.config
    }

    /// Starts the work of the command.
    pub fn run(self, ctx: Ctx) -> (r: Result<Task, CommandError>)
        ensures
            starts(self.spec_command(), r),
    {
        self.command.exec(ctx)
    }
}

} // verus!
