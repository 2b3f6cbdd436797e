//! The commands and the work each one starts.

use vstd::prelude::*;
use crate::benchmark::{config_of, BenchmarkArgs, Exec};
use crate::target::BenchmarkTarget;
use crate::Ctx;

verus! {

/// Options of the analyze command.
#[derive(Clone, Debug)]
pub struct AnalyzeArgs {
    /// File holding benchmark data.
    pub input: String,
    /// File for the analysis results.
    pub output: Option<String>,
}

/// What to do with the benchmarking daemon.
#[derive(Clone, Copy, Debug, PartialEq, Eq, Structural)]
pub enum DaemonAction {
    Start,
    Stop,
    Restart,
    Status,
}

pub enum Command {
    /// Analyze benchmark results.
    Analyze(AnalyzeArgs),
    /// Run benchmarks and compare programs.
    Benchmark(Box<BenchmarkArgs>),
    /// Manage the benchmarking daemon.
    Daemon { action: DaemonAction },
}

/// Why a command cannot start.
#[derive(Clone, Copy, Debug, PartialEq, Eq, Structural)]
pub enum CommandError {
    /// A benchmark needs at least one measured run.
    NoRuns,
}

/// The work a command starts.
pub enum Task {
    Analyze(AnalyzeArgs),
    Benchmark(Exec),
    Daemon(DaemonAction),
}

/// `r` is the work that command `c` starts.
pub open spec fn starts(c: Command, r: Result<Task, CommandError>) -> bool {
    match c {
        Command::Analyze(a) => r matches Ok(Task::Analyze(b)) && b == a,
        Command::Benchmark(args) => if args.runs == 0 {
            r == Err::<Task, CommandError>(CommandError::NoRuns)
        } else {
            r matches Ok(Task::Benchmark(e)) && e.wf() && e.current() == 0 && e.listing()
                && e.config() == config_of(*args) && e.targets() == args.targets@.map_values(
                |t: BenchmarkTarget| t@,
            )
        },
        Command::Daemon { action } => r matches Ok(Task::Daemon(d)) && d == action,
    }
}

impl Command {
    /// Starts the work of the command; a benchmark with no measured run is
    /// refused.
    pub fn exec(self, ctx: Ctx) -> (r: Result<Task, CommandError>)
        ensures
            starts(self, r),
    {
        match self {
            Command::Analyze(args) => Ok(Task::Analyze(args)),
            Command::Benchmark(args) => {
                if args.runs == 0 {
                    Err(CommandError::NoRuns)
                } else {
                    Ok(Task::Benchmark(Exec::new(*args, ctx)))
                }
            },
            Command::Daemon { action } => Ok(Task::Daemon(action)),
        }
    }
}

} // verus!
