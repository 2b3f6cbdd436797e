//! Compilation recipes and the toolchain adapters that turn them into the
//! process invocations of one build tool.

use vstd::prelude::*;
use crate::target::{BuilderSystem, ProjectType};

verus! {

/// The language a recipe compiles.
#[derive(Clone, Copy, Debug, PartialEq, Eq, Structural, Hash)]
pub enum Language {
    C,
    Cpp,
    Rust,
    Go,
    CMake,
}

/// One tool-agnostic build action.
#[derive(Clone, Debug)]
pub enum CompilationStep {
    Compile(String),
    Output(String),
    Optimize(u8),
    EmitLLVM,
    Shared,
    Build,
    Test,
    Configure(String, String),
    Install(String),
    Target(String),
}

/// Mathematical counterpart of [`CompilationStep`].
pub enum StepView {
    Compile(Seq<char>),
    Output(Seq<char>),
    Optimize(u8),
    EmitLLVM,
    Shared,
    Build,
    Test,
    Configure(Seq<char>, Seq<char>),
    Install(Seq<char>),
    Target(Seq<char>),
}

impl View for CompilationStep {
    type V = StepView;

    open spec fn view(&self) -> StepView {
        match self {
            CompilationStep::Compile(s) => StepView::Compile(s@),
            CompilationStep::Output(s) => StepView::Output(s@),
            CompilationStep::Optimize(l) => StepView::Optimize(*l),
            CompilationStep::EmitLLVM => StepView::EmitLLVM,
            CompilationStep::Shared => StepView::Shared,
            CompilationStep::Build => StepView::Build,
            CompilationStep::Test => StepView::Test,
            CompilationStep::Configure(a, b) => StepView::Configure(a@, b@),
            CompilationStep::Install(s) => StepView::Install(s@),
            CompilationStep::Target(s) => StepView::Target(s@),
        }
    }
}

pub open spec fn steps_view(s: Seq<CompilationStep>) -> Seq<StepView> {
    s.map_values(|c: CompilationStep| c@)
}

impl CompilationStep {
    /// A copy of this step.
    pub fn duplicate(&self) -> (r: CompilationStep)
        ensures
            r@ == self@,
    {
        match self {
            CompilationStep::Compile(s) => CompilationStep::Compile(s.clone()),
            CompilationStep::Output(s) => CompilationStep::Output(s.clone()),
            CompilationStep::Optimize(l) => CompilationStep::Optimize(*l),
            CompilationStep::EmitLLVM => CompilationStep::EmitLLVM,
            CompilationStep::Shared => CompilationStep::Shared,
            CompilationStep::Build => CompilationStep::Build,
            CompilationStep::Test => CompilationStep::Test,
            CompilationStep::Configure(a, b) => CompilationStep::Configure(a.clone(), b.clone()),
            CompilationStep::Install(s) => CompilationStep::Install(s.clone()),
            CompilationStep::Target(s) => CompilationStep::Target(s.clone()),
        }
    }
}

/// An ordered list of steps for one language.
pub struct CompilationRecipe {
    language: Language,
    steps: Vec<CompilationStep>,
}

pub struct RecipeView {
    pub language: Language,
    pub steps: Seq<StepView>,
}

impl View for CompilationRecipe {
    type V = RecipeView;

    closed spec fn view(&self) -> RecipeView {
        RecipeView { language: self.language, steps: steps_view(self.steps@) }
    }
}

impl CompilationRecipe {
    /// An empty recipe for `language`.
    pub fn new(language: Language) -> (r: Self)
        ensures
            r@.language == language,
            r@.steps.len() == 0,
    {
        let steps = Vec::new();
        Self { language, steps }
    }

    /// The recipe with `step` appended.
    pub fn add_step(self, step: CompilationStep) -> (r: Self)
        ensures
            r@.language == self@.language,
            r@.steps == self@.steps.push(step@),
    {
        let mut recipe = self;
        recipe.steps.push(step);
        proof {
            assert(steps_view(recipe.steps@) =~= steps_view(self.steps@).push(step@));
        }
        recipe
    }

    pub fn language(&self) -> (r: Language)
        ensures
            r == self@.language,
    {
        self.language
    }

    pub fn steps(&self) -> (r: &Vec<CompilationStep>)
        ensures
            steps_view(r@) == self@.steps,
    {
        &self.steps
    }
}

/// A collection of recipes, kept in the order they were added.
pub struct Compiler {
    recipes: Vec<CompilationRecipe>,
}

impl View for Compiler {
    type V = Seq<RecipeView>;

    closed spec fn view(&self) -> Seq<RecipeView> {
        self.recipes@.map_values(|r: CompilationRecipe| r@)
    }
}

impl Compiler {
    pub fn new() -> (r: Self)
        ensures
            r@.len() == 0,
    {
        Self { recipes: Vec::new() }
    }

    /// The collection with `recipe` appended.
    pub fn add_recipe(self, recipe: CompilationRecipe) -> (r: Self)
        ensures
            r@ == self@.push(recipe@),
    {
        let mut compiler = self;
        compiler.recipes.push(recipe);
        proof {
            assert(compiler@ =~= self@.push(recipe@));
        }
        compiler
    }

    pub fn recipes(&self) -> (r: &Vec<CompilationRecipe>)
        ensures
            r@.map_values(|x: CompilationRecipe| x@) == self@,
    {
        &self.recipes
    }
}


/// Whether an invocation configures a project or compiles it.
#[derive(Clone, Copy, Debug, PartialEq, Eq, Structural)]
pub enum Phase {
    Configure,
    Compile,
}

/// One process to launch: a program found on the search path and its
/// arguments.
#[derive(Clone, Debug)]
pub struct Invocation {
    pub program: String,
    pub args: Vec<String>,
    pub phase: Phase,
}

pub struct InvocationView {
    pub program: Seq<char>,
    pub args: Seq<Seq<char>>,
    pub phase: Phase,
}

impl View for Invocation {
    type V = InvocationView;

    open spec fn view(&self) -> InvocationView {
        InvocationView { program: self.program@, args: self.args.deep_view(), phase: self.phase }
    }
}

impl Invocation {
    /// A copy of this invocation.
    pub fn duplicate(&self) -> (r: Invocation)
        ensures
            r@ == self@,
    {
        let args = copy_strings(&self.args);
        Invocation { program: self.program.clone(), args, phase: self.phase }
    }
}

/// A copy of the strings, in order.
pub(crate) fn copy_strings(v: &Vec<String>) -> (r: Vec<String>)
    ensures
        r.deep_view() == v.deep_view(),
{
    let mut out: Vec<String> = Vec::new();
    let mut i: usize = 0;
    while i < v.len()
        invariant
            i <= v.len(),
            out.deep_view() == v.deep_view().take(i as int),
        decreases v.len() - i,
    {
        push_str(&mut out, v[i].clone());
        proof {
            assert(v.deep_view().take(i + 1) =~= v.deep_view().take(i as int).push(v[i as int]@));
        }
        i += 1;
    }
    proof {
        assert(v.deep_view().take(v.len() as int) =~= v.deep_view());
    }
    out
}

pub open spec fn invocations_view(v: Seq<Invocation>) -> Seq<InvocationView> {
    v.map_values(|i: Invocation| i@)
}

/// Why a build could not be planned or did not complete.
#[derive(Clone, Debug)]
pub enum BuildError {
    /// No adapter builds this language.
    UnsupportedLanguage(Language),
    /// The tool cannot perform the step.
    UnsupportedOperation(BuilderSystem, CompilationStep),
    /// The tool cannot build this kind of project.
    IncompatibleProject(BuilderSystem, ProjectType),
    /// The project directory lacks the named manifest file.
    MissingManifest(String),
    /// The invocation at this position of the plan failed, with the tool's
    /// diagnostic output.
    ToolFailed(usize, String),
}

pub enum BuildFault {
    UnsupportedLanguage(Language),
    UnsupportedOperation(BuilderSystem, StepView),
    IncompatibleProject(BuilderSystem, ProjectType),
    MissingManifest(Seq<char>),
    ToolFailed(int, Seq<char>),
}

impl View for BuildError {
    type V = BuildFault;

    open spec fn view(&self) -> BuildFault {
        match self {
            BuildError::UnsupportedLanguage(l) => BuildFault::UnsupportedLanguage(*l),
            BuildError::UnsupportedOperation(t, s) => BuildFault::UnsupportedOperation(*t, s@),
            BuildError::IncompatibleProject(t, m) => BuildFault::IncompatibleProject(*t, *m),
            BuildError::MissingManifest(s) => BuildFault::MissingManifest(s@),
            BuildError::ToolFailed(i, d) => BuildFault::ToolFailed(*i as int, d@),
        }
    }
}

/// The state of one toolchain adapter while it reads a recipe.
pub struct AdapterView {
    pub tool: BuilderSystem,
    /// Where a configure-based tool builds (the last configured directory).
    pub build_dir: Seq<char>,
    /// Arguments gathered for a direct compiler's single invocation.
    pub args: Seq<Seq<char>>,
    /// Invocations planned so far by a tool that runs one per step.
    pub invocations: Seq<InvocationView>,
}

pub open spec fn program_of(tool: BuilderSystem) -> Seq<char> {
    match tool {
        BuilderSystem::Cargo => "cargo"@,
        BuilderSystem::Cmake => "cmake"@,
        BuilderSystem::Clang => "clang"@,
        BuilderSystem::Gcc => "gcc"@,
    }
}

pub open spec fn opt_flag(level: u8) -> Seq<char> {
    if level == 0 {
        "-O0"@
    } else if level == 1 {
        "-O1"@
    } else if level == 2 {
        "-O2"@
    } else {
        "-O3"@
    }
}

/// An adapter for `tool` that has read no step yet.
pub open spec fn fresh_adapter(tool: BuilderSystem) -> AdapterView {
    AdapterView { tool, build_dir: "build"@, args: Seq::empty(), invocations: Seq::empty() }
}

pub open spec fn with_args(a: AdapterView, more: Seq<Seq<char>>) -> AdapterView {
    AdapterView { args: a.args + more, ..a }
}

pub open spec fn with_call(a: AdapterView, args: Seq<Seq<char>>, phase: Phase) -> AdapterView {
    AdapterView {
        invocations: a.invocations.push(
            InvocationView { program: program_of(a.tool), args, phase },
        ),
        ..a
    }
}

/// What reading one step does to an adapter; `None` when its tool does not
/// support the step.
pub open spec fn apply_step(a: AdapterView, s: StepView) -> Option<AdapterView> {
    match a.tool {
        BuilderSystem::Clang | BuilderSystem::Gcc => match s {
            StepView::Compile(src) => Some(with_args(a, seq![src])),
            StepView::Output(p) => Some(with_args(a, seq!["-o"@, p])),
            StepView::Optimize(l) => if l <= 3 {
                Some(with_args(a, seq![opt_flag(l)]))
            } else {
                None
            },
            StepView::EmitLLVM => if a.tool == BuilderSystem::Clang {
                Some(with_args(a, seq!["-S"@, "-emit-llvm"@]))
            } else {
                None
            },
            StepView::Shared => Some(with_args(a, seq!["-shared"@])),
            _ => None,
        },
        BuilderSystem::Cargo => match s {
            StepView::Compile(m) => Some(
                with_call(a, seq!["build"@, "--release"@, "--manifest-path"@, m], Phase::Compile),
            ),
            StepView::Build => Some(with_call(a, seq!["build"@, "--release"@], Phase::Compile)),
            StepView::Test => Some(with_call(a, seq!["test"@, "--release"@], Phase::Compile)),
            StepView::EmitLLVM => Some(
                with_call(
                    a,
                    seq!["rustc"@, "--release"@, "--"@, "--emit=llvm-ir"@],
                    Phase::Compile,
                ),
            ),
            _ => None,
        },
        BuilderSystem::Cmake => match s {
            StepView::Configure(src, dir) => Some(
                AdapterView {
                    build_dir: dir,
                    ..with_call(a, seq!["-S"@, src, "-B"@, dir], Phase::Configure)
                },
            ),
            StepView::Build => Some(with_call(a, seq!["--build"@, a.build_dir], Phase::Compile)),
            StepView::Target(t) => Some(
                with_call(a, seq!["--build"@, a.build_dir, "--target"@, t], Phase::Compile),
            ),
            StepView::Install(p) => Some(
                with_call(a, seq!["--install"@, a.build_dir, "--prefix"@, p], Phase::Compile),
            ),
            _ => None,
        },
    }
}

/// Reading `steps` in order, stopping at the first unsupported one, whose
/// position is the error.
pub open spec fn run_steps(a: AdapterView, steps: Seq<StepView>) -> Result<AdapterView, int>
    decreases steps.len(),
{
    if steps.len() == 0 {
        Ok(a)
    } else {
        match run_steps(a, steps.drop_last()) {
            Err(i) => Err(i),
            Ok(b) => match apply_step(b, steps.last()) {
                Some(c) => Ok(c),
                None => Err(steps.len() - 1),
            },
        }
    }
}

/// The invocations an adapter's recipe comes to: one for a direct compiler,
/// one per step otherwise.
pub open spec fn planned(a: AdapterView) -> Seq<InvocationView> {
    match a.tool {
        BuilderSystem::Clang | BuilderSystem::Gcc => seq![
            InvocationView { program: program_of(a.tool), args: a.args, phase: Phase::Compile },
        ],
        _ => a.invocations,
    }
}

pub(crate) fn push_str(v: &mut Vec<String>, s: String)
    ensures
        final(v).deep_view() == old(v).deep_view().push(s@),
{
    let ghost before = v.deep_view();
    v.push(s);
    proof {
        assert(v.deep_view() =~= before.push(s@));
    }
}

fn program_name(tool: BuilderSystem) -> (r: String)
    ensures
        r@ == program_of(tool),
{
    match tool {
        BuilderSystem::Cargo => "cargo".to_owned(),
        BuilderSystem::Cmake => "cmake".to_owned(),
        BuilderSystem::Clang => "clang".to_owned(),
        BuilderSystem::Gcc => "gcc".to_owned(),
    }
}

fn opt_flag_text(level: u8) -> (r: String)
    ensures
        r@ == opt_flag(level),
{
    if level == 0 {
        "-O0".to_owned()
    } else if level == 1 {
        "-O1".to_owned()
    } else if level == 2 {
        "-O2".to_owned()
    } else {
        "-O3".to_owned()
    }
}

/// A toolchain adapter: reads a recipe step by step and plans the process
/// invocations of its build tool.
pub struct Adapter {
    tool: BuilderSystem,
    build_dir: String,
    args: Vec<String>,
    invocations: Vec<Invocation>,
}

impl View for Adapter {
    type V = AdapterView;

    closed spec fn view(&self) -> AdapterView {
        AdapterView {
            tool: self.tool,
            build_dir: self.build_dir@,
            args: self.args.deep_view(),
            invocations: invocations_view(self.invocations@),
        }
    }
}

impl Adapter {
    pub fn new(tool: BuilderSystem) -> (r: Adapter)
        ensures
            r@ == fresh_adapter(tool),
    {
        let r = Adapter {
            tool,
            build_dir: "build".to_owned(),
            args: Vec::new(),
            invocations: Vec::new(),
        };
        proof {
            assert(r.args.deep_view() =~= Seq::<Seq<char>>::empty());
            assert(invocations_view(r.invocations@) =~= Seq::<InvocationView>::empty());
        }
        r
    }

    pub fn tool(&self) -> (r: BuilderSystem)
        ensures
            r == self@.tool,
    {
        self.tool
    }

    fn call(&mut self, args: Vec<String>, phase: Phase)
        ensures
            final(self)@ == with_call(old(self)@, args.deep_view(), phase),
    {
        let ghost before = invocations_view(self.invocations@);
        let program = program_name(self.tool);
        let inv = Invocation { program, args, phase };
        self.invocations.push(inv);
        proof {
            assert(invocations_view(self.invocations@) =~= before.push(inv@));
        }
    }

    /// Reads one step: records what it adds to the build, or reports that
    /// this adapter's tool does not support it.
    pub fn execute_step(&mut self, step: &CompilationStep) -> (r: Result<(), BuildError>)
        ensures
            match apply_step(old(self)@, step@) {
                Some(a) => r is Ok && final(self)@ == a,
                None => final(self)@ == old(self)@ && (r matches Err(e) && e@
                    == BuildFault::UnsupportedOperation(old(self)@.tool, step@)),
            },
    {
        let direct = match self.tool {
            BuilderSystem::Clang | BuilderSystem::Gcc => true,
            _ => false,
        };
        let ghost a = self@;
        if direct {
            match step {
                CompilationStep::Compile(src) => {
                    push_str(&mut self.args, src.clone());
                    assert(self@.args =~= with_args(a, seq![src@]).args);
                    return Ok(());
                },
                CompilationStep::Output(p) => {
                    push_str(&mut self.args, "-o".to_owned());
                    push_str(&mut self.args, p.clone());
                    assert(self@.args =~= with_args(a, seq!["-o"@, p@]).args);
                    return Ok(());
                },
                CompilationStep::Optimize(l) => {
                    if *l <= 3 {
                        push_str(&mut self.args, opt_flag_text(*l));
                        assert(self@.args =~= with_args(a, seq![opt_flag(*l)]).args);
                        return Ok(());
                    }
                },
                CompilationStep::EmitLLVM => {
                    if self.tool == BuilderSystem::Clang {
                        push_str(&mut self.args, "-S".to_owned());
                        push_str(&mut self.args, "-emit-llvm".to_owned());
                        assert(self@.args =~= with_args(a, seq!["-S"@, "-emit-llvm"@]).args);
                        return Ok(());
                    }
                },
                CompilationStep::Shared => {
                    push_str(&mut self.args, "-shared".to_owned());
                    assert(self@.args =~= with_args(a, seq!["-shared"@]).args);
                    return Ok(());
                },
                _ => {},
            }
        } else if self.tool == BuilderSystem::Cargo {
            let mut args: Vec<String> = Vec::new();
            match step {
                CompilationStep::Compile(m) => {
                    push_str(&mut args, "build".to_owned());
                    push_str(&mut args, "--release".to_owned());
                    push_str(&mut args, "--manifest-path".to_owned());
                    push_str(&mut args, m.clone());
                    assert(args.deep_view() =~= seq![
                        "build"@,
                        "--release"@,
                        "--manifest-path"@,
                        m@,
                    ]);
                    self.call(args, Phase::Compile);
                    return Ok(());
                },
                CompilationStep::Build => {
                    push_str(&mut args, "build".to_owned());
                    push_str(&mut args, "--release".to_owned());
                    assert(args.deep_view() =~= seq!["build"@, "--release"@]);
                    self.call(args, Phase::Compile);
                    return Ok(());
                },
                CompilationStep::Test => {
                    push_str(&mut args, "test".to_owned());
                    push_str(&mut args, "--release".to_owned());
                    assert(args.deep_view() =~= seq!["test"@, "--release"@]);
                    self.call(args, Phase::Compile);
                    return Ok(());
                },
                CompilationStep::EmitLLVM => {
                    push_str(&mut args, "rustc".to_owned());
                    push_str(&mut args, "--release".to_owned());
                    push_str(&mut args, "--".to_owned());
                    push_str(&mut args, "--emit=llvm-ir".to_owned());
                    assert(args.deep_view() =~= seq![
                        "rustc"@,
                        "--release"@,
                        "--"@,
                        "--emit=llvm-ir"@,
                    ]);
                    self.call(args, Phase::Compile);
                    return Ok(());
                },
                _ => {},
            }
        } else {
            let mut args: Vec<String> = Vec::new();
            match step {
                CompilationStep::Configure(src, dir) => {
                    push_str(&mut args, "-S".to_owned());
                    push_str(&mut args, src.clone());
                    push_str(&mut args, "-B".to_owned());
                    push_str(&mut args, dir.clone());
                    assert(args.deep_view() =~= seq!["-S"@, src@, "-B"@, dir@]);
                    self.call(args, Phase::Configure);
                    self.build_dir = dir.clone();
                    return Ok(());
                },
                CompilationStep::Build => {
                    push_str(&mut args, "--build".to_owned());
                    push_str(&mut args, self.build_dir.clone());
                    assert(args.deep_view() =~= seq!["--build"@, a.build_dir]);
                    self.call(args, Phase::Compile);
                    return Ok(());
                },
                CompilationStep::Target(t) => {
                    push_str(&mut args, "--build".to_owned());
                    push_str(&mut args, self.build_dir.clone());
                    push_str(&mut args, "--target".to_owned());
                    push_str(&mut args, t.clone());
                    assert(args.deep_view() =~= seq!["--build"@, a.build_dir, "--target"@, t@]);
                    self.call(args, Phase::Compile);
                    return Ok(());
                },
                CompilationStep::Install(p) => {
                    push_str(&mut args, "--install".to_owned());
                    push_str(&mut args, self.build_dir.clone());
                    push_str(&mut args, "--prefix".to_owned());
                    push_str(&mut args, p.clone());
                    assert(args.deep_view() =~= seq!["--install"@, a.build_dir, "--prefix"@, p@]);
                    self.call(args, Phase::Compile);
                    return Ok(());
                },
                _ => {},
            }
        }
        Err(BuildError::UnsupportedOperation(self.tool, step.duplicate()))
    }

    /// Reads the steps in order, short-circuiting on the first one the tool
    /// does not support.
    pub fn run_recipe(&mut self, steps: &Vec<CompilationStep>) -> (r: Result<(), BuildError>)
        ensures
            match run_steps(old(self)@, steps_view(steps@)) {
                Ok(a) => r is Ok && final(self)@ == a,
                Err(i) => 0 <= i < steps@.len() && (r matches Err(e) && e@
                    == BuildFault::UnsupportedOperation(old(self)@.tool, steps@[i]@)),
            },
    {
        let ghost a0 = old(self)@;
        let ghost sv = steps_view(steps@);
        let mut i: usize = 0;
        proof {
            assert(sv.take(0) =~= Seq::<StepView>::empty());
        }
        while i < steps.len()
            invariant
                i <= steps.len(),
                sv == steps_view(steps@),
                a0 == old(self)@,
                self@.tool == a0.tool,
                run_steps(a0, sv.take(i as int)) == Ok::<AdapterView, int>(self@),
            decreases steps.len() - i,
        {
            proof {
                assert(sv.take(i + 1).drop_last() =~= sv.take(i as int));
            }
            let r = self.execute_step(&steps[i]);
            if r.is_err() {
                proof {
                    assert(sv[i as int] == steps@[i as int]@);
                    assert(sv.take(i + 1).last() == sv[i as int]);
                    assert(run_steps(a0, sv.take(i + 1)) == Err::<AdapterView, int>(i as int));
                    lemma_prefix_err(a0, sv, i + 1);
                }
                return r;
            }
            i += 1;
        }
        proof {
            assert(sv.take(steps.len() as int) =~= sv);
        }
        Ok(())
    }

    /// The invocations planned from the steps read so far.
    pub fn into_plan(self) -> (r: Vec<Invocation>)
        ensures
            invocations_view(r@) == planned(self@),
    {
        match self.tool {
            BuilderSystem::Clang | BuilderSystem::Gcc => {
                let program = program_name(self.tool);
                let inv = Invocation { program, args: self.args, phase: Phase::Compile };
                let mut v: Vec<Invocation> = Vec::new();
                v.push(inv);
                proof {
                    assert(invocations_view(v@) =~= planned(self@));
                }
                v
            },
            _ => self.invocations,
        }
    }
}

proof fn lemma_prefix_err(a: AdapterView, s: Seq<StepView>, k: int)
    requires
        0 <= k <= s.len(),
        run_steps(a, s.take(k)) is Err,
    ensures
        run_steps(a, s) == run_steps(a, s.take(k)),
        0 <= run_steps(a, s)->Err_0 < k,
    decreases s.len() - k,
{
    lemma_err_in_range(a, s.take(k));
    if k < s.len() {
        assert(s.take(k + 1).drop_last() =~= s.take(k));
        lemma_prefix_err(a, s, k + 1);
    } else {
        assert(s.take(k) =~= s);
    }
}

proof fn lemma_err_in_range(a: AdapterView, s: Seq<StepView>)
    ensures
        run_steps(a, s) matches Err(i) ==> 0 <= i < s.len(),
    decreases s.len(),
{
    if s.len() > 0 {
        lemma_err_in_range(a, s.drop_last());
    }
}

/// The adapter that builds each language, if any.
pub open spec fn adapter_for(l: Language) -> Option<BuilderSystem> {
    match l {
        Language::Rust => Some(BuilderSystem::Cargo),
        Language::C | Language::Cpp => Some(BuilderSystem::Clang),
        Language::CMake => Some(BuilderSystem::Cmake),
        Language::Go => None,
    }
}

/// The invocations a recipe comes to, or why it cannot be built.
pub open spec fn compile_result(r: RecipeView) -> Result<Seq<InvocationView>, BuildFault> {
    match adapter_for(r.language) {
        None => Err(BuildFault::UnsupportedLanguage(r.language)),
        Some(t) => match run_steps(fresh_adapter(t), r.steps) {
            Ok(a) => Ok(planned(a)),
            Err(i) => Err(BuildFault::UnsupportedOperation(t, r.steps[i])),
        },
    }
}

/// Chooses the adapter for a recipe's language and plans its build.
pub struct BuildSystem {}

impl BuildSystem {
    pub fn new() -> (r: Self) {
        BuildSystem {  }
    }

    pub fn compile(&self, recipe: &CompilationRecipe) -> (r: Result<Vec<Invocation>, BuildError>)
        ensures
            match compile_result(recipe@) {
                Ok(p) => (r matches Ok(v) && invocations_view(v@) == p),
                Err(f) => (r matches Err(e) && e@ == f),
            },
    {
        let tool = match recipe.language() {
            Language::Rust => BuilderSystem::Cargo,
            Language::C | Language::Cpp => BuilderSystem::Clang,
            Language::CMake => BuilderSystem::Cmake,
            Language::Go => {
                return Err(BuildError::UnsupportedLanguage(Language::Go));
            },
        };
        let mut adapter = Adapter::new(tool);
        match adapter.run_recipe(recipe.steps()) {
            Ok(()) => Ok(adapter.into_plan()),
            Err(e) => Err(e),
        }
    }
}

} // verus!
