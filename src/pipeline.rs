//! The build pipeline: turns a target into a recipe for its tool,
//! checks that the project has what the tool needs, and follows the
//! planned invocations to a runnable artifact or a recorded failure.

use vstd::prelude::*;
use vstd::string::*;
use crate::build_system::{
    copy_strings, fresh_adapter, push_str, invocations_view, planned, run_steps, Adapter,
    BuildError, BuildFault,
    CompilationRecipe, CompilationStep, Invocation, InvocationView, Language, Phase, RecipeView,
    StepView,
};
use crate::target::{
    split, split_pieces, lemma_split_len, BenchmarkTarget, BuilderSystem, ProjectType, TargetView,
};

verus! {

/// The manifest a target's directory must hold before its tool runs, if any:
/// CMake always needs one, Cargo needs one in workspace mode.
pub open spec fn manifest_of(tool: BuilderSystem, mode: ProjectType) -> Option<Seq<char>> {
    match tool {
        BuilderSystem::Cmake => Some("CMakeLists.txt"@),
        BuilderSystem::Cargo => if mode == ProjectType::Workspace {
            Some("Cargo.toml"@)
        } else {
            None
        },
        _ => None,
    }
}

/// A direct compiler builds single files, never a multi-module workspace.
pub open spec fn supports_kind(tool: BuilderSystem, mode: ProjectType) -> bool {
    !((tool == BuilderSystem::Clang || tool == BuilderSystem::Gcc) && mode
        == ProjectType::Workspace)
}

pub open spec fn path_join(dir: Seq<char>, name: Seq<char>) -> Seq<char> {
    dir.push('/') + name
}

pub open spec fn language_of(tool: BuilderSystem) -> Language {
    match tool {
        BuilderSystem::Cargo => Language::Rust,
        BuilderSystem::Cmake => Language::CMake,
        BuilderSystem::Clang | BuilderSystem::Gcc => Language::C,
    }
}

/// Where a direct compiler writes the executable built from `path`.
pub open spec fn output_of(path: Seq<char>) -> Seq<char> {
    path + ".out"@
}

/// The recipe a target is built from.
pub open spec fn recipe_steps(t: TargetView) -> Seq<StepView> {
    match t.tool {
        BuilderSystem::Cargo => seq![StepView::Compile(path_join(t.path, "Cargo.toml"@))],
        BuilderSystem::Cmake => seq![
            StepView::Configure(t.path, path_join(t.path, "build"@)),
            StepView::Build,
        ],
        BuilderSystem::Clang | BuilderSystem::Gcc => seq![
            StepView::Compile(t.path),
            StepView::Output(output_of(t.path)),
        ],
    }
}

/// The command that runs a built target.
pub struct ArtifactView {
    pub program: Seq<char>,
    pub args: Seq<Seq<char>>,
    pub flags: Seq<Seq<char>>,
}

pub open spec fn flag_list(f: Option<Seq<Seq<char>>>) -> Seq<Seq<char>> {
    match f {
        Some(v) => v,
        None => Seq::empty(),
    }
}

pub open spec fn artifact_of(t: TargetView) -> ArtifactView {
    match t.tool {
        BuilderSystem::Cargo => ArtifactView {
            program: "cargo"@,
            args: seq![
                "run"@,
                "--release"@,
                "--quiet"@,
                "--manifest-path"@,
                path_join(t.path, "Cargo.toml"@),
            ],
            flags: flag_list(t.flags),
        },
        BuilderSystem::Cmake => ArtifactView {
            program: path_join(path_join(t.path, "build"@), split(t.path, '/').last()),
            args: Seq::empty(),
            flags: flag_list(t.flags),
        },
        BuilderSystem::Clang | BuilderSystem::Gcc => ArtifactView {
            program: output_of(t.path),
            args: Seq::empty(),
            flags: flag_list(t.flags),
        },
    }
}

/// The target's extra flags go to the first invocation of its plan.
pub open spec fn with_flags(p: Seq<InvocationView>, f: Seq<Seq<char>>) -> Seq<InvocationView> {
    if p.len() == 0 {
        p
    } else {
        p.update(0, InvocationView { args: p[0].args + f, ..p[0] })
    }
}

pub struct PlanView {
    pub invocations: Seq<InvocationView>,
    pub artifact: ArtifactView,
}

/// What building a target comes to, given the names in its directory.
pub open spec fn plan_of(t: TargetView, entries: Seq<Seq<char>>) -> Result<PlanView, BuildFault> {
    if !supports_kind(t.tool, t.mode) {
        Err(BuildFault::IncompatibleProject(t.tool, t.mode))
    } else if manifest_of(t.tool, t.mode) is Some && !entries.contains(
        manifest_of(t.tool, t.mode)->0,
    ) {
        Err(BuildFault::MissingManifest(manifest_of(t.tool, t.mode)->0))
    } else {
        match run_steps(fresh_adapter(t.tool), recipe_steps(t)) {
            Ok(a) => Ok(
                PlanView {
                    invocations: with_flags(planned(a), flag_list(t.flags)),
                    artifact: artifact_of(t),
                },
            ),
            Err(i) => Err(BuildFault::UnsupportedOperation(t.tool, recipe_steps(t)[i])),
        }
    }
}

/// Every target's recipe is read without error by its tool's adapter and
/// comes to at least one invocation.
pub proof fn lemma_plan_not_empty(t: TargetView)
    ensures
        run_steps(fresh_adapter(t.tool), recipe_steps(t)) is Ok,
        planned(run_steps(fresh_adapter(t.tool), recipe_steps(t))->Ok_0).len() >= 1,
{
    let a = fresh_adapter(t.tool);
    let steps = recipe_steps(t);
    reveal_with_fuel(run_steps, 3);
    assert(steps.drop_last().drop_last().len() == 0 || steps.drop_last().len() == 0);
    if t.tool == BuilderSystem::Cmake {
        assert(steps.drop_last() =~= seq![steps[0]]);
        assert(steps.drop_last().drop_last() =~= Seq::<StepView>::empty());
    } else if t.tool == BuilderSystem::Cargo {
        assert(steps.drop_last() =~= Seq::<StepView>::empty());
    } else {
        assert(steps.drop_last() =~= seq![steps[0]]);
        assert(steps.drop_last().drop_last() =~= Seq::<StepView>::empty());
    }
}

/// The command that runs a built target, and the flags it was built with.
#[derive(Clone, Debug)]
pub struct BuildArtifact {
    pub program: String,
    pub args: Vec<String>,
    pub flags: Vec<String>,
}

impl View for BuildArtifact {
    type V = ArtifactView;

    open spec fn view(&self) -> ArtifactView {
        ArtifactView {
            program: self.program@,
            args: self.args.deep_view(),
            flags: self.flags.deep_view(),
        }
    }
}

/// The invocations that build a target and the artifact they produce.
pub struct BuildPlan {
    pub invocations: Vec<Invocation>,
    pub artifact: BuildArtifact,
}

impl View for BuildPlan {
    type V = PlanView;

    open spec fn view(&self) -> PlanView {
        PlanView {
            invocations: invocations_view(self.invocations@),
            artifact: self.artifact@,
        }
    }
}

fn join_path(dir: &str, name: &str) -> (r: String)
    ensures
        r@ == path_join(dir@, name@),
{
    let mut r = dir.to_owned();
    r.append("/");
    proof {
        reveal_strlit("/");
    }
    r.append(name);
    r
}

fn target_flags(t: &BenchmarkTarget) -> (r: Vec<String>)
    ensures
        r.deep_view() == flag_list(t@.flags),
{
    match &t.compiler_flags {
        Some(f) => copy_strings(f),
        None => {
            let r: Vec<String> = Vec::new();
            proof {
                assert(r.deep_view() =~= Seq::<Seq<char>>::empty());
            }
            r
        },
    }
}

/// Whether `entries` names the file `name`.
pub fn has_entry(entries: &Vec<String>, name: &str) -> (r: bool)
    ensures
        r == entries.deep_view().contains(name@),
{
    let wanted = name.to_owned();
    let mut i: usize = 0;
    while i < entries.len()
        invariant
            i <= entries.len(),
            wanted@ == name@,
            forall|j: int| 0 <= j < i ==> entries.deep_view()[j] != name@,
        decreases entries.len() - i,
    {
        if entries[i] == wanted {
            proof {
                assert(entries.deep_view()[i as int] == name@);
            }
            return true;
        }
        i += 1;
    }
    false
}

/// The recipe for a target: Cargo builds its manifest, CMake configures a
/// `build` directory and builds there, a direct compiler compiles the file
/// to `<path>.out`.
pub fn recipe_for(t: &BenchmarkTarget) -> (r: CompilationRecipe)
    ensures
        r@ == (RecipeView { language: language_of(t@.tool), steps: recipe_steps(t@) }),
{
    proof {
        reveal_strlit(".out");
    }
    match t.tool {
        BuilderSystem::Cargo => {
            let r = CompilationRecipe::new(Language::Rust).add_step(
                CompilationStep::Compile(join_path(t.path.as_str(), "Cargo.toml")),
            );
            assert(r@.steps =~= recipe_steps(t@));
            r
        },
        BuilderSystem::Cmake => {
            let r = CompilationRecipe::new(Language::CMake).add_step(
                CompilationStep::Configure(t.path.clone(), join_path(t.path.as_str(), "build")),
            ).add_step(CompilationStep::Build);
            assert(r@.steps =~= recipe_steps(t@));
            r
        },
        _ => {
            let mut out = t.path.clone();
            out.append(".out");
            let r = CompilationRecipe::new(Language::C).add_step(
                CompilationStep::Compile(t.path.clone()),
            ).add_step(CompilationStep::Output(out));
            assert(r@.steps =~= recipe_steps(t@));
            r
        },
    }
}

fn artifact_for(t: &BenchmarkTarget) -> (r: BuildArtifact)
    ensures
        r@ == artifact_of(t@),
{
    let flags = target_flags(t);
    match t.tool {
        BuilderSystem::Cargo => {
            let mut args: Vec<String> = Vec::new();
            push_str(&mut args, "run".to_owned());
            push_str(&mut args, "--release".to_owned());
            push_str(&mut args, "--quiet".to_owned());
            push_str(&mut args, "--manifest-path".to_owned());
            push_str(&mut args, join_path(t.path.as_str(), "Cargo.toml"));
            let r = BuildArtifact { program: "cargo".to_owned(), args, flags };
            assert(r@.args =~= artifact_of(t@).args);
            r
        },
        BuilderSystem::Cmake => {
            let pieces = split_pieces(t.path.as_str(), '/');
            proof {
                lemma_split_len(t@.path, '/');
            }
            let name = pieces[pieces.len() - 1].as_str();
            let dir = join_path(t.path.as_str(), "build");
            let program = join_path(dir.as_str(), name);
            let r = BuildArtifact { program, args: Vec::new(), flags };
            assert(r@.args =~= artifact_of(t@).args);
            r
        },
        _ => {
            let mut program = t.path.clone();
            program.append(".out");
            let r = BuildArtifact { program, args: Vec::new(), flags };
            assert(r@.args =~= artifact_of(t@).args);
            r
        },
    }
}

fn append_strings(dst: &mut Vec<String>, src: &Vec<String>)
    ensures
        final(dst).deep_view() == old(dst).deep_view() + src.deep_view(),
{
    let ghost start = dst.deep_view();
    let mut i: usize = 0;
    while i < src.len()
        invariant
            i <= src.len(),
            dst.deep_view() == start + src.deep_view().take(i as int),
        decreases src.len() - i,
    {
        push_str(dst, src[i].clone());
        proof {
            assert(src.deep_view().take(i + 1) =~= src.deep_view().take(i as int).push(
                src[i as int]@,
            ));
            assert(start + src.deep_view().take(i + 1) =~= (start + src.deep_view().take(
                i as int,
            )).push(src[i as int]@));
        }
        i += 1;
    }
    proof {
        assert(src.deep_view().take(src.len() as int) =~= src.deep_view());
    }
}

fn add_flags(invs: &mut Vec<Invocation>, flags: &Vec<String>)
    ensures
        invocations_view(final(invs)@) == with_flags(
            invocations_view(old(invs)@),
            flags.deep_view(),
        ),
{
    if invs.len() > 0 {
        let ghost before = invocations_view(invs@);
        let mut first = invs.remove(0);
        append_strings(&mut first.args, flags);
        invs.insert(0, first);
        proof {
            assert(invocations_view(invs@) =~= with_flags(before, flags.deep_view()));
        }
    }
}

/// Plans the build of a target whose directory holds the files named in
/// `entries`: checks that its tool supports its kind and that the manifest
/// the tool needs is there, then turns it into a recipe and reads that
/// with the tool's adapter. Fails before any process would be spawned.
pub fn plan_build(t: &BenchmarkTarget, entries: &Vec<String>) -> (r: Result<BuildPlan, BuildError>)
    ensures
        match plan_of(t@, entries.deep_view()) {
            Ok(p) => (r matches Ok(b) && b@ == p),
            Err(f) => (r matches Err(e) && e@ == f),
        },
{
    let direct = match t.tool {
        BuilderSystem::Clang | BuilderSystem::Gcc => true,
        _ => false,
    };
    if direct && t.mode == ProjectType::Workspace {
        return Err(BuildError::IncompatibleProject(t.tool, t.mode));
    }
    if t.tool == BuilderSystem::Cmake {
        if !has_entry(entries, "CMakeLists.txt") {
            return Err(BuildError::MissingManifest("CMakeLists.txt".to_owned()));
        }
    } else if t.tool == BuilderSystem::Cargo && t.mode == ProjectType::Workspace {
        if !has_entry(entries, "Cargo.toml") {
            return Err(BuildError::MissingManifest("Cargo.toml".to_owned()));
        }
    }
    let recipe = recipe_for(t);
    let mut adapter = Adapter::new(t.tool);
    match adapter.run_recipe(recipe.steps()) {
        Ok(()) => {},
        Err(e) => {
            return Err(e);
        },
    }
    let mut invocations = adapter.into_plan();
    let flags = target_flags(t);
    add_flags(&mut invocations, &flags);
    let artifact = artifact_for(t);
    Ok(BuildPlan { invocations, artifact })
}


/// Where a target's build stands.
#[derive(Clone, Copy, Debug, PartialEq, Eq, Structural)]
pub enum BuildStage {
    Resolved,
    Configuring,
    Compiling,
    Linked,
    Failed,
}

pub struct PipelineView {
    pub plan: PlanView,
    pub next: nat,
    pub begun: bool,
    pub failure: Option<BuildFault>,
}

pub open spec fn stage_of(v: PipelineView) -> BuildStage {
    if v.failure is Some {
        BuildStage::Failed
    } else if v.next >= v.plan.invocations.len() {
        BuildStage::Linked
    } else if !v.begun {
        BuildStage::Resolved
    } else if v.plan.invocations[v.next as int].phase == Phase::Configure {
        BuildStage::Configuring
    } else {
        BuildStage::Compiling
    }
}

pub open spec fn build_finished(v: PipelineView) -> bool {
    stage_of(v) == BuildStage::Linked || stage_of(v) == BuildStage::Failed
}

/// Runs a build plan one invocation at a time: the caller launches what
/// [`BuildPipeline::next_invocation`] hands out and reports how it ended.
/// The first failure ends the build; nothing is retried.
pub struct BuildPipeline {
    plan: BuildPlan,
    next: usize,
    begun: bool,
    failure: Option<BuildError>,
}

impl View for BuildPipeline {
    type V = PipelineView;

    closed spec fn view(&self) -> PipelineView {
        PipelineView {
            plan: self.plan@,
            next: self.next as nat,
            begun: self.begun,
            failure: match self.failure {
                Some(e) => Some(e@),
                None => None,
            },
        }
    }
}

impl BuildPipeline {
    pub closed spec fn wf(&self) -> bool {
        self.next <= self.plan.invocations.len()
    }

    pub fn new(plan: BuildPlan) -> (r: BuildPipeline)
        ensures
            r.wf(),
            r@ == (PipelineView { plan: plan@, next: 0, begun: false, failure: None }),
    {
        BuildPipeline { plan, next: 0, begun: false, failure: None }
    }

    pub fn stage(&self) -> (r: BuildStage)
        requires
            self.wf(),
        ensures
            r == stage_of(self@),
    {
        if self.failure.is_some() {
            BuildStage::Failed
        } else if self.next >= self.plan.invocations.len() {
            BuildStage::Linked
        } else if !self.begun {
            BuildStage::Resolved
        } else if self.plan.invocations[self.next].phase == Phase::Configure {
            BuildStage::Configuring
        } else {
            BuildStage::Compiling
        }
    }

    /// The invocation to launch next, or `None` once the build has ended.
    pub fn next_invocation(&mut self) -> (r: Option<Invocation>)
        requires
            old(self).wf(),
        ensures
            final(self).wf(),
            build_finished(old(self)@) ==> r is None && final(self)@ == old(self)@,
            !build_finished(old(self)@) ==> (r matches Some(i) && i@
                == old(self)@.plan.invocations[old(self)@.next as int]) && final(self)@ == (
            PipelineView { begun: true, ..old(self)@ }),
    {
        if self.failure.is_some() || self.next >= self.plan.invocations.len() {
            return None;
        }
        self.begun = true;
        Some(self.plan.invocations[self.next].duplicate())
    }

    /// Records how the invocation handed out last ended: a success moves on
    /// to the next one, a failure ends the build with the tool's diagnostic.
    pub fn record(&mut self, success: bool, diagnostic: String)
        requires
            old(self).wf(),
            old(self)@.begun,
            !build_finished(old(self)@),
        ensures
            final(self).wf(),
            success ==> final(self)@ == (PipelineView { next: old(self)@.next + 1, ..old(self)@ }),
            !success ==> final(self)@ == (PipelineView {
                failure: Some(BuildFault::ToolFailed(old(self)@.next as int, diagnostic@)),
                ..old(self)@
            }),
    {
        if success {
            self.next = self.next + 1;
        } else {
            self.failure = Some(BuildError::ToolFailed(self.next, diagnostic));
        }
    }

    /// What the build came to: the artifact once every invocation succeeded,
    /// else the failure.
    pub fn outcome(self) -> (r: Result<BuildArtifact, BuildError>)
        requires
            self.wf(),
            build_finished(self@),
        ensures
            stage_of(self@) == BuildStage::Linked ==> (r matches Ok(a) && a@
                == self@.plan.artifact),
            stage_of(self@) == BuildStage::Failed ==> (r matches Err(e) && Some(e@)
                == self@.failure),
    {
        match self.failure {
            Some(e) => Err(e),
            None => Ok(self.plan.artifact),
        }
    }
}

} // verus!
