use oxidizer::build_system::Adapter;
use oxidizer::pipeline::{has_entry, recipe_for};
use oxidizer::{
    plan_build, BenchmarkTarget, BuildError, BuildPipeline, BuildStage, BuildSystem,
    BuilderSystem, CompilationRecipe, CompilationStep, Compiler, Invocation, Language, Phase,
    ProjectType,
};

fn args(i: &Invocation) -> Vec<&str> {
    i.args.iter().map(|s| s.as_str()).collect()
}

fn target(path: &str, tool: BuilderSystem, mode: ProjectType, flags: Option<Vec<&str>>) -> BenchmarkTarget {
    BenchmarkTarget {
        path: path.to_string(),
        tool,
        mode,
        compiler_flags: flags.map(|f| f.into_iter().map(String::from).collect()),
    }
}

#[test]
fn recipe_keeps_steps_in_order() {
    let r = CompilationRecipe::new(Language::C)
        .add_step(CompilationStep::Compile("a.c".to_string()))
        .add_step(CompilationStep::Shared);
    assert_eq!(r.language(), Language::C);
    assert_eq!(r.steps().len(), 2);
    assert!(matches!(r.steps()[1], CompilationStep::Shared));
}

#[test]
fn compiler_collects_recipes() {
    let c = Compiler::new()
        .add_recipe(CompilationRecipe::new(Language::Rust))
        .add_recipe(CompilationRecipe::new(Language::Go));
    assert_eq!(c.recipes().len(), 2);
    assert_eq!(c.recipes()[1].language(), Language::Go);
}

#[test]
fn direct_compiler_composes_one_invocation() {
    let recipe = CompilationRecipe::new(Language::Cpp)
        .add_step(CompilationStep::Compile("lib1.cpp".to_string()))
        .add_step(CompilationStep::Compile("lib2.cpp".to_string()))
        .add_step(CompilationStep::Shared)
        .add_step(CompilationStep::Output("libmy.so".to_string()))
        .add_step(CompilationStep::Optimize(2));
    let plan = BuildSystem::new().compile(&recipe).unwrap();
    assert_eq!(plan.len(), 1);
    assert_eq!(plan[0].program, "clang");
    assert_eq!(plan[0].phase, Phase::Compile);
    assert_eq!(args(&plan[0]), vec!["lib1.cpp", "lib2.cpp", "-shared", "-o", "libmy.so", "-O2"]);
}

#[test]
fn clang_emits_llvm_but_gcc_does_not() {
    let mut clang = Adapter::new(BuilderSystem::Clang);
    assert!(clang.execute_step(&CompilationStep::EmitLLVM).is_ok());
    assert_eq!(args(&clang.into_plan()[0]), vec!["-S", "-emit-llvm"]);
    let mut gcc = Adapter::new(BuilderSystem::Gcc);
    match gcc.execute_step(&CompilationStep::EmitLLVM) {
        Err(BuildError::UnsupportedOperation(tool, CompilationStep::EmitLLVM)) => {
            assert_eq!(tool, BuilderSystem::Gcc)
        }
        _ => panic!("gcc has no LLVM output"),
    }
}

#[test]
fn optimisation_level_above_three_is_unsupported() {
    let mut a = Adapter::new(BuilderSystem::Gcc);
    assert!(matches!(
        a.execute_step(&CompilationStep::Optimize(4)),
        Err(BuildError::UnsupportedOperation(BuilderSystem::Gcc, CompilationStep::Optimize(4)))
    ));
    assert!(a.execute_step(&CompilationStep::Optimize(3)).is_ok());
    assert_eq!(args(&a.into_plan()[0]), vec!["-O3"]);
}

#[test]
fn cargo_runs_one_invocation_per_step() {
    let recipe = CompilationRecipe::new(Language::Rust)
        .add_step(CompilationStep::Build)
        .add_step(CompilationStep::Test);
    let plan = BuildSystem::new().compile(&recipe).unwrap();
    assert_eq!(plan.len(), 2);
    assert_eq!(plan[0].program, "cargo");
    assert_eq!(args(&plan[0]), vec!["build", "--release"]);
    assert_eq!(args(&plan[1]), vec!["test", "--release"]);
}

#[test]
fn cmake_configures_then_builds_in_that_directory() {
    let recipe = CompilationRecipe::new(Language::CMake)
        .add_step(CompilationStep::Configure(".".to_string(), "out".to_string()))
        .add_step(CompilationStep::Build)
        .add_step(CompilationStep::Target("test".to_string()))
        .add_step(CompilationStep::Install("/opt/x".to_string()));
    let plan = BuildSystem::new().compile(&recipe).unwrap();
    assert_eq!(plan.len(), 4);
    assert_eq!(plan[0].phase, Phase::Configure);
    assert_eq!(args(&plan[0]), vec!["-S", ".", "-B", "out"]);
    assert_eq!(args(&plan[1]), vec!["--build", "out"]);
    assert_eq!(args(&plan[2]), vec!["--build", "out", "--target", "test"]);
    assert_eq!(args(&plan[3]), vec!["--install", "out", "--prefix", "/opt/x"]);
}

#[test]
fn unsupported_step_names_tool_and_step() {
    let recipe = CompilationRecipe::new(Language::CMake)
        .add_step(CompilationStep::Build)
        .add_step(CompilationStep::Shared);
    match BuildSystem::new().compile(&recipe) {
        Err(BuildError::UnsupportedOperation(BuilderSystem::Cmake, CompilationStep::Shared)) => {}
        _ => panic!("cmake cannot make a shared library by step"),
    }
}

#[test]
fn language_without_adapter() {
    let recipe = CompilationRecipe::new(Language::Go);
    assert!(matches!(
        BuildSystem::new().compile(&recipe),
        Err(BuildError::UnsupportedLanguage(Language::Go))
    ));
}

#[test]
fn entries_are_matched_exactly() {
    let names = vec!["src".to_string(), "Cargo.toml".to_string()];
    assert!(has_entry(&names, "Cargo.toml"));
    assert!(!has_entry(&names, "cargo.toml"));
    assert!(!has_entry(&vec![], "Cargo.toml"));
}

#[test]
fn recipe_for_direct_compiler() {
    let r = recipe_for(&target("main.c", BuilderSystem::Gcc, ProjectType::Standalone, None));
    assert_eq!(r.language(), Language::C);
    assert_eq!(r.steps().len(), 2);
    match &r.steps()[1] {
        CompilationStep::Output(o) => assert_eq!(o, "main.c.out"),
        _ => panic!("expected an output step"),
    }
}

#[test]
fn plan_for_cmake_project() {
    let t = target("proj/app", BuilderSystem::Cmake, ProjectType::Workspace, Some(vec!["-DFAST=1"]));
    let entries = vec!["CMakeLists.txt".to_string(), "main.cpp".to_string()];
    let plan = plan_build(&t, &entries).unwrap();
    assert_eq!(plan.invocations.len(), 2);
    assert_eq!(plan.invocations[0].program, "cmake");
    assert_eq!(args(&plan.invocations[0]), vec!["-S", "proj/app", "-B", "proj/app/build", "-DFAST=1"]);
    assert_eq!(args(&plan.invocations[1]), vec!["--build", "proj/app/build"]);
    assert_eq!(plan.artifact.program, "proj/app/build/app");
    assert_eq!(plan.artifact.flags, vec!["-DFAST=1".to_string()]);
}

#[test]
fn plan_for_cargo_workspace() {
    let t = target("ws", BuilderSystem::Cargo, ProjectType::Workspace, None);
    let plan = plan_build(&t, &vec!["Cargo.toml".to_string()]).unwrap();
    assert_eq!(plan.invocations.len(), 1);
    assert_eq!(args(&plan.invocations[0]), vec!["build", "--release", "--manifest-path", "ws/Cargo.toml"]);
    assert_eq!(plan.artifact.program, "cargo");
    assert_eq!(
        plan.artifact.args,
        vec!["run", "--release", "--quiet", "--manifest-path", "ws/Cargo.toml"]
    );
}

#[test]
fn plan_for_direct_compiler_with_flags() {
    let t = target("m.c", BuilderSystem::Clang, ProjectType::Standalone, Some(vec!["-O3"]));
    let plan = plan_build(&t, &vec![]).unwrap();
    assert_eq!(plan.invocations.len(), 1);
    assert_eq!(args(&plan.invocations[0]), vec!["m.c", "-o", "m.c.out", "-O3"]);
    assert_eq!(plan.artifact.program, "m.c.out");
}

#[test]
fn missing_cmake_manifest_is_a_build_failure() {
    let t = target("proj", BuilderSystem::Cmake, ProjectType::Standalone, None);
    match plan_build(&t, &vec!["main.cpp".to_string()]) {
        Err(BuildError::MissingManifest(m)) => assert_eq!(m, "CMakeLists.txt"),
        _ => panic!("expected a missing manifest"),
    }
}

#[test]
fn missing_cargo_manifest_in_workspace() {
    let t = target("ws", BuilderSystem::Cargo, ProjectType::Workspace, None);
    match plan_build(&t, &vec![".gitignore".to_string()]) {
        Err(BuildError::MissingManifest(m)) => assert_eq!(m, "Cargo.toml"),
        _ => panic!("expected a missing manifest"),
    }
}

#[test]
fn direct_compiler_cannot_build_a_workspace() {
    let t = target("ws", BuilderSystem::Gcc, ProjectType::Workspace, None);
    assert!(matches!(
        plan_build(&t, &vec![]),
        Err(BuildError::IncompatibleProject(BuilderSystem::Gcc, ProjectType::Workspace))
    ));
}

#[test]
fn pipeline_links_after_every_step_succeeds() {
    let t = target("proj", BuilderSystem::Cmake, ProjectType::Standalone, None);
    let plan = plan_build(&t, &vec!["CMakeLists.txt".to_string()]).unwrap();
    let mut p = BuildPipeline::new(plan);
    assert_eq!(p.stage(), BuildStage::Resolved);
    let first = p.next_invocation().unwrap();
    assert_eq!(first.phase, Phase::Configure);
    assert_eq!(p.stage(), BuildStage::Configuring);
    p.record(true, String::new());
    assert_eq!(p.stage(), BuildStage::Compiling);
    assert!(p.next_invocation().is_some());
    p.record(true, String::new());
    assert_eq!(p.stage(), BuildStage::Linked);
    assert!(p.next_invocation().is_none());
    assert_eq!(p.outcome().unwrap().program, "proj/build/proj");
}

#[test]
fn pipeline_stops_at_configure_failure() {
    let t = target("proj", BuilderSystem::Cmake, ProjectType::Standalone, None);
    let plan = plan_build(&t, &vec!["CMakeLists.txt".to_string()]).unwrap();
    let mut p = BuildPipeline::new(plan);
    p.next_invocation().unwrap();
    p.record(false, "CMake Error: bad".to_string());
    assert_eq!(p.stage(), BuildStage::Failed);
    assert!(p.next_invocation().is_none());
    match p.outcome() {
        Err(BuildError::ToolFailed(0, d)) => assert_eq!(d, "CMake Error: bad"),
        _ => panic!("expected the configure failure"),
    }
}
