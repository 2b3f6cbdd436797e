use oxidizer::target::{kind_from_lowercase, tool_from_lowercase, unit_from_lowercase};
use oxidizer::{
    parse_benchmark_target, parse_duration, BenchmarkTarget, BuilderSystem, ParseError,
    ProjectType, TimeUnit,
};

fn flags(t: &BenchmarkTarget) -> Option<Vec<&str>> {
    t.compiler_flags.as_ref().map(|v| v.iter().map(|s| s.as_str()).collect())
}

#[test]
fn descriptor_with_flags_keeps_their_order() {
    let t = parse_benchmark_target("bench/main.rs:w:cargo:O3,target-cpu=native,lto").unwrap();
    assert_eq!(t.path, "bench/main.rs");
    assert_eq!(t.mode, ProjectType::Workspace);
    assert_eq!(t.tool, BuilderSystem::Cargo);
    assert_eq!(flags(&t), Some(vec!["O3", "target-cpu=native", "lto"]));
}

#[test]
fn descriptor_without_flags() {
    let t = parse_benchmark_target("main.c:standalone:gcc").unwrap();
    assert_eq!(t.path, "main.c");
    assert_eq!(t.mode, ProjectType::Standalone);
    assert_eq!(t.tool, BuilderSystem::Gcc);
    assert_eq!(flags(&t), None);
}

#[test]
fn tokens_ignore_case() {
    let t = parse_benchmark_target("p:Standalone:CLANG").unwrap();
    assert_eq!(t.mode, ProjectType::Standalone);
    assert_eq!(t.tool, BuilderSystem::Clang);
    let t = parse_benchmark_target("p:W:CMake").unwrap();
    assert_eq!(t.mode, ProjectType::Workspace);
    assert_eq!(t.tool, BuilderSystem::Cmake);
}

#[test]
fn empty_flag_list_is_none() {
    assert_eq!(flags(&parse_benchmark_target("a:s:gcc:").unwrap()), None);
    assert_eq!(flags(&parse_benchmark_target("a:s:gcc:,,").unwrap()), None);
}

#[test]
fn empty_flag_entries_are_dropped() {
    let t = parse_benchmark_target("a:s:gcc:x,,y,").unwrap();
    assert_eq!(flags(&t), Some(vec!["x", "y"]));
}

#[test]
fn written_descriptor_reads_back() {
    let written = BenchmarkTarget {
        path: "src/prog.cpp".to_string(),
        tool: BuilderSystem::Clang,
        mode: ProjectType::Standalone,
        compiler_flags: Some(vec!["-O2".to_string(), "-march=native".to_string()]),
    };
    let text = format!("{}:standalone:clang:{}", written.path, "-O2,-march=native");
    let back = parse_benchmark_target(&text).unwrap();
    assert_eq!(back.path, written.path);
    assert_eq!(back.tool, written.tool);
    assert_eq!(back.mode, written.mode);
    assert_eq!(back.compiler_flags, written.compiler_flags);
}

#[test]
fn missing_mode_is_refused() {
    assert!(matches!(parse_benchmark_target("main.c"), Err(ParseError::MissingMode)));
}

#[test]
fn missing_tool_is_refused() {
    assert!(matches!(parse_benchmark_target("main.c:s"), Err(ParseError::MissingTool)));
}

#[test]
fn unknown_kind_is_refused_by_name() {
    match parse_benchmark_target("main.c:library:gcc") {
        Err(ParseError::UnknownProjectKind(k)) => assert_eq!(k, "library"),
        _ => panic!("expected an unknown project kind"),
    }
}

#[test]
fn unknown_tool_is_refused_by_name() {
    match parse_benchmark_target("main.c:s:make") {
        Err(ParseError::UnknownBuildTool(k)) => assert_eq!(k, "make"),
        _ => panic!("expected an unknown build tool"),
    }
}

#[test]
fn bad_kind_is_reported_before_missing_tool() {
    assert!(matches!(
        parse_benchmark_target("main.c:x"),
        Err(ParseError::UnknownProjectKind(_))
    ));
}

#[test]
fn too_many_parts_is_refused() {
    assert!(matches!(
        parse_benchmark_target("a:s:gcc:x:y"),
        Err(ParseError::TooManyParts)
    ));
}

#[test]
fn near_miss_tokens_are_refused() {
    assert!(parse_benchmark_target("a:stand:gcc").is_err());
    assert!(parse_benchmark_target("a:s:gccc").is_err());
    assert!(parse_benchmark_target("a::gcc").is_err());
}

#[test]
fn time_units() {
    assert_eq!(parse_duration("s").unwrap(), TimeUnit::Seconds);
    assert_eq!(parse_duration("MS").unwrap(), TimeUnit::Milliseconds);
    assert_eq!(parse_duration("us").unwrap(), TimeUnit::Microseconds);
    assert_eq!(TimeUnit::from_str("Ns").unwrap(), TimeUnit::Nanoseconds);
    match parse_duration("h") {
        Err(ParseError::UnknownTimeUnit(u)) => assert_eq!(u, "h"),
        _ => panic!("expected an unknown time unit"),
    }
}

#[test]
fn kind_and_tool_parsers() {
    assert_eq!(ProjectType::from_str("w").unwrap(), ProjectType::Workspace);
    assert_eq!(ProjectType::from_str("WORKSPACE").unwrap(), ProjectType::Workspace);
    assert_eq!(BuilderSystem::from_str("Cargo").unwrap(), BuilderSystem::Cargo);
    assert!(BuilderSystem::from_str("").is_err());
}

#[test]
fn tokens_fold_case_as_unicode_lowercase() {
    let t = parse_benchmark_target("proj:wor\u{212A}space:cma\u{212A}e").unwrap();
    assert_eq!(t.mode, ProjectType::Workspace);
    assert_eq!(t.tool, BuilderSystem::Cmake);
}

#[test]
fn unknown_tool_named_after_a_folded_kind() {
    match parse_benchmark_target("a:wor\u{212A}space:ninja") {
        Err(ParseError::UnknownBuildTool(k)) => assert_eq!(k, "ninja"),
        _ => panic!("expected an unknown build tool"),
    }
}

#[test]
fn words_after_lowercasing() {
    assert_eq!(kind_from_lowercase(&"standalone".to_string()), Some(ProjectType::Standalone));
    assert_eq!(kind_from_lowercase(&"Standalone".to_string()), None);
    assert_eq!(tool_from_lowercase(&"gcc".to_string()), Some(BuilderSystem::Gcc));
    assert_eq!(tool_from_lowercase(&"g++".to_string()), None);
    assert_eq!(unit_from_lowercase(&"us".to_string()), Some(TimeUnit::Microseconds));
}
