use adrenaline::ast_types::{BinOp, Expression};
use adrenaline::ir::{IRInstruction, OptimizationLevel};
use adrenaline::ir_builder::IRBuilder;
use adrenaline::optimizer::IROptimizer;
use adrenaline::diagnostics::{CompileError as LibCompileError, DiagnosticBuilder};
use adrenaline::cache::Cache;
use adrenaline::compiler::{
    eval_simple_expression, fatal_cache_signature, CompileAction, CompileEvent, CompilePhase,
    CompileSession, Compiler,
};
use adrenaline::codegen::i64_dec;
use adrenaline::profiler::Profiler;

#[test]
fn cache_keys_are_the_hex_digest_of_the_source() {
    // the digest of "abc" is a fixed, externally known value
    let key = Cache::get_hash("abc");
    assert_eq!(
        key,
        "ba7816bf8f01cfea414140de5dae2223b00361a396177a9cb410ff61f20015ad"
    );
    assert_eq!(Cache::get_hash("").len(), 64);
    assert_ne!(Cache::get_hash("a"), Cache::get_hash("b"));
}

#[test]
fn cache_paths_join_directory_key_and_extension() {
    let cache = Cache::new("/tmp/store");
    assert_eq!(cache.get_cache_path("deadbeef"), "/tmp/store/deadbeef.rs");
}

#[test]
fn fatal_signatures_are_recognized() {
    assert!(fatal_cache_signature("error[E0601]: `main` function not found in crate"));
    assert!(fatal_cache_signature("main function not found"));
    assert!(!fatal_cache_signature("mismatched types"));
    assert!(!fatal_cache_signature(""));
}

#[test]
fn stale_cache_triggers_exactly_one_regeneration() {
    // a cached compile whose stored output lacks an entry point is
    // invalidated and regenerated once, never in a loop
    let mut session = CompileSession::new();
    assert_eq!(session.step(&CompileEvent::Started), CompileAction::LookupCache);
    assert_eq!(session.step(&CompileEvent::CacheHit), CompileAction::BuildCached);
    let diagnostic = String::from("error[E0601]: `main` function not found");
    assert_eq!(
        session.step(&CompileEvent::BuildFailed(diagnostic.clone())),
        CompileAction::InvalidateAndRegenerate
    );
    assert!(session.regenerated);
    // the regenerated build failing again is surfaced, not retried
    assert_eq!(
        session.step(&CompileEvent::BuildFailed(diagnostic)),
        CompileAction::ReportError
    );
    assert_eq!(session.phase, CompilePhase::Failed);
}

#[test]
fn non_fatal_cached_build_failures_are_surfaced() {
    let mut session = CompileSession::new();
    session.step(&CompileEvent::Started);
    session.step(&CompileEvent::CacheHit);
    assert_eq!(
        session.step(&CompileEvent::BuildFailed(String::from("mismatched types"))),
        CompileAction::ReportError
    );
    assert!(!session.regenerated);
}

#[test]
fn cache_misses_generate_and_build() {
    let mut session = CompileSession::new();
    session.step(&CompileEvent::Started);
    assert_eq!(session.step(&CompileEvent::CacheMiss), CompileAction::GenerateAndBuild);
    assert_eq!(session.step(&CompileEvent::BuildSucceeded), CompileAction::ReportSuccess);
    assert_eq!(session.phase, CompilePhase::Done);
}

#[test]
fn compile_source_runs_the_whole_pipeline() {
    let mut compiler = Compiler::new("/tmp/store");
    let src = "def add(a: int, b: int) -> int:\n    return a + b\n";
    let text = compiler.compile_source(src).unwrap();
    assert!(text.contains("fn add(a: i64, b: i64) -> i64 {"));
    assert!(text.contains("return (a + b);"));
    // the runtime helpers ride along and an entry symbol always exists
    assert!(text.contains("fn floor_div(a: i64, b: i64) -> i64 {"));
    assert!(text.contains("fn main()"));
}

#[test]
fn compile_source_surfaces_header_failures() {
    let mut compiler = Compiler::new("/tmp/store");
    let err = compiler.compile_source("def  :\n    return 1\n").unwrap_err();
    assert!(matches!(
        err,
        adrenaline::diagnostics::CompileError::ParseError { line: 0, .. }
    ));
}

#[test]
fn no_compile_functions_are_not_emitted() {
    let mut compiler = Compiler::new("/tmp/store");
    let src = "def skipped():\n    #adrenaline:no-compile\n    return 1\ndef kept():\n    return 2\n";
    let text = compiler.compile_source(src).unwrap();
    assert!(!text.contains("fn skipped"));
    assert!(text.contains("fn kept"));
}

#[test]
fn inline_directive_emits_a_hint() {
    let mut compiler = Compiler::new("/tmp/store");
    let src = "def fast():\n    #adrenaline:inline\n    return 1\n";
    let text = compiler.compile_source(src).unwrap();
    assert!(text.contains("#[inline(always)]\nfn fast"));
}

#[test]
fn true_division_emits_floating_point_code() {
    let mut compiler = Compiler::new("/tmp/store");
    let src = "def half():\n    x = 1 / 2\n    return x\n";
    let text = compiler.compile_source(src).unwrap();
    assert!(text.contains("as Float"));
    // floor division goes through the sign-correct helper
    let src2 = "def floor():\n    y = 7 // 2\n    return y\n";
    let text2 = compiler.compile_source(src2).unwrap();
    assert!(text2.contains("floor_div(7, 2)"));
}

#[test]
fn the_pipeline_lowers_and_optimizes_through_the_ir() {
    let src = "def hot_path(n: int):\n    #adrenaline:hot\n    #adrenaline:simd\n    a = 2 + 3\n    return a\n";
    let program = {
        let mut p = adrenaline::parser::AdrenalineParser::parse(src).unwrap();
        let mut inference = adrenaline::type_inference::TypeInference::new();
        inference.infer_program(&mut p);
        p
    };
    let mut module = IRBuilder::build_module(&program);
    assert_eq!(module.functions.len(), 1);
    assert_eq!(module.functions[0].name, "hot_path");
    assert_eq!(
        module.functions[0].optimization_level,
        OptimizationLevel::Extreme
    );
    // block 0 is the entry block
    assert_eq!(module.functions[0].blocks[0].id, 0);
    let mut optimizer = IROptimizer::new();
    optimizer.optimize(&mut module);
    // the constant add was folded away or eliminated, never left as a BinOp
    for block in &module.functions[0].blocks {
        assert!(!block
            .instructions
            .iter()
            .any(|i| matches!(i, IRInstruction::BinOp { .. })));
    }
}

#[test]
fn parallel_proven_loops_emit_the_data_parallel_construct() {
    let mut compiler = Compiler::new("/tmp/store");
    // the loop body writes only temporaries, so the optimizer proves it
    // parallelizable and codegen emits the data-parallel construct
    let src = "def scan(xs: list):\n    #adrenaline:parallel\n    for i in xs:\n        1 + 2\n    return 0\n";
    let text = compiler.compile_source(src).unwrap();
    assert!(text.contains("// parallelizable"));
    assert!(text.contains(").into_par_iter().for_each(|i| {"));
    // a loop body that rebinds a named variable is never parallelized
    let src2 = "def fold(xs: list):\n    #adrenaline:parallel\n    acc = 0\n    for i in xs:\n        acc = 1\n    return acc\n";
    let text2 = compiler.compile_source(src2).unwrap();
    assert!(!text2.contains("// parallelizable"));
    assert!(!text2.contains("into_par_iter"));
}

#[test]
fn decimal_rendering_is_exact() {
    assert_eq!(i64_dec(0), "0");
    assert_eq!(i64_dec(42), "42");
    assert_eq!(i64_dec(-7), "-7");
    assert_eq!(i64_dec(i64::MAX), "9223372036854775807");
    assert_eq!(i64_dec(i64::MIN), "-9223372036854775808");
}

#[test]
fn hot_functions_sort_by_call_count() {
    let mut profiler = Profiler::new();
    profiler.register_function("rare");
    profiler.register_function("busy");
    profiler.register_function("medium");
    for _ in 0..10 {
        profiler.record_call("busy");
    }
    for _ in 0..5 {
        profiler.record_call("medium");
    }
    profiler.record_call("rare");
    let hot = profiler.get_hot_functions(2);
    assert_eq!(hot, vec![String::from("busy"), String::from("medium")]);
    let all = profiler.get_hot_functions(0);
    assert_eq!(
        all,
        vec![
            String::from("busy"),
            String::from("medium"),
            String::from("rare"),
        ]
    );
}

#[test]
fn diagnostic_builders_carry_their_messages() {
    let e = DiagnosticBuilder::unsupported_feature(
        "generators",
        Some(String::from("rewrite as a loop")),
    );
    assert!(matches!(e, LibCompileError::UnsupportedFeature { .. }));
    assert_eq!(e.describe(), "generators");
    let t = DiagnosticBuilder::type_error("no resolvable type");
    assert_eq!(t.describe(), "no resolvable type");
    let c = DiagnosticBuilder::compilation_failed("linker exploded");
    assert_eq!(c.describe(), "linker exploded");
}

#[test]
fn the_shell_evaluator_computes_simple_arithmetic() {
    let env = vec![(String::from("x"), 40i64)];
    let e = Expression::BinOp(
        Box::new(Expression::Identifier(String::from("x"))),
        BinOp::Add,
        Box::new(Expression::IntLit(2)),
    );
    assert_eq!(eval_simple_expression(&e, &env), Some(42));
    let unbound = Expression::Identifier(String::from("y"));
    assert_eq!(eval_simple_expression(&unbound, &env), None);
    let overflow = Expression::BinOp(
        Box::new(Expression::IntLit(i64::MAX)),
        BinOp::Add,
        Box::new(Expression::IntLit(1)),
    );
    assert_eq!(eval_simple_expression(&overflow, &env), None);
}

#[test]
fn unregistered_calls_change_nothing() {
    let mut profiler = Profiler::new();
    profiler.register_function("only");
    profiler.record_call("stranger");
    assert_eq!(profiler.get_hot_functions(1), Vec::<String>::new());
}
