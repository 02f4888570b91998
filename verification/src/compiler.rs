//! The compile orchestration: the decision core of one compile request.
//!
//! A compile alternates outside work (cache lookups, toolchain builds) with
//! decisions. The decisions live here as a state machine: the driver
//! performs each returned action and hands the outcome back as the next
//! event. The cache policy is part of this core's contract: a cached
//! artifact that fails to rebuild with a fatal signature (a missing entry
//! point) is invalidated and regenerated exactly once; any later failure is
//! surfaced verbatim.
use vstd::prelude::*;
use crate::text::{char_vec, rfind_seq, spec_contains_seq};

verus! {

/// Where one compile request stands.
#[derive(Debug, Clone, Copy, PartialEq, Eq, Structural)]
pub enum CompilePhase {
    Idle,
    AwaitingCache,
    AwaitingCachedBuild,
    AwaitingFreshBuild,
    Done,
    Failed,
}

/// What the driver must do next.
#[derive(Debug, Clone, Copy, PartialEq, Eq, Structural)]
pub enum CompileAction {
    LookupCache,
    BuildCached,
    GenerateAndBuild,
    InvalidateAndRegenerate,
    ReportSuccess,
    ReportError,
}

/// Spec mirror of `CompileEvent`.
#[verifier::ext_equal]
pub enum CompileEventV {
    Started,
    CacheHit,
    CacheMiss,
    BuildSucceeded,
    BuildFailed(Seq<char>),
}

/// What the outside world reported back: a build failure carries the
/// toolchain's diagnostic text.
#[derive(Debug)]
pub enum CompileEvent {
    Started,
    CacheHit,
    CacheMiss,
    BuildSucceeded,
    BuildFailed(String),
}

impl View for CompileEvent {
    type V = CompileEventV;

    open spec fn view(&self) -> CompileEventV {
        match self {
            CompileEvent::Started => CompileEventV::Started,
            CompileEvent::CacheHit => CompileEventV::CacheHit,
            CompileEvent::CacheMiss => CompileEventV::CacheMiss,
            CompileEvent::BuildSucceeded => CompileEventV::BuildSucceeded,
            CompileEvent::BuildFailed(m) => CompileEventV::BuildFailed(m@),
        }
    }
}

/// The fatal signatures: toolchain diagnostics that mean the artifact
/// lacks an entry point, so the cache entry is stale rather than the
/// source wrong.
pub open spec fn spec_fatal_signature(msg: Seq<char>) -> bool {
    spec_contains_seq(msg, "main function not found"@) || spec_contains_seq(
        msg,
        "error[E0601]"@,
    ) || spec_contains_seq(msg, "`main` function not found"@)
}

/// Whether a toolchain diagnostic names a missing entry point.
pub fn fatal_cache_signature(msg: &str) -> (r: bool)
    ensures
        r == spec_fatal_signature(msg@),
{
    let m = char_vec(msg);
    let p1 = char_vec("main function not found");
    let p2 = char_vec("error[E0601]");
    let p3 = char_vec("`main` function not found");
    proof {
        reveal_strlit("main function not found");
        reveal_strlit("error[E0601]");
        reveal_strlit("`main` function not found");
    }
    let h1 = rfind_seq(&m, &p1).is_some();
    let h2 = rfind_seq(&m, &p2).is_some();
    let h3 = rfind_seq(&m, &p3).is_some();
    h1 || h2 || h3
}

/// One compile request's decision state: its phase, and whether the
/// invalidate-and-regenerate fallback has already been spent.
#[derive(Debug, Clone, Copy, PartialEq, Eq, Structural)]
pub struct CompileSession {
    pub phase: CompilePhase,
    pub regenerated: bool,
}

/// The transition table: the next state and the action the driver must
/// perform. A failed cached build with a fatal signature spends the single
/// regeneration; every unexpected event fails the request.
pub open spec fn spec_session_step(s: CompileSession, e: CompileEventV) -> (
    CompileSession,
    CompileAction,
) {
    match (s.phase, e) {
        (CompilePhase::Idle, CompileEventV::Started) => (
            CompileSession { phase: CompilePhase::AwaitingCache, ..s },
            CompileAction::LookupCache,
        ),
        (CompilePhase::AwaitingCache, CompileEventV::CacheHit) => (
            CompileSession { phase: CompilePhase::AwaitingCachedBuild, ..s },
            CompileAction::BuildCached,
        ),
        (CompilePhase::AwaitingCache, CompileEventV::CacheMiss) => (
            CompileSession { phase: CompilePhase::AwaitingFreshBuild, ..s },
            CompileAction::GenerateAndBuild,
        ),
        (CompilePhase::AwaitingCachedBuild, CompileEventV::BuildSucceeded) => (
            CompileSession { phase: CompilePhase::Done, ..s },
            CompileAction::ReportSuccess,
        ),
        (CompilePhase::AwaitingCachedBuild, CompileEventV::BuildFailed(msg)) => {
            if spec_fatal_signature(msg) && !s.regenerated {
                (
                    CompileSession { phase: CompilePhase::AwaitingFreshBuild, regenerated: true },
                    CompileAction::InvalidateAndRegenerate,
                )
            } else {
                (CompileSession { phase: CompilePhase::Failed, ..s }, CompileAction::ReportError)
            }
        },
        (CompilePhase::AwaitingFreshBuild, CompileEventV::BuildSucceeded) => (
            CompileSession { phase: CompilePhase::Done, ..s },
            CompileAction::ReportSuccess,
        ),
        (CompilePhase::AwaitingFreshBuild, CompileEventV::BuildFailed(_)) => (
            CompileSession { phase: CompilePhase::Failed, ..s },
            CompileAction::ReportError,
        ),
        _ => (CompileSession { phase: CompilePhase::Failed, ..s }, CompileAction::ReportError),
    }
}

impl CompileSession {
    /// A fresh request: nothing done, the regeneration fallback unspent.
    pub fn new() -> (r: CompileSession)
        ensures
            r == (CompileSession { phase: CompilePhase::Idle, regenerated: false }),
    {
        CompileSession { phase: CompilePhase::Idle, regenerated: false }
    }

    /// Advances the session on one event, returning what to do next.
    pub fn step(&mut self, event: &CompileEvent) -> (action: CompileAction)
        ensures
            (*final(self), action) == spec_session_step(*old(self), event@),
    {
        let fatal = match event {
            CompileEvent::BuildFailed(msg) => fatal_cache_signature(msg.as_str()),
            _ => false,
        };
        match (self.phase, event) {
            (CompilePhase::Idle, CompileEvent::Started) => {
                self.phase = CompilePhase::AwaitingCache;
                CompileAction::LookupCache
            },
            (CompilePhase::AwaitingCache, CompileEvent::CacheHit) => {
                self.phase = CompilePhase::AwaitingCachedBuild;
                CompileAction::BuildCached
            },
            (CompilePhase::AwaitingCache, CompileEvent::CacheMiss) => {
                self.phase = CompilePhase::AwaitingFreshBuild;
                CompileAction::GenerateAndBuild
            },
            (CompilePhase::AwaitingCachedBuild, CompileEvent::BuildSucceeded) => {
                self.phase = CompilePhase::Done;
                CompileAction::ReportSuccess
            },
            (CompilePhase::AwaitingCachedBuild, CompileEvent::BuildFailed(_)) => {
                if fatal && !self.regenerated {
                    self.phase = CompilePhase::AwaitingFreshBuild;
                    self.regenerated = true;
                    CompileAction::InvalidateAndRegenerate
                } else {
                    self.phase = CompilePhase::Failed;
                    CompileAction::ReportError
                }
            },
            (CompilePhase::AwaitingFreshBuild, CompileEvent::BuildSucceeded) => {
                self.phase = CompilePhase::Done;
                CompileAction::ReportSuccess
            },
            (CompilePhase::AwaitingFreshBuild, CompileEvent::BuildFailed(_)) => {
                self.phase = CompilePhase::Failed;
                CompileAction::ReportError
            },
            _ => {
                self.phase = CompilePhase::Failed;
                CompileAction::ReportError
            },
        }
    }
}

/// What one compile of a source text produces: the source parsed, the
/// program type-annotated, the annotated program lowered to IR and driven
/// through the fixed-point optimizer, and native text generated from the
/// annotated program under the optimized module's hints — or the parse
/// failure.
pub open spec fn spec_compile_source(source: Seq<char>) -> Result<Seq<char>, usize> {
    match crate::parser::spec_parse(source) {
        Result::Ok(sp) => {
            let annotated = crate::type_inference::spec_infer_program(sp.0);
            let optimized = crate::optimizer::spec_optimize_module(
                crate::ir_builder::spec_build_module(annotated),
                8,
            );
            Result::Ok(crate::codegen::spec_gen_program(annotated, optimized))
        },
        Result::Err(line) => Result::Err(line),
    }
}

/// One compile request's long-lived pieces: the cache's key/path logic,
/// the call-count profiler, and the session's decision state.
pub struct Compiler {
    pub cache: crate::cache::Cache,
    pub profiler: crate::profiler::Profiler,
    pub session: CompileSession,
}

impl Compiler {
    /// A compiler whose cache is rooted at the given directory.
    pub fn new(cache_dir: &str) -> (r: Compiler)
        ensures
            r.cache.cache_dir@ == cache_dir@,
            r.session == (CompileSession { phase: CompilePhase::Idle, regenerated: false }),
    {
        Compiler {
            cache: crate::cache::Cache::new(cache_dir),
            profiler: crate::profiler::Profiler::new(),
            session: CompileSession::new(),
        }
    }

    /// The pipeline core: parse, infer types in place, and generate native
    /// source text. Everything around it — reading the file, the cache, the
    /// toolchain — is the driver's part, steered by the session.
    pub fn compile_source(&mut self, source: &str) -> (r: Result<
        String,
        crate::diagnostics::CompileError,
    >)
        ensures
            *final(self) == *old(self),
            match r {
                Result::Ok(text) => spec_compile_source(source@) matches Result::Ok(t) && text@
                    == t,
                Result::Err(e) => {
                    &&& spec_compile_source(source@) matches Result::Err(line)
                    &&& e@ == (crate::diagnostics::CompileErrorV::ParseError {
                        line,
                        message: "invalid function definition"@,
                    })
                },
            },
    {
        match crate::parser::AdrenalineParser::parse(source) {
            Result::Ok(program) => {
                let mut program = program;
                let mut inference = crate::type_inference::TypeInference::new();
                inference.infer_program(&mut program);
                let mut module = crate::ir_builder::IRBuilder::build_module(&program);
                let mut optimizer = crate::optimizer::IROptimizer::new();
                optimizer.optimize(&mut module);
                let mut codegen = crate::codegen::RustCodegen::new();
                Ok(codegen.generate(&program, &module))
            },
            Result::Err(e) => Err(e),
        }
    }
}

/// What the shell's immediate evaluator computes for an expression over
/// integer bindings: literals, bound names, and overflow-checked addition,
/// subtraction and multiplication; everything richer is left to a compile.
pub open spec fn spec_eval_simple(
    env: Map<Seq<char>, i64>,
    e: crate::ast_types::ExpressionV,
) -> Option<i64>
    decreases e,
{
    match e {
        crate::ast_types::ExpressionV::IntLit(n) => Option::Some(n),
        crate::ast_types::ExpressionV::Identifier(name) => if env.contains_key(name) {
            Option::Some(env[name])
        } else {
            Option::None
        },
        crate::ast_types::ExpressionV::BinOp(l, op, r) => {
            match (spec_eval_simple(env, *l), spec_eval_simple(env, *r)) {
                (Option::Some(a), Option::Some(b)) => match op {
                    crate::ast_types::BinOp::Add => a.checked_add(b),
                    crate::ast_types::BinOp::Sub => a.checked_sub(b),
                    crate::ast_types::BinOp::Mult => a.checked_mul(b),
                    _ => Option::None,
                },
                _ => Option::None,
            }
        },
        _ => Option::None,
    }
}

/// The map an integer association list denotes; a later entry wins.
pub open spec fn spec_int_env(entries: Seq<(String, i64)>) -> Map<Seq<char>, i64>
    decreases entries.len(),
{
    if entries.len() == 0 {
        Map::empty()
    } else {
        spec_int_env(entries.drop_last()).insert(entries.last().0@, entries.last().1)
    }
}

proof fn lemma_int_env_at(entries: Seq<(String, i64)>, idx: int, name: Seq<char>)
    requires
        0 <= idx < entries.len(),
        entries[idx].0@ == name,
        forall|k: int| idx < k < entries.len() ==> (#[trigger] entries[k]).0@ != name,
    ensures
        spec_int_env(entries).contains_key(name),
        spec_int_env(entries)[name] == entries[idx].1,
    decreases entries.len(),
{
    if idx < entries.len() - 1 {
        lemma_int_env_at(entries.drop_last(), idx, name);
    }
}

proof fn lemma_int_env_none(entries: Seq<(String, i64)>, name: Seq<char>)
    requires
        forall|k: int| 0 <= k < entries.len() ==> (#[trigger] entries[k]).0@ != name,
    ensures
        !spec_int_env(entries).contains_key(name),
    decreases entries.len(),
{
    if entries.len() > 0 {
        lemma_int_env_none(entries.drop_last(), name);
    }
}

/// The shell's immediate evaluator.
pub fn eval_simple_expression(
    expr: &crate::ast_types::Expression,
    env: &Vec<(String, i64)>,
) -> (r: Option<i64>)
    ensures
        r == spec_eval_simple(spec_int_env(env@), expr@),
    decreases expr,
{
    match expr {
        crate::ast_types::Expression::IntLit(n) => Some(*n),
        crate::ast_types::Expression::Identifier(name) => {
            let n = env.len();
            let mut idx = n;
            while idx > 0
                invariant
                    idx <= n,
                    n == env@.len(),
                    expr@ == crate::ast_types::ExpressionV::Identifier(name@),
                    forall|k: int| idx <= k < n ==> (#[trigger] env@[k]).0@ != name@,
                decreases idx,
            {
                idx -= 1;
                if crate::text::str_eq(env[idx].0.as_str(), name.as_str()) {
                    proof {
                        lemma_int_env_at(env@, idx as int, name@);
                    }
                    return Some(env[idx].1);
                }
            }
            proof {
                lemma_int_env_none(env@, name@);
            }
            None
        },
        crate::ast_types::Expression::BinOp(l, op, r) => {
            let lv = eval_simple_expression(&**l, env);
            let rv = eval_simple_expression(&**r, env);
            match (lv, rv) {
                (Option::Some(a), Option::Some(b)) => match op {
                    crate::ast_types::BinOp::Add => a.checked_add(b),
                    crate::ast_types::BinOp::Sub => a.checked_sub(b),
                    crate::ast_types::BinOp::Mult => a.checked_mul(b),
                    _ => None,
                },
                _ => None,
            }
        },
        _ => None,
    }
}

/// How many regenerations a run of the session performs from state `s` on
/// the given events.
pub open spec fn spec_regen_count(s: CompileSession, events: Seq<CompileEventV>) -> int
    decreases events.len(),
{
    if events.len() == 0 {
        0
    } else {
        let r = spec_session_step(s, events[0]);
        (if r.1 == CompileAction::InvalidateAndRegenerate {
            1int
        } else {
            0int
        }) + spec_regen_count(r.0, events.drop_first())
    }
}

/// Once the fallback is spent, no run regenerates again.
proof fn lemma_regen_none_after_spent(s: CompileSession, events: Seq<CompileEventV>)
    requires
        s.regenerated,
    ensures
        spec_regen_count(s, events) == 0,
    decreases events.len(),
{
    if events.len() > 0 {
        let r = spec_session_step(s, events[0]);
        assert(r.0.regenerated);
        lemma_regen_none_after_spent(r.0, events.drop_first());
    }
}

/// A cached artifact that fails to rebuild triggers at most one
/// regeneration over any sequence of events — never a retry loop.
pub proof fn lemma_single_regeneration(events: Seq<CompileEventV>)
    ensures
        spec_regen_count(CompileSession { phase: CompilePhase::Idle, regenerated: false }, events)
            <= 1,
{
    lemma_regen_bound(
        CompileSession { phase: CompilePhase::Idle, regenerated: false },
        events,
    );
}

proof fn lemma_regen_bound(s: CompileSession, events: Seq<CompileEventV>)
    ensures
        spec_regen_count(s, events) <= (if s.regenerated {
            0int
        } else {
            1int
        }),
    decreases events.len(),
{
    if events.len() > 0 {
        let r = spec_session_step(s, events[0]);
        if r.1 == CompileAction::InvalidateAndRegenerate {
            assert(r.0.regenerated);
            lemma_regen_none_after_spent(r.0, events.drop_first());
        } else {
            assert(r.0.regenerated == s.regenerated);
            lemma_regen_bound(r.0, events.drop_first());
        }
    }
}

} // verus!
