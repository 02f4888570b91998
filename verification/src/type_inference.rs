//! Static type inference over the AST. Two passes: every top-level function
//! name is first registered with a placeholder return type (enabling forward
//! references in calls), then every statement is walked, binding variable
//! types and annotating each function definition's return type in place.
//! Inference is total: whatever cannot be resolved becomes `Unknown`.
use vstd::prelude::*;
use crate::ast_types::{
    Expression, ExpressionV, BinOp, FunctionDef, Program, ProgramV, Statement, StatementV, Type,
    TypeV, FunctionDefV, ForLoopV, WhileLoopV, IfStatementV, AssignmentV,
};
use crate::text::str_eq;

verus! {

/// The map an association list denotes; a later entry wins.
pub open spec fn spec_env_map(entries: Seq<(String, Type)>) -> Map<Seq<char>, TypeV>
    decreases entries.len(),
{
    if entries.len() == 0 {
        Map::empty()
    } else {
        spec_env_map(entries.drop_last()).insert(entries.last().0@, entries.last().1@)
    }
}

proof fn lemma_env_map_at(entries: Seq<(String, Type)>, idx: int, name: Seq<char>)
    requires
        0 <= idx < entries.len(),
        entries[idx].0@ == name,
        forall|k: int| idx < k < entries.len() ==> (#[trigger] entries[k]).0@ != name,
    ensures
        spec_env_map(entries).contains_key(name),
        spec_env_map(entries)[name] == entries[idx].1@,
    decreases entries.len(),
{
    if idx == entries.len() - 1 {
    } else {
        lemma_env_map_at(entries.drop_last(), idx, name);
    }
}

proof fn lemma_env_map_none(entries: Seq<(String, Type)>, name: Seq<char>)
    requires
        forall|k: int| 0 <= k < entries.len() ==> (#[trigger] entries[k]).0@ != name,
    ensures
        !spec_env_map(entries).contains_key(name),
    decreases entries.len(),
{
    if entries.len() > 0 {
        lemma_env_map_none(entries.drop_last(), name);
    }
}

/// What an expression's type is, under the binding environment `vars` and
/// the function return types `fns`. Arithmetic yields `Float` when either
/// operand is `Float`; true division yields `Float` even over two `Int`
/// operands; floor division and modulo yield `Int`; comparisons, identity,
/// membership and the logical operators yield `Bool`; a list infers its
/// element type from its first element; a tuple infers element-wise; all
/// else is `Unknown`.
pub open spec fn spec_infer_expr(
    vars: Map<Seq<char>, TypeV>,
    fns: Map<Seq<char>, TypeV>,
    e: ExpressionV,
) -> TypeV
    decreases e,
{
    match e {
        ExpressionV::IntLit(_) => TypeV::Int,
        ExpressionV::FloatLit(_) => TypeV::Float,
        ExpressionV::BoolLit(_) => TypeV::Bool,
        ExpressionV::StringLit(_) => TypeV::String,
        ExpressionV::Identifier(n) => if vars.contains_key(n) {
            vars[n]
        } else {
            TypeV::Unknown
        },
        ExpressionV::BinOp(l, op, r) => {
            let lt = spec_infer_expr(vars, fns, *l);
            let rt = spec_infer_expr(vars, fns, *r);
            spec_binop_type(op, lt, rt)
        },
        ExpressionV::Call(f, _) => match *f {
            ExpressionV::Identifier(n) => if fns.contains_key(n) {
                fns[n]
            } else {
                TypeV::Unknown
            },
            _ => TypeV::Unknown,
        },
        ExpressionV::List(es) => if es.len() == 0 {
            TypeV::List(Box::new(TypeV::Unknown))
        } else {
            TypeV::List(Box::new(spec_infer_expr(vars, fns, es[0])))
        },
        ExpressionV::Tuple(es) => TypeV::Tuple(spec_infer_expr_seq(vars, fns, es)),
        _ => TypeV::Unknown,
    }
}

/// Element-wise inference over a tuple's members.
pub open spec fn spec_infer_expr_seq(
    vars: Map<Seq<char>, TypeV>,
    fns: Map<Seq<char>, TypeV>,
    es: Seq<ExpressionV>,
) -> Seq<TypeV>
    decreases es,
{
    Seq::new(
        es.len(),
        |i: int|
            if 0 <= i < es.len() {
                spec_infer_expr(vars, fns, es[i])
            } else {
                vstd::pervasive::arbitrary()
            },
    )
}

/// The typing rule for one binary operator.
pub open spec fn spec_binop_type(op: BinOp, lt: TypeV, rt: TypeV) -> TypeV {
    match op {
        BinOp::Add | BinOp::Sub | BinOp::Mult | BinOp::Div | BinOp::Pow => {
            if lt == TypeV::Float || rt == TypeV::Float {
                TypeV::Float
            } else if lt == TypeV::Int && rt == TypeV::Int {
                if op == BinOp::Div {
                    TypeV::Float
                } else {
                    TypeV::Int
                }
            } else {
                TypeV::Unknown
            }
        },
        BinOp::FloorDiv | BinOp::Mod => TypeV::Int,
        BinOp::Eq | BinOp::NotEq | BinOp::Lt | BinOp::LtE | BinOp::Gt | BinOp::GtE | BinOp::Is
            | BinOp::IsNot | BinOp::In | BinOp::NotIn | BinOp::And | BinOp::Or => TypeV::Bool,
        _ => TypeV::Unknown,
    }
}

/// Binds every assignment target to `t`, left to right.
pub open spec fn spec_insert_targets(
    vars: Map<Seq<char>, TypeV>,
    targets: Seq<Seq<char>>,
    t: TypeV,
) -> Map<Seq<char>, TypeV>
    decreases targets.len(),
{
    if targets.len() == 0 {
        vars
    } else {
        spec_insert_targets(vars.insert(targets[0], t), targets.drop_first(), t)
    }
}

/// Binds every declared parameter to its annotated type, left to right, so
/// that a body mentioning a parameter sees its declared type.
pub open spec fn spec_insert_params(
    vars: Map<Seq<char>, TypeV>,
    params: Seq<crate::ast_types::ParameterV>,
) -> Map<Seq<char>, TypeV>
    decreases params.len(),
{
    if params.len() == 0 {
        vars
    } else {
        spec_insert_params(vars.insert(params[0].name, params[0].typ), params.drop_first())
    }
}

/// The flow-insensitive return type: the type of the expression in the
/// first `return <expr>` found by a shallow scan of the body, else
/// `Unknown`. A documented simplification — no unification across branches.
pub open spec fn spec_return_type(
    vars: Map<Seq<char>, TypeV>,
    fns: Map<Seq<char>, TypeV>,
    body: Seq<StatementV>,
) -> TypeV
    decreases body,
{
    if body.len() == 0 {
        TypeV::Unknown
    } else {
        match body[0] {
            StatementV::Return(Option::Some(e)) => spec_infer_expr(vars, fns, e),
            _ => spec_return_type(vars, fns, body.drop_first()),
        }
    }
}

/// One statement inferred: the updated variable environment and the
/// statement with every reachable function definition's return type
/// annotated. `fns` is fixed during this pass.
pub open spec fn spec_infer_stmt(
    vars: Map<Seq<char>, TypeV>,
    fns: Map<Seq<char>, TypeV>,
    s: StatementV,
) -> (Map<Seq<char>, TypeV>, StatementV)
    decreases s,
{
    match s {
        StatementV::Assign(a) => {
            let t = spec_infer_expr(vars, fns, a.value);
            (spec_insert_targets(vars, a.targets, t), s)
        },
        StatementV::FunctionDef(f) => {
            let vars1 = spec_insert_params(vars, f.params);
            let r = spec_infer_stmts(vars1, fns, f.body);
            let rt = spec_return_type(r.0, fns, r.1);
            (
                r.0,
                StatementV::FunctionDef(
                    FunctionDefV { body: r.1, return_type: rt, ..f },
                ),
            )
        },
        StatementV::For(fl) => {
            let it = spec_infer_expr(vars, fns, fl.iter);
            let vars1 = match it {
                TypeV::List(el) => vars.insert(fl.target, *el),
                TypeV::Array(el, _) => vars.insert(fl.target, *el),
                _ => vars,
            };
            let r = spec_infer_stmts(vars1, fns, fl.body);
            (r.0, StatementV::For(ForLoopV { body: r.1, ..fl }))
        },
        StatementV::While(w) => {
            let r = spec_infer_stmts(vars, fns, w.body);
            (r.0, StatementV::While(WhileLoopV { body: r.1, ..w }))
        },
        StatementV::If(c) => {
            let r1 = spec_infer_stmts(vars, fns, c.then_body);
            match c.else_body {
                Option::Some(eb) => {
                    let r2 = spec_infer_stmts(r1.0, fns, eb);
                    (
                        r2.0,
                        StatementV::If(
                            IfStatementV {
                                then_body: r1.1,
                                else_body: Option::Some(r2.1),
                                ..c
                            },
                        ),
                    )
                },
                Option::None => (
                    r1.0,
                    StatementV::If(
                        IfStatementV { then_body: r1.1, else_body: Option::None, ..c },
                    ),
                ),
            }
        },
        _ => (vars, s),
    }
}

/// A statement sequence inferred left to right, threading the environment.
pub open spec fn spec_infer_stmts(
    vars: Map<Seq<char>, TypeV>,
    fns: Map<Seq<char>, TypeV>,
    ss: Seq<StatementV>,
) -> (Map<Seq<char>, TypeV>, Seq<StatementV>)
    decreases ss,
{
    if ss.len() == 0 {
        (vars, Seq::empty())
    } else {
        let r1 = spec_infer_stmt(vars, fns, ss[0]);
        let r2 = spec_infer_stmts(r1.0, fns, ss.drop_first());
        (r2.0, seq![r1.1] + r2.1)
    }
}

/// The first pass: every top-level function name registered with a
/// placeholder return type, enabling forward references in calls.
pub open spec fn spec_collect_fns(
    fns0: Map<Seq<char>, TypeV>,
    ss: Seq<StatementV>,
) -> Map<Seq<char>, TypeV>
    decreases ss.len(),
{
    if ss.len() == 0 {
        fns0
    } else {
        let m = spec_collect_fns(fns0, ss.drop_last());
        match ss.last() {
            StatementV::FunctionDef(f) => m.insert(f.name, TypeV::Unknown),
            _ => m,
        }
    }
}

/// A whole program inferred from the given starting environments.
pub open spec fn spec_infer_program_from(
    vars0: Map<Seq<char>, TypeV>,
    fns0: Map<Seq<char>, TypeV>,
    p: ProgramV,
) -> ProgramV {
    let fns = spec_collect_fns(fns0, p.statements);
    let r = spec_infer_stmts(vars0, fns, p.statements);
    ProgramV { statements: r.1, imports: p.imports }
}

/// A whole program inferred from empty environments: what one inference
/// pass over a fresh compile produces.
pub open spec fn spec_infer_program(p: ProgramV) -> ProgramV {
    spec_infer_program_from(Map::empty(), Map::empty(), p)
}

/// The per-compile inference state: variable bindings and function return
/// types, each an association list in which the latest entry wins.
pub struct TypeInference {
    variable_types: Vec<(String, Type)>,
    function_return_types: Vec<(String, Type)>,
}

impl TypeInference {
    /// The variable environment this state denotes.
    pub closed spec fn vars_map(&self) -> Map<Seq<char>, TypeV> {
        spec_env_map(self.variable_types@)
    }

    /// The function return-type environment this state denotes.
    pub closed spec fn fns_map(&self) -> Map<Seq<char>, TypeV> {
        spec_env_map(self.function_return_types@)
    }

    pub fn new() -> (r: TypeInference)
        ensures
            r.vars_map() == Map::<Seq<char>, TypeV>::empty(),
            r.fns_map() == Map::<Seq<char>, TypeV>::empty(),
    {
        TypeInference { variable_types: Vec::new(), function_return_types: Vec::new() }
    }

    /// The type bound to `name`, or `Unknown` when it is unbound.
    pub fn get_variable_type(&self, name: &str) -> (r: Type)
        ensures
            r@ == (if self.vars_map().contains_key(name@) {
                self.vars_map()[name@]
            } else {
                TypeV::Unknown
            }),
    {
        match env_lookup(&self.variable_types, name) {
            Option::Some(t) => t,
            Option::None => Type::Unknown,
        }
    }
}

/// Whether the type is exactly `Float`.
fn is_float_type(t: &Type) -> (r: bool)
    ensures
        r == (t@ == TypeV::Float),
{
    matches!(t, Type::Float)
}

/// Whether the type is exactly `Int`.
fn is_int_type(t: &Type) -> (r: bool)
    ensures
        r == (t@ == TypeV::Int),
{
    matches!(t, Type::Int)
}

/// The typing rule for one binary operator, executably.
fn binop_type_exec(op: BinOp, lt: &Type, rt: &Type) -> (r: Type)
    ensures
        r@ == spec_binop_type(op, lt@, rt@),
{
    match op {
        BinOp::Add | BinOp::Sub | BinOp::Mult | BinOp::Div | BinOp::Pow => {
            if is_float_type(lt) || is_float_type(rt) {
                Type::Float
            } else if is_int_type(lt) && is_int_type(rt) {
                if matches!(op, BinOp::Div) {
                    Type::Float
                } else {
                    Type::Int
                }
            } else {
                Type::Unknown
            }
        },
        BinOp::FloorDiv | BinOp::Mod => Type::Int,
        BinOp::Eq | BinOp::NotEq | BinOp::Lt | BinOp::LtE | BinOp::Gt | BinOp::GtE | BinOp::Is
            | BinOp::IsNot | BinOp::In | BinOp::NotIn | BinOp::And | BinOp::Or => Type::Bool,
        _ => Type::Unknown,
    }
}

impl TypeInference {
    /// Infers one expression's type under the current environments.
    fn infer_expression(&self, expr: &Expression) -> (r: Type)
        ensures
            r@ == spec_infer_expr(self.vars_map(), self.fns_map(), expr@),
        decreases expr,
    {
        match expr {
            Expression::IntLit(_) => Type::Int,
            Expression::FloatLit(_) => Type::Float,
            Expression::BoolLit(_) => Type::Bool,
            Expression::StringLit(_) => Type::String,
            Expression::Identifier(name) => {
                let out = match env_lookup(&self.variable_types, name.as_str()) {
                    Option::Some(t) => t,
                    Option::None => Type::Unknown,
                };
                proof {
                    assert(out@ == spec_infer_expr(self.vars_map(), self.fns_map(), expr@));
                }
                out
            },
            Expression::BinOp(l, op, r) => {
                let lt = self.infer_expression(&**l);
                let rt = self.infer_expression(&**r);
                let out = binop_type_exec(*op, &lt, &rt);
                proof {
                    assert(out@ == spec_binop_type(*op, lt@, rt@));
                    assert(spec_infer_expr(self.vars_map(), self.fns_map(), expr@)
                        == spec_binop_type(
                        *op,
                        spec_infer_expr(self.vars_map(), self.fns_map(), (**l)@),
                        spec_infer_expr(self.vars_map(), self.fns_map(), (**r)@),
                    ));
                }
                out
            },
            Expression::Call(f, args) => {
                let out = match &**f {
                    Expression::Identifier(name) => {
                        match env_lookup(&self.function_return_types, name.as_str()) {
                            Option::Some(t) => t,
                            Option::None => Type::Unknown,
                        }
                    },
                    _ => Type::Unknown,
                };
                proof {
                    assert(expr@ == ExpressionV::Call(
                        Box::new((**f)@),
                        crate::ast_types::view_expr_seq(args@),
                    ));
                    match &**f {
                        Expression::Identifier(name) => {
                            assert((**f)@ == ExpressionV::Identifier(name@));
                        },
                        _ => {
                            assert(!((**f)@ matches ExpressionV::Identifier(_)));
                        },
                    }
                    assert(out@ == spec_infer_expr(self.vars_map(), self.fns_map(), expr@));
                }
                out
            },
            Expression::List(es) => {
                let out = if es.len() == 0 {
                    Type::List(Box::new(Type::Unknown))
                } else {
                    Type::List(Box::new(self.infer_expression(&es[0])))
                };
                proof {
                    reveal_with_fuel(crate::ast_types::view_type, 2);
                    assert(expr@ == ExpressionV::List(crate::ast_types::view_expr_seq(es@)));
                    if es@.len() > 0 {
                        assert(crate::ast_types::view_expr_seq(es@)[0] == es@[0]@);
                    }
                    assert(out@ == spec_infer_expr(self.vars_map(), self.fns_map(), expr@));
                }
                out
            },
            Expression::Tuple(es) => {
                let out = Type::Tuple(self.infer_expr_vec(es));
                proof {
                    assert(out@ == spec_infer_expr(self.vars_map(), self.fns_map(), expr@));
                }
                out
            },
            _ => {
                proof {
                    assert(spec_infer_expr(self.vars_map(), self.fns_map(), expr@)
                        == TypeV::Unknown);
                }
                Type::Unknown
            },
        }
    }

    /// Element-wise inference over a tuple's members.
    fn infer_expr_vec(&self, es: &Vec<Expression>) -> (r: Vec<Type>)
        ensures
            crate::ast_types::view_type_seq(r@) == spec_infer_expr_seq(
                self.vars_map(),
                self.fns_map(),
                crate::ast_types::view_expr_seq(es@),
            ),
        decreases es@,
    {
        let mut out: Vec<Type> = Vec::new();
        let mut i: usize = 0;
        while i < es.len()
            invariant
                i <= es@.len(),
                out@.len() == i,
                forall|k: int|
                    0 <= k < i ==> out@[k]@ == spec_infer_expr(
                        self.vars_map(),
                        self.fns_map(),
                        crate::ast_types::view_expr_seq(es@)[k],
                    ),
            decreases es@.len() - i,
        {
            out.push(self.infer_expression(&es[i]));
            i += 1;
        }
        proof {
            assert(crate::ast_types::view_type_seq(out@) =~= spec_infer_expr_seq(
                self.vars_map(),
                self.fns_map(),
                crate::ast_types::view_expr_seq(es@),
            ));
        }
        out
    }

    /// The flow-insensitive return type of a body: the type of the first
    /// `return <expr>` found by a shallow scan.
    fn infer_function_return_type(&self, body: &Vec<Statement>) -> (r: Type)
        ensures
            r@ == spec_return_type(
                self.vars_map(),
                self.fns_map(),
                crate::ast_types::view_stmt_seq(body@),
            ),
    {
        let n = body.len();
        proof {
            assert(crate::ast_types::view_stmt_seq(body@).subrange(0, n as int)
                =~= crate::ast_types::view_stmt_seq(body@));
        }
        let mut i: usize = 0;
        while i < n
            invariant
                i <= n,
                n == body@.len(),
                spec_return_type(
                    self.vars_map(),
                    self.fns_map(),
                    crate::ast_types::view_stmt_seq(body@),
                ) == spec_return_type(
                    self.vars_map(),
                    self.fns_map(),
                    crate::ast_types::view_stmt_seq(body@).subrange(i as int, n as int),
                ),
            decreases n - i,
        {
            let ghost tail = crate::ast_types::view_stmt_seq(body@).subrange(i as int, n as int);
            match &body[i] {
                Statement::Return(Some(expr)) => {
                    proof {
                        assert(tail[0] == crate::ast_types::view_stmt_seq(body@)[i as int]);
                    }
                    return self.infer_expression(expr);
                },
                _ => {
                    proof {
                        assert(tail[0] == crate::ast_types::view_stmt_seq(body@)[i as int]);
                        assert(tail.drop_first() =~= crate::ast_types::view_stmt_seq(
                            body@,
                        ).subrange(i + 1 as int, n as int));
                    }
                },
            }
            i += 1;
        }
        proof {
            assert(crate::ast_types::view_stmt_seq(body@).subrange(n as int, n as int).len() == 0);
        }
        Type::Unknown
    }

    /// Infers one statement, updating the variable environment and
    /// annotating the return type of every function definition it reaches.
    fn infer_statement(&mut self, s: Statement) -> (r: Statement)
        ensures
            final(self).fns_map() == old(self).fns_map(),
            final(self).vars_map() == spec_infer_stmt(
                old(self).vars_map(),
                old(self).fns_map(),
                s@,
            ).0,
            r@ == spec_infer_stmt(old(self).vars_map(), old(self).fns_map(), s@).1,
        decreases s,
    {
        match s {
            Statement::Assign(a) => {
                let t = self.infer_expression(&a.value);
                let ghost vars0 = self.vars_map();
                let ghost targets = crate::text::view_string_seq(a.targets@);
                let n = a.targets.len();
                proof {
                    assert(targets.subrange(0, n as int) =~= targets);
                }
                let mut i: usize = 0;
                while i < n
                    invariant
                        i <= n,
                        n == a.targets@.len(),
                        targets == crate::text::view_string_seq(a.targets@),
                        self.fns_map() == old(self).fns_map(),
                        spec_insert_targets(self.vars_map(), targets.subrange(i as int, n as int), t@)
                            == spec_insert_targets(vars0, targets, t@),
                    decreases n - i,
                {
                    let ghost tail = targets.subrange(i as int, n as int);
                    env_insert(&mut self.variable_types, a.targets[i].clone(), t.clone());
                    proof {
                        assert(tail[0] == targets[i as int]);
                        assert(tail.drop_first() =~= targets.subrange(i + 1 as int, n as int));
                    }
                    i += 1;
                }
                proof {
                    assert(targets.subrange(n as int, n as int).len() == 0);
                }
                Statement::Assign(a)
            },
            Statement::FunctionDef(f) => {
                let FunctionDef { name, params, body, return_type: _, directives } = f;
                let ghost vars0 = self.vars_map();
                let ghost pv = crate::ast_types::view_param_seq(params@);
                let n = params.len();
                proof {
                    assert(pv.subrange(0, n as int) =~= pv);
                }
                let mut i: usize = 0;
                while i < n
                    invariant
                        i <= n,
                        n == params@.len(),
                        pv == crate::ast_types::view_param_seq(params@),
                        self.fns_map() == old(self).fns_map(),
                        spec_insert_params(self.vars_map(), pv.subrange(i as int, n as int))
                            == spec_insert_params(vars0, pv),
                    decreases n - i,
                {
                    let ghost tail = pv.subrange(i as int, n as int);
                    env_insert(
                        &mut self.variable_types,
                        params[i].name.clone(),
                        params[i].typ.clone(),
                    );
                    proof {
                        assert(tail[0] == pv[i as int]);
                        assert(tail.drop_first() =~= pv.subrange(i + 1 as int, n as int));
                    }
                    i += 1;
                }
                proof {
                    assert(pv.subrange(n as int, n as int).len() == 0);
                }
                let new_body = self.infer_stmt_vec(body);
                let rt = self.infer_function_return_type(&new_body);
                Statement::FunctionDef(
                    FunctionDef { name, params, body: new_body, return_type: rt, directives },
                )
            },
            Statement::For(fl) => {
                let crate::ast_types::ForLoop { target, iter, body } = fl;
                let it = self.infer_expression(&iter);
                match it {
                    Type::List(el) => {
                        env_insert(&mut self.variable_types, target.clone(), *el);
                    },
                    Type::Array(el, _) => {
                        env_insert(&mut self.variable_types, target.clone(), *el);
                    },
                    _ => {},
                }
                let new_body = self.infer_stmt_vec(body);
                Statement::For(crate::ast_types::ForLoop { target, iter, body: new_body })
            },
            Statement::While(w) => {
                let crate::ast_types::WhileLoop { condition, body } = w;
                let new_body = self.infer_stmt_vec(body);
                Statement::While(crate::ast_types::WhileLoop { condition, body: new_body })
            },
            Statement::If(c) => {
                let crate::ast_types::IfStatement { condition, then_body, else_body } = c;
                let new_then = self.infer_stmt_vec(then_body);
                let new_else = match else_body {
                    Option::Some(eb) => Option::Some(self.infer_stmt_vec(eb)),
                    Option::None => Option::None,
                };
                Statement::If(
                    crate::ast_types::IfStatement {
                        condition,
                        then_body: new_then,
                        else_body: new_else,
                    },
                )
            },
            _ => s,
        }
    }

    /// Infers a statement sequence left to right.
    fn infer_stmt_vec(&mut self, ss: Vec<Statement>) -> (r: Vec<Statement>)
        ensures
            final(self).fns_map() == old(self).fns_map(),
            final(self).vars_map() == spec_infer_stmts(
                old(self).vars_map(),
                old(self).fns_map(),
                crate::ast_types::view_stmt_seq(ss@),
            ).0,
            crate::ast_types::view_stmt_seq(r@) == spec_infer_stmts(
                old(self).vars_map(),
                old(self).fns_map(),
                crate::ast_types::view_stmt_seq(ss@),
            ).1,
        decreases ss@,
    {
        let ghost ssv = crate::ast_types::view_stmt_seq(ss@);
        if ss.len() == 0 {
            proof {
                assert(ssv.len() == 0);
            }
            return ss;
        }
        let mut rest = ss;
        let first = rest.remove(0);
        proof {
            assert(first@ == ssv[0]);
            assert(crate::ast_types::view_stmt_seq(rest@) =~= ssv.drop_first());
        }
        let first2 = self.infer_statement(first);
        let rest2 = self.infer_stmt_vec(rest);
        let mut out = rest2;
        out.insert(0, first2);
        proof {
            assert(crate::ast_types::view_stmt_seq(out@) =~= seq![
                spec_infer_stmt(old(self).vars_map(), old(self).fns_map(), ssv[0]).1,
            ] + spec_infer_stmts(
                spec_infer_stmt(old(self).vars_map(), old(self).fns_map(), ssv[0]).0,
                old(self).fns_map(),
                ssv.drop_first(),
            ).1);
        }
        out
    }

    /// Runs both inference passes over the program in place: first every
    /// top-level function name is registered with a placeholder return
    /// type, then every statement is inferred in order.
    pub fn infer_program(&mut self, program: &mut Program)
        ensures
            final(program)@ == spec_infer_program_from(
                old(self).vars_map(),
                old(self).fns_map(),
                old(program)@,
            ),
            final(self).fns_map() == spec_collect_fns(
                old(self).fns_map(),
                old(program)@.statements,
            ),
            final(self).vars_map() == spec_infer_stmts(
                old(self).vars_map(),
                spec_collect_fns(old(self).fns_map(), old(program)@.statements),
                old(program)@.statements,
            ).0,
    {
        let ghost ssv = crate::ast_types::view_stmt_seq(program.statements@);
        let n = program.statements.len();
        let mut i: usize = 0;
        while i < n
            invariant
                i <= n,
                *program == *old(program),
                n == program.statements@.len(),
                ssv == crate::ast_types::view_stmt_seq(program.statements@),
                self.vars_map() == old(self).vars_map(),
                self.fns_map() == spec_collect_fns(old(self).fns_map(), ssv.take(i as int)),
            decreases n - i,
        {
            match &program.statements[i] {
                Statement::FunctionDef(f) => {
                    proof {
                        assert(ssv[i as int] == StatementV::FunctionDef(
                            crate::ast_types::view_fndef(*f),
                        ));
                    }
                    env_insert(
                        &mut self.function_return_types,
                        f.name.clone(),
                        Type::Unknown,
                    );
                },
                _ => {
                    proof {
                        assert(!(ssv[i as int] matches StatementV::FunctionDef(_)));
                    }
                },
            }
            proof {
                assert(ssv.take(i + 1 as int).drop_last() =~= ssv.take(i as int));
                assert(ssv.take(i + 1 as int).last() == ssv[i as int]);
            }
            i += 1;
        }
        proof {
            assert(ssv.take(n as int) =~= ssv);
        }
        let mut stmts: Vec<Statement> = Vec::new();
        core::mem::swap(&mut stmts, &mut program.statements);
        proof {
            assert(crate::ast_types::view_stmt_seq(stmts@) == ssv);
        }
        let new_stmts = self.infer_stmt_vec(stmts);
        program.statements = new_stmts;
        proof {
            assert(program@ =~~= spec_infer_program_from(
                old(self).vars_map(),
                old(self).fns_map(),
                old(program)@,
            ));
        }
    }
}

/// Two statements that differ at most in the inferred return types of the
/// function definitions that inference reaches (function, loop and branch
/// bodies; never a class body, which inference does not enter).
pub open spec fn same_skel_stmt(a: StatementV, b: StatementV) -> bool
    decreases a,
{
    match a {
        StatementV::FunctionDef(f1) => match b {
            StatementV::FunctionDef(f2) => f1.name == f2.name && f1.params == f2.params
                && f1.directives == f2.directives && same_skel_stmts(f1.body, f2.body),
            _ => false,
        },
        StatementV::For(x) => match b {
            StatementV::For(y) => x.target == y.target && x.iter == y.iter && same_skel_stmts(
                x.body,
                y.body,
            ),
            _ => false,
        },
        StatementV::While(x) => match b {
            StatementV::While(y) => x.condition == y.condition && same_skel_stmts(x.body, y.body),
            _ => false,
        },
        StatementV::If(x) => match b {
            StatementV::If(y) => x.condition == y.condition && same_skel_stmts(
                x.then_body,
                y.then_body,
            ) && (match (x.else_body, y.else_body) {
                (Option::None, Option::None) => true,
                (Option::Some(xe), Option::Some(ye)) => same_skel_stmts(xe, ye),
                _ => false,
            }),
            _ => false,
        },
        _ => a == b,
    }
}

/// Pointwise skeleton equality of statement sequences.
pub open spec fn same_skel_stmts(x: Seq<StatementV>, y: Seq<StatementV>) -> bool
    decreases x,
{
    x.len() == y.len() && forall|i: int|
        0 <= i < x.len() ==> same_skel_stmt(#[trigger] x[i], y[i])
}

/// Inference changes nothing but inferred return types.
proof fn lemma_infer_skel(
    vars: Map<Seq<char>, TypeV>,
    fns: Map<Seq<char>, TypeV>,
    s: StatementV,
)
    ensures
        same_skel_stmt(s, spec_infer_stmt(vars, fns, s).1),
    decreases s,
{
    match s {
        StatementV::FunctionDef(f) => {
            lemma_infer_skel_stmts(spec_insert_params(vars, f.params), fns, f.body);
        },
        StatementV::For(fl) => {
            let it = spec_infer_expr(vars, fns, fl.iter);
            let vars1 = match it {
                TypeV::List(el) => vars.insert(fl.target, *el),
                TypeV::Array(el, _) => vars.insert(fl.target, *el),
                _ => vars,
            };
            lemma_infer_skel_stmts(vars1, fns, fl.body);
        },
        StatementV::While(w) => {
            lemma_infer_skel_stmts(vars, fns, w.body);
        },
        StatementV::If(c) => {
            let r1 = spec_infer_stmts(vars, fns, c.then_body);
            lemma_infer_skel_stmts(vars, fns, c.then_body);
            match c.else_body {
                Option::Some(eb) => {
                    lemma_infer_skel_stmts(r1.0, fns, eb);
                },
                Option::None => {},
            }
        },
        _ => {},
    }
}

proof fn lemma_infer_skel_stmts(
    vars: Map<Seq<char>, TypeV>,
    fns: Map<Seq<char>, TypeV>,
    ss: Seq<StatementV>,
)
    ensures
        same_skel_stmts(ss, spec_infer_stmts(vars, fns, ss).1),
    decreases ss,
{
    if ss.len() > 0 {
        let r1 = spec_infer_stmt(vars, fns, ss[0]);
        lemma_infer_skel(vars, fns, ss[0]);
        lemma_infer_skel_stmts(r1.0, fns, ss.drop_first());
        let out = spec_infer_stmts(vars, fns, ss).1;
        assert(out == seq![r1.1] + spec_infer_stmts(r1.0, fns, ss.drop_first()).1);
        assert forall|i: int| 0 <= i < ss.len() implies same_skel_stmt(
            #[trigger] ss[i],
            out[i],
        ) by {
            if i == 0 {
                assert(out[0] == r1.1);
            } else {
                assert(ss.drop_first()[i - 1] == ss[i]);
                assert(out[i] == spec_infer_stmts(r1.0, fns, ss.drop_first()).1[i - 1]);
            }
        }
    }
}

/// Inference is determined by the skeleton: statements equal up to
/// inferred return types infer identically.
proof fn lemma_infer_congr(
    vars: Map<Seq<char>, TypeV>,
    fns: Map<Seq<char>, TypeV>,
    a: StatementV,
    b: StatementV,
)
    requires
        same_skel_stmt(a, b),
    ensures
        spec_infer_stmt(vars, fns, a) == spec_infer_stmt(vars, fns, b),
    decreases a,
{
    match a {
        StatementV::FunctionDef(f1) => {
            let f2 = b->FunctionDef_0;
            let vars1 = spec_insert_params(vars, f1.params);
            lemma_infer_congr_stmts(vars1, fns, f1.body, f2.body);
            assert(spec_infer_stmt(vars, fns, a).1 =~~= spec_infer_stmt(vars, fns, b).1);
        },
        StatementV::For(x) => {
            let y = b->For_0;
            let it = spec_infer_expr(vars, fns, x.iter);
            let vars1 = match it {
                TypeV::List(el) => vars.insert(x.target, *el),
                TypeV::Array(el, _) => vars.insert(x.target, *el),
                _ => vars,
            };
            lemma_infer_congr_stmts(vars1, fns, x.body, y.body);
            assert(spec_infer_stmt(vars, fns, a).1 =~~= spec_infer_stmt(vars, fns, b).1);
        },
        StatementV::While(x) => {
            let y = b->While_0;
            lemma_infer_congr_stmts(vars, fns, x.body, y.body);
            assert(spec_infer_stmt(vars, fns, a).1 =~~= spec_infer_stmt(vars, fns, b).1);
        },
        StatementV::If(x) => {
            let y = b->If_0;
            lemma_infer_congr_stmts(vars, fns, x.then_body, y.then_body);
            let r1 = spec_infer_stmts(vars, fns, x.then_body);
            match (x.else_body, y.else_body) {
                (Option::Some(xe), Option::Some(ye)) => {
                    lemma_infer_congr_stmts(r1.0, fns, xe, ye);
                },
                _ => {},
            }
            assert(spec_infer_stmt(vars, fns, a).1 =~~= spec_infer_stmt(vars, fns, b).1);
        },
        _ => {},
    }
}

proof fn lemma_infer_congr_stmts(
    vars: Map<Seq<char>, TypeV>,
    fns: Map<Seq<char>, TypeV>,
    x: Seq<StatementV>,
    y: Seq<StatementV>,
)
    requires
        same_skel_stmts(x, y),
    ensures
        spec_infer_stmts(vars, fns, x) == spec_infer_stmts(vars, fns, y),
    decreases x,
{
    if x.len() > 0 {
        assert(same_skel_stmt(x[0], y[0]));
        lemma_infer_congr(vars, fns, x[0], y[0]);
        let r1 = spec_infer_stmt(vars, fns, x[0]);
        assert(same_skel_stmts(x.drop_first(), y.drop_first())) by {
            assert forall|i: int| 0 <= i < x.drop_first().len() implies same_skel_stmt(
                #[trigger] x.drop_first()[i],
                y.drop_first()[i],
            ) by {
                assert(x.drop_first()[i] == x[i + 1]);
                assert(y.drop_first()[i] == y[i + 1]);
            }
        }
        lemma_infer_congr_stmts(r1.0, fns, x.drop_first(), y.drop_first());
    }
}

/// The first pass sees only function names, which the skeleton fixes.
proof fn lemma_collect_congr(
    fns0: Map<Seq<char>, TypeV>,
    x: Seq<StatementV>,
    y: Seq<StatementV>,
)
    requires
        same_skel_stmts(x, y),
    ensures
        spec_collect_fns(fns0, x) == spec_collect_fns(fns0, y),
    decreases x.len(),
{
    if x.len() > 0 {
        assert(same_skel_stmts(x.drop_last(), y.drop_last())) by {
            assert forall|i: int| 0 <= i < x.drop_last().len() implies same_skel_stmt(
                #[trigger] x.drop_last()[i],
                y.drop_last()[i],
            ) by {
                assert(x.drop_last()[i] == x[i]);
                assert(y.drop_last()[i] == y[i]);
            }
        }
        lemma_collect_congr(fns0, x.drop_last(), y.drop_last());
        assert(same_skel_stmt(x.last(), y.last()));
    }
}

/// Type inference is a pure function of the AST, and idempotent:
/// re-running it on an already-annotated program yields the identical
/// program.
pub proof fn lemma_infer_idempotent(p: ProgramV)
    ensures
        spec_infer_program(spec_infer_program(p)) == spec_infer_program(p),
{
    let fns = spec_collect_fns(Map::empty(), p.statements);
    let r = spec_infer_stmts(Map::empty(), fns, p.statements);
    let p1 = spec_infer_program(p);
    assert(p1.statements == r.1);
    lemma_infer_skel_stmts(Map::empty(), fns, p.statements);
    lemma_collect_congr(Map::empty(), p.statements, r.1);
    assert(spec_collect_fns(Map::empty(), p1.statements) == fns);
    lemma_infer_congr_stmts(Map::empty(), fns, p.statements, r.1);
    assert(spec_infer_stmts(Map::empty(), fns, p1.statements) == r);
    assert(spec_infer_program(p1) =~~= p1);
}

/// Looks `name` up in an association list; the latest entry wins.
fn env_lookup(entries: &Vec<(String, Type)>, name: &str) -> (r: Option<Type>)
    ensures
        match r {
            Option::Some(t) => spec_env_map(entries@).contains_key(name@) && t@ == spec_env_map(
                entries@,
            )[name@],
            Option::None => !spec_env_map(entries@).contains_key(name@),
        },
{
    let mut idx = entries.len();
    while idx > 0
        invariant
            idx <= entries@.len(),
            forall|k: int| idx <= k < entries@.len() ==> (#[trigger] entries@[k]).0@ != name@,
        decreases idx,
    {
        idx -= 1;
        if str_eq(entries[idx].0.as_str(), name) {
            proof {
                lemma_env_map_at(entries@, idx as int, name@);
            }
            return Some(entries[idx].1.clone());
        }
    }
    proof {
        lemma_env_map_none(entries@, name@);
    }
    None
}

/// Binds `name` to `t`; the new entry shadows any earlier one.
fn env_insert(entries: &mut Vec<(String, Type)>, name: String, t: Type)
    ensures
        spec_env_map(final(entries)@) == spec_env_map(old(entries)@).insert(name@, t@),
{
    let ghost pre = entries@;
    entries.push((name, t));
    proof {
        assert(entries@.drop_last() =~= pre);
    }
}

} // verus!
