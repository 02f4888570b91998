//! The code generator: lowers a type-annotated program to statically typed
//! native source text. Semantics follow the source language: true division
//! always produces a floating-point result (through the runtime prelude's
//! `Float` alias), floor division and modulo keep the language's sign
//! conventions through the prelude's `floor_div`/`floor_mod` helpers, and
//! exponentiation goes through `ipow`, whose negative-exponent failure is a
//! run-time error. The driver that invokes the toolchain prepends the
//! `Float` alias and the parallel-execution library's prelude. Functions
//! carrying the `no-compile` directive are not emitted — their calls are
//! routed to the fallback collaborator; `inline`-flagged functions carry
//! an inlining hint; and in a function the optimizer proved parallelizable,
//! `for` loops are emitted with the data-parallel construct.
use vstd::prelude::*;
use vstd::string::StringExecFns;
use crate::ast_types::{
    BinOp, Expression, ExpressionV, FunctionDef, FunctionDefV, Parameter, ParameterV, Program,
    ProgramV, Statement, StatementV, Type, TypeV, UnaryOp,
};
use crate::directives::DirectiveSet;
use crate::ir::{IRFunction, IRFunctionV, IRInstruction, IRInstructionV, IRModule, IRModuleV};
use crate::text::{str_to_string, string_from_chars};

verus! {

/// One decimal digit.
pub open spec fn spec_digit_char(d: int) -> char {
    if d == 0 {
        '0'
    } else if d == 1 {
        '1'
    } else if d == 2 {
        '2'
    } else if d == 3 {
        '3'
    } else if d == 4 {
        '4'
    } else if d == 5 {
        '5'
    } else if d == 6 {
        '6'
    } else if d == 7 {
        '7'
    } else if d == 8 {
        '8'
    } else {
        '9'
    }
}

/// The decimal text of a nonnegative number.
pub open spec fn spec_nat_dec(n: int) -> Seq<char>
    decreases n,
{
    if n < 10 {
        seq![spec_digit_char(if n < 0 {
            0
        } else {
            n % 10
        })]
    } else {
        spec_nat_dec(n / 10) + seq![spec_digit_char(n % 10)]
    }
}

/// The decimal text of a signed number.
pub open spec fn spec_i64_dec(n: i64) -> Seq<char> {
    if n < 0 {
        seq!['-'] + spec_nat_dec(-(n as int))
    } else {
        spec_nat_dec(n as int)
    }
}

fn digit_char(d: u64) -> (r: char)
    requires
        d < 10,
    ensures
        r == spec_digit_char(d as int),
{
    if d == 0 {
        '0'
    } else if d == 1 {
        '1'
    } else if d == 2 {
        '2'
    } else if d == 3 {
        '3'
    } else if d == 4 {
        '4'
    } else if d == 5 {
        '5'
    } else if d == 6 {
        '6'
    } else if d == 7 {
        '7'
    } else if d == 8 {
        '8'
    } else {
        '9'
    }
}

fn nat_dec(n: u64) -> (r: Vec<char>)
    ensures
        r@ == spec_nat_dec(n as int),
    decreases n,
{
    if n < 10 {
        let mut out: Vec<char> = Vec::new();
        out.push(digit_char(n));
        proof {
            assert(out@ =~= seq![spec_digit_char(n as int % 10)]);
            assert(n as int % 10 == n as int);
        }
        out
    } else {
        let mut out = nat_dec(n / 10);
        let ghost pre = out@;
        out.push(digit_char(n % 10));
        proof {
            assert(out@ =~= pre.push(spec_digit_char(n as int % 10)));
            assert(pre.push(spec_digit_char(n as int % 10)) =~= spec_nat_dec(n as int / 10)
                + seq![spec_digit_char(n as int % 10)]);
        }
        out
    }
}

/// The decimal text of a signed number, executably.
pub fn i64_dec(n: i64) -> (r: String)
    ensures
        r@ == spec_i64_dec(n),
{
    if n >= 0 {
        string_from_chars(&nat_dec(n as u64))
    } else {
        let mag: u64 = if n == i64::MIN {
            9223372036854775808u64
        } else {
            (-n) as u64
        };
        proof {
            assert(mag as int == -(n as int));
        }
        let mut out: Vec<char> = Vec::new();
        out.push('-');
        let digits = nat_dec(mag);
        let mut k: usize = 0;
        while k < digits.len()
            invariant
                k <= digits@.len(),
                out@ == seq!['-'] + digits@.take(k as int),
            decreases digits@.len() - k,
        {
            let ghost pre = out@;
            out.push(digits[k]);
            proof {
                assert(out@ =~= seq!['-'] + digits@.take(k + 1 as int));
            }
            k += 1;
        }
        proof {
            assert(digits@.take(digits@.len() as int) =~= digits@);
        }
        string_from_chars(&out)
    }
}

/// The native type text of a source type.
pub open spec fn spec_rust_type(t: TypeV) -> Seq<char>
    decreases t,
{
    match t {
        TypeV::Int => "i64"@,
        TypeV::Float => "Float"@,
        TypeV::Bool => "bool"@,
        TypeV::String => "String"@,
        TypeV::List(e) => "Vec<"@ + spec_rust_type(*e) + ">"@,
        TypeV::Array(e, _) => "Vec<"@ + spec_rust_type(*e) + ">"@,
        _ => "()"@,
    }
}

/// The native type text, executably.
pub fn rust_type(t: &Type) -> (r: String)
    ensures
        r@ == spec_rust_type(t@),
    decreases t,
{
    match t {
        Type::Int => str_to_string("i64"),
        Type::Float => str_to_string("Float"),
        Type::Bool => str_to_string("bool"),
        Type::String => str_to_string("String"),
        Type::List(e) => {
            let mut out = str_to_string("Vec<");
            let inner = rust_type(&**e);
            out.append(inner.as_str());
            out.append(">");
            out
        },
        Type::Array(e, _) => {
            let mut out = str_to_string("Vec<");
            let inner = rust_type(&**e);
            out.append(inner.as_str());
            out.append(">");
            out
        },
        _ => str_to_string("()"),
    }
}

/// The plain operator token of a binary operator that lowers to a native
/// infix operator; the structured forms (division, floor division, modulo,
/// power, membership) are handled by the expression printer.
pub open spec fn spec_infix_token(op: BinOp) -> Seq<char> {
    match op {
        BinOp::Add => "+"@,
        BinOp::Sub => "-"@,
        BinOp::Mult => "*"@,
        BinOp::LShift => "<<"@,
        BinOp::RShift => ">>"@,
        BinOp::BitOr => "|"@,
        BinOp::BitXor => "^"@,
        BinOp::BitAnd => "&"@,
        BinOp::Eq => "=="@,
        BinOp::NotEq => "!="@,
        BinOp::Lt => "<"@,
        BinOp::LtE => "<="@,
        BinOp::Gt => ">"@,
        BinOp::GtE => ">="@,
        BinOp::Is => "=="@,
        BinOp::IsNot => "!="@,
        BinOp::And => "&&"@,
        BinOp::Or => "||"@,
        _ => "+"@,
    }
}

fn infix_token(op: BinOp) -> (r: String)
    ensures
        r@ == spec_infix_token(op),
{
    match op {
        BinOp::Add => str_to_string("+"),
        BinOp::Sub => str_to_string("-"),
        BinOp::Mult => str_to_string("*"),
        BinOp::LShift => str_to_string("<<"),
        BinOp::RShift => str_to_string(">>"),
        BinOp::BitOr => str_to_string("|"),
        BinOp::BitXor => str_to_string("^"),
        BinOp::BitAnd => str_to_string("&"),
        BinOp::Eq => str_to_string("=="),
        BinOp::NotEq => str_to_string("!="),
        BinOp::Lt => str_to_string("<"),
        BinOp::LtE => str_to_string("<="),
        BinOp::Gt => str_to_string(">"),
        BinOp::GtE => str_to_string(">="),
        BinOp::Is => str_to_string("=="),
        BinOp::IsNot => str_to_string("!="),
        BinOp::And => str_to_string("&&"),
        BinOp::Or => str_to_string("||"),
        _ => str_to_string("+"),
    }
}

/// The native text of one expression.
pub open spec fn spec_gen_expr(e: ExpressionV) -> Seq<char>
    decreases e, 1int,
{
    match e {
        ExpressionV::IntLit(n) => spec_i64_dec(n),
        ExpressionV::FloatLit(s) => s,
        ExpressionV::BoolLit(b) => if b {
            "true"@
        } else {
            "false"@
        },
        ExpressionV::StringLit(s) => seq!['"'] + s + seq!['"'],
        ExpressionV::Identifier(n) => n,
        ExpressionV::BinOp(l, op, r) => {
            if op == BinOp::Div {
                "((("@ + spec_gen_expr(*l) + ") as Float) / (("@ + spec_gen_expr(*r)
                    + ") as Float))"@
            } else if op == BinOp::FloorDiv {
                "floor_div("@ + spec_gen_expr(*l) + ", "@ + spec_gen_expr(*r) + ")"@
            } else if op == BinOp::Mod {
                "floor_mod("@ + spec_gen_expr(*l) + ", "@ + spec_gen_expr(*r) + ")"@
            } else if op == BinOp::Pow {
                "ipow("@ + spec_gen_expr(*l) + ", "@ + spec_gen_expr(*r) + ")"@
            } else if op == BinOp::In {
                "("@ + spec_gen_expr(*r) + ").contains(&("@ + spec_gen_expr(*l) + "))"@
            } else if op == BinOp::NotIn {
                "!("@ + spec_gen_expr(*r) + ").contains(&("@ + spec_gen_expr(*l) + "))"@
            } else {
                "("@ + spec_gen_expr(*l) + " "@ + spec_infix_token(op) + " "@ + spec_gen_expr(*r)
                    + ")"@
            }
        },
        ExpressionV::UnaryOp(op, e0) => {
            let inner = spec_gen_expr(*e0);
            match op {
                UnaryOp::Not => "!("@ + inner + ")"@,
                UnaryOp::Neg => "-("@ + inner + ")"@,
                UnaryOp::Pos => "("@ + inner + ")"@,
                UnaryOp::Invert => "!("@ + inner + ")"@,
            }
        },
        ExpressionV::Call(f, args) => spec_gen_expr(*f) + "("@ + spec_gen_args(args) + ")"@,
        ExpressionV::Index(a, i) => "("@ + spec_gen_expr(*a) + ")[("@ + spec_gen_expr(*i)
            + ") as usize]"@,
        ExpressionV::Conditional(c, a, b) => "(if "@ + spec_gen_expr(*c) + " { "@ + spec_gen_expr(
            *a,
        ) + " } else { "@ + spec_gen_expr(*b) + " })"@,
        _ => "()"@,
    }
}

/// The comma-joined argument texts.
pub open spec fn spec_gen_args(args: Seq<ExpressionV>) -> Seq<char>
    decreases args, 2int,
{
    if args.len() == 0 {
        Seq::empty()
    } else if args.len() == 1 {
        spec_gen_expr(args[0])
    } else {
        spec_gen_expr(args[0]) + ", "@ + spec_gen_args(args.drop_first())
    }
}

/// The native text of one expression, executably.
pub fn gen_expr(e: &Expression) -> (r: String)
    ensures
        r@ == spec_gen_expr(e@),
    decreases e, 1int,
{
    match e {
        Expression::IntLit(n) => i64_dec(*n),
        Expression::FloatLit(s) => s.clone(),
        Expression::BoolLit(b) => if *b {
            str_to_string("true")
        } else {
            str_to_string("false")
        },
        Expression::StringLit(s) => {
            let mut out = str_to_string("\"");
            out.append(s.as_str());
            out.append("\"");
            proof {
                reveal_strlit("\"");
                assert(out@ =~= seq!['"'] + s@ + seq!['"']);
            }
            out
        },
        Expression::Identifier(n) => n.clone(),
        Expression::BinOp(l, op, r) => {
            let lt = gen_expr(&**l);
            let rt = gen_expr(&**r);
            let out = if matches!(op, BinOp::Div) {
                let mut s = str_to_string("(((");
                s.append(lt.as_str());
                s.append(") as Float) / ((");
                s.append(rt.as_str());
                s.append(") as Float))");
                s
            } else if matches!(op, BinOp::FloorDiv) {
                let mut s = str_to_string("floor_div(");
                s.append(lt.as_str());
                s.append(", ");
                s.append(rt.as_str());
                s.append(")");
                s
            } else if matches!(op, BinOp::Mod) {
                let mut s = str_to_string("floor_mod(");
                s.append(lt.as_str());
                s.append(", ");
                s.append(rt.as_str());
                s.append(")");
                s
            } else if matches!(op, BinOp::Pow) {
                let mut s = str_to_string("ipow(");
                s.append(lt.as_str());
                s.append(", ");
                s.append(rt.as_str());
                s.append(")");
                s
            } else if matches!(op, BinOp::In) {
                let mut s = str_to_string("(");
                s.append(rt.as_str());
                s.append(").contains(&(");
                s.append(lt.as_str());
                s.append("))");
                s
            } else if matches!(op, BinOp::NotIn) {
                let mut s = str_to_string("!(");
                s.append(rt.as_str());
                s.append(").contains(&(");
                s.append(lt.as_str());
                s.append("))");
                s
            } else {
                let tok = infix_token(*op);
                let mut s = str_to_string("(");
                s.append(lt.as_str());
                s.append(" ");
                s.append(tok.as_str());
                s.append(" ");
                s.append(rt.as_str());
                s.append(")");
                s
            };
            out
        },
        Expression::UnaryOp(op, e0) => {
            let inner = gen_expr(&**e0);
            let mut s = match op {
                UnaryOp::Not => str_to_string("!("),
                UnaryOp::Neg => str_to_string("-("),
                UnaryOp::Pos => str_to_string("("),
                UnaryOp::Invert => str_to_string("!("),
            };
            s.append(inner.as_str());
            s.append(")");
            s
        },
        Expression::Call(f, args) => {
            let mut s = gen_expr(&**f);
            s.append("(");
            let at = gen_args(args);
            s.append(at.as_str());
            s.append(")");
            s
        },
        Expression::Index(a, i) => {
            let mut s = str_to_string("(");
            let at = gen_expr(&**a);
            s.append(at.as_str());
            s.append(")[(");
            let it = gen_expr(&**i);
            s.append(it.as_str());
            s.append(") as usize]");
            s
        },
        Expression::Conditional(c, a, b) => {
            let mut s = str_to_string("(if ");
            let ct = gen_expr(&**c);
            s.append(ct.as_str());
            s.append(" { ");
            let at = gen_expr(&**a);
            s.append(at.as_str());
            s.append(" } else { ");
            let bt = gen_expr(&**b);
            s.append(bt.as_str());
            s.append(" })");
            s
        },
        _ => str_to_string("()"),
    }
}

/// The comma-joined argument texts, executably.
fn gen_args(args: &Vec<Expression>) -> (r: String)
    ensures
        r@ == spec_gen_args(crate::ast_types::view_expr_seq(args@)),
    decreases args@, 2int,
{
    let ghost av = crate::ast_types::view_expr_seq(args@);
    let mut out = String::new();
    proof {
        assert(out@ =~= Seq::<char>::empty());
        assert(av.skip(0) =~= av);
    }
    let n = args.len();
    let mut i: usize = 0;
    while i < n
        invariant
            i <= n,
            n == args@.len(),
            av == crate::ast_types::view_expr_seq(args@),
            spec_gen_args(av) == out@ + spec_gen_args(av.skip(i as int)),
        decreases n - i,
    {
        proof {
            assert(decreases_to!(args@ => args@[i as int]));
        }
        let piece = gen_expr(&args[i]);
        let ghost pre = out@;
        out.append(piece.as_str());
        proof {
            let tail = av.skip(i as int);
            assert(tail[0] == av[i as int]);
            assert(av[i as int] == args@[i as int]@);
            assert(tail.drop_first() =~= av.skip(i + 1 as int));
        }
        if i + 1 < n {
            out.append(", ");
        } else {
            proof {
                assert(av.skip(i as int).len() == 1);
            }
        }
        proof {
            assert(spec_gen_args(av) == out@ + spec_gen_args(av.skip(i + 1 as int)));
        }
        i += 1;
    }
    proof {
        assert(av.skip(n as int).len() == 0);
        assert(spec_gen_args(av.skip(n as int)) =~= Seq::<char>::empty());
        assert(out@ + Seq::<char>::empty() =~= out@);
    }
    out
}

/// The native text of one statement at the given indentation. In a
/// function the optimizer proved parallelizable, `for` loops are emitted
/// with the data-parallel construct. Nested definitions and class bodies
/// are outside codegen's scope and emit nothing.
pub open spec fn spec_gen_stmt(s: StatementV, pad: Seq<char>, par: bool) -> Seq<char>
    decreases s, 1int,
{
    match s {
        StatementV::Assign(a) => if a.targets.len() >= 1 {
            pad + "let "@ + a.targets[0] + " = "@ + spec_gen_expr(a.value) + ";\n"@
        } else {
            pad + spec_gen_expr(a.value) + ";\n"@
        },
        StatementV::AugAssign(a) => pad + "let "@ + a.target + " = ("@ + a.target + " "@
            + spec_infix_token(a.op) + " ("@ + spec_gen_expr(a.value) + "));\n"@,
        StatementV::For(fl) => if par {
            pad + "("@ + spec_gen_expr(fl.iter) + ").into_par_iter().for_each(|"@ + fl.target
                + "| {\n"@ + spec_gen_stmts(fl.body, pad + "    "@, par) + pad + "});\n"@
        } else {
            pad + "for "@ + fl.target + " in "@ + spec_gen_expr(fl.iter) + " {\n"@
                + spec_gen_stmts(fl.body, pad + "    "@, par) + pad + "}\n"@
        },
        StatementV::While(w) => pad + "while "@ + spec_gen_expr(w.condition) + " {\n"@
            + spec_gen_stmts(w.body, pad + "    "@, par) + pad + "}\n"@,
        StatementV::If(c) => {
            let head = pad + "if "@ + spec_gen_expr(c.condition) + " {\n"@ + spec_gen_stmts(
                c.then_body,
                pad + "    "@,
                par,
            );
            match c.else_body {
                Option::Some(eb) => head + pad + "} else {\n"@ + spec_gen_stmts(
                    eb,
                    pad + "    "@,
                    par,
                ) + pad + "}\n"@,
                Option::None => head + pad + "}\n"@,
            }
        },
        StatementV::Return(Option::Some(e)) => pad + "return "@ + spec_gen_expr(e) + ";\n"@,
        StatementV::Return(Option::None) => pad + "return;\n"@,
        StatementV::Pass => pad + "();\n"@,
        StatementV::Break => pad + "break;\n"@,
        StatementV::Continue => pad + "continue;\n"@,
        StatementV::ExprStatement(e) => pad + spec_gen_expr(e) + ";\n"@,
        _ => Seq::empty(),
    }
}

/// The native text of a statement sequence.
pub open spec fn spec_gen_stmts(ss: Seq<StatementV>, pad: Seq<char>, par: bool) -> Seq<char>
    decreases ss, 2int,
{
    if ss.len() == 0 {
        Seq::empty()
    } else {
        spec_gen_stmt(ss[0], pad, par) + spec_gen_stmts(ss.drop_first(), pad, par)
    }
}

/// The comma-joined parameter texts.
pub open spec fn spec_gen_params(ps: Seq<ParameterV>) -> Seq<char>
    decreases ps.len(),
{
    if ps.len() == 0 {
        Seq::empty()
    } else if ps.len() == 1 {
        ps[0].name + ": "@ + spec_rust_type(ps[0].typ)
    } else {
        ps[0].name + ": "@ + spec_rust_type(ps[0].typ) + ", "@ + spec_gen_params(ps.drop_first())
    }
}

/// Whether codegen emits the function: `no-compile` routes it to the
/// fallback collaborator instead.
pub open spec fn spec_fn_compiled(f: FunctionDefV) -> bool {
    !DirectiveSet::spec_from_strings(f.directives).spec_has(crate::directives::Directive::NoCompile)
}

/// Whether the optimized IR function carries the given marker anywhere:
/// how optimizer-discovered facts reach the code generator.
pub open spec fn spec_has_marker(f: IRFunctionV, marker: IRInstructionV) -> bool {
    exists|b: int, i: int|
        0 <= b < f.blocks.len() && 0 <= i < f.blocks[b].instructions.len() && #[trigger] f.blocks[
            b
        ].instructions[i] == marker
}

/// The hint lines the optimized module contributes for the function of the
/// given name: one line per optimizer-proven parallelization or
/// vectorization opportunity.
pub open spec fn spec_fn_hints(m: IRModuleV, name: Seq<char>) -> Seq<char> {
    match IRModule::spec_find_function(m.functions, name) {
        Option::Some(ix) => {
            let f = m.functions[ix];
            (if spec_has_marker(f, IRInstructionV::Parallelizable) {
                "// parallelizable\n"@
            } else {
                Seq::<char>::empty()
            }) + (if spec_has_marker(f, IRInstructionV::Vectorizable) {
                "// vectorizable\n"@
            } else {
                Seq::<char>::empty()
            })
        },
        Option::None => Seq::empty(),
    }
}

/// The native text of one function definition, under the optimized
/// module's hints.
pub open spec fn spec_gen_fn(f: FunctionDefV, m: IRModuleV) -> Seq<char> {
    if !spec_fn_compiled(f) {
        Seq::empty()
    } else {
        let hint: Seq<char> = if DirectiveSet::spec_from_strings(f.directives).spec_has(
            crate::directives::Directive::Inline,
        ) {
            "#[inline(always)]\n"@
        } else {
            Seq::empty()
        };
        let par = match IRModule::spec_find_function(m.functions, f.name) {
            Option::Some(ix) => spec_has_marker(
                m.functions[ix],
                IRInstructionV::Parallelizable,
            ),
            Option::None => false,
        };
        spec_fn_hints(m, f.name) + hint + "fn "@ + f.name + "("@ + spec_gen_params(f.params)
            + ") -> "@ + spec_rust_type(f.return_type) + " {\n"@ + spec_gen_stmts(
            f.body,
            "    "@,
            par,
        ) + "}\n\n"@
    }
}

/// Whether some emitted function is named `main`.
pub open spec fn spec_has_main(ss: Seq<StatementV>) -> bool
    decreases ss.len(),
{
    if ss.len() == 0 {
        false
    } else {
        (match ss[0] {
            StatementV::FunctionDef(f) => f.name == "main"@ && spec_fn_compiled(f),
            _ => false,
        }) || spec_has_main(ss.drop_first())
    }
}

/// The runtime helpers every generated program carries: floor division and
/// modulo with the source language's sign conventions, and exponentiation
/// whose negative-exponent failure is a run-time error. The `Float` alias
/// the generated casts name is the one line the driver prepends — its
/// definition spells a token this crate may not.
pub open spec fn spec_prelude() -> Seq<char> {
    "fn floor_div(a: i64, b: i64) -> i64 {\n    let q = a / b;\n    if a % b != 0 && ((a < 0) != (b < 0)) { q - 1 } else { q }\n}\nfn floor_mod(a: i64, b: i64) -> i64 {\n    a - b * floor_div(a, b)\n}\nfn ipow(a: i64, b: i64) -> i64 {\n    if b < 0 { panic!(\"negative exponent\") } else { a.pow(b as u32) }\n}\n\n"@
}

/// The native text of a whole program: the runtime helpers, every emitted
/// function in order under the optimized module's hints, and an empty
/// entry point appended when no emitted function is `main`, so the
/// toolchain always finds an entry symbol.
pub open spec fn spec_gen_program(p: ProgramV, m: IRModuleV) -> Seq<char> {
    spec_prelude() + spec_gen_top(p.statements, m) + (if spec_has_main(p.statements) {
        Seq::<char>::empty()
    } else {
        "fn main() {\n}\n"@
    })
}

/// The emitted top-level definitions, in order.
pub open spec fn spec_gen_top(ss: Seq<StatementV>, m: IRModuleV) -> Seq<char>
    decreases ss.len(),
{
    if ss.len() == 0 {
        Seq::empty()
    } else {
        (match ss[0] {
            StatementV::FunctionDef(f) => spec_gen_fn(f, m),
            _ => Seq::<char>::empty(),
        }) + spec_gen_top(ss.drop_first(), m)
    }
}

/// The native text of one statement, executably.
fn gen_stmt(s: &Statement, pad: &String, par: bool) -> (r: String)
    ensures
        r@ == spec_gen_stmt(s@, pad@, par),
    decreases s, 1int,
{
    match s {
        Statement::Assign(a) => {
            let mut out = str_to_string(pad.as_str());
            if a.targets.len() >= 1 {
                out.append("let ");
                out.append(a.targets[0].as_str());
                out.append(" = ");
                let e = gen_expr(&a.value);
                out.append(e.as_str());
                out.append(";\n");
                proof {
                    assert(crate::text::view_string_seq(a.targets@)[0] == a.targets@[0]@);
                }
            } else {
                let e = gen_expr(&a.value);
                out.append(e.as_str());
                out.append(";\n");
            }
            out
        },
        Statement::AugAssign(a) => {
            let mut out = str_to_string(pad.as_str());
            out.append("let ");
            out.append(a.target.as_str());
            out.append(" = (");
            out.append(a.target.as_str());
            out.append(" ");
            let tok = infix_token(a.op);
            out.append(tok.as_str());
            out.append(" (");
            let e = gen_expr(&a.value);
            out.append(e.as_str());
            out.append("));\n");
            out
        },
        Statement::For(fl) => {
            let mut out = str_to_string(pad.as_str());
            let it = gen_expr(&fl.iter);
            let mut pad2 = str_to_string(pad.as_str());
            pad2.append("    ");
            let body = gen_stmts(&fl.body, &pad2, par);
            if par {
                out.append("(");
                out.append(it.as_str());
                out.append(").into_par_iter().for_each(|");
                out.append(fl.target.as_str());
                out.append("| {\n");
                out.append(body.as_str());
                out.append(pad.as_str());
                out.append("});\n");
            } else {
                out.append("for ");
                out.append(fl.target.as_str());
                out.append(" in ");
                out.append(it.as_str());
                out.append(" {\n");
                out.append(body.as_str());
                out.append(pad.as_str());
                out.append("}\n");
            }
            out
        },
        Statement::While(w) => {
            let mut out = str_to_string(pad.as_str());
            out.append("while ");
            let c = gen_expr(&w.condition);
            out.append(c.as_str());
            out.append(" {\n");
            let mut pad2 = str_to_string(pad.as_str());
            pad2.append("    ");
            let body = gen_stmts(&w.body, &pad2, par);
            out.append(body.as_str());
            out.append(pad.as_str());
            out.append("}\n");
            out
        },
        Statement::If(c) => {
            let mut out = str_to_string(pad.as_str());
            out.append("if ");
            let ct = gen_expr(&c.condition);
            out.append(ct.as_str());
            out.append(" {\n");
            let mut pad2 = str_to_string(pad.as_str());
            pad2.append("    ");
            let then_t = gen_stmts(&c.then_body, &pad2, par);
            out.append(then_t.as_str());
            match &c.else_body {
                Option::Some(eb) => {
                    out.append(pad.as_str());
                    out.append("} else {\n");
                    let else_t = gen_stmts(eb, &pad2, par);
                    out.append(else_t.as_str());
                    out.append(pad.as_str());
                    out.append("}\n");
                },
                Option::None => {
                    out.append(pad.as_str());
                    out.append("}\n");
                },
            }
            out
        },
        Statement::Return(Option::Some(e)) => {
            let mut out = str_to_string(pad.as_str());
            out.append("return ");
            let et = gen_expr(e);
            out.append(et.as_str());
            out.append(";\n");
            out
        },
        Statement::Return(Option::None) => {
            let mut out = str_to_string(pad.as_str());
            out.append("return;\n");
            out
        },
        Statement::Pass => {
            let mut out = str_to_string(pad.as_str());
            out.append("();\n");
            out
        },
        Statement::Break => {
            let mut out = str_to_string(pad.as_str());
            out.append("break;\n");
            out
        },
        Statement::Continue => {
            let mut out = str_to_string(pad.as_str());
            out.append("continue;\n");
            out
        },
        Statement::ExprStatement(e) => {
            let mut out = str_to_string(pad.as_str());
            let et = gen_expr(e);
            out.append(et.as_str());
            out.append(";\n");
            out
        },
        _ => {
            let out = String::new();
            proof {
                assert(out@ =~= Seq::<char>::empty());
            }
            out
        },
    }
}

/// The native text of a statement sequence, executably.
fn gen_stmts(ss: &Vec<Statement>, pad: &String, par: bool) -> (r: String)
    ensures
        r@ == spec_gen_stmts(crate::ast_types::view_stmt_seq(ss@), pad@, par),
    decreases ss@, 2int,
{
    let ghost sv = crate::ast_types::view_stmt_seq(ss@);
    let mut out = String::new();
    proof {
        assert(out@ =~= Seq::<char>::empty());
        assert(sv.skip(0) =~= sv);
    }
    let n = ss.len();
    let mut i: usize = 0;
    while i < n
        invariant
            i <= n,
            n == ss@.len(),
            sv == crate::ast_types::view_stmt_seq(ss@),
            spec_gen_stmts(sv, pad@, par) == out@ + spec_gen_stmts(
                sv.skip(i as int),
                pad@,
                par,
            ),
        decreases n - i,
    {
        proof {
            assert(decreases_to!(ss@ => ss@[i as int]));
        }
        let piece = gen_stmt(&ss[i], pad, par);
        out.append(piece.as_str());
        proof {
            let tail = sv.skip(i as int);
            assert(tail[0] == sv[i as int]);
            assert(sv[i as int] == ss@[i as int]@);
            assert(tail.drop_first() =~= sv.skip(i + 1 as int));
        }
        i += 1;
    }
    proof {
        assert(sv.skip(n as int).len() == 0);
        assert(spec_gen_stmts(sv.skip(n as int), pad@, par) =~= Seq::<char>::empty());
        assert(out@ + Seq::<char>::empty() =~= out@);
    }
    out
}

/// The comma-joined parameter texts, executably.
fn gen_params(ps: &Vec<Parameter>) -> (r: String)
    ensures
        r@ == spec_gen_params(crate::ast_types::view_param_seq(ps@)),
{
    let ghost pv = crate::ast_types::view_param_seq(ps@);
    let mut out = String::new();
    proof {
        assert(out@ =~= Seq::<char>::empty());
        assert(pv.skip(0) =~= pv);
    }
    let n = ps.len();
    let mut i: usize = 0;
    while i < n
        invariant
            i <= n,
            n == ps@.len(),
            pv == crate::ast_types::view_param_seq(ps@),
            spec_gen_params(pv) == out@ + spec_gen_params(pv.skip(i as int)),
        decreases n - i,
    {
        out.append(ps[i].name.as_str());
        out.append(": ");
        let tt = rust_type(&ps[i].typ);
        out.append(tt.as_str());
        proof {
            let tail = pv.skip(i as int);
            assert(tail[0] == pv[i as int]);
            assert(pv[i as int] == ps@[i as int]@);
            assert(tail.drop_first() =~= pv.skip(i + 1 as int));
        }
        if i + 1 < n {
            out.append(", ");
        } else {
            proof {
                assert(pv.skip(i as int).len() == 1);
            }
        }
        proof {
            assert(spec_gen_params(pv) == out@ + spec_gen_params(pv.skip(i + 1 as int)));
        }
        i += 1;
    }
    proof {
        assert(pv.skip(n as int).len() == 0);
        assert(spec_gen_params(pv.skip(n as int)) =~= Seq::<char>::empty());
        assert(out@ + Seq::<char>::empty() =~= out@);
    }
    out
}

/// Whether the optimized function carries the marker, executably.
fn has_marker(f: &IRFunction, parallel: bool) -> (r: bool)
    ensures
        r == spec_has_marker(
            f@,
            if parallel {
                IRInstructionV::Parallelizable
            } else {
                IRInstructionV::Vectorizable
            },
        ),
{
    let ghost marker = if parallel {
        IRInstructionV::Parallelizable
    } else {
        IRInstructionV::Vectorizable
    };
    let nb = f.blocks.len();
    let mut b: usize = 0;
    while b < nb
        invariant
            b <= nb,
            nb == f.blocks@.len(),
            marker == (if parallel {
                IRInstructionV::Parallelizable
            } else {
                IRInstructionV::Vectorizable
            }),
            forall|bb: int, ii: int|
                0 <= bb < b && 0 <= ii < f@.blocks[bb].instructions.len() ==> #[trigger] f@.blocks[
                    bb
                ].instructions[ii] != marker,
        decreases nb - b,
    {
        let blk = &f.blocks[b];
        let m = blk.instructions.len();
        let mut i: usize = 0;
        while i < m
            invariant
                i <= m,
                b < nb,
                nb == f.blocks@.len(),
                blk == &f.blocks[b as int],
                m == blk.instructions@.len(),
                marker == (if parallel {
                    IRInstructionV::Parallelizable
                } else {
                    IRInstructionV::Vectorizable
                }),
                forall|bb: int, ii: int|
                    0 <= bb < b && 0 <= ii < f@.blocks[bb].instructions.len() ==> #[trigger] f@.blocks[
                        bb
                    ].instructions[ii] != marker,
                forall|ii: int|
                    0 <= ii < i ==> #[trigger] f@.blocks[b as int].instructions[ii] != marker,
            decreases m - i,
        {
            let hit = if parallel {
                matches!(&blk.instructions[i], IRInstruction::Parallelizable)
            } else {
                matches!(&blk.instructions[i], IRInstruction::Vectorizable)
            };
            if hit {
                proof {
                    assert(f@.blocks[b as int].instructions[i as int] == marker);
                }
                return true;
            }
            i += 1;
        }
        b += 1;
    }
    proof {
        if spec_has_marker(f@, marker) {
            let (bb, ii): (int, int) = choose|bb: int, ii: int|
                0 <= bb < f@.blocks.len() && 0 <= ii < f@.blocks[bb].instructions.len()
                    && #[trigger] f@.blocks[bb].instructions[ii] == marker;
        }
    }
    false
}

/// The optimizer-discovered hint lines for the named function, executably.
fn fn_hints(m: &IRModule, name: &str) -> (r: String)
    ensures
        r@ == spec_fn_hints(m@, name@),
{
    match m.get_function(name) {
        Option::Some(f) => {
            let par = has_marker(f, true);
            let vec = has_marker(f, false);
            let mut out = if par {
                str_to_string("// parallelizable\n")
            } else {
                let s = String::new();
                proof {
                    assert(s@ =~= Seq::<char>::empty());
                }
                s
            };
            if vec {
                out.append("// vectorizable\n");
            }
            proof {
                assert(out@ =~= spec_fn_hints(m@, name@));
            }
            out
        },
        Option::None => {
            let out = String::new();
            proof {
                assert(out@ =~= Seq::<char>::empty());
            }
            out
        },
    }
}

/// The native text of one function definition, executably.
fn gen_fn(f: &FunctionDef, m: &IRModule) -> (r: String)
    ensures
        r@ == spec_gen_fn(f@, m@),
{
    let dirs = DirectiveSet::from_strings(&f.directives);
    proof {
        assert(f.directives.deep_view() =~= f@.directives);
    }
    if !dirs.should_compile() {
        let out = String::new();
        proof {
            assert(out@ =~= Seq::<char>::empty());
        }
        return out;
    }
    let mut out = fn_hints(m, f.name.as_str());
    if dirs.should_inline() {
        out.append("#[inline(always)]\n");
    }
    out.append("fn ");
    out.append(f.name.as_str());
    out.append("(");
    let params = gen_params(&f.params);
    out.append(params.as_str());
    out.append(") -> ");
    let rt = rust_type(&f.return_type);
    out.append(rt.as_str());
    out.append(" {\n");
    let par = match m.get_function(f.name.as_str()) {
        Option::Some(irf) => has_marker(irf, true),
        Option::None => false,
    };
    let pad = str_to_string("    ");
    let body = gen_stmts(&f.body, &pad, par);
    out.append(body.as_str());
    out.append("}\n\n");
    out
}

/// The code generator's state; generation is a pure function of the
/// program, so there is none.
pub struct RustCodegen {}

impl RustCodegen {
    pub fn new() -> (r: RustCodegen) {
        RustCodegen {  }
    }

    /// Generates the native source text of a type-annotated program, with
    /// the optimized module supplying the optimizer-discovered hints.
    pub fn generate(&mut self, program: &Program, module: &IRModule) -> (r: String)
        ensures
            r@ == spec_gen_program(program@, module@),
    {
        let ghost sv = crate::ast_types::view_stmt_seq(program.statements@);
        let mut out = str_to_string(
            "fn floor_div(a: i64, b: i64) -> i64 {\n    let q = a / b;\n    if a % b != 0 && ((a < 0) != (b < 0)) { q - 1 } else { q }\n}\nfn floor_mod(a: i64, b: i64) -> i64 {\n    a - b * floor_div(a, b)\n}\nfn ipow(a: i64, b: i64) -> i64 {\n    if b < 0 { panic!(\"negative exponent\") } else { a.pow(b as u32) }\n}\n\n",
        );
        proof {
            assert(out@ == spec_prelude());
            assert(sv.skip(0) =~= sv);
        }
        let n = program.statements.len();
        let mut has_main = false;
        let mut i: usize = 0;
        while i < n
            invariant
                i <= n,
                n == program.statements@.len(),
                sv == crate::ast_types::view_stmt_seq(program.statements@),
                spec_prelude() + spec_gen_top(sv, module@) == out@ + spec_gen_top(
                    sv.skip(i as int),
                    module@,
                ),
                has_main ==> spec_has_main(sv),
                !has_main ==> spec_has_main(sv) == spec_has_main(sv.skip(i as int)),
            decreases n - i,
        {
            proof {
                let tail = sv.skip(i as int);
                assert(tail[0] == sv[i as int]);
                assert(sv[i as int] == program.statements@[i as int]@);
                assert(tail.drop_first() =~= sv.skip(i + 1 as int));
            }
            match &program.statements[i] {
                Statement::FunctionDef(f) => {
                    proof {
                        assert(f.directives.deep_view() =~= f@.directives);
                    }
                    let piece = gen_fn(f, module);
                    out.append(piece.as_str());
                    let dirs = DirectiveSet::from_strings(&f.directives);
                    if crate::text::str_eq(f.name.as_str(), "main") && dirs.should_compile() {
                        has_main = true;
                    }
                },
                _ => {},
            }
            i += 1;
        }
        proof {
            assert(sv.skip(n as int).len() == 0);
            assert(spec_gen_top(sv.skip(n as int), module@) =~= Seq::<char>::empty());
            assert(out@ + Seq::<char>::empty() =~= out@);
            assert(!spec_has_main(sv.skip(n as int)));
        }
        if !has_main {
            out.append("fn main() {\n}\n");
        }
        out
    }
}

} // verus!
