use adrenaline::ast_types::{BinOp, Expression, Statement, Type};
use adrenaline::text::parse_i64;
use adrenaline::parser::AdrenalineParser;
use adrenaline::type_inference::TypeInference;

fn parse_one_function(src: &str) -> adrenaline::ast_types::FunctionDef {
    let program = AdrenalineParser::parse(src).unwrap();
    match program.statements.into_iter().next().unwrap() {
        Statement::FunctionDef(f) => f,
        other => panic!("expected a function definition, got {:?}", other),
    }
}

#[test]
fn add_example_parses_and_infers_int() {
    // def add(a: int, b: int) -> int: one definition, two Int parameters,
    // and after inference an Int return type — the declared parameter
    // types are bound before the body is inferred
    let src = "def add(a: int, b: int) -> int:\n    return a + b\n";
    let mut program = AdrenalineParser::parse(src).unwrap();
    assert_eq!(program.statements.len(), 1);
    match &program.statements[0] {
        Statement::FunctionDef(f) => {
            assert_eq!(f.name, "add");
            assert_eq!(f.params.len(), 2);
            assert!(matches!(f.params[0].typ, Type::Int));
            assert!(matches!(f.params[1].typ, Type::Int));
        }
        other => panic!("expected a function definition, got {:?}", other),
    }
    let mut inference = TypeInference::new();
    inference.infer_program(&mut program);
    match &program.statements[0] {
        Statement::FunctionDef(f) => assert!(matches!(f.return_type, Type::Int)),
        other => panic!("expected a function definition, got {:?}", other),
    }
}

#[test]
fn nested_compound_bodies_are_threaded() {
    let src = "def f():\n    if a > 1:\n        x = 1\n        y = 2\n    z = 3\n";
    let f = parse_one_function(src);
    assert_eq!(f.body.len(), 2);
    match &f.body[0] {
        Statement::If(c) => {
            assert_eq!(c.then_body.len(), 2);
            assert!(matches!(c.then_body[0], Statement::Assign(_)));
            assert!(matches!(c.then_body[1], Statement::Assign(_)));
        }
        other => panic!("unexpected statement {:?}", other),
    }
    assert!(matches!(f.body[1], Statement::Assign(_)));
    // a for loop owns its deeper lines the same way, recursively
    let src2 = "def g():\n    for i in xs:\n        if i > 0:\n            t = i\n    done = 1\n";
    let g = parse_one_function(src2);
    assert_eq!(g.body.len(), 2);
    match &g.body[0] {
        Statement::For(fl) => {
            assert_eq!(fl.body.len(), 1);
            match &fl.body[0] {
                Statement::If(c) => assert_eq!(c.then_body.len(), 1),
                other => panic!("unexpected statement {:?}", other),
            }
        }
        other => panic!("unexpected statement {:?}", other),
    }
}

#[test]
fn top_level_statements_are_kept() {
    let src = "x = 6 / 3\ny = 6 // 3\n";
    let program = AdrenalineParser::parse(src).unwrap();
    assert_eq!(program.statements.len(), 2);
    assert!(matches!(program.statements[0], Statement::Assign(_)));
    assert!(matches!(program.statements[1], Statement::Assign(_)));
}

#[test]
fn integer_and_float_literals() {
    let f = parse_one_function("def f():\n    x = 42\n    y = 3.14\n    z = -7\n");
    match &f.body[0] {
        Statement::Assign(a) => assert!(matches!(a.value, Expression::IntLit(42))),
        other => panic!("unexpected statement {:?}", other),
    }
    match &f.body[1] {
        Statement::Assign(a) => match &a.value {
            Expression::FloatLit(s) => assert_eq!(s, "3.14"),
            other => panic!("unexpected expression {:?}", other),
        },
        other => panic!("unexpected statement {:?}", other),
    }
    match &f.body[2] {
        Statement::Assign(a) => assert!(matches!(a.value, Expression::IntLit(-7))),
        other => panic!("unexpected statement {:?}", other),
    }
}

#[test]
fn boolean_string_and_call_expressions() {
    let f = parse_one_function(
        "def f():\n    t = True\n    s = \"hi\"\n    c = g(1, 2)\n    i = xs[3]\n",
    );
    match &f.body[0] {
        Statement::Assign(a) => assert!(matches!(a.value, Expression::BoolLit(true))),
        other => panic!("unexpected statement {:?}", other),
    }
    match &f.body[1] {
        Statement::Assign(a) => match &a.value {
            Expression::StringLit(s) => assert_eq!(s, "hi"),
            other => panic!("unexpected expression {:?}", other),
        },
        other => panic!("unexpected statement {:?}", other),
    }
    match &f.body[2] {
        Statement::Assign(a) => match &a.value {
            Expression::Call(callee, args) => {
                match &**callee {
                    Expression::Identifier(n) => assert_eq!(n, "g"),
                    other => panic!("unexpected callee {:?}", other),
                }
                assert_eq!(args.len(), 2);
                assert!(matches!(args[0], Expression::IntLit(1)));
                assert!(matches!(args[1], Expression::IntLit(2)));
            }
            other => panic!("unexpected expression {:?}", other),
        },
        other => panic!("unexpected statement {:?}", other),
    }
    match &f.body[3] {
        Statement::Assign(a) => match &a.value {
            Expression::Index(arr, idx) => {
                match &**arr {
                    Expression::Identifier(n) => assert_eq!(n, "xs"),
                    other => panic!("unexpected array {:?}", other),
                }
                assert!(matches!(**idx, Expression::IntLit(3)));
            }
            other => panic!("unexpected expression {:?}", other),
        },
        other => panic!("unexpected statement {:?}", other),
    }
}

#[test]
fn operator_scan_prefers_longest_symbols() {
    let f = parse_one_function("def f():\n    x = a <= b\n    y = c ** d\n");
    match &f.body[0] {
        Statement::Assign(a) => match &a.value {
            Expression::BinOp(_, op, _) => assert_eq!(*op, BinOp::LtE),
            other => panic!("unexpected expression {:?}", other),
        },
        other => panic!("unexpected statement {:?}", other),
    }
    match &f.body[1] {
        Statement::Assign(a) => match &a.value {
            Expression::BinOp(_, op, _) => assert_eq!(*op, BinOp::Pow),
            other => panic!("unexpected expression {:?}", other),
        },
        other => panic!("unexpected statement {:?}", other),
    }
}

#[test]
fn statement_forms_parse() {
    let f = parse_one_function(
        "def f():\n    if x > 1:\n    for i in xs:\n    return 5\n    pass\n    break\n    continue\n",
    );
    assert!(matches!(f.body[0], Statement::If(_)));
    match &f.body[1] {
        Statement::For(fl) => assert_eq!(fl.target, "i"),
        other => panic!("unexpected statement {:?}", other),
    }
    assert!(matches!(f.body[2], Statement::Return(Some(Expression::IntLit(5)))));
    assert!(matches!(f.body[3], Statement::Pass));
    assert!(matches!(f.body[4], Statement::Break));
    assert!(matches!(f.body[5], Statement::Continue));
}

#[test]
fn empty_body_becomes_pass() {
    let f = parse_one_function("def f():\ndef g():\n    return 1\n");
    assert_eq!(f.body.len(), 1);
    assert!(matches!(f.body[0], Statement::Pass));
}

#[test]
fn unparseable_body_line_is_a_recoverable_diagnostic() {
    let src = "def f():\n    ???!\n    x = 1\n";
    let (program, diags) = AdrenalineParser::parse_with_diagnostics(src).unwrap();
    assert_eq!(diags.len(), 1);
    assert_eq!(diags[0].line, 1);
    assert!(!diags[0].fatal);
    match &program.statements[0] {
        Statement::FunctionDef(f) => {
            // the bad line is skipped, the rest of the body is kept
            assert_eq!(f.body.len(), 1);
            assert!(matches!(f.body[0], Statement::Assign(_)));
        }
        other => panic!("expected a function definition, got {:?}", other),
    }
}

#[test]
fn bad_header_is_a_fatal_parse_error() {
    let src = "def  :\n    return 1\n";
    let err = AdrenalineParser::parse(src).unwrap_err();
    match err {
        adrenaline::diagnostics::CompileError::ParseError { line, .. } => assert_eq!(line, 0),
        other => panic!("expected a parse error, got {:?}", other),
    }
}

#[test]
fn imports_parse_in_both_forms() {
    let src = "import math\nfrom os import path, sep\nfrom sys import *\n";
    let program = AdrenalineParser::parse(src).unwrap();
    assert_eq!(program.imports.len(), 3);
    assert_eq!(program.imports[0].module, "math");
    assert_eq!(program.imports[1].module, "os");
    assert_eq!(
        program.imports[1].items,
        Some(vec![String::from("path"), String::from("sep")])
    );
    assert_eq!(program.imports[2].module, "sys");
    assert_eq!(program.imports[2].items, None);
}

#[test]
fn exponent_notation_is_a_float_literal() {
    let f = {
        let program = AdrenalineParser::parse("def f():\n    x = 1e5\n    y = -2.5e-3\n").unwrap();
        match program.statements.into_iter().next().unwrap() {
            Statement::FunctionDef(f) => f,
            other => panic!("expected a function definition, got {:?}", other),
        }
    };
    match &f.body[0] {
        Statement::Assign(a) => assert!(matches!(&a.value, Expression::FloatLit(s) if s == "1e5")),
        other => panic!("unexpected statement {:?}", other),
    }
    match &f.body[1] {
        Statement::Assign(a) => {
            assert!(matches!(&a.value, Expression::FloatLit(s) if s == "-2.5e-3"))
        }
        other => panic!("unexpected statement {:?}", other),
    }
}

#[test]
fn int_literal_parsing_honors_the_i64_range() {
    let ok: Vec<char> = "9223372036854775807".chars().collect();
    assert_eq!(parse_i64(&ok), Some(i64::MAX));
    let min: Vec<char> = "-9223372036854775808".chars().collect();
    assert_eq!(parse_i64(&min), Some(i64::MIN));
    let over: Vec<char> = "9223372036854775808".chars().collect();
    assert_eq!(parse_i64(&over), None);
    let plus: Vec<char> = "+17".chars().collect();
    assert_eq!(parse_i64(&plus), Some(17));
    let junk: Vec<char> = "12x".chars().collect();
    assert_eq!(parse_i64(&junk), None);
    let empty: Vec<char> = Vec::new();
    assert_eq!(parse_i64(&empty), None);
}
