use adrenaline::ast_types::{Assignment, Expression, ForLoop, Program, Statement, Type};
use adrenaline::parser::AdrenalineParser;
use adrenaline::type_inference::TypeInference;

#[test]
fn true_division_infers_float_and_floor_division_int() {
    // x = 6 / 3 infers Float (true division); y = 6 // 3 infers Int,
    // straight from top-level statements
    let src = "x = 6 / 3\ny = 6 // 3\n";
    let mut program = AdrenalineParser::parse(src).unwrap();
    let mut inference = TypeInference::new();
    inference.infer_program(&mut program);
    assert!(matches!(inference.get_variable_type("x"), Type::Float));
    assert!(matches!(inference.get_variable_type("y"), Type::Int));
}

#[test]
fn declared_parameter_types_reach_the_body() {
    let src = "def scale(v: float, k: int):\n    r = v * k\n    return r\n";
    let mut program = AdrenalineParser::parse(src).unwrap();
    let mut inference = TypeInference::new();
    inference.infer_program(&mut program);
    match &program.statements[0] {
        Statement::FunctionDef(f) => assert!(matches!(f.return_type, Type::Float)),
        other => panic!("expected a function definition, got {:?}", other),
    }
}

#[test]
fn arithmetic_widens_to_float_when_either_side_is_float() {
    let src = "def f():\n    a = 1\n    b = 2.5\n    c = a + b\n    d = a * a\n";
    let mut program = AdrenalineParser::parse(src).unwrap();
    let mut inference = TypeInference::new();
    inference.infer_program(&mut program);
    assert!(matches!(inference.get_variable_type("c"), Type::Float));
    assert!(matches!(inference.get_variable_type("d"), Type::Int));
}

#[test]
fn comparisons_and_logic_are_bool() {
    let src = "def f():\n    a = 1 < 2\n    b = 1 == 2\n";
    let mut program = AdrenalineParser::parse(src).unwrap();
    let mut inference = TypeInference::new();
    inference.infer_program(&mut program);
    assert!(matches!(inference.get_variable_type("a"), Type::Bool));
    assert!(matches!(inference.get_variable_type("b"), Type::Bool));
}

#[test]
fn unbound_names_are_unknown() {
    let inference = TypeInference::new();
    assert!(matches!(inference.get_variable_type("ghostly"), Type::Unknown));
}

#[test]
fn call_expressions_use_the_collected_return_types() {
    // forward reference: g is registered in the first pass with a
    // placeholder, so calling it yields Unknown rather than failing
    let src = "def f():\n    x = g()\ndef g() -> int:\n    return 1\n";
    let mut program = AdrenalineParser::parse(src).unwrap();
    let mut inference = TypeInference::new();
    inference.infer_program(&mut program);
    assert!(matches!(inference.get_variable_type("x"), Type::Unknown));
}

#[test]
fn inference_is_idempotent_on_an_annotated_program() {
    let src = "def f() -> int:\n    x = 1\n    return x\ndef g():\n    y = 2.5\n    return y\n";
    let mut once = AdrenalineParser::parse(src).unwrap();
    let mut inference1 = TypeInference::new();
    inference1.infer_program(&mut once);

    // run inference again on the already-annotated program
    let mut twice_types: Vec<Type> = Vec::new();
    let mut inference2 = TypeInference::new();
    inference2.infer_program(&mut once);
    for stmt in &once.statements {
        if let Statement::FunctionDef(f) = stmt {
            twice_types.push(match f.return_type {
                Type::Int => Type::Int,
                Type::Float => Type::Float,
                _ => Type::Unknown,
            });
        }
    }
    assert!(matches!(twice_types[0], Type::Int));
    assert!(matches!(twice_types[1], Type::Float));
}

#[test]
fn for_loop_binds_the_element_type() {
    // built directly: the line parser leaves list literals to richer
    // front ends, but inference handles them
    let program_stmts = vec![
        Statement::Assign(Assignment {
            targets: vec![String::from("xs")],
            value: Expression::List(vec![Expression::IntLit(1), Expression::IntLit(2)]),
        }),
        Statement::For(ForLoop {
            target: String::from("i"),
            iter: Expression::Identifier(String::from("xs")),
            body: vec![],
        }),
    ];
    let mut program = Program { statements: program_stmts, imports: vec![] };
    let mut inference = TypeInference::new();
    inference.infer_program(&mut program);
    assert!(matches!(inference.get_variable_type("i"), Type::Int));
}
