use adrenaline::directives::DirectiveSet;
use adrenaline::ir::{
    BasicBlock, BinOpIR, IRConstant, IRFunction, IRInstruction, IRModule, IRValue,
    OptimizationLevel,
};
use adrenaline::optimizer::IROptimizer;
use adrenaline::ast_types::Type;

fn empty_fn(name: &str, blocks: Vec<BasicBlock>) -> IRFunction {
    IRFunction {
        name: String::from(name),
        params: vec![],
        return_type: Type::Unknown,
        blocks,
        directives: DirectiveSet::new(),
        optimization_level: OptimizationLevel::Basic,
    }
}

fn binop(result: usize, op: BinOpIR, l: i64, r: i64) -> IRInstruction {
    IRInstruction::BinOp {
        result: IRValue::Temporary(result),
        op,
        left: IRValue::Const(IRConstant::Int(l)),
        right: IRValue::Const(IRConstant::Int(r)),
    }
}

#[test]
fn add_of_two_and_three_folds_to_five() {
    // an IR binary-add of constants 2 and 3 folds to one assign of 5
    let mut block = BasicBlock::new(0);
    block.add_instruction(binop(0, BinOpIR::Add, 2, 3));
    let mut f = empty_fn("f", vec![block]);
    let opt = IROptimizer::new();
    opt.constant_folding(&mut f);
    assert_eq!(
        f.blocks[0].instructions[0],
        IRInstruction::Assign {
            target: IRValue::Temporary(0),
            value: IRValue::Const(IRConstant::Int(5)),
        }
    );
}

#[test]
fn division_by_zero_must_not_fold() {
    let mut block = BasicBlock::new(0);
    block.add_instruction(binop(0, BinOpIR::Div, 2, 0));
    block.add_instruction(binop(1, BinOpIR::FloorDiv, 2, 0));
    block.add_instruction(binop(2, BinOpIR::Mod, 2, 0));
    let mut f = empty_fn("f", vec![block]);
    let opt = IROptimizer::new();
    opt.constant_folding(&mut f);
    assert!(matches!(f.blocks[0].instructions[0], IRInstruction::BinOp { .. }));
    assert!(matches!(f.blocks[0].instructions[1], IRInstruction::BinOp { .. }));
    assert!(matches!(f.blocks[0].instructions[2], IRInstruction::BinOp { .. }));
}

#[test]
fn fold_constants_matches_direct_evaluation() {
    let opt = IROptimizer::new();
    let fold = |l: i64, op: BinOpIR, r: i64| {
        opt.fold_constants(IRConstant::Int(l), op, IRConstant::Int(r))
    };
    assert_eq!(fold(7, BinOpIR::Sub, 10), Some(IRConstant::Int(-3)));
    assert_eq!(fold(6, BinOpIR::Mul, 7), Some(IRConstant::Int(42)));
    // floor semantics on negatives: -7 // 2 == -4 and -7 % 2 == 1
    assert_eq!(fold(-7, BinOpIR::FloorDiv, 2), Some(IRConstant::Int(-4)));
    assert_eq!(fold(-7, BinOpIR::Mod, 2), Some(IRConstant::Int(1)));
    assert_eq!(fold(7, BinOpIR::Mod, -2), Some(IRConstant::Int(-1)));
    assert_eq!(fold(2, BinOpIR::Pow, 10), Some(IRConstant::Int(1024)));
    // refusals: overflow, negative exponents, true division
    assert_eq!(fold(i64::MAX, BinOpIR::Add, 1), None);
    assert_eq!(fold(i64::MIN, BinOpIR::FloorDiv, -1), None);
    assert_eq!(fold(2, BinOpIR::Pow, -1), None);
    assert_eq!(fold(2, BinOpIR::Pow, 63), None);
    assert_eq!(fold(6, BinOpIR::Div, 3), None);
}

#[test]
fn dead_assignments_to_unread_temporaries_are_removed() {
    let mut block = BasicBlock::new(0);
    block.add_instruction(IRInstruction::Assign {
        target: IRValue::Temporary(0),
        value: IRValue::Const(IRConstant::Int(1)),
    });
    block.add_instruction(IRInstruction::Assign {
        target: IRValue::Local(String::from("kept")),
        value: IRValue::Const(IRConstant::Int(2)),
    });
    let mut f = empty_fn("f", vec![block]);
    let opt = IROptimizer::new();
    opt.dead_code_elimination(&mut f);
    // the unread temporary goes; the named local stays
    assert_eq!(f.blocks[0].instructions.len(), 1);
    assert!(matches!(
        f.blocks[0].instructions[0],
        IRInstruction::Store { .. } | IRInstruction::Assign { .. }
    ));
}

#[test]
fn read_temporaries_survive_elimination() {
    let mut block = BasicBlock::new(0);
    block.add_instruction(IRInstruction::Assign {
        target: IRValue::Temporary(0),
        value: IRValue::Const(IRConstant::Int(1)),
    });
    block.add_instruction(IRInstruction::Return { value: Some(IRValue::Temporary(0)) });
    let mut f = empty_fn("f", vec![block]);
    let opt = IROptimizer::new();
    opt.dead_code_elimination(&mut f);
    assert_eq!(f.blocks[0].instructions.len(), 2);
}

#[test]
fn elimination_cascades_and_is_idempotent() {
    // t1 is read only by the dead assignment to t0, so both fall away
    let mut block = BasicBlock::new(0);
    block.add_instruction(IRInstruction::Assign {
        target: IRValue::Temporary(1),
        value: IRValue::Const(IRConstant::Int(1)),
    });
    block.add_instruction(IRInstruction::Assign {
        target: IRValue::Temporary(0),
        value: IRValue::Temporary(1),
    });
    let mut f = empty_fn("f", vec![block]);
    let opt = IROptimizer::new();
    opt.dead_code_elimination(&mut f);
    assert_eq!(f.blocks[0].instructions.len(), 0);
    // running it twice produces the same IR as running it once
    let count_after_once: usize = f.blocks.iter().map(|b| b.instructions.len()).sum();
    opt.dead_code_elimination(&mut f);
    let count_after_twice: usize = f.blocks.iter().map(|b| b.instructions.len()).sum();
    assert_eq!(count_after_once, count_after_twice);
}

#[test]
fn common_subexpressions_reuse_the_first_temporary() {
    let mut block = BasicBlock::new(0);
    block.add_instruction(IRInstruction::BinOp {
        result: IRValue::Temporary(0),
        op: BinOpIR::Add,
        left: IRValue::Temporary(10),
        right: IRValue::Const(IRConstant::Int(1)),
    });
    block.add_instruction(IRInstruction::BinOp {
        result: IRValue::Temporary(1),
        op: BinOpIR::Add,
        left: IRValue::Temporary(10),
        right: IRValue::Const(IRConstant::Int(1)),
    });
    let mut f = empty_fn("f", vec![block]);
    let opt = IROptimizer::new();
    opt.common_subexpression_elimination(&mut f);
    assert_eq!(
        f.blocks[0].instructions[1],
        IRInstruction::Assign { target: IRValue::Temporary(1), value: IRValue::Temporary(0) }
    );
}

#[test]
fn cse_leaves_named_local_operands_alone() {
    let mk = || IRInstruction::BinOp {
        result: IRValue::Temporary(0),
        op: BinOpIR::Add,
        left: IRValue::Local(String::from("x")),
        right: IRValue::Const(IRConstant::Int(1)),
    };
    let mut block = BasicBlock::new(0);
    block.add_instruction(mk());
    let mut second = mk();
    if let IRInstruction::BinOp { result, .. } = &mut second {
        *result = IRValue::Temporary(1);
    }
    block.add_instruction(second);
    let mut f = empty_fn("f", vec![block]);
    let opt = IROptimizer::new();
    opt.common_subexpression_elimination(&mut f);
    assert!(matches!(f.blocks[0].instructions[1], IRInstruction::BinOp { .. }));
}

#[test]
fn constant_indexed_reads_are_marked_elidable() {
    let mut block = BasicBlock::new(0);
    block.add_instruction(IRInstruction::Index {
        result: IRValue::Temporary(0),
        array: IRValue::Local(String::from("xs")),
        index: IRValue::Const(IRConstant::Int(2)),
    });
    block.add_instruction(IRInstruction::Index {
        result: IRValue::Temporary(1),
        array: IRValue::Local(String::from("xs")),
        index: IRValue::Temporary(0),
    });
    let mut f = empty_fn("f", vec![block]);
    let opt = IROptimizer::new();
    opt.bounds_check_elimination(&mut f);
    // one marker for the constant index, none for the dynamic one
    let markers = f.blocks[0]
        .instructions
        .iter()
        .filter(|i| matches!(i, IRInstruction::CanElideCheck))
        .count();
    assert_eq!(markers, 1);
    // a second run adds nothing
    opt.bounds_check_elimination(&mut f);
    let markers2 = f.blocks[0]
        .instructions
        .iter()
        .filter(|i| matches!(i, IRInstruction::CanElideCheck))
        .count();
    assert_eq!(markers2, 1);
}

#[test]
fn four_arithmetic_ops_mark_a_block_vectorizable() {
    let mut block = BasicBlock::new(0);
    for k in 0..4 {
        block.add_instruction(IRInstruction::BinOp {
            result: IRValue::Temporary(k),
            op: BinOpIR::Add,
            left: IRValue::Local(String::from("x")),
            right: IRValue::Const(IRConstant::Int(1)),
        });
    }
    let mut f = empty_fn("f", vec![block]);
    let opt = IROptimizer::new();
    opt.detect_simd_opportunities(&mut f);
    assert!(matches!(
        f.blocks[0].instructions.last().unwrap(),
        IRInstruction::Vectorizable
    ));

    // three ops are below the threshold
    let mut small = BasicBlock::new(0);
    for k in 0..3 {
        small.add_instruction(binop(k, BinOpIR::Mul, 2, 2));
    }
    let mut g = empty_fn("g", vec![small]);
    opt.detect_simd_opportunities(&mut g);
    assert!(!g.blocks[0]
        .instructions
        .iter()
        .any(|i| matches!(i, IRInstruction::Vectorizable)));
}

#[test]
fn safe_loop_bodies_are_marked_parallelizable() {
    let mut header = BasicBlock::new(0);
    header.add_instruction(IRInstruction::LoopStart {
        iterator: IRValue::Local(String::from("xs")),
        body_block: 1,
        exit_block: 2,
    });
    let mut body = BasicBlock::new(1);
    body.add_instruction(binop(0, BinOpIR::Add, 1, 2));
    let exit = BasicBlock::new(2);
    let mut f = empty_fn("f", vec![header, body, exit]);
    let opt = IROptimizer::new();
    opt.detect_parallel_opportunities(&mut f);
    let markers = f.blocks[0]
        .instructions
        .iter()
        .filter(|i| matches!(i, IRInstruction::Parallelizable))
        .count();
    assert_eq!(markers, 1);

    // a body that writes a named local carries a cross-iteration
    // dependency and is never marked
    let mut header1 = BasicBlock::new(0);
    header1.add_instruction(IRInstruction::LoopStart {
        iterator: IRValue::Local(String::from("xs")),
        body_block: 1,
        exit_block: 2,
    });
    let mut body1 = BasicBlock::new(1);
    body1.add_instruction(IRInstruction::BinOp {
        result: IRValue::Temporary(0),
        op: BinOpIR::Add,
        left: IRValue::Local(String::from("x")),
        right: IRValue::Const(IRConstant::Int(1)),
    });
    body1.add_instruction(IRInstruction::Assign {
        target: IRValue::Local(String::from("x")),
        value: IRValue::Temporary(0),
    });
    let mut h = empty_fn("h", vec![header1, body1, BasicBlock::new(2)]);
    opt.detect_parallel_opportunities(&mut h);
    assert!(!h.blocks[0]
        .instructions
        .iter()
        .any(|i| matches!(i, IRInstruction::Parallelizable)));

    // a body that stores to memory is never marked on the hint alone
    let mut header2 = BasicBlock::new(0);
    header2.add_instruction(IRInstruction::LoopStart {
        iterator: IRValue::Local(String::from("xs")),
        body_block: 1,
        exit_block: 2,
    });
    let mut body2 = BasicBlock::new(1);
    body2.add_instruction(IRInstruction::Store {
        target: String::from("acc"),
        value: IRValue::Const(IRConstant::Int(1)),
    });
    let mut g = empty_fn("g", vec![header2, body2, BasicBlock::new(2)]);
    opt.detect_parallel_opportunities(&mut g);
    assert!(!g.blocks[0]
        .instructions
        .iter()
        .any(|i| matches!(i, IRInstruction::Parallelizable)));
}

#[test]
fn single_trip_loops_unroll_in_place() {
    let mut header = BasicBlock::new(0);
    header.add_instruction(IRInstruction::LoopStart {
        iterator: IRValue::Const(IRConstant::Int(1)),
        body_block: 1,
        exit_block: 2,
    });
    let mut body = BasicBlock::new(1);
    body.add_instruction(IRInstruction::Store {
        target: String::from("x"),
        value: IRValue::Const(IRConstant::Int(7)),
    });
    body.add_instruction(IRInstruction::LoopEnd);
    let exit = BasicBlock::new(2);
    let mut f = empty_fn("f", vec![header, body, exit]);
    f.optimization_level = OptimizationLevel::Aggressive;
    let opt = IROptimizer::new();
    opt.loop_unrolling(&mut f);
    // the body ran once, spliced into the header; the loop is gone
    assert_eq!(f.blocks[0].instructions.len(), 1);
    assert!(matches!(f.blocks[0].instructions[0], IRInstruction::Store { .. }));
    assert_eq!(f.blocks[0].successors, vec![2]);
    assert!(f.blocks[1].instructions.is_empty());
}

#[test]
fn multi_trip_loops_unroll_with_fresh_temporaries() {
    let mut header = BasicBlock::new(0);
    header.add_instruction(IRInstruction::LoopStart {
        iterator: IRValue::Const(IRConstant::Int(3)),
        body_block: 1,
        exit_block: 2,
    });
    let mut body = BasicBlock::new(1);
    body.add_instruction(binop(5, BinOpIR::Add, 1, 2));
    body.add_instruction(IRInstruction::LoopEnd);
    let mut f = empty_fn("f", vec![header, body, BasicBlock::new(2)]);
    let opt = IROptimizer::new();
    opt.loop_unrolling(&mut f);
    // three copies of the body, the later two with renamed temporaries in
    // disjoint fresh ranges
    assert_eq!(f.blocks[0].instructions.len(), 3);
    let results: Vec<usize> = f.blocks[0]
        .instructions
        .iter()
        .map(|i| match i {
            IRInstruction::BinOp {
                result: IRValue::Temporary(t),
                ..
            } => *t,
            other => panic!("unexpected instruction {:?}", other),
        })
        .collect();
    assert_eq!(results[0], 5);
    assert!(results[1] > 5);
    assert!(results[2] > results[1]);
    assert_eq!(f.blocks[0].successors, vec![2]);
    assert!(f.blocks[1].instructions.is_empty());

    // a trip count past the threshold is refused
    let mut header2 = BasicBlock::new(0);
    header2.add_instruction(IRInstruction::LoopStart {
        iterator: IRValue::Const(IRConstant::Int(9)),
        body_block: 1,
        exit_block: 2,
    });
    let mut body2 = BasicBlock::new(1);
    body2.add_instruction(binop(5, BinOpIR::Add, 1, 2));
    body2.add_instruction(IRInstruction::LoopEnd);
    let mut g = empty_fn("g", vec![header2, body2, BasicBlock::new(2)]);
    opt.loop_unrolling(&mut g);
    assert!(matches!(g.blocks[0].instructions[0], IRInstruction::LoopStart { .. }));
}

#[test]
fn constant_returning_callees_are_inlined() {
    let mut callee_block = BasicBlock::new(0);
    callee_block.add_instruction(IRInstruction::Return {
        value: Some(IRValue::Const(IRConstant::Int(42))),
    });
    let callee = empty_fn("answer", vec![callee_block]);

    let mut caller_block = BasicBlock::new(0);
    caller_block.add_instruction(IRInstruction::Call {
        result: IRValue::Temporary(0),
        function: String::from("answer"),
        args: vec![],
    });
    let caller = empty_fn("main", vec![caller_block]);

    let mut module = IRModule::new();
    module.functions.push(callee);
    module.functions.push(caller);
    let opt = IROptimizer::new();
    opt.inline_small_functions(&mut module);
    assert_eq!(
        module.functions[1].blocks[0].instructions[0],
        IRInstruction::Assign {
            target: IRValue::Temporary(0),
            value: IRValue::Const(IRConstant::Int(42)),
        }
    );
}

#[test]
fn optimize_reaches_a_fixed_point() {
    let mut block = BasicBlock::new(0);
    block.add_instruction(binop(0, BinOpIR::Add, 2, 3));
    block.add_instruction(IRInstruction::Return { value: Some(IRValue::Temporary(0)) });
    let f = empty_fn("f", vec![block]);
    let mut module = IRModule::new();
    module.functions.push(f);
    let mut opt = IROptimizer::new();
    opt.optimize(&mut module);
    // the fold happened and the function still returns its temporary
    assert_eq!(
        module.functions[0].blocks[0].instructions[0],
        IRInstruction::Assign {
            target: IRValue::Temporary(0),
            value: IRValue::Const(IRConstant::Int(5)),
        }
    );
}

#[test]
fn module_lookup_finds_functions_by_name() {
    let mut module = IRModule::new();
    module.functions.push(empty_fn("alpha", vec![]));
    module.functions.push(empty_fn("beta", vec![]));
    assert_eq!(module.get_function("beta").map(|f| f.name.as_str()), Some("beta"));
    assert!(module.get_function("gamma").is_none());
    assert_eq!(module.get_function_mut("alpha"), Some(0));
    module.mark_hot_function("beta");
    module.mark_hot_function("beta");
    assert_eq!(module.hot_functions, vec![String::from("beta")]);
}
