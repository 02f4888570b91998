//! Lowering from the type-annotated AST to the control-flow-graph IR: each
//! statement appends instructions to the current block, every intermediate
//! value gets a fresh numbered temporary, and each `if`, `for` and `while`
//! introduces new blocks whose successor lists mirror exactly the control
//! transfers that end them. Block ids are allocated eagerly, so the entry
//! block is block 0 and no block is ever patched after it is sealed.
//!
//! The lowering subset matches the surface language the parser accepts;
//! `break`/`continue` (which need an enclosing-loop context), nested
//! definitions and class bodies lower to nothing.
use vstd::prelude::*;
use crate::ast_types::{
    BinOp, Expression, ExpressionV, FunctionDef, FunctionDefV, Program, ProgramV, Statement,
    StatementV, UnaryOp,
};
use crate::directives::{Directive, DirectiveSet};
use crate::ir::{
    BasicBlock, BasicBlockV, BinOpIR, IRConstant, IRConstantV, IRFunction, IRFunctionV,
    IRInstruction, IRInstructionV, IRModule, IRModuleV, IRParam, IRParamV, IRValue, IRValueV,
    OptimizationLevel, UnaryOpIR, view_block_seq, view_instr_seq,
};

verus! {

/// Spec mirror of the builder's working state: the sealed blocks, the open
/// block's id and instructions, and the two allocation counters.
#[verifier::ext_equal]
pub struct BuildV {
    pub blocks: Seq<BasicBlockV>,
    pub cur_id: usize,
    pub cur_instrs: Seq<IRInstructionV>,
    pub next_block: usize,
    pub next_temp: usize,
}

/// The state with one instruction appended to the open block.
pub open spec fn spec_emit(st: BuildV, i: IRInstructionV) -> BuildV {
    BuildV { cur_instrs: st.cur_instrs.push(i), ..st }
}

/// A fresh temporary; the counter saturates rather than wraps.
pub open spec fn spec_fresh_temp(st: BuildV) -> (BuildV, usize) {
    (
        BuildV {
            next_temp: if st.next_temp < usize::MAX {
                (st.next_temp + 1) as usize
            } else {
                usize::MAX
            },
            ..st
        },
        st.next_temp,
    )
}

/// A fresh block id; the counter saturates rather than wraps.
pub open spec fn spec_fresh_block(st: BuildV) -> (BuildV, usize) {
    (
        BuildV {
            next_block: if st.next_block < usize::MAX {
                (st.next_block + 1) as usize
            } else {
                usize::MAX
            },
            ..st
        },
        st.next_block,
    )
}

/// Seals the open block with the given successors and opens block `next`.
pub open spec fn spec_seal(st: BuildV, successors: Seq<usize>, next: usize) -> BuildV {
    BuildV {
        blocks: st.blocks.push(
            BasicBlockV { id: st.cur_id, instructions: st.cur_instrs, successors },
        ),
        cur_id: next,
        cur_instrs: Seq::empty(),
        ..st
    }
}

/// The IR operator a surface operator lowers to; identity comparisons
/// lower to equality, and the logical connectives to the bitwise forms
/// over booleans.
pub open spec fn spec_ir_binop(op: BinOp) -> BinOpIR {
    match op {
        BinOp::Add => BinOpIR::Add,
        BinOp::Sub => BinOpIR::Sub,
        BinOp::Mult => BinOpIR::Mul,
        BinOp::Div => BinOpIR::Div,
        BinOp::FloorDiv => BinOpIR::FloorDiv,
        BinOp::Mod => BinOpIR::Mod,
        BinOp::Pow => BinOpIR::Pow,
        BinOp::LShift => BinOpIR::LShift,
        BinOp::RShift => BinOpIR::RShift,
        BinOp::BitOr => BinOpIR::BitOr,
        BinOp::BitXor => BinOpIR::BitXor,
        BinOp::BitAnd => BinOpIR::BitAnd,
        BinOp::Eq => BinOpIR::Eq,
        BinOp::NotEq => BinOpIR::NotEq,
        BinOp::Lt => BinOpIR::Lt,
        BinOp::LtE => BinOpIR::LtE,
        BinOp::Gt => BinOpIR::Gt,
        BinOp::GtE => BinOpIR::GtE,
        BinOp::Is => BinOpIR::Eq,
        BinOp::IsNot => BinOpIR::NotEq,
        BinOp::And => BinOpIR::BitAnd,
        BinOp::Or => BinOpIR::BitOr,
        BinOp::In => BinOpIR::Eq,
        BinOp::NotIn => BinOpIR::NotEq,
    }
}

/// Whether the operator is a membership test, which lowers to a call of
/// the runtime's `contains` rather than a binary instruction.
pub open spec fn spec_is_membership(op: BinOp) -> bool {
    op == BinOp::In || op == BinOp::NotIn
}

/// What one expression lowers to: the grown state and the operand holding
/// the value. Literals become constants (a float literal rides as an
/// opaque string constant — the IR constant space holds no float), names
/// load into fresh temporaries, and every operation writes a fresh
/// temporary, keeping the single-assignment discipline for temporaries.
pub open spec fn spec_lower_expr(st: BuildV, e: ExpressionV) -> (BuildV, IRValueV)
    decreases e, 0int,
{
    match e {
        ExpressionV::IntLit(n) => (st, IRValueV::Const(IRConstantV::Int(n))),
        ExpressionV::FloatLit(s) => (st, IRValueV::Const(IRConstantV::String(s))),
        ExpressionV::BoolLit(b) => (st, IRValueV::Const(IRConstantV::Bool(b))),
        ExpressionV::StringLit(s) => (st, IRValueV::Const(IRConstantV::String(s))),
        ExpressionV::Identifier(name) => {
            let r = spec_fresh_temp(st);
            let t = IRValueV::Temporary(r.1);
            (spec_emit(r.0, IRInstructionV::Load { result: t, source: name }), t)
        },
        ExpressionV::BinOp(l, op, r) => {
            let rl = spec_lower_expr(st, *l);
            let rr = spec_lower_expr(rl.0, *r);
            let ft = spec_fresh_temp(rr.0);
            let t = IRValueV::Temporary(ft.1);
            if spec_is_membership(op) {
                let st2 = spec_emit(
                    ft.0,
                    IRInstructionV::Call {
                        result: t,
                        function: "contains"@,
                        args: seq![rl.1, rr.1],
                    },
                );
                if op == BinOp::NotIn {
                    let ft2 = spec_fresh_temp(st2);
                    let t2 = IRValueV::Temporary(ft2.1);
                    (
                        spec_emit(
                            ft2.0,
                            IRInstructionV::UnaryOp { result: t2, op: UnaryOpIR::Not, operand: t },
                        ),
                        t2,
                    )
                } else {
                    (st2, t)
                }
            } else {
                (
                    spec_emit(
                        ft.0,
                        IRInstructionV::BinOp {
                            result: t,
                            op: spec_ir_binop(op),
                            left: rl.1,
                            right: rr.1,
                        },
                    ),
                    t,
                )
            }
        },
        ExpressionV::UnaryOp(op, e0) => {
            let r0 = spec_lower_expr(st, *e0);
            match op {
                UnaryOp::Pos => (r0.0, r0.1),
                _ => {
                    let ft = spec_fresh_temp(r0.0);
                    let t = IRValueV::Temporary(ft.1);
                    let iop = match op {
                        UnaryOp::Not => UnaryOpIR::Not,
                        UnaryOp::Neg => UnaryOpIR::Neg,
                        _ => UnaryOpIR::BitNot,
                    };
                    (
                        spec_emit(
                            ft.0,
                            IRInstructionV::UnaryOp { result: t, op: iop, operand: r0.1 },
                        ),
                        t,
                    )
                },
            }
        },
        ExpressionV::Call(f, args) => {
            match *f {
                ExpressionV::Identifier(name) => {
                    let ra = spec_lower_exprs(st, args);
                    let ft = spec_fresh_temp(ra.0);
                    let t = IRValueV::Temporary(ft.1);
                    (
                        spec_emit(
                            ft.0,
                            IRInstructionV::Call { result: t, function: name, args: ra.1 },
                        ),
                        t,
                    )
                },
                _ => (st, IRValueV::Const(IRConstantV::Null)),
            }
        },
        ExpressionV::Index(a, i) => {
            let ra = spec_lower_expr(st, *a);
            let ri = spec_lower_expr(ra.0, *i);
            let ft = spec_fresh_temp(ri.0);
            let t = IRValueV::Temporary(ft.1);
            (
                spec_emit(
                    ft.0,
                    IRInstructionV::Index { result: t, array: ra.1, index: ri.1 },
                ),
                t,
            )
        },
        _ => (st, IRValueV::Const(IRConstantV::Null)),
    }
}

/// An argument list lowered left to right.
pub open spec fn spec_lower_exprs(st: BuildV, es: Seq<ExpressionV>) -> (BuildV, Seq<IRValueV>)
    decreases es, 1int,
{
    if es.len() == 0 {
        (st, Seq::empty())
    } else {
        let r1 = spec_lower_expr(st, es[0]);
        let r2 = spec_lower_exprs(r1.0, es.drop_first());
        (r2.0, seq![r1.1] + r2.1)
    }
}

/// Stores a value to every assignment target, left to right.
pub open spec fn spec_store_targets(st: BuildV, targets: Seq<Seq<char>>, v: IRValueV) -> BuildV
    decreases targets.len(),
{
    if targets.len() == 0 {
        st
    } else {
        spec_store_targets(
            spec_emit(st, IRInstructionV::Store { target: targets[0], value: v }),
            targets.drop_first(),
            v,
        )
    }
}

/// What one statement lowers to.
pub open spec fn spec_lower_stmt(st: BuildV, s: StatementV) -> BuildV
    decreases s, 0int,
{
    match s {
        StatementV::Assign(a) => {
            let rv = spec_lower_expr(st, a.value);
            spec_store_targets(rv.0, a.targets, rv.1)
        },
        StatementV::AugAssign(a) => {
            let ft = spec_fresh_temp(st);
            let t0 = IRValueV::Temporary(ft.1);
            let st1 = spec_emit(ft.0, IRInstructionV::Load { result: t0, source: a.target });
            let rv = spec_lower_expr(st1, a.value);
            let ft2 = spec_fresh_temp(rv.0);
            let t1 = IRValueV::Temporary(ft2.1);
            let st2 = spec_emit(
                ft2.0,
                IRInstructionV::BinOp {
                    result: t1,
                    op: spec_ir_binop(a.op),
                    left: t0,
                    right: rv.1,
                },
            );
            spec_emit(st2, IRInstructionV::Store { target: a.target, value: t1 })
        },
        StatementV::Return(Option::Some(e)) => {
            let rv = spec_lower_expr(st, e);
            spec_emit(rv.0, IRInstructionV::Return { value: Option::Some(rv.1) })
        },
        StatementV::Return(Option::None) => spec_emit(
            st,
            IRInstructionV::Return { value: Option::None },
        ),
        StatementV::ExprStatement(e) => spec_lower_expr(st, e).0,
        StatementV::If(c) => {
            let rc = spec_lower_expr(st, c.condition);
            let bt = spec_fresh_block(rc.0);
            let then_id = bt.1;
            match c.else_body {
                Option::Some(eb) => {
                    let be = spec_fresh_block(bt.0);
                    let else_id = be.1;
                    let bj = spec_fresh_block(be.0);
                    let join_id = bj.1;
                    let st1 = spec_seal(
                        spec_emit(
                            bj.0,
                            IRInstructionV::Branch {
                                condition: rc.1,
                                true_block: then_id,
                                false_block: else_id,
                            },
                        ),
                        seq![then_id, else_id],
                        then_id,
                    );
                    let st2 = spec_lower_stmts(st1, c.then_body);
                    let st3 = spec_seal(
                        spec_emit(st2, IRInstructionV::Jump { target: join_id }),
                        seq![join_id],
                        else_id,
                    );
                    let st4 = spec_lower_stmts(st3, eb);
                    spec_seal(
                        spec_emit(st4, IRInstructionV::Jump { target: join_id }),
                        seq![join_id],
                        join_id,
                    )
                },
                Option::None => {
                    let bj = spec_fresh_block(bt.0);
                    let join_id = bj.1;
                    let st1 = spec_seal(
                        spec_emit(
                            bj.0,
                            IRInstructionV::Branch {
                                condition: rc.1,
                                true_block: then_id,
                                false_block: join_id,
                            },
                        ),
                        seq![then_id, join_id],
                        then_id,
                    );
                    let st2 = spec_lower_stmts(st1, c.then_body);
                    spec_seal(
                        spec_emit(st2, IRInstructionV::Jump { target: join_id }),
                        seq![join_id],
                        join_id,
                    )
                },
            }
        },
        StatementV::While(w) => {
            let bh = spec_fresh_block(st);
            let head_id = bh.1;
            let bb = spec_fresh_block(bh.0);
            let body_id = bb.1;
            let bx = spec_fresh_block(bb.0);
            let exit_id = bx.1;
            let st1 = spec_seal(
                spec_emit(bx.0, IRInstructionV::Jump { target: head_id }),
                seq![head_id],
                head_id,
            );
            let rc = spec_lower_expr(st1, w.condition);
            let st2 = spec_seal(
                spec_emit(
                    rc.0,
                    IRInstructionV::Branch {
                        condition: rc.1,
                        true_block: body_id,
                        false_block: exit_id,
                    },
                ),
                seq![body_id, exit_id],
                body_id,
            );
            let st3 = spec_lower_stmts(st2, w.body);
            spec_seal(
                spec_emit(st3, IRInstructionV::Jump { target: head_id }),
                seq![head_id],
                exit_id,
            )
        },
        StatementV::For(fl) => {
            let rv = spec_lower_expr(st, fl.iter);
            let header_id = rv.0.cur_id;
            let bb = spec_fresh_block(rv.0);
            let body_id = bb.1;
            let bx = spec_fresh_block(bb.0);
            let exit_id = bx.1;
            let st1 = spec_seal(
                spec_emit(
                    bx.0,
                    IRInstructionV::LoopStart {
                        iterator: rv.1,
                        body_block: body_id,
                        exit_block: exit_id,
                    },
                ),
                seq![body_id, exit_id],
                body_id,
            );
            let st2 = spec_lower_stmts(st1, fl.body);
            spec_seal(
                spec_emit(st2, IRInstructionV::LoopEnd),
                seq![header_id],
                exit_id,
            )
        },
        _ => st,
    }
}

/// A statement sequence lowered left to right.
pub open spec fn spec_lower_stmts(st: BuildV, ss: Seq<StatementV>) -> BuildV
    decreases ss, 1int,
{
    if ss.len() == 0 {
        st
    } else {
        spec_lower_stmts(spec_lower_stmt(st, ss[0]), ss.drop_first())
    }
}

/// The optimization level a directive set asks for: `hot` together with a
/// vector or parallel hint escalates to `Extreme`, any one of them to
/// `Aggressive`, else `Basic`.
pub open spec fn spec_opt_level(set: DirectiveSet) -> OptimizationLevel {
    if set.spec_has(Directive::Hot) && (set.spec_has(Directive::Parallel) || set.spec_has(
        Directive::Simd,
    )) {
        OptimizationLevel::Extreme
    } else if set.spec_has(Directive::Hot) || set.spec_has(Directive::Parallel) || set.spec_has(
        Directive::Simd,
    ) {
        OptimizationLevel::Aggressive
    } else {
        OptimizationLevel::Basic
    }
}

/// The parameter list lowered name-and-type.
pub open spec fn spec_lower_params(ps: Seq<crate::ast_types::ParameterV>) -> Seq<IRParamV> {
    Seq::new(ps.len(), |i: int| IRParamV { name: ps[i].name, typ: ps[i].typ })
}

/// What one function definition lowers to: its body lowered from an empty
/// entry block 0, the final open block sealed without a control transfer.
pub open spec fn spec_build_function(f: FunctionDefV) -> IRFunctionV {
    let st0 = BuildV {
        blocks: Seq::empty(),
        cur_id: 0,
        cur_instrs: Seq::empty(),
        next_block: 1,
        next_temp: 0,
    };
    let st1 = spec_lower_stmts(st0, f.body);
    let st2 = spec_seal(st1, Seq::empty(), st1.next_block);
    IRFunctionV {
        name: f.name,
        params: spec_lower_params(f.params),
        return_type: f.return_type,
        blocks: st2.blocks,
        directives: DirectiveSet::spec_from_strings(f.directives),
        optimization_level: spec_opt_level(DirectiveSet::spec_from_strings(f.directives)),
    }
}

/// The functions a program contributes, in order.
pub open spec fn spec_build_functions(ss: Seq<StatementV>) -> Seq<IRFunctionV>
    decreases ss.len(),
{
    if ss.len() == 0 {
        Seq::empty()
    } else {
        (match ss[0] {
            StatementV::FunctionDef(f) => seq![spec_build_function(f)],
            _ => Seq::<IRFunctionV>::empty(),
        }) + spec_build_functions(ss.drop_first())
    }
}

/// What a whole program lowers to: one IR function per top-level
/// definition, no globals, no profiled hot names yet.
pub open spec fn spec_build_module(p: ProgramV) -> IRModuleV {
    IRModuleV {
        functions: spec_build_functions(p.statements),
        globals: Seq::empty(),
        hot_functions: Seq::empty(),
    }
}

/// The builder's working state, executably.
pub struct IRBuilder {
    blocks: Vec<BasicBlock>,
    cur_id: usize,
    cur_instrs: Vec<IRInstruction>,
    next_block: usize,
    next_temp: usize,
}

impl View for IRBuilder {
    type V = BuildV;

    closed spec fn view(&self) -> BuildV {
        BuildV {
            blocks: view_block_seq(self.blocks@),
            cur_id: self.cur_id,
            cur_instrs: view_instr_seq(self.cur_instrs@),
            next_block: self.next_block,
            next_temp: self.next_temp,
        }
    }
}

impl IRBuilder {
    fn emit(&mut self, i: IRInstruction)
        ensures
            final(self)@ == spec_emit(old(self)@, i@),
    {
        let ghost pre = view_instr_seq(self.cur_instrs@);
        let ghost iv = i@;
        self.cur_instrs.push(i);
        proof {
            assert(view_instr_seq(self.cur_instrs@) =~= pre.push(iv));
            assert(self@ =~~= spec_emit(old(self)@, iv));
        }
    }

    fn fresh_temp(&mut self) -> (r: usize)
        ensures
            (final(self)@, r) == spec_fresh_temp(old(self)@),
    {
        let t = self.next_temp;
        if self.next_temp < usize::MAX {
            self.next_temp = self.next_temp + 1;
        }
        proof {
            assert(self@ =~~= spec_fresh_temp(old(self)@).0);
        }
        t
    }

    fn fresh_block(&mut self) -> (r: usize)
        ensures
            (final(self)@, r) == spec_fresh_block(old(self)@),
    {
        let b = self.next_block;
        if self.next_block < usize::MAX {
            self.next_block = self.next_block + 1;
        }
        proof {
            assert(self@ =~~= spec_fresh_block(old(self)@).0);
        }
        b
    }

    fn seal(&mut self, successors: Vec<usize>, next: usize)
        ensures
            final(self)@ == spec_seal(old(self)@, successors@, next),
    {
        let mut instrs: Vec<IRInstruction> = Vec::new();
        core::mem::swap(&mut instrs, &mut self.cur_instrs);
        let ghost pre_blocks = view_block_seq(self.blocks@);
        let id = self.cur_id;
        self.blocks.push(BasicBlock { id, instructions: instrs, successors });
        self.cur_id = next;
        proof {
            assert(view_block_seq(self.blocks@) =~= pre_blocks.push(self.blocks@.last()@));
            assert(view_instr_seq(self.cur_instrs@) =~= Seq::<IRInstructionV>::empty());
            assert(self@ =~~= spec_seal(old(self)@, successors@, next));
        }
    }

    /// Lowers one expression, returning the operand that holds its value.
    fn lower_expression(&mut self, e: &Expression) -> (r: IRValue)
        ensures
            (final(self)@, r@) == spec_lower_expr(old(self)@, e@),
        decreases e, 0int,
    {
        match e {
            Expression::IntLit(n) => IRValue::Const(IRConstant::Int(*n)),
            Expression::FloatLit(s) => IRValue::Const(IRConstant::String(s.clone())),
            Expression::BoolLit(b) => IRValue::Const(IRConstant::Bool(*b)),
            Expression::StringLit(s) => IRValue::Const(IRConstant::String(s.clone())),
            Expression::Identifier(name) => {
                let t = self.fresh_temp();
                let tv = IRValue::Temporary(t);
                self.emit(IRInstruction::Load { result: tv.clone(), source: name.clone() });
                tv
            },
            Expression::BinOp(l, op, r0) => {
                let lv = self.lower_expression(&**l);
                let rv = self.lower_expression(&**r0);
                let t = self.fresh_temp();
                let tv = IRValue::Temporary(t);
                let membership = matches!(op, BinOp::In | BinOp::NotIn);
                proof {
                    assert(membership == spec_is_membership(*op));
                }
                if membership {
                    let mut args: Vec<IRValue> = Vec::new();
                    args.push(lv);
                    args.push(rv);
                    proof {
                        assert(crate::ir::view_value_seq(args@) =~= seq![
                            spec_lower_expr(old(self)@, (**l)@).1,
                            spec_lower_expr(
                                spec_lower_expr(old(self)@, (**l)@).0,
                                (**r0)@,
                            ).1,
                        ]);
                    }
                    self.emit(
                        IRInstruction::Call {
                            result: tv.clone(),
                            function: crate::text::str_to_string("contains"),
                            args,
                        },
                    );
                    if matches!(op, BinOp::NotIn) {
                        let t2 = self.fresh_temp();
                        let tv2 = IRValue::Temporary(t2);
                        self.emit(
                            IRInstruction::UnaryOp {
                                result: tv2.clone(),
                                op: UnaryOpIR::Not,
                                operand: tv,
                            },
                        );
                        tv2
                    } else {
                        tv
                    }
                } else {
                    let iop = ir_binop(*op);
                    self.emit(
                        IRInstruction::BinOp { result: tv.clone(), op: iop, left: lv, right: rv },
                    );
                    tv
                }
            },
            Expression::UnaryOp(op, e0) => {
                let v0 = self.lower_expression(&**e0);
                match op {
                    UnaryOp::Pos => v0,
                    _ => {
                        let t = self.fresh_temp();
                        let tv = IRValue::Temporary(t);
                        let iop = match op {
                            UnaryOp::Not => UnaryOpIR::Not,
                            UnaryOp::Neg => UnaryOpIR::Neg,
                            _ => UnaryOpIR::BitNot,
                        };
                        self.emit(
                            IRInstruction::UnaryOp { result: tv.clone(), op: iop, operand: v0 },
                        );
                        tv
                    },
                }
            },
            Expression::Call(f, args) => {
                match &**f {
                    Expression::Identifier(name) => {
                        proof {
                            assert((**f)@ == ExpressionV::Identifier(name@));
                        }
                        let vals = self.lower_exprs(args);
                        let t = self.fresh_temp();
                        let tv = IRValue::Temporary(t);
                        self.emit(
                            IRInstruction::Call {
                                result: tv.clone(),
                                function: name.clone(),
                                args: vals,
                            },
                        );
                        tv
                    },
                    _ => {
                        proof {
                            assert(!((**f)@ matches ExpressionV::Identifier(_)));
                        }
                        IRValue::Const(IRConstant::Null)
                    },
                }
            },
            Expression::Index(a, i) => {
                let av = self.lower_expression(&**a);
                let iv = self.lower_expression(&**i);
                let t = self.fresh_temp();
                let tv = IRValue::Temporary(t);
                self.emit(
                    IRInstruction::Index { result: tv.clone(), array: av, index: iv },
                );
                tv
            },
            _ => {
                proof {
                    assert(spec_lower_expr(old(self)@, e@) == (
                        old(self)@,
                        IRValueV::Const(IRConstantV::Null),
                    ));
                }
                IRValue::Const(IRConstant::Null)
            },
        }
    }

    /// Lowers an argument list left to right.
    fn lower_exprs(&mut self, es: &Vec<Expression>) -> (r: Vec<IRValue>)
        ensures
            ({
                let sp = spec_lower_exprs(old(self)@, crate::ast_types::view_expr_seq(es@));
                final(self)@ == sp.0 && crate::ir::view_value_seq(r@) == sp.1
            }),
        decreases es@, 1int,
    {
        let ghost st0 = self@;
        let ghost ev = crate::ast_types::view_expr_seq(es@);
        let mut out: Vec<IRValue> = Vec::new();
        proof {
            assert(ev.skip(0) =~= ev);
            assert(crate::ir::view_value_seq(out@) =~= Seq::<IRValueV>::empty());
        }
        let n = es.len();
        let mut i: usize = 0;
        while i < n
            invariant
                i <= n,
                n == es@.len(),
                ev == crate::ast_types::view_expr_seq(es@),
                ({
                    let sp = spec_lower_exprs(st0, ev);
                    let rest = spec_lower_exprs(self@, ev.skip(i as int));
                    sp.0 == rest.0 && sp.1 == crate::ir::view_value_seq(out@) + rest.1
                }),
            decreases n - i,
        {
            proof {
                assert(decreases_to!(es@ => es@[i as int]));
                let tail = ev.skip(i as int);
                assert(tail[0] == ev[i as int]);
                assert(ev[i as int] == es@[i as int]@);
                assert(tail.drop_first() =~= ev.skip(i + 1 as int));
            }
            let ghost pre = crate::ir::view_value_seq(out@);
            let v = self.lower_expression(&es[i]);
            let ghost vv = v@;
            out.push(v);
            proof {
                assert(crate::ir::view_value_seq(out@) =~= pre.push(vv));
                let rest = spec_lower_exprs(self@, ev.skip(i + 1 as int));
                assert(pre.push(vv) + rest.1 =~= pre + (seq![vv] + rest.1));
            }
            i += 1;
        }
        proof {
            assert(ev.skip(n as int).len() == 0);
            assert(spec_lower_exprs(self@, ev.skip(n as int)).1 =~= Seq::<IRValueV>::empty());
            assert(crate::ir::view_value_seq(out@) + Seq::<IRValueV>::empty() =~=
            crate::ir::view_value_seq(out@));
        }
        out
    }

    /// Lowers one statement.
    fn lower_statement(&mut self, s: &Statement)
        ensures
            final(self)@ == spec_lower_stmt(old(self)@, s@),
        decreases s, 0int,
    {
        match s {
            Statement::Assign(a) => {
                let v = self.lower_expression(&a.value);
                let ghost st1 = self@;
                let ghost tv = crate::text::view_string_seq(a.targets@);
                let ghost vv = v@;
                proof {
                    assert(tv.skip(0) =~= tv);
                }
                let n = a.targets.len();
                let mut i: usize = 0;
                while i < n
                    invariant
                        i <= n,
                        n == a.targets@.len(),
                        tv == crate::text::view_string_seq(a.targets@),
                        vv == v@,
                        spec_store_targets(st1, tv, vv) == spec_store_targets(
                            self@,
                            tv.skip(i as int),
                            vv,
                        ),
                    decreases n - i,
                {
                    proof {
                        let tail = tv.skip(i as int);
                        assert(tail[0] == tv[i as int]);
                        assert(tv[i as int] == a.targets@[i as int]@);
                        assert(tail.drop_first() =~= tv.skip(i + 1 as int));
                    }
                    self.emit(
                        IRInstruction::Store { target: a.targets[i].clone(), value: v.clone() },
                    );
                    i += 1;
                }
                proof {
                    assert(tv.skip(n as int).len() == 0);
                }
            },
            Statement::AugAssign(a) => {
                let t0 = self.fresh_temp();
                let tv0 = IRValue::Temporary(t0);
                self.emit(
                    IRInstruction::Load { result: tv0.clone(), source: a.target.clone() },
                );
                let v = self.lower_expression(&a.value);
                let t1 = self.fresh_temp();
                let tv1 = IRValue::Temporary(t1);
                let iop = ir_binop(a.op);
                self.emit(
                    IRInstruction::BinOp { result: tv1.clone(), op: iop, left: tv0, right: v },
                );
                self.emit(IRInstruction::Store { target: a.target.clone(), value: tv1 });
            },
            Statement::Return(Option::Some(e)) => {
                let v = self.lower_expression(e);
                self.emit(IRInstruction::Return { value: Option::Some(v) });
            },
            Statement::Return(Option::None) => {
                self.emit(IRInstruction::Return { value: Option::None });
            },
            Statement::ExprStatement(e) => {
                let _ = self.lower_expression(e);
            },
            Statement::If(c) => {
                let cv = self.lower_expression(&c.condition);
                let then_id = self.fresh_block();
                match &c.else_body {
                    Option::Some(eb) => {
                        let else_id = self.fresh_block();
                        let join_id = self.fresh_block();
                        self.emit(
                            IRInstruction::Branch {
                                condition: cv,
                                true_block: then_id,
                                false_block: else_id,
                            },
                        );
                        let mut succ: Vec<usize> = Vec::new();
                        succ.push(then_id);
                        succ.push(else_id);
                        proof {
                            assert(succ@ =~= seq![then_id, else_id]);
                        }
                        self.seal(succ, then_id);
                        self.lower_stmts(&c.then_body);
                        self.emit(IRInstruction::Jump { target: join_id });
                        let mut succ2: Vec<usize> = Vec::new();
                        succ2.push(join_id);
                        proof {
                            assert(succ2@ =~= seq![join_id]);
                        }
                        self.seal(succ2, else_id);
                        self.lower_stmts(eb);
                        self.emit(IRInstruction::Jump { target: join_id });
                        let mut succ3: Vec<usize> = Vec::new();
                        succ3.push(join_id);
                        proof {
                            assert(succ3@ =~= seq![join_id]);
                        }
                        self.seal(succ3, join_id);
                    },
                    Option::None => {
                        let join_id = self.fresh_block();
                        self.emit(
                            IRInstruction::Branch {
                                condition: cv,
                                true_block: then_id,
                                false_block: join_id,
                            },
                        );
                        let mut succ: Vec<usize> = Vec::new();
                        succ.push(then_id);
                        succ.push(join_id);
                        proof {
                            assert(succ@ =~= seq![then_id, join_id]);
                        }
                        self.seal(succ, then_id);
                        self.lower_stmts(&c.then_body);
                        self.emit(IRInstruction::Jump { target: join_id });
                        let mut succ2: Vec<usize> = Vec::new();
                        succ2.push(join_id);
                        proof {
                            assert(succ2@ =~= seq![join_id]);
                        }
                        self.seal(succ2, join_id);
                    },
                }
            },
            Statement::While(w) => {
                let head_id = self.fresh_block();
                let body_id = self.fresh_block();
                let exit_id = self.fresh_block();
                self.emit(IRInstruction::Jump { target: head_id });
                let mut succ: Vec<usize> = Vec::new();
                succ.push(head_id);
                proof {
                    assert(succ@ =~= seq![head_id]);
                }
                self.seal(succ, head_id);
                let cv = self.lower_expression(&w.condition);
                self.emit(
                    IRInstruction::Branch {
                        condition: cv,
                        true_block: body_id,
                        false_block: exit_id,
                    },
                );
                let mut succ2: Vec<usize> = Vec::new();
                succ2.push(body_id);
                succ2.push(exit_id);
                proof {
                    assert(succ2@ =~= seq![body_id, exit_id]);
                }
                self.seal(succ2, body_id);
                self.lower_stmts(&w.body);
                self.emit(IRInstruction::Jump { target: head_id });
                let mut succ3: Vec<usize> = Vec::new();
                succ3.push(head_id);
                proof {
                    assert(succ3@ =~= seq![head_id]);
                }
                self.seal(succ3, exit_id);
            },
            Statement::For(fl) => {
                let v = self.lower_expression(&fl.iter);
                let header_id = self.cur_id;
                let body_id = self.fresh_block();
                let exit_id = self.fresh_block();
                self.emit(
                    IRInstruction::LoopStart {
                        iterator: v,
                        body_block: body_id,
                        exit_block: exit_id,
                    },
                );
                let mut succ: Vec<usize> = Vec::new();
                succ.push(body_id);
                succ.push(exit_id);
                proof {
                    assert(succ@ =~= seq![body_id, exit_id]);
                }
                self.seal(succ, body_id);
                self.lower_stmts(&fl.body);
                self.emit(IRInstruction::LoopEnd);
                let mut succ2: Vec<usize> = Vec::new();
                succ2.push(header_id);
                proof {
                    assert(succ2@ =~= seq![header_id]);
                }
                self.seal(succ2, exit_id);
            },
            _ => {
                proof {
                    assert(spec_lower_stmt(old(self)@, s@) == old(self)@);
                }
            },
        }
    }

    /// Lowers a statement sequence left to right.
    fn lower_stmts(&mut self, ss: &Vec<Statement>)
        ensures
            final(self)@ == spec_lower_stmts(
                old(self)@,
                crate::ast_types::view_stmt_seq(ss@),
            ),
        decreases ss@, 1int,
    {
        let ghost st0 = self@;
        let ghost sv = crate::ast_types::view_stmt_seq(ss@);
        proof {
            assert(sv.skip(0) =~= sv);
        }
        let n = ss.len();
        let mut i: usize = 0;
        while i < n
            invariant
                i <= n,
                n == ss@.len(),
                sv == crate::ast_types::view_stmt_seq(ss@),
                spec_lower_stmts(st0, sv) == spec_lower_stmts(self@, sv.skip(i as int)),
            decreases n - i,
        {
            proof {
                assert(decreases_to!(ss@ => ss@[i as int]));
                let tail = sv.skip(i as int);
                assert(tail[0] == sv[i as int]);
                assert(sv[i as int] == ss@[i as int]@);
                assert(tail.drop_first() =~= sv.skip(i + 1 as int));
            }
            self.lower_statement(&ss[i]);
            i += 1;
        }
        proof {
            assert(sv.skip(n as int).len() == 0);
        }
    }

    /// Lowers one type-annotated function definition to its IR function.
    pub fn build(function: &FunctionDef) -> (r: IRFunction)
        ensures
            r@ == spec_build_function(function@),
    {
        let mut b = IRBuilder {
            blocks: Vec::new(),
            cur_id: 0,
            cur_instrs: Vec::new(),
            next_block: 1,
            next_temp: 0,
        };
        proof {
            assert(b@ =~~= (BuildV {
                blocks: Seq::empty(),
                cur_id: 0,
                cur_instrs: Seq::empty(),
                next_block: 1,
                next_temp: 0,
            }));
        }
        b.lower_stmts(&function.body);
        let nb = b.next_block;
        b.seal(Vec::new(), nb);
        let mut params: Vec<IRParam> = Vec::new();
        let mut i: usize = 0;
        let n = function.params.len();
        while i < n
            invariant
                i <= n,
                n == function.params@.len(),
                params@.len() == i,
                forall|k: int|
                    0 <= k < i ==> (#[trigger] params@[k])@ == spec_lower_params(
                        crate::ast_types::view_param_seq(function.params@),
                    )[k],
            decreases n - i,
        {
            params.push(
                IRParam {
                    name: function.params[i].name.clone(),
                    typ: function.params[i].typ.clone(),
                },
            );
            i += 1;
        }
        let dirs = DirectiveSet::from_strings(&function.directives);
        proof {
            assert(function.directives.deep_view() =~= function@.directives);
        }
        let level = if dirs.is_hot() && (dirs.parallelizable() || dirs.simd_eligible()) {
            OptimizationLevel::Extreme
        } else if dirs.is_hot() || dirs.parallelizable() || dirs.simd_eligible() {
            OptimizationLevel::Aggressive
        } else {
            OptimizationLevel::Basic
        };
        let out = IRFunction {
            name: function.name.clone(),
            params,
            return_type: function.return_type.clone(),
            blocks: b.blocks,
            directives: dirs,
            optimization_level: level,
        };
        proof {
            assert(crate::ir::view_irparam_seq(out.params@) =~= spec_lower_params(
                function@.params,
            ));
            assert(out@ =~~= spec_build_function(function@));
        }
        out
    }

    /// Lowers a whole program: one IR function per top-level definition.
    pub fn build_module(program: &Program) -> (r: IRModule)
        ensures
            r@ == spec_build_module(program@),
    {
        let ghost sv = crate::ast_types::view_stmt_seq(program.statements@);
        let mut functions: Vec<IRFunction> = Vec::new();
        proof {
            assert(sv.skip(0) =~= sv);
            assert(crate::ir::view_irfn_seq(functions@) =~= Seq::<IRFunctionV>::empty());
        }
        let n = program.statements.len();
        let mut i: usize = 0;
        while i < n
            invariant
                i <= n,
                n == program.statements@.len(),
                sv == crate::ast_types::view_stmt_seq(program.statements@),
                spec_build_functions(sv) == crate::ir::view_irfn_seq(functions@)
                    + spec_build_functions(sv.skip(i as int)),
            decreases n - i,
        {
            proof {
                let tail = sv.skip(i as int);
                assert(tail[0] == sv[i as int]);
                assert(sv[i as int] == program.statements@[i as int]@);
                assert(tail.drop_first() =~= sv.skip(i + 1 as int));
            }
            match &program.statements[i] {
                Statement::FunctionDef(f) => {
                    let ghost pre = crate::ir::view_irfn_seq(functions@);
                    let built = IRBuilder::build(f);
                    let ghost bv = built@;
                    functions.push(built);
                    proof {
                        assert(crate::ir::view_irfn_seq(functions@) =~= pre.push(bv));
                        let rest = spec_build_functions(sv.skip(i + 1 as int));
                        assert(pre.push(bv) + rest =~= pre + (seq![bv] + rest));
                    }
                },
                _ => {},
            }
            i += 1;
        }
        proof {
            assert(sv.skip(n as int).len() == 0);
            assert(spec_build_functions(sv.skip(n as int)) =~= Seq::<IRFunctionV>::empty());
            assert(crate::ir::view_irfn_seq(functions@) + Seq::<IRFunctionV>::empty() =~=
            crate::ir::view_irfn_seq(functions@));
        }
        let out = IRModule { functions, globals: Vec::new(), hot_functions: Vec::new() };
        proof {
            assert(out@ =~~= spec_build_module(program@));
        }
        out
    }
}

/// The IR operator a surface operator lowers to, executably.
fn ir_binop(op: BinOp) -> (r: BinOpIR)
    ensures
        r == spec_ir_binop(op),
{
    match op {
        BinOp::Add => BinOpIR::Add,
        BinOp::Sub => BinOpIR::Sub,
        BinOp::Mult => BinOpIR::Mul,
        BinOp::Div => BinOpIR::Div,
        BinOp::FloorDiv => BinOpIR::FloorDiv,
        BinOp::Mod => BinOpIR::Mod,
        BinOp::Pow => BinOpIR::Pow,
        BinOp::LShift => BinOpIR::LShift,
        BinOp::RShift => BinOpIR::RShift,
        BinOp::BitOr => BinOpIR::BitOr,
        BinOp::BitXor => BinOpIR::BitXor,
        BinOp::BitAnd => BinOpIR::BitAnd,
        BinOp::Eq => BinOpIR::Eq,
        BinOp::NotEq => BinOpIR::NotEq,
        BinOp::Lt => BinOpIR::Lt,
        BinOp::LtE => BinOpIR::LtE,
        BinOp::Gt => BinOpIR::Gt,
        BinOp::GtE => BinOpIR::GtE,
        BinOp::Is => BinOpIR::Eq,
        BinOp::IsNot => BinOpIR::NotEq,
        BinOp::And => BinOpIR::BitAnd,
        BinOp::Or => BinOpIR::BitOr,
        BinOp::In => BinOpIR::Eq,
        BinOp::NotIn => BinOpIR::NotEq,
    }
}

} // verus!
