//! The intermediate representation: a module of functions, each a
//! control-flow graph of basic blocks holding typed instructions over an
//! explicit value space. Spec mirrors (suffix `V`) carry the same structure
//! with `Seq` for `Vec` and `Seq<char>` for `String`.
use vstd::prelude::*;
use crate::ast_types::{Type, TypeV, view_type};
use crate::directives::DirectiveSet;
use crate::text::{str_eq, contains_string, view_string_seq};

verus! {

#[derive(Debug, Clone, Copy, PartialEq, Eq, Structural)]
pub enum OptimizationLevel {
    NoOpt,
    Basic,
    Aggressive,
    Extreme,
}

#[derive(Debug, Clone, Copy, PartialEq, Eq, Hash, Structural)]
pub enum BinOpIR {
    Add,
    Sub,
    Mul,
    Div,
    FloorDiv,
    Mod,
    Pow,
    BitAnd,
    BitOr,
    BitXor,
    LShift,
    RShift,
    Eq,
    NotEq,
    Lt,
    LtE,
    Gt,
    GtE,
}

#[derive(Debug, Clone, Copy, PartialEq, Eq, Structural)]
pub enum UnaryOpIR {
    Neg,
    Not,
    BitNot,
}

/// Spec mirror of `IRConstant`.
#[verifier::ext_equal]
pub enum IRConstantV {
    Int(i64),
    Bool(bool),
    String(Seq<char>),
    Null,
}

/// A compile-time constant operand.
#[derive(Debug, PartialEq, Eq)]
pub enum IRConstant {
    Int(i64),
    Bool(bool),
    String(String),
    Null,
}

impl View for IRConstant {
    type V = IRConstantV;

    open spec fn view(&self) -> IRConstantV {
        match self {
            IRConstant::Int(n) => IRConstantV::Int(*n),
            IRConstant::Bool(b) => IRConstantV::Bool(*b),
            IRConstant::String(s) => IRConstantV::String(s@),
            IRConstant::Null => IRConstantV::Null,
        }
    }
}

impl Clone for IRConstant {
    /// A structural copy; the view is preserved exactly.
    fn clone(&self) -> (r: IRConstant)
        ensures
            r@ == self@,
    {
        match self {
            IRConstant::Int(n) => IRConstant::Int(*n),
            IRConstant::Bool(b) => IRConstant::Bool(*b),
            IRConstant::String(s) => IRConstant::String(s.clone()),
            IRConstant::Null => IRConstant::Null,
        }
    }
}

/// Spec mirror of `IRValue`.
#[verifier::ext_equal]
pub enum IRValueV {
    Const(IRConstantV),
    Local(Seq<char>),
    Temporary(usize),
}

/// An operand: a constant, a named local, or a numbered temporary.
/// Temporaries are produced exactly once by the instruction defining them;
/// named locals may be reassigned.
#[derive(Debug, PartialEq, Eq)]
pub enum IRValue {
    Const(IRConstant),
    Local(String),
    Temporary(usize),
}

impl View for IRValue {
    type V = IRValueV;

    open spec fn view(&self) -> IRValueV {
        match self {
            IRValue::Const(c) => IRValueV::Const(c@),
            IRValue::Local(s) => IRValueV::Local(s@),
            IRValue::Temporary(n) => IRValueV::Temporary(*n),
        }
    }
}

impl Clone for IRValue {
    /// A structural copy; the view is preserved exactly.
    fn clone(&self) -> (r: IRValue)
        ensures
            r@ == self@,
    {
        match self {
            IRValue::Const(c) => IRValue::Const(c.clone()),
            IRValue::Local(s) => IRValue::Local(s.clone()),
            IRValue::Temporary(n) => IRValue::Temporary(*n),
        }
    }
}

/// Whether two constants denote the same value.
pub fn ir_constant_eq(a: &IRConstant, b: &IRConstant) -> (r: bool)
    ensures
        r == (a@ == b@),
{
    match (a, b) {
        (IRConstant::Int(x), IRConstant::Int(y)) => x == y,
        (IRConstant::Bool(x), IRConstant::Bool(y)) => x == y,
        (IRConstant::String(x), IRConstant::String(y)) => str_eq(x.as_str(), y.as_str()),
        (IRConstant::Null, IRConstant::Null) => true,
        _ => false,
    }
}

/// Whether two operands denote the same value.
pub fn ir_value_eq(a: &IRValue, b: &IRValue) -> (r: bool)
    ensures
        r == (a@ == b@),
{
    match (a, b) {
        (IRValue::Const(x), IRValue::Const(y)) => ir_constant_eq(x, y),
        (IRValue::Local(x), IRValue::Local(y)) => str_eq(x.as_str(), y.as_str()),
        (IRValue::Temporary(x), IRValue::Temporary(y)) => x == y,
        _ => false,
    }
}

/// Spec mirror of `IRInstruction`.
#[verifier::ext_equal]
pub enum IRInstructionV {
    BinOp { result: IRValueV, op: BinOpIR, left: IRValueV, right: IRValueV },
    UnaryOp { result: IRValueV, op: UnaryOpIR, operand: IRValueV },
    Assign { target: IRValueV, value: IRValueV },
    Load { result: IRValueV, source: Seq<char> },
    Store { target: Seq<char>, value: IRValueV },
    Index { result: IRValueV, array: IRValueV, index: IRValueV },
    IndexStore { array: IRValueV, index: IRValueV, value: IRValueV },
    Branch { condition: IRValueV, true_block: usize, false_block: usize },
    Jump { target: usize },
    Return { value: Option<IRValueV> },
    Call { result: IRValueV, function: Seq<char>, args: Seq<IRValueV> },
    LoopStart { iterator: IRValueV, body_block: usize, exit_block: usize },
    LoopEnd,
    Vectorizable,
    Parallelizable,
    CanElideCheck,
    Pure,
}

/// One IR instruction. The four trailing marker variants carry
/// optimizer-discovered facts to the code generator.
#[derive(Debug, PartialEq)]
pub enum IRInstruction {
    BinOp { result: IRValue, op: BinOpIR, left: IRValue, right: IRValue },
    UnaryOp { result: IRValue, op: UnaryOpIR, operand: IRValue },
    Assign { target: IRValue, value: IRValue },
    Load { result: IRValue, source: String },
    Store { target: String, value: IRValue },
    Index { result: IRValue, array: IRValue, index: IRValue },
    IndexStore { array: IRValue, index: IRValue, value: IRValue },
    Branch { condition: IRValue, true_block: usize, false_block: usize },
    Jump { target: usize },
    Return { value: Option<IRValue> },
    Call { result: IRValue, function: String, args: Vec<IRValue> },
    LoopStart { iterator: IRValue, body_block: usize, exit_block: usize },
    LoopEnd,
    Vectorizable,
    Parallelizable,
    CanElideCheck,
    Pure,
}

/// Element-wise view of a sequence of operands.
pub open spec fn view_value_seq(v: Seq<IRValue>) -> Seq<IRValueV> {
    Seq::new(v.len(), |i: int| v[i]@)
}

impl View for IRInstruction {
    type V = IRInstructionV;

    open spec fn view(&self) -> IRInstructionV {
        match self {
            IRInstruction::BinOp { result, op, left, right } => IRInstructionV::BinOp {
                result: result@,
                op: *op,
                left: left@,
                right: right@,
            },
            IRInstruction::UnaryOp { result, op, operand } => IRInstructionV::UnaryOp {
                result: result@,
                op: *op,
                operand: operand@,
            },
            IRInstruction::Assign { target, value } => IRInstructionV::Assign {
                target: target@,
                value: value@,
            },
            IRInstruction::Load { result, source } => IRInstructionV::Load {
                result: result@,
                source: source@,
            },
            IRInstruction::Store { target, value } => IRInstructionV::Store {
                target: target@,
                value: value@,
            },
            IRInstruction::Index { result, array, index } => IRInstructionV::Index {
                result: result@,
                array: array@,
                index: index@,
            },
            IRInstruction::IndexStore { array, index, value } => IRInstructionV::IndexStore {
                array: array@,
                index: index@,
                value: value@,
            },
            IRInstruction::Branch { condition, true_block, false_block } => IRInstructionV::Branch {
                condition: condition@,
                true_block: *true_block,
                false_block: *false_block,
            },
            IRInstruction::Jump { target } => IRInstructionV::Jump { target: *target },
            IRInstruction::Return { value } => IRInstructionV::Return {
                value: match value {
                    Option::None => Option::None,
                    Option::Some(v) => Option::Some(v@),
                },
            },
            IRInstruction::Call { result, function, args } => IRInstructionV::Call {
                result: result@,
                function: function@,
                args: view_value_seq(args@),
            },
            IRInstruction::LoopStart { iterator, body_block, exit_block } => {
                IRInstructionV::LoopStart {
                    iterator: iterator@,
                    body_block: *body_block,
                    exit_block: *exit_block,
                }
            },
            IRInstruction::LoopEnd => IRInstructionV::LoopEnd,
            IRInstruction::Vectorizable => IRInstructionV::Vectorizable,
            IRInstruction::Parallelizable => IRInstructionV::Parallelizable,
            IRInstruction::CanElideCheck => IRInstructionV::CanElideCheck,
            IRInstruction::Pure => IRInstructionV::Pure,
        }
    }
}

/// A structural copy of an operand vector; the element views are kept.
fn clone_value_vec(v: &Vec<IRValue>) -> (out: Vec<IRValue>)
    ensures
        out@.len() == v@.len(),
        view_value_seq(out@) == view_value_seq(v@),
{
    let mut out: Vec<IRValue> = Vec::new();
    let mut i: usize = 0;
    while i < v.len()
        invariant
            i <= v@.len(),
            out@.len() == i,
            forall|k: int| 0 <= k < i ==> out@[k]@ == v@[k]@,
        decreases v@.len() - i,
    {
        out.push(v[i].clone());
        i += 1;
    }
    proof {
        assert(view_value_seq(out@) =~= view_value_seq(v@));
    }
    out
}

impl Clone for IRInstruction {
    /// A structural copy; the view is preserved exactly.
    fn clone(&self) -> (r: IRInstruction)
        ensures
            r@ == self@,
    {
        match self {
            IRInstruction::BinOp { result, op, left, right } => IRInstruction::BinOp {
                result: result.clone(),
                op: *op,
                left: left.clone(),
                right: right.clone(),
            },
            IRInstruction::UnaryOp { result, op, operand } => IRInstruction::UnaryOp {
                result: result.clone(),
                op: *op,
                operand: operand.clone(),
            },
            IRInstruction::Assign { target, value } => IRInstruction::Assign {
                target: target.clone(),
                value: value.clone(),
            },
            IRInstruction::Load { result, source } => IRInstruction::Load {
                result: result.clone(),
                source: source.clone(),
            },
            IRInstruction::Store { target, value } => IRInstruction::Store {
                target: target.clone(),
                value: value.clone(),
            },
            IRInstruction::Index { result, array, index } => IRInstruction::Index {
                result: result.clone(),
                array: array.clone(),
                index: index.clone(),
            },
            IRInstruction::IndexStore { array, index, value } => IRInstruction::IndexStore {
                array: array.clone(),
                index: index.clone(),
                value: value.clone(),
            },
            IRInstruction::Branch { condition, true_block, false_block } => IRInstruction::Branch {
                condition: condition.clone(),
                true_block: *true_block,
                false_block: *false_block,
            },
            IRInstruction::Jump { target } => IRInstruction::Jump { target: *target },
            IRInstruction::Return { value } => IRInstruction::Return {
                value: match value {
                    Option::None => Option::None,
                    Option::Some(v) => Option::Some(v.clone()),
                },
            },
            IRInstruction::Call { result, function, args } => IRInstruction::Call {
                result: result.clone(),
                function: function.clone(),
                args: clone_value_vec(args),
            },
            IRInstruction::LoopStart { iterator, body_block, exit_block } => {
                IRInstruction::LoopStart {
                    iterator: iterator.clone(),
                    body_block: *body_block,
                    exit_block: *exit_block,
                }
            },
            IRInstruction::LoopEnd => IRInstruction::LoopEnd,
            IRInstruction::Vectorizable => IRInstruction::Vectorizable,
            IRInstruction::Parallelizable => IRInstruction::Parallelizable,
            IRInstruction::CanElideCheck => IRInstruction::CanElideCheck,
            IRInstruction::Pure => IRInstruction::Pure,
        }
    }
}

/// A copy of an instruction vector; the element views are kept.
pub fn clone_instr_vec(v: &Vec<IRInstruction>) -> (out: Vec<IRInstruction>)
    ensures
        out@.len() == v@.len(),
        view_instr_seq(out@) == view_instr_seq(v@),
{
    let mut out: Vec<IRInstruction> = Vec::new();
    let mut i: usize = 0;
    while i < v.len()
        invariant
            i <= v@.len(),
            out@.len() == i,
            forall|k: int| 0 <= k < i ==> out@[k]@ == v@[k]@,
        decreases v@.len() - i,
    {
        out.push(v[i].clone());
        i += 1;
    }
    proof {
        assert(view_instr_seq(out@) =~= view_instr_seq(v@));
    }
    out
}

/// A copy of a block-id vector.
pub fn clone_usize_vec(v: &Vec<usize>) -> (r: Vec<usize>)
    ensures
        r@ == v@,
{
    let mut r: Vec<usize> = Vec::new();
    let mut i: usize = 0;
    while i < v.len()
        invariant
            i <= v@.len(),
            r@ == v@.subrange(0, i as int),
        decreases v@.len() - i,
    {
        r.push(v[i]);
        proof {
            assert(v@.subrange(0, i as int).push(v@[i as int]) =~= v@.subrange(0, i + 1 as int));
        }
        i += 1;
    }
    proof {
        assert(r@ =~= v@);
    }
    r
}

/// Whether two optional operands denote the same value.
fn ir_opt_value_eq(a: &Option<IRValue>, b: &Option<IRValue>) -> (r: bool)
    ensures
        r == ((match a {
            Option::Some(x) => Option::Some(x@),
            Option::None => Option::None,
        }) == (match b {
            Option::Some(y) => Option::Some(y@),
            Option::None => Option::None,
        })),
{
    match (a, b) {
        (Option::Some(x), Option::Some(y)) => ir_value_eq(x, y),
        (Option::None, Option::None) => true,
        _ => false,
    }
}

/// Whether two operand vectors denote the same values.
fn ir_value_vec_eq(a: &Vec<IRValue>, b: &Vec<IRValue>) -> (r: bool)
    ensures
        r == (view_value_seq(a@) == view_value_seq(b@)),
{
    if a.len() != b.len() {
        proof {
            assert(view_value_seq(a@).len() == a@.len());
            assert(view_value_seq(b@).len() == b@.len());
        }
        return false;
    }
    let n = a.len();
    let mut i: usize = 0;
    while i < n
        invariant
            i <= n,
            n == a@.len(),
            b@.len() == n,
            forall|k: int| 0 <= k < i ==> a@[k]@ == b@[k]@,
        decreases n - i,
    {
        if !ir_value_eq(&a[i], &b[i]) {
            proof {
                assert(view_value_seq(a@)[i as int] != view_value_seq(b@)[i as int]);
            }
            return false;
        }
        i += 1;
    }
    proof {
        assert(view_value_seq(a@) =~= view_value_seq(b@));
    }
    true
}

/// Whether two instructions denote the same instruction.
pub fn ir_instr_eq(a: &IRInstruction, b: &IRInstruction) -> (r: bool)
    ensures
        r == (a@ == b@),
{
    match (a, b) {
        (
            IRInstruction::BinOp { result: r1, op: o1, left: l1, right: x1 },
            IRInstruction::BinOp { result: r2, op: o2, left: l2, right: x2 },
        ) => ir_value_eq(r1, r2) && o1 == o2 && ir_value_eq(l1, l2) && ir_value_eq(x1, x2),
        (
            IRInstruction::UnaryOp { result: r1, op: o1, operand: p1 },
            IRInstruction::UnaryOp { result: r2, op: o2, operand: p2 },
        ) => ir_value_eq(r1, r2) && o1 == o2 && ir_value_eq(p1, p2),
        (
            IRInstruction::Assign { target: t1, value: v1 },
            IRInstruction::Assign { target: t2, value: v2 },
        ) => ir_value_eq(t1, t2) && ir_value_eq(v1, v2),
        (
            IRInstruction::Load { result: r1, source: s1 },
            IRInstruction::Load { result: r2, source: s2 },
        ) => ir_value_eq(r1, r2) && str_eq(s1.as_str(), s2.as_str()),
        (
            IRInstruction::Store { target: t1, value: v1 },
            IRInstruction::Store { target: t2, value: v2 },
        ) => str_eq(t1.as_str(), t2.as_str()) && ir_value_eq(v1, v2),
        (
            IRInstruction::Index { result: r1, array: a1, index: i1 },
            IRInstruction::Index { result: r2, array: a2, index: i2 },
        ) => ir_value_eq(r1, r2) && ir_value_eq(a1, a2) && ir_value_eq(i1, i2),
        (
            IRInstruction::IndexStore { array: a1, index: i1, value: v1 },
            IRInstruction::IndexStore { array: a2, index: i2, value: v2 },
        ) => ir_value_eq(a1, a2) && ir_value_eq(i1, i2) && ir_value_eq(v1, v2),
        (
            IRInstruction::Branch { condition: c1, true_block: t1, false_block: f1 },
            IRInstruction::Branch { condition: c2, true_block: t2, false_block: f2 },
        ) => ir_value_eq(c1, c2) && t1 == t2 && f1 == f2,
        (IRInstruction::Jump { target: t1 }, IRInstruction::Jump { target: t2 }) => t1 == t2,
        (IRInstruction::Return { value: v1 }, IRInstruction::Return { value: v2 }) => {
            ir_opt_value_eq(v1, v2)
        },
        (
            IRInstruction::Call { result: r1, function: f1, args: a1 },
            IRInstruction::Call { result: r2, function: f2, args: a2 },
        ) => ir_value_eq(r1, r2) && str_eq(f1.as_str(), f2.as_str()) && ir_value_vec_eq(a1, a2),
        (
            IRInstruction::LoopStart { iterator: i1, body_block: b1, exit_block: e1 },
            IRInstruction::LoopStart { iterator: i2, body_block: b2, exit_block: e2 },
        ) => ir_value_eq(i1, i2) && b1 == b2 && e1 == e2,
        (IRInstruction::LoopEnd, IRInstruction::LoopEnd) => true,
        (IRInstruction::Vectorizable, IRInstruction::Vectorizable) => true,
        (IRInstruction::Parallelizable, IRInstruction::Parallelizable) => true,
        (IRInstruction::CanElideCheck, IRInstruction::CanElideCheck) => true,
        (IRInstruction::Pure, IRInstruction::Pure) => true,
        _ => false,
    }
}

/// Spec mirror of `BasicBlock`.
#[verifier::ext_equal]
pub struct BasicBlockV {
    pub id: usize,
    pub instructions: Seq<IRInstructionV>,
    pub successors: Seq<usize>,
}

/// A basic block: a numeric id, an ordered instruction list, and the ids of
/// its successor blocks.
#[derive(Debug)]
pub struct BasicBlock {
    pub id: usize,
    pub instructions: Vec<IRInstruction>,
    pub successors: Vec<usize>,
}

/// Element-wise view of an instruction vector.
pub open spec fn view_instr_seq(v: Seq<IRInstruction>) -> Seq<IRInstructionV> {
    Seq::new(v.len(), |i: int| v[i]@)
}

impl View for BasicBlock {
    type V = BasicBlockV;

    open spec fn view(&self) -> BasicBlockV {
        BasicBlockV {
            id: self.id,
            instructions: view_instr_seq(self.instructions@),
            successors: self.successors@,
        }
    }
}

impl BasicBlock {
    pub fn new(id: usize) -> (r: BasicBlock)
        ensures
            r@.id == id,
            r@.instructions.len() == 0,
            r@.successors.len() == 0,
    {
        proof {
            assert(view_instr_seq(Seq::<IRInstruction>::empty()) =~= Seq::<
                IRInstructionV,
            >::empty());
        }
        BasicBlock { id, instructions: Vec::new(), successors: Vec::new() }
    }

    /// Appends one instruction to the block.
    pub fn add_instruction(&mut self, instr: IRInstruction)
        ensures
            final(self)@.id == old(self)@.id,
            final(self)@.successors == old(self)@.successors,
            final(self)@.instructions == old(self)@.instructions.push(instr@),
    {
        let ghost pre = self.instructions@;
        self.instructions.push(instr);
        proof {
            assert(view_instr_seq(self.instructions@) =~= view_instr_seq(pre).push(
                self.instructions@.last()@,
            ));
        }
    }
}

/// Whether two blocks denote the same block.
pub fn ir_block_eq(a: &BasicBlock, b: &BasicBlock) -> (r: bool)
    ensures
        r == (a@ == b@),
{
    if a.id != b.id {
        return false;
    }
    if a.instructions.len() != b.instructions.len() || a.successors.len() != b.successors.len() {
        proof {
            assert(view_instr_seq(a.instructions@).len() == a.instructions@.len());
            assert(view_instr_seq(b.instructions@).len() == b.instructions@.len());
        }
        return false;
    }
    let n = a.instructions.len();
    let mut i: usize = 0;
    while i < n
        invariant
            i <= n,
            n == a.instructions@.len(),
            b.instructions@.len() == n,
            forall|k: int| 0 <= k < i ==> a.instructions@[k]@ == b.instructions@[k]@,
        decreases n - i,
    {
        if !ir_instr_eq(&a.instructions[i], &b.instructions[i]) {
            proof {
                assert(view_instr_seq(a.instructions@)[i as int] != view_instr_seq(
                    b.instructions@,
                )[i as int]);
            }
            return false;
        }
        i += 1;
    }
    let m = a.successors.len();
    let mut j: usize = 0;
    while j < m
        invariant
            j <= m,
            m == a.successors@.len(),
            b.successors@.len() == m,
            forall|k: int| 0 <= k < j ==> a.successors@[k] == b.successors@[k],
        decreases m - j,
    {
        if a.successors[j] != b.successors[j] {
            return false;
        }
        j += 1;
    }
    proof {
        assert(view_instr_seq(a.instructions@) =~= view_instr_seq(b.instructions@));
        assert(a.successors@ =~= b.successors@);
        assert(a@ =~~= b@);
    }
    true
}

/// Whether two block vectors denote the same blocks.
pub fn ir_blocks_eq(a: &Vec<BasicBlock>, b: &Vec<BasicBlock>) -> (r: bool)
    ensures
        r == (view_block_seq(a@) == view_block_seq(b@)),
{
    if a.len() != b.len() {
        proof {
            assert(view_block_seq(a@).len() == a@.len());
            assert(view_block_seq(b@).len() == b@.len());
        }
        return false;
    }
    let n = a.len();
    let mut i: usize = 0;
    while i < n
        invariant
            i <= n,
            n == a@.len(),
            b@.len() == n,
            forall|k: int| 0 <= k < i ==> a@[k]@ == b@[k]@,
        decreases n - i,
    {
        if !ir_block_eq(&a[i], &b[i]) {
            proof {
                assert(view_block_seq(a@)[i as int] != view_block_seq(b@)[i as int]);
            }
            return false;
        }
        i += 1;
    }
    proof {
        assert(view_block_seq(a@) =~= view_block_seq(b@));
    }
    true
}

/// A copy of a block vector; the block views are kept.
pub fn clone_block_vec(v: &Vec<BasicBlock>) -> (out: Vec<BasicBlock>)
    ensures
        view_block_seq(out@) == view_block_seq(v@),
{
    let mut out: Vec<BasicBlock> = Vec::new();
    let mut i: usize = 0;
    while i < v.len()
        invariant
            i <= v@.len(),
            out@.len() == i,
            forall|k: int| 0 <= k < i ==> out@[k]@ == v@[k]@,
        decreases v@.len() - i,
    {
        let b = &v[i];
        out.push(
            BasicBlock {
                id: b.id,
                instructions: clone_instr_vec(&b.instructions),
                successors: clone_usize_vec(&b.successors),
            },
        );
        proof {
            assert(out@.last()@ =~~= v@[i as int]@);
        }
        i += 1;
    }
    proof {
        assert(view_block_seq(out@) =~= view_block_seq(v@));
    }
    out
}

/// Spec mirror of `IRParam`.
#[verifier::ext_equal]
pub struct IRParamV {
    pub name: Seq<char>,
    pub typ: TypeV,
}

#[derive(Debug)]
pub struct IRParam {
    pub name: String,
    pub typ: Type,
}

impl View for IRParam {
    type V = IRParamV;

    open spec fn view(&self) -> IRParamV {
        IRParamV { name: self.name@, typ: view_type(self.typ) }
    }
}

impl Clone for IRParam {
    /// A structural copy; the view is preserved exactly.
    fn clone(&self) -> (r: IRParam)
        ensures
            r@ == self@,
    {
        IRParam { name: self.name.clone(), typ: self.typ.clone() }
    }
}

/// A copy of a parameter vector; the element views are kept.
pub fn clone_irparam_vec(v: &Vec<IRParam>) -> (out: Vec<IRParam>)
    ensures
        out@.len() == v@.len(),
        view_irparam_seq(out@) == view_irparam_seq(v@),
{
    let mut out: Vec<IRParam> = Vec::new();
    let mut i: usize = 0;
    while i < v.len()
        invariant
            i <= v@.len(),
            out@.len() == i,
            forall|k: int| 0 <= k < i ==> out@[k]@ == v@[k]@,
        decreases v@.len() - i,
    {
        out.push(v[i].clone());
        i += 1;
    }
    proof {
        assert(view_irparam_seq(out@) =~= view_irparam_seq(v@));
    }
    out
}

/// Spec mirror of `IRFunction`.
#[verifier::ext_equal]
pub struct IRFunctionV {
    pub name: Seq<char>,
    pub params: Seq<IRParamV>,
    pub return_type: TypeV,
    pub blocks: Seq<BasicBlockV>,
    pub directives: DirectiveSet,
    pub optimization_level: OptimizationLevel,
}

/// A function: an ordered block list whose entry block is block 0.
#[derive(Debug)]
pub struct IRFunction {
    pub name: String,
    pub params: Vec<IRParam>,
    pub return_type: Type,
    pub blocks: Vec<BasicBlock>,
    pub directives: DirectiveSet,
    pub optimization_level: OptimizationLevel,
}

/// Element-wise view of a block vector.
pub open spec fn view_block_seq(v: Seq<BasicBlock>) -> Seq<BasicBlockV> {
    Seq::new(v.len(), |i: int| v[i]@)
}

/// Element-wise view of a parameter vector.
pub open spec fn view_irparam_seq(v: Seq<IRParam>) -> Seq<IRParamV> {
    Seq::new(v.len(), |i: int| v[i]@)
}

impl View for IRFunction {
    type V = IRFunctionV;

    open spec fn view(&self) -> IRFunctionV {
        IRFunctionV {
            name: self.name@,
            params: view_irparam_seq(self.params@),
            return_type: view_type(self.return_type),
            blocks: view_block_seq(self.blocks@),
            directives: self.directives,
            optimization_level: self.optimization_level,
        }
    }
}

/// Spec mirror of `IRGlobal`.
#[verifier::ext_equal]
pub struct IRGlobalV {
    pub name: Seq<char>,
    pub typ: TypeV,
    pub initializer: Option<IRValueV>,
}

#[derive(Debug)]
pub struct IRGlobal {
    pub name: String,
    pub typ: Type,
    pub initializer: Option<IRValue>,
}

impl View for IRGlobal {
    type V = IRGlobalV;

    open spec fn view(&self) -> IRGlobalV {
        IRGlobalV {
            name: self.name@,
            typ: view_type(self.typ),
            initializer: match &self.initializer {
                Option::None => Option::None,
                Option::Some(v) => Option::Some(v@),
            },
        }
    }
}

/// Spec mirror of `IRModule`.
#[verifier::ext_equal]
pub struct IRModuleV {
    pub functions: Seq<IRFunctionV>,
    pub globals: Seq<IRGlobalV>,
    pub hot_functions: Seq<Seq<char>>,
}

/// A module: its functions, its globals, and the names marked hot by
/// profiling feedback.
#[derive(Debug)]
pub struct IRModule {
    pub functions: Vec<IRFunction>,
    pub globals: Vec<IRGlobal>,
    pub hot_functions: Vec<String>,
}

/// Element-wise view of a function vector.
pub open spec fn view_irfn_seq(v: Seq<IRFunction>) -> Seq<IRFunctionV> {
    Seq::new(v.len(), |i: int| v[i]@)
}

/// Element-wise view of a global vector.
pub open spec fn view_global_seq(v: Seq<IRGlobal>) -> Seq<IRGlobalV> {
    Seq::new(v.len(), |i: int| v[i]@)
}

impl View for IRModule {
    type V = IRModuleV;

    open spec fn view(&self) -> IRModuleV {
        IRModuleV {
            functions: view_irfn_seq(self.functions@),
            globals: view_global_seq(self.globals@),
            hot_functions: view_string_seq(self.hot_functions@),
        }
    }
}

impl IRModule {
    pub fn new() -> (r: IRModule)
        ensures
            r@.functions.len() == 0,
            r@.globals.len() == 0,
            r@.hot_functions.len() == 0,
    {
        IRModule { functions: Vec::new(), globals: Vec::new(), hot_functions: Vec::new() }
    }

    /// Records a profiled hot function, keeping the list duplicate-free.
    pub fn mark_hot_function(&mut self, name: &str)
        ensures
            final(self)@.functions == old(self)@.functions,
            final(self)@.globals == old(self)@.globals,
            old(self)@.hot_functions.contains(name@) ==> final(self)@.hot_functions == old(
                self,
            )@.hot_functions,
            !old(self)@.hot_functions.contains(name@) ==> final(self)@.hot_functions == old(
                self,
            )@.hot_functions.push(name@),
    {
        if !contains_string(&self.hot_functions, name) {
            let ghost pre = view_string_seq(self.hot_functions@);
            let owned = crate::text::str_to_string(name);
            self.hot_functions.push(owned);
            proof {
                assert(view_string_seq(self.hot_functions@) =~= pre.push(name@));
            }
        }
    }

    /// The index of the first function named `name`, if any.
    pub open spec fn spec_find_function(fns: Seq<IRFunctionV>, name: Seq<char>) -> Option<int>
        decreases fns.len(),
    {
        if fns.len() == 0 {
            Option::None
        } else if fns[0].name == name {
            Option::Some(0)
        } else {
            match IRModule::spec_find_function(fns.drop_first(), name) {
                Option::None => Option::None,
                Option::Some(i) => Option::Some(i + 1),
            }
        }
    }

    /// Looks a function up by name; the first definition wins.
    pub fn get_function(&self, name: &str) -> (r: Option<&IRFunction>)
        ensures
            match r {
                Option::None => IRModule::spec_find_function(self@.functions, name@)
                    is None,
                Option::Some(f) => {
                    &&& IRModule::spec_find_function(self@.functions, name@) matches Option::Some(
                        i,
                    )
                    &&& 0 <= i < self@.functions.len()
                    &&& f@ == self@.functions[
                        IRModule::spec_find_function(self@.functions, name@)->Some_0]
                },
            },
    {
        let n = self.functions.len();
        let mut i: usize = 0;
        while i < n
            invariant
                i <= n,
                n == self.functions@.len(),
                forall|k: int| 0 <= k < i ==> self.functions@[k]@.name != name@,
            decreases n - i,
        {
            if str_eq(self.functions[i].name.as_str(), name) {
                proof {
                    lemma_find_function_at(self@.functions, name@, i as int);
                }
                return Some(&self.functions[i]);
            }
            i += 1;
        }
        proof {
            lemma_find_function_none(self@.functions, name@);
        }
        None
    }

    /// The index of the function named `name`, for in-place updates through
    /// `&mut self.functions[i]`; the first definition wins.
    pub fn get_function_mut(&self, name: &str) -> (r: Option<usize>)
        ensures
            match r {
                Option::None => IRModule::spec_find_function(self@.functions, name@)
                    is None,
                Option::Some(i) => IRModule::spec_find_function(self@.functions, name@)
                    == Option::Some(i as int),
            },
    {
        let n = self.functions.len();
        let mut i: usize = 0;
        while i < n
            invariant
                i <= n,
                n == self.functions@.len(),
                forall|k: int| 0 <= k < i ==> self.functions@[k]@.name != name@,
            decreases n - i,
        {
            if str_eq(self.functions[i].name.as_str(), name) {
                proof {
                    lemma_find_function_at(self@.functions, name@, i as int);
                }
                return Some(i);
            }
            i += 1;
        }
        proof {
            lemma_find_function_none(self@.functions, name@);
        }
        None
    }
}

proof fn lemma_find_function_at(fns: Seq<IRFunctionV>, name: Seq<char>, i: int)
    requires
        0 <= i < fns.len(),
        fns[i].name == name,
        forall|k: int| 0 <= k < i ==> fns[k].name != name,
    ensures
        IRModule::spec_find_function(fns, name) == Option::Some(i),
    decreases i,
{
    if i == 0 {
    } else {
        lemma_find_function_at(fns.drop_first(), name, i - 1);
    }
}

proof fn lemma_find_function_none(fns: Seq<IRFunctionV>, name: Seq<char>)
    requires
        forall|k: int| 0 <= k < fns.len() ==> fns[k].name != name,
    ensures
        IRModule::spec_find_function(fns, name) is None,
    decreases fns.len(),
{
    if fns.len() > 0 {
        lemma_find_function_none(fns.drop_first(), name);
    }
}

impl Default for IRModule {
    fn default() -> (r: IRModule)
        ensures
            r@.functions.len() == 0,
            r@.globals.len() == 0,
            r@.hot_functions.len() == 0,
    {
        IRModule::new()
    }
}

} // verus!
