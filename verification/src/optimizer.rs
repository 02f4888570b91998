//! The fixed-point optimization pipeline over the IR: dead-code elimination,
//! constant folding, bounds-check elimination, common-subexpression
//! elimination, and — at aggressive levels — loop unrolling and inlining of
//! small constant functions, followed by vectorization and parallelization
//! detection.
//!
//! Every pass has a spec mirror (`spec_...`) over the IR views, and each
//! pass's postcondition states that the rewritten function equals its
//! mirror's result. A pass that cannot prove a rewrite safe leaves the
//! instruction unchanged.
use vstd::prelude::*;
use vstd::arithmetic::power::pow;
use crate::ir::{
    BasicBlock, BasicBlockV, BinOpIR, IRConstant, IRConstantV, IRFunction, IRFunctionV,
    IRInstruction, IRInstructionV, IRModule, IRModuleV, IRValue, IRValueV, OptimizationLevel,
    clone_usize_vec, ir_value_eq, view_instr_seq, view_irfn_seq, view_value_seq,
};

verus! {

/// Mathematical floor division (rounding toward negative infinity), the
/// source language's `//` convention.
pub open spec fn floor_div_int(a: int, b: int) -> int
    recommends
        b != 0,
{
    if b > 0 {
        a / b
    } else {
        (-a) / (-b)
    }
}

/// Mathematical floor modulo: the remainder left by `floor_div_int`, which
/// takes the divisor's sign. The source language's `%` convention.
pub open spec fn floor_mod_int(a: int, b: int) -> int
    recommends
        b != 0,
{
    a - b * floor_div_int(a, b)
}

/// Exponentiation by repeated overflow-checked multiplication: `None` as
/// soon as a partial product leaves the `i64` range.
pub open spec fn spec_checked_pow(base: i64, e: nat) -> Option<i64>
    decreases e,
{
    if e == 0 {
        Some(1i64)
    } else {
        match spec_checked_pow(base, (e - 1) as nat) {
            Option::None => Option::None,
            Option::Some(acc) => acc.checked_mul(base),
        }
    }
}

/// What constant folding yields for one binary operation, or `None` where
/// folding must refuse: non-integer operands, division or modulo by zero,
/// negative exponents, any overflow, and true division (whose result is a
/// float, which the IR constant space cannot hold).
pub open spec fn spec_fold(left: IRConstantV, op: BinOpIR, right: IRConstantV) -> Option<
    IRConstantV,
> {
    match (left, right) {
        (IRConstantV::Int(l), IRConstantV::Int(r)) => {
            let folded: Option<i64> = match op {
                BinOpIR::Add => l.checked_add(r),
                BinOpIR::Sub => l.checked_sub(r),
                BinOpIR::Mul => l.checked_mul(r),
                BinOpIR::FloorDiv => if r != 0 && i64::MIN <= floor_div_int(l as int, r as int)
                    <= i64::MAX {
                    Some(floor_div_int(l as int, r as int) as i64)
                } else {
                    None
                },
                BinOpIR::Mod => if r != 0 {
                    Some(floor_mod_int(l as int, r as int) as i64)
                } else {
                    None
                },
                BinOpIR::Pow => if r >= 0 {
                    spec_checked_pow(l, r as nat)
                } else {
                    None
                },
                _ => None,
            };
            match folded {
                Option::None => Option::None,
                Option::Some(v) => Option::Some(IRConstantV::Int(v)),
            }
        },
        _ => Option::None,
    }
}

/// `base` raised to `e` with overflow checking, equal to its spec mirror.
fn checked_pow_i64(base: i64, e: u64) -> (r: Option<i64>)
    ensures
        r == spec_checked_pow(base, e as nat),
{
    if base == 0 {
        if e == 0 {
            proof {
                reveal_with_fuel(spec_checked_pow, 1);
            }
            return Some(1);
        }
        proof {
            lemma_checked_pow_zero(e as nat);
        }
        return Some(0);
    }
    if base == 1 {
        proof {
            lemma_checked_pow_one(e as nat);
        }
        return Some(1);
    }
    if base == -1 {
        proof {
            lemma_checked_pow_neg_one(e as nat);
        }
        return Some(if e % 2 == 0 {
            1
        } else {
            -1
        });
    }
    let mut acc: i64 = 1;
    let mut i: u64 = 0;
    while i < e
        invariant
            i <= e,
            spec_checked_pow(base, i as nat) == Some(acc),
        decreases e - i,
    {
        match acc.checked_mul(base) {
            Option::Some(next) => {
                acc = next;
            },
            Option::None => {
                proof {
                    lemma_checked_pow_stuck(base, (i + 1) as nat, e as nat);
                }
                return None;
            },
        }
        i += 1;
    }
    Some(acc)
}

proof fn lemma_checked_pow_zero(e: nat)
    requires
        e > 0,
    ensures
        spec_checked_pow(0i64, e) == Some(0i64),
    decreases e,
{
    if e > 1 {
        lemma_checked_pow_zero((e - 1) as nat);
    } else {
        assert(spec_checked_pow(0i64, 0nat) == Some(1i64));
    }
}

proof fn lemma_checked_pow_one(e: nat)
    ensures
        spec_checked_pow(1i64, e) == Some(1i64),
    decreases e,
{
    if e > 0 {
        lemma_checked_pow_one((e - 1) as nat);
    }
}

proof fn lemma_checked_pow_neg_one(e: nat)
    ensures
        spec_checked_pow(-1i64, e) == Some(
            if e % 2 == 0 {
                1i64
            } else {
                -1i64
            },
        ),
    decreases e,
{
    if e > 0 {
        lemma_checked_pow_neg_one((e - 1) as nat);
    }
}

/// Once a partial product overflows, every later exponent overflows too.
proof fn lemma_checked_pow_stuck(base: i64, e0: nat, e: nat)
    requires
        e0 <= e,
        spec_checked_pow(base, e0) is None,
    ensures
        spec_checked_pow(base, e) is None,
    decreases e - e0,
{
    if e > e0 {
        lemma_checked_pow_stuck(base, e0, (e - 1) as nat);
    }
}

/// A successfully folded power is the mathematical power.
pub proof fn lemma_checked_pow_exact(base: i64, e: nat)
    ensures
        spec_checked_pow(base, e) matches Some(v) ==> v == pow(base as int, e),
    decreases e,
{
    vstd::arithmetic::power::lemma_pow0(base as int);
    if e > 0 {
        lemma_checked_pow_exact(base, (e - 1) as nat);
        vstd::arithmetic::power::lemma_pow1(base as int);
        if spec_checked_pow(base, e) is Some {
            assert(spec_checked_pow(base, (e - 1) as nat) is Some);
            let acc = spec_checked_pow(base, (e - 1) as nat)->0;
            assert(pow(base as int, e) == pow(base as int, (e - 1) as nat) * (base as int)) by {
                vstd::arithmetic::power::lemma_pow_adds(base as int, (e - 1) as nat, 1nat);
                assert(pow(base as int, 1nat) == base as int) by {
                    vstd::arithmetic::power::lemma_pow1(base as int);
                }
            }
        }
    }
}

/// The floor-division and floor-modulo identities: the folded quotient and
/// remainder satisfy `a == b * q + m` with `0 <= m < |b|` matching the
/// divisor's sign.
pub proof fn lemma_floor_div_mod(a: int, b: int)
    requires
        b != 0,
    ensures
        a == b * floor_div_int(a, b) + floor_mod_int(a, b),
        b > 0 ==> 0 <= floor_mod_int(a, b) < b,
        b < 0 ==> b < floor_mod_int(a, b) <= 0,
{
    if b > 0 {
        vstd::arithmetic::div_mod::lemma_fundamental_div_mod(a, b);
        vstd::arithmetic::div_mod::lemma_mod_bound(a, b);
    } else {
        let q = floor_div_int(a, b);
        let r0 = (-a) % (-b);
        vstd::arithmetic::div_mod::lemma_fundamental_div_mod(-a, -b);
        vstd::arithmetic::div_mod::lemma_mod_bound(-a, -b);
        assert(b * q == -((-b) * q)) by (nonlinear_arith);
        assert(a == b * q - r0);
    }
}

/// The magnitude of `x` as a `u64`.
fn abs_u64(x: i64) -> (r: u64)
    ensures
        r == (if x >= 0 {
            x as int
        } else {
            -(x as int)
        }),
{
    if x >= 0 {
        x as u64
    } else if x == i64::MIN {
        9223372036854775808u64
    } else {
        (-x) as u64
    }
}

/// Floor division and floor modulo expressed over magnitudes: for `a = sa*la`
/// and `b = sb*ra` with `ra != 0`, the floor quotient is `la/ra` when the
/// signs agree and `-(la/ra) - 1` (remainder nonzero) otherwise.
proof fn lemma_floor_div_magnitudes(a: int, b: int, la: int, ra: int)
    requires
        b != 0,
        ra > 0,
        la >= 0,
        la == (if a >= 0 {
            a
        } else {
            -a
        }),
        ra == (if b >= 0 {
            b
        } else {
            -b
        }),
    ensures
        ((a >= 0) == (b >= 0)) ==> floor_div_int(a, b) == la / ra,
        ((a >= 0) != (b >= 0)) && la % ra == 0 ==> floor_div_int(a, b) == -(la / ra),
        ((a >= 0) != (b >= 0)) && la % ra != 0 ==> floor_div_int(a, b) == -(la / ra) - 1,
{
    vstd::arithmetic::div_mod::lemma_fundamental_div_mod(la, ra);
    vstd::arithmetic::div_mod::lemma_mod_bound(la, ra);
    let q = la / ra;
    let m = la % ra;
    if a >= 0 && b > 0 {
        // a == b * q + m directly
        vstd::arithmetic::div_mod::lemma_fundamental_div_mod_converse_div(a, b, q, m);
    } else if a < 0 && b < 0 {
        // floor_div_int(a, b) == (-a) / (-b) == la / ra
        assert(floor_div_int(a, b) == la / ra);
    } else if a < 0 && b > 0 {
        // floor_div_int(a, b) == a / b with b > 0; a == -la == -(ra*q + m)
        if m == 0 {
            assert(a == b * (-q) + 0) by (nonlinear_arith)
                requires
                    a == -la,
                    b == ra,
                    la == ra * q + m,
                    m == 0,
            ;
            vstd::arithmetic::div_mod::lemma_fundamental_div_mod_converse_div(a, b, -q, 0);
        } else {
            assert(a == b * (-q - 1) + (ra - m)) by (nonlinear_arith)
                requires
                    a == -la,
                    b == ra,
                    la == ra * q + m,
            ;
            vstd::arithmetic::div_mod::lemma_fundamental_div_mod_converse_div(a, b, -q - 1, ra - m);
        }
    } else {
        // a >= 0, b < 0: floor_div_int(a, b) == (-a) / (-b); -a == -la, -b == ra
        if m == 0 {
            assert(-a == ra * (-q) + 0) by (nonlinear_arith)
                requires
                    a == la,
                    la == ra * q + m,
                    m == 0,
            ;
            vstd::arithmetic::div_mod::lemma_fundamental_div_mod_converse_div(-a, ra, -q, 0);
        } else {
            assert(-a == ra * (-q - 1) + (ra - m)) by (nonlinear_arith)
                requires
                    a == la,
                    la == ra * q + m,
            ;
            vstd::arithmetic::div_mod::lemma_fundamental_div_mod_converse_div(
                -a,
                ra,
                -q - 1,
                ra - m,
            );
        }
    }
}

/// Floor division with overflow checking, equal to the spec convention.
fn floor_div_i64(l: i64, r: i64) -> (res: Option<i64>)
    requires
        r != 0,
    ensures
        res == (if i64::MIN <= floor_div_int(l as int, r as int) <= i64::MAX {
            Some(floor_div_int(l as int, r as int) as i64)
        } else {
            None::<i64>
        }),
{
    let la = abs_u64(l);
    let ra = abs_u64(r);
    let q = la / ra;
    let m = la % ra;
    proof {
        lemma_floor_div_magnitudes(l as int, r as int, la as int, ra as int);
    }
    if (l >= 0) == (r >= 0) {
        if q > 9223372036854775807u64 {
            None
        } else {
            Some(q as i64)
        }
    } else {
        let mag = if m != 0 {
            q + 1
        } else {
            q
        };
        if mag > 9223372036854775808u64 {
            None
        } else if mag == 9223372036854775808u64 {
            Some(i64::MIN)
        } else {
            Some(-(mag as i64))
        }
    }
}

/// Floor modulo, equal to the spec convention; total for `r != 0`.
fn floor_mod_i64(l: i64, r: i64) -> (res: i64)
    requires
        r != 0,
    ensures
        res == floor_mod_int(l as int, r as int),
{
    let la = abs_u64(l);
    let ra = abs_u64(r);
    let q = la / ra;
    let m = la % ra;
    proof {
        lemma_floor_div_magnitudes(l as int, r as int, la as int, ra as int);
        vstd::arithmetic::div_mod::lemma_fundamental_div_mod(la as int, ra as int);
        vstd::arithmetic::div_mod::lemma_mod_bound(la as int, ra as int);
    }
    if (l >= 0) == (r >= 0) {
        // the remainder keeps the common sign
        proof {
            assert(floor_mod_int(l as int, r as int) == (if l >= 0 {
                m as int
            } else {
                -(m as int)
            })) by (nonlinear_arith)
                requires
                    r != 0,
                    (l >= 0) == (r >= 0),
                    la == (if l >= 0 {
                        l as int
                    } else {
                        -(l as int)
                    }),
                    ra == (if r >= 0 {
                        r as int
                    } else {
                        -(r as int)
                    }),
                    la as int == ra as int * (q as int) + m as int,
                    floor_div_int(l as int, r as int) == (if (l as int >= 0) == (r as int >= 0) {
                        q as int
                    } else {
                        0
                    }),
                    floor_mod_int(l as int, r as int) == l as int - r as int * floor_div_int(
                        l as int,
                        r as int,
                    ),
            ;
        }
        if l >= 0 {
            m as i64
        } else {
            -(m as i64)
        }
    } else {
        if m == 0 {
            proof {
                assert(floor_mod_int(l as int, r as int) == 0) by (nonlinear_arith)
                    requires
                        r != 0,
                        (l >= 0) != (r >= 0),
                        la == (if l >= 0 {
                            l as int
                        } else {
                            -(l as int)
                        }),
                        ra == (if r >= 0 {
                            r as int
                        } else {
                            -(r as int)
                        }),
                        la as int == ra as int * (q as int) + m as int,
                        m == 0,
                        floor_div_int(l as int, r as int) == -(q as int),
                        floor_mod_int(l as int, r as int) == l as int - r as int * floor_div_int(
                            l as int,
                            r as int,
                        ),
                ;
            }
            0
        } else {
            // the remainder takes the divisor's sign
            let d = (ra - m) as i64;
            proof {
                assert(floor_mod_int(l as int, r as int) == (if r >= 0 {
                    ra as int - m as int
                } else {
                    -(ra as int - m as int)
                })) by (nonlinear_arith)
                    requires
                        r != 0,
                        (l >= 0) != (r >= 0),
                        la == (if l >= 0 {
                            l as int
                        } else {
                            -(l as int)
                        }),
                        ra == (if r >= 0 {
                            r as int
                        } else {
                            -(r as int)
                        }),
                        la as int == ra as int * (q as int) + m as int,
                        m != 0,
                        0 <= m < ra,
                        floor_div_int(l as int, r as int) == -(q as int) - 1,
                        floor_mod_int(l as int, r as int) == l as int - r as int * floor_div_int(
                            l as int,
                            r as int,
                        ),
                ;
            }
            if r >= 0 {
                d
            } else {
                -d
            }
        }
    }
}

/// Constant folding of one instruction: a binary operation on two constants
/// becomes a direct assignment of the folded constant; everything else, and
/// every refused fold, is left unchanged.
pub open spec fn spec_fold_instr(i: IRInstructionV) -> IRInstructionV {
    match i {
        IRInstructionV::BinOp {
            result,
            op,
            left: IRValueV::Const(lc),
            right: IRValueV::Const(rc),
        } => {
            match spec_fold(lc, op, rc) {
                Option::Some(c) => IRInstructionV::Assign {
                    target: result,
                    value: IRValueV::Const(c),
                },
                Option::None => i,
            }
        },
        _ => i,
    }
}

/// Constant folding over one block: instruction-wise, order preserved.
pub open spec fn spec_fold_block(b: BasicBlockV) -> BasicBlockV {
    BasicBlockV {
        id: b.id,
        instructions: Seq::new(b.instructions.len(), |i: int| spec_fold_instr(b.instructions[i])),
        successors: b.successors,
    }
}

/// Constant folding over a whole function: block-wise.
pub open spec fn spec_fold_fn(f: IRFunctionV) -> IRFunctionV {
    IRFunctionV { blocks: Seq::new(f.blocks.len(), |b: int| spec_fold_block(f.blocks[b])), ..f }
}

/// The law of constant folding: a successful fold equals direct evaluation
/// of the operation under the source language's integer conventions
/// (floor division and divisor-signed modulo), and folding refuses exactly
/// on division or modulo by zero, negative exponents, overflow, true
/// division, and non-integer operands.
pub proof fn lemma_fold_evaluates(l: i64, op: BinOpIR, r: i64)
    ensures
        op == BinOpIR::Add ==> spec_fold(IRConstantV::Int(l), op, IRConstantV::Int(r)) == (
        if i64::MIN <= l + r <= i64::MAX {
            Some(IRConstantV::Int((l + r) as i64))
        } else {
            None::<IRConstantV>
        }),
        op == BinOpIR::Sub ==> spec_fold(IRConstantV::Int(l), op, IRConstantV::Int(r)) == (
        if i64::MIN <= l - r <= i64::MAX {
            Some(IRConstantV::Int((l - r) as i64))
        } else {
            None::<IRConstantV>
        }),
        op == BinOpIR::Mul ==> spec_fold(IRConstantV::Int(l), op, IRConstantV::Int(r)) == (
        if i64::MIN <= l * r <= i64::MAX {
            Some(IRConstantV::Int((l * r) as i64))
        } else {
            None::<IRConstantV>
        }),
        op == BinOpIR::FloorDiv && r != 0 && i64::MIN <= floor_div_int(l as int, r as int)
            <= i64::MAX ==> spec_fold(IRConstantV::Int(l), op, IRConstantV::Int(r)) == Some(
            IRConstantV::Int(floor_div_int(l as int, r as int) as i64),
        ),
        op == BinOpIR::Mod && r != 0 ==> spec_fold(IRConstantV::Int(l), op, IRConstantV::Int(r))
            == Some(IRConstantV::Int(floor_mod_int(l as int, r as int) as i64)),
        op == BinOpIR::FloorDiv || op == BinOpIR::Mod ==> (r == 0 ==> spec_fold(
            IRConstantV::Int(l),
            op,
            IRConstantV::Int(r),
        ) is None),
        op == BinOpIR::Pow ==> (spec_fold(IRConstantV::Int(l), op, IRConstantV::Int(r)) matches
            Some(c) ==> r >= 0 && c == IRConstantV::Int(pow(l as int, r as nat) as i64) && i64::MIN
            <= pow(l as int, r as nat) <= i64::MAX),
        op == BinOpIR::Div ==> spec_fold(IRConstantV::Int(l), op, IRConstantV::Int(r)) is None,
{
    if op == BinOpIR::Pow && r >= 0 {
        lemma_checked_pow_exact(l, r as nat);
        lemma_checked_pow_in_range(l, r as nat);
    }
}

/// A successfully folded power lies within the `i64` range.
proof fn lemma_checked_pow_in_range(base: i64, e: nat)
    ensures
        spec_checked_pow(base, e) matches Some(v) ==> i64::MIN <= v <= i64::MAX,
{
}

/// The iterative, fixed-point rewrite pipeline over one IR module.
pub struct IROptimizer {
    pub unroll_threshold: usize,
}

impl IROptimizer {
    pub fn new() -> (r: IROptimizer)
        ensures
            r.unroll_threshold == 8,
    {
        IROptimizer { unroll_threshold: 8 }
    }

    /// Folds one binary operation over constants, refusing where the spec
    /// refuses.
    pub fn fold_constants(&self, left: IRConstant, op: BinOpIR, right: IRConstant) -> (res: Option<
        IRConstant,
    >)
        ensures
            match res {
                Option::None => spec_fold(left@, op, right@) is None,
                Option::Some(c) => spec_fold(left@, op, right@) == Some(c@),
            },
    {
        match (left, right) {
            (IRConstant::Int(l), IRConstant::Int(r)) => {
                let folded: Option<i64> = match op {
                    BinOpIR::Add => l.checked_add(r),
                    BinOpIR::Sub => l.checked_sub(r),
                    BinOpIR::Mul => l.checked_mul(r),
                    BinOpIR::FloorDiv => if r != 0 {
                        floor_div_i64(l, r)
                    } else {
                        None
                    },
                    BinOpIR::Mod => if r != 0 {
                        Some(floor_mod_i64(l, r))
                    } else {
                        None
                    },
                    BinOpIR::Pow => if r >= 0 {
                        checked_pow_i64(l, r as u64)
                    } else {
                        None
                    },
                    _ => None,
                };
                match folded {
                    Option::Some(v) => Some(IRConstant::Int(v)),
                    Option::None => None,
                }
            },
            _ => None,
        }
    }

    /// Rewrites every constant binary operation in the function to a direct
    /// assignment of its folded value, leaving refused folds unchanged.
    pub fn constant_folding(&self, function: &mut IRFunction)
        ensures
            final(function)@ == spec_fold_fn(old(function)@),
    {
        let mut new_blocks: Vec<BasicBlock> = Vec::new();
        let n = function.blocks.len();
        let mut b: usize = 0;
        while b < n
            invariant
                b <= n,
                n == function.blocks@.len(),
                *function == *old(function),
                new_blocks@.len() == b,
                forall|k: int|
                    0 <= k < b ==> new_blocks@[k]@ == spec_fold_block(old(function)@.blocks[k]),
            decreases n - b,
        {
            let blk = &function.blocks[b];
            let mut instrs: Vec<IRInstruction> = Vec::new();
            let m = blk.instructions.len();
            let mut i: usize = 0;
            while i < m
                invariant
                    i <= m,
                    m == blk.instructions@.len(),
                    instrs@.len() == i,
                    forall|k: int|
                        0 <= k < i ==> instrs@[k]@ == spec_fold_instr(blk.instructions@[k]@),
                decreases m - i,
            {
                let inst = &blk.instructions[i];
                let folded: Option<IRInstruction> = match inst {
                    IRInstruction::BinOp {
                        result,
                        op,
                        left: IRValue::Const(lc),
                        right: IRValue::Const(rc),
                    } => {
                        match self.fold_constants(lc.clone(), *op, rc.clone()) {
                            Option::Some(c) => Some(
                                IRInstruction::Assign {
                                    target: result.clone(),
                                    value: IRValue::Const(c),
                                },
                            ),
                            Option::None => None,
                        }
                    },
                    _ => None,
                };
                match folded {
                    Option::Some(fi) => instrs.push(fi),
                    Option::None => instrs.push(inst.clone()),
                }
                i += 1;
            }
            new_blocks.push(
                BasicBlock {
                    id: blk.id,
                    instructions: instrs,
                    successors: clone_usize_vec(&blk.successors),
                },
            );
            proof {
                assert(new_blocks@.last()@.instructions =~= spec_fold_block(
                    old(function)@.blocks[b as int],
                ).instructions);
                assert(new_blocks@.last()@ =~~= spec_fold_block(old(function)@.blocks[b as int]));
            }
            b += 1;
        }
        function.blocks = new_blocks;
        proof {
            assert(function@.blocks =~~= spec_fold_fn(old(function)@).blocks);
            assert(function@ =~~= spec_fold_fn(old(function)@));
        }
    }

    /// The number of instructions in the function, over all blocks,
    /// saturating at `usize::MAX`.
    pub fn count_instructions(&self, function: &IRFunction) -> (r: usize)
        ensures
            r == (if spec_count_instructions(function@) <= usize::MAX {
                spec_count_instructions(function@)
            } else {
                usize::MAX as int
            }),
    {
        let mut total: usize = 0;
        let n = function.blocks.len();
        let mut b: usize = 0;
        while b < n
            invariant
                b <= n,
                n == function.blocks@.len(),
                total == (if spec_count_prefix(function@.blocks, b as int) <= usize::MAX {
                    spec_count_prefix(function@.blocks, b as int)
                } else {
                    usize::MAX as int
                }),
            decreases n - b,
        {
            let len = function.blocks[b].instructions.len();
            proof {
                assert(function@.blocks[b as int].instructions.len() == len);
            }
            if total > usize::MAX - len {
                total = usize::MAX;
            } else {
                total = total + len;
            }
            b += 1;
        }
        total
    }
}

/// Whether the instruction reads the operand `v`.
pub open spec fn spec_reads_value(i: IRInstructionV, v: IRValueV) -> bool {
    match i {
        IRInstructionV::BinOp { left, right, .. } => left == v || right == v,
        IRInstructionV::UnaryOp { operand, .. } => operand == v,
        IRInstructionV::Assign { value, .. } => value == v,
        IRInstructionV::Load { .. } => false,
        IRInstructionV::Store { value, .. } => value == v,
        IRInstructionV::Index { array, index, .. } => array == v || index == v,
        IRInstructionV::IndexStore { array, index, value } => array == v || index == v || value
            == v,
        IRInstructionV::Branch { condition, .. } => condition == v,
        IRInstructionV::Jump { .. } => false,
        IRInstructionV::Return { value } => value == Some(v),
        IRInstructionV::Call { args, .. } => args.contains(v),
        IRInstructionV::LoopStart { iterator, .. } => iterator == v,
        IRInstructionV::LoopEnd => false,
        IRInstructionV::Vectorizable => false,
        IRInstructionV::Parallelizable => false,
        IRInstructionV::CanElideCheck => false,
        IRInstructionV::Pure => false,
    }
}

/// Whether temporary `t` is read by an instruction strictly after position
/// `(b, i)` in the function's block order.
pub open spec fn spec_temp_read_later(blocks: Seq<BasicBlockV>, b: int, i: int, t: usize) -> bool {
    exists|b2: int, i2: int|
        0 <= b2 < blocks.len() && 0 <= i2 < blocks[b2].instructions.len() && (b2 > b || (b2 == b
            && i2 > i)) && spec_reads_value(
            #[trigger] blocks[b2].instructions[i2],
            IRValueV::Temporary(t),
        )
}

/// Whether one sweep of dead-code elimination keeps the instruction at
/// `(b, i)`: everything stays except an assignment to a temporary that no
/// later instruction of the function reads. Assignments to named locals are
/// never removed — they may be observed after the function's IR region ends.
pub open spec fn spec_dce_keep(blocks: Seq<BasicBlockV>, b: int, i: int) -> bool {
    match blocks[b].instructions[i] {
        IRInstructionV::Assign { target: IRValueV::Temporary(t), .. } => spec_temp_read_later(
            blocks,
            b,
            i,
            t,
        ),
        _ => true,
    }
}

/// The kept prefix of block `b`'s first `i` instructions, in order.
pub open spec fn spec_dce_block_prefix(blocks: Seq<BasicBlockV>, b: int, i: int) -> Seq<
    IRInstructionV,
>
    decreases i,
{
    if i <= 0 {
        Seq::empty()
    } else if spec_dce_keep(blocks, b, i - 1) {
        spec_dce_block_prefix(blocks, b, i - 1).push(blocks[b].instructions[i - 1])
    } else {
        spec_dce_block_prefix(blocks, b, i - 1)
    }
}

/// One sweep of dead-code elimination over the whole function; liveness is
/// judged against the function as it stood at the start of the sweep.
pub open spec fn spec_dce_step(f: IRFunctionV) -> IRFunctionV {
    IRFunctionV {
        blocks: Seq::new(
            f.blocks.len(),
            |b: int|
                BasicBlockV {
                    id: f.blocks[b].id,
                    instructions: spec_dce_block_prefix(
                        f.blocks,
                        b,
                        f.blocks[b].instructions.len() as int,
                    ),
                    successors: f.blocks[b].successors,
                },
        ),
        ..f
    }
}

/// The kept prefix never exceeds the scanned prefix, and reaching its full
/// length means nothing was dropped.
proof fn lemma_dce_prefix_len(blocks: Seq<BasicBlockV>, b: int, i: int)
    requires
        0 <= b < blocks.len(),
        0 <= i <= blocks[b].instructions.len(),
    ensures
        spec_dce_block_prefix(blocks, b, i).len() <= i,
        spec_dce_block_prefix(blocks, b, i).len() == i ==> spec_dce_block_prefix(blocks, b, i)
            == blocks[b].instructions.subrange(0, i),
    decreases i,
{
    if i > 0 {
        lemma_dce_prefix_len(blocks, b, i - 1);
        if spec_dce_block_prefix(blocks, b, i).len() == i {
            assert(spec_dce_block_prefix(blocks, b, i - 1).len() == i - 1);
            assert(spec_dce_block_prefix(blocks, b, i - 1) == blocks[b].instructions.subrange(
                0,
                i - 1,
            ));
            assert(blocks[b].instructions.subrange(0, i - 1).push(blocks[b].instructions[i - 1])
                =~= blocks[b].instructions.subrange(0, i));
        }
    } else {
        assert(blocks[b].instructions.subrange(0, 0) =~= Seq::<IRInstructionV>::empty());
    }
}

/// Block-wise instruction counts bound the total count, strictly so when one
/// block strictly shrinks.
proof fn lemma_count_prefix_le(b1: Seq<BasicBlockV>, b2: Seq<BasicBlockV>, n: int)
    requires
        b1.len() == b2.len(),
        0 <= n <= b1.len(),
        forall|k: int|
            0 <= k < n ==> (#[trigger] b2[k].instructions).len() <= b1[k].instructions.len(),
    ensures
        spec_count_prefix(b2, n) <= spec_count_prefix(b1, n),
        forall|k: int|
            0 <= k < n && (#[trigger] b2[k].instructions).len() < b1[k].instructions.len()
                ==> spec_count_prefix(b2, n) < spec_count_prefix(b1, n),
    decreases n,
{
    if n > 0 {
        lemma_count_prefix_le(b1, b2, n - 1);
    }
}

/// The total instruction count is never negative.
proof fn lemma_count_prefix_nonneg(blocks: Seq<BasicBlockV>, n: int)
    ensures
        spec_count_prefix(blocks, n) >= 0,
    decreases n,
{
    if n > 0 {
        lemma_count_prefix_nonneg(blocks, n - 1);
    }
}

/// A sweep that changes the function strictly lowers the instruction count.
proof fn lemma_dce_step_count(f: IRFunctionV)
    ensures
        spec_count_instructions(spec_dce_step(f)) <= spec_count_instructions(f),
        spec_dce_step(f) != f ==> spec_count_instructions(spec_dce_step(f))
            < spec_count_instructions(f),
{
    let f2 = spec_dce_step(f);
    assert forall|k: int| 0 <= k < f.blocks.len() implies (#[trigger] f2.blocks[k].instructions).len()
        <= f.blocks[k].instructions.len() by {
        lemma_dce_prefix_len(f.blocks, k, f.blocks[k].instructions.len() as int);
    }
    lemma_count_prefix_le(f.blocks, f2.blocks, f.blocks.len() as int);
    if f2 != f {
        if forall|k: int|
            0 <= k < f.blocks.len() ==> (#[trigger] f2.blocks[k].instructions).len()
                == f.blocks[k].instructions.len() {
            assert forall|k: int| 0 <= k < f.blocks.len() implies f2.blocks[k] =~= f.blocks[k] by {
                lemma_dce_prefix_len(f.blocks, k, f.blocks[k].instructions.len() as int);
                assert(f.blocks[k].instructions.subrange(0, f.blocks[k].instructions.len() as int)
                    =~= f.blocks[k].instructions);
            }
            assert(f2.blocks =~= f.blocks);
            assert(f2 =~= f);
        } else {
            let k = choose|k: int|
                0 <= k < f.blocks.len() && (#[trigger] f2.blocks[k].instructions).len()
                    != f.blocks[k].instructions.len();
            lemma_dce_prefix_len(f.blocks, k, f.blocks[k].instructions.len() as int);
            assert(f2.blocks[k].instructions.len() < f.blocks[k].instructions.len());
        }
    }
}

/// Dead-code elimination: sweeps repeated until a sweep changes nothing.
pub open spec fn spec_dce_fn(f: IRFunctionV) -> IRFunctionV
    decreases spec_count_instructions(f),
    via spec_dce_fn_decreases
{
    if spec_dce_step(f) == f {
        f
    } else {
        spec_dce_fn(spec_dce_step(f))
    }
}

#[via_fn]
proof fn spec_dce_fn_decreases(f: IRFunctionV) {
    lemma_dce_step_count(f);
    lemma_count_prefix_nonneg(spec_dce_step(f).blocks, spec_dce_step(f).blocks.len() as int);
}

/// The result of dead-code elimination is a fixed point of the sweep.
pub proof fn lemma_dce_fixpoint(f: IRFunctionV)
    ensures
        spec_dce_step(spec_dce_fn(f)) == spec_dce_fn(f),
    decreases spec_count_instructions(f),
{
    lemma_dce_step_count(f);
    lemma_count_prefix_nonneg(spec_dce_step(f).blocks, spec_dce_step(f).blocks.len() as int);
    if spec_dce_step(f) != f {
        lemma_dce_fixpoint(spec_dce_step(f));
    }
}

/// Dead-code elimination is idempotent: a second run changes nothing.
pub proof fn lemma_dce_idempotent(f: IRFunctionV)
    ensures
        spec_dce_fn(spec_dce_fn(f)) == spec_dce_fn(f),
{
    lemma_dce_fixpoint(f);
}

/// Whether `v` is the temporary numbered `t`.
fn is_temp(v: &IRValue, t: usize) -> (r: bool)
    ensures
        r == (v@ == IRValueV::Temporary(t)),
{
    match v {
        IRValue::Temporary(x) => *x == t,
        _ => false,
    }
}

/// Whether the instruction reads temporary `t`.
fn instr_reads_temp(inst: &IRInstruction, t: usize) -> (r: bool)
    ensures
        r == spec_reads_value(inst@, IRValueV::Temporary(t)),
{
    match inst {
        IRInstruction::BinOp { left, right, .. } => is_temp(left, t) || is_temp(right, t),
        IRInstruction::UnaryOp { operand, .. } => is_temp(operand, t),
        IRInstruction::Assign { value, .. } => is_temp(value, t),
        IRInstruction::Store { value, .. } => is_temp(value, t),
        IRInstruction::Index { array, index, .. } => is_temp(array, t) || is_temp(index, t),
        IRInstruction::IndexStore { array, index, value } => is_temp(array, t) || is_temp(index, t)
            || is_temp(value, t),
        IRInstruction::Branch { condition, .. } => is_temp(condition, t),
        IRInstruction::Return { value } => match value {
            Option::Some(v) => is_temp(v, t),
            Option::None => false,
        },
        IRInstruction::Call { args, .. } => {
            let n = args.len();
            let mut i: usize = 0;
            let mut found = false;
            while i < n
                invariant
                    i <= n,
                    n == args@.len(),
                    found ==> view_value_seq(args@).contains(IRValueV::Temporary(t)),
                    !found ==> forall|k: int| 0 <= k < i ==> args@[k]@ != IRValueV::Temporary(t),
                decreases n - i,
            {
                if is_temp(&args[i], t) {
                    proof {
                        assert(view_value_seq(args@)[i as int] == IRValueV::Temporary(t));
                    }
                    found = true;
                }
                i += 1;
            }
            proof {
                if !found && view_value_seq(args@).contains(IRValueV::Temporary(t)) {
                    let w = choose|w: int|
                        0 <= w < args@.len() && view_value_seq(args@)[w] == IRValueV::Temporary(t);
                }
            }
            found
        },
        IRInstruction::LoopStart { iterator, .. } => is_temp(iterator, t),
        _ => false,
    }
}

/// Whether temporary `t` is read anywhere after position `(b, i)`.
fn temp_read_later_exec(function: &IRFunction, b: usize, i: usize, t: usize) -> (r: bool)
    requires
        (b as int) < function@.blocks.len(),
    ensures
        r == spec_temp_read_later(function@.blocks, b as int, i as int, t),
{
    let n = function.blocks.len();
    let mut b2: usize = b;
    while b2 < n
        invariant
            b <= b2 <= n,
            n == function.blocks@.len(),
            forall|bb: int, jj: int|
                0 <= bb < b2 && 0 <= jj < function@.blocks[bb].instructions.len() && (bb > b || (bb
                    == b && jj > i)) ==> !spec_reads_value(
                    #[trigger] function@.blocks[bb].instructions[jj],
                    IRValueV::Temporary(t),
                ),
        decreases n - b2,
    {
        let blk = &function.blocks[b2];
        let m = blk.instructions.len();
        let mut j: usize = if b2 == b {
            if i >= m {
                m
            } else {
                i + 1
            }
        } else {
            0
        };
        while j < m
            invariant
                j <= m,
                b <= b2 < n,
                n == function.blocks@.len(),
                blk == &function.blocks[b2 as int],
                m == blk.instructions@.len(),
                b2 == b ==> j >= i + 1 || j >= m,
                forall|bb: int, jj: int|
                    0 <= bb < b2 && 0 <= jj < function@.blocks[bb].instructions.len() && (bb > b
                        || (bb == b && jj > i)) ==> !spec_reads_value(
                        #[trigger] function@.blocks[bb].instructions[jj],
                        IRValueV::Temporary(t),
                    ),
                forall|jj: int|
                    0 <= jj < j && (b2 > b || jj > i) ==> !spec_reads_value(
                        #[trigger] function@.blocks[b2 as int].instructions[jj],
                        IRValueV::Temporary(t),
                    ),
            decreases m - j,
        {
            if instr_reads_temp(&blk.instructions[j], t) {
                proof {
                    assert(function@.blocks[b2 as int].instructions[j as int] == blk.instructions@[
                    j as int]@);
                    assert(spec_reads_value(
                        function@.blocks[b2 as int].instructions[j as int],
                        IRValueV::Temporary(t),
                    ));
                }
                return true;
            }
            j += 1;
        }
        b2 += 1;
    }
    proof {
        if spec_temp_read_later(function@.blocks, b as int, i as int, t) {
            let (bb, jj): (int, int) = choose|bb: int, jj: int|
                0 <= bb < function@.blocks.len() && 0 <= jj
                    < function@.blocks[bb].instructions.len() && (bb > b || (bb == b && jj > i))
                    && spec_reads_value(
                    #[trigger] function@.blocks[bb].instructions[jj],
                    IRValueV::Temporary(t),
                );
        }
    }
    false
}

/// One sweep of dead-code elimination; reports whether anything was removed.
fn dce_sweep(function: &mut IRFunction) -> (changed: bool)
    ensures
        final(function)@ == spec_dce_step(old(function)@),
        changed == (spec_dce_step(old(function)@) != old(function)@),
{
    let mut new_blocks: Vec<BasicBlock> = Vec::new();
    let mut dropped = false;
    let n = function.blocks.len();
    let mut b: usize = 0;
    while b < n
        invariant
            b <= n,
            n == function.blocks@.len(),
            *function == *old(function),
            new_blocks@.len() == b,
            forall|k: int|
                0 <= k < b ==> (#[trigger] new_blocks@[k])@ == (BasicBlockV {
                    id: function@.blocks[k].id,
                    instructions: spec_dce_block_prefix(
                        function@.blocks,
                        k,
                        function@.blocks[k].instructions.len() as int,
                    ),
                    successors: function@.blocks[k].successors,
                }),
            !dropped ==> forall|k: int|
                0 <= k < b ==> (#[trigger] new_blocks@[k])@.instructions.len() == function@.blocks[
                    k
                ].instructions.len(),
            dropped ==> exists|k: int|
                0 <= k < b && (#[trigger] new_blocks@[k])@.instructions.len() < function@.blocks[
                    k
                ].instructions.len(),
        decreases n - b,
    {
        let mut instrs: Vec<IRInstruction> = Vec::new();
        let m = function.blocks[b].instructions.len();
        let mut i: usize = 0;
        while i < m
            invariant
                i <= m,
                b < n,
                n == function.blocks@.len(),
                *function == *old(function),
                m == function.blocks@[b as int].instructions@.len(),
                view_instr_seq(instrs@) == spec_dce_block_prefix(
                    function@.blocks,
                    b as int,
                    i as int,
                ),
            decreases m - i,
        {
            let keep: bool = match &function.blocks[b].instructions[i] {
                IRInstruction::Assign { target: IRValue::Temporary(t), .. } => {
                    let tt = *t;
                    temp_read_later_exec(function, b, i, tt)
                },
                _ => true,
            };
            proof {
                assert(keep == spec_dce_keep(function@.blocks, b as int, i as int));
            }
            if keep {
                let ghost pre = view_instr_seq(instrs@);
                instrs.push(function.blocks[b].instructions[i].clone());
                proof {
                    assert(view_instr_seq(instrs@) =~= pre.push(
                        function@.blocks[b as int].instructions[i as int],
                    ));
                }
            }
            i += 1;
        }
        proof {
            lemma_dce_prefix_len(function@.blocks, b as int, m as int);
        }
        let changed_here = instrs.len() != m;
        let blk = &function.blocks[b];
        let ghost nb_pre = new_blocks@;
        new_blocks.push(
            BasicBlock {
                id: blk.id,
                instructions: instrs,
                successors: clone_usize_vec(&blk.successors),
            },
        );
        proof {
            let nb = new_blocks@;
            assert(nb[b as int]@.instructions == spec_dce_block_prefix(
                function@.blocks,
                b as int,
                function@.blocks[b as int].instructions.len() as int,
            ));
            if changed_here {
                assert(nb[b as int]@.instructions.len() < function@.blocks[
                b as int].instructions.len());
            } else if dropped {
                let k = choose|k: int|
                    0 <= k < b && (#[trigger] nb_pre[k])@.instructions.len() < function@.blocks[
                        k
                    ].instructions.len();
                assert(nb[k] == nb_pre[k]);
                assert(nb[k]@.instructions.len() < function@.blocks[k].instructions.len());
            }
        }
        dropped = dropped || changed_here;
        b += 1;
    }
    let ghost nbv = new_blocks@;
    function.blocks = new_blocks;
    proof {
        assert(function@.blocks =~~= spec_dce_step(old(function)@).blocks);
        assert(function@ =~~= spec_dce_step(old(function)@));
        let f = old(function)@;
        let f2 = spec_dce_step(f);
        if dropped {
            let k = choose|k: int|
                0 <= k < f.blocks.len() && (#[trigger] nbv[k])@.instructions.len() < f.blocks[
                    k
                ].instructions.len();
            assert(f2.blocks[k].instructions.len() < f.blocks[k].instructions.len());
            assert(f2.blocks[k] != f.blocks[k]);
            assert(f2 != f);
        } else {
            assert forall|k: int| 0 <= k < f.blocks.len() implies f2.blocks[k] =~= f.blocks[k] by {
                lemma_dce_prefix_len(f.blocks, k, f.blocks[k].instructions.len() as int);
                assert(f.blocks[k].instructions.subrange(0, f.blocks[k].instructions.len() as int)
                    =~= f.blocks[k].instructions);
            }
            assert(f2.blocks =~= f.blocks);
            assert(f2 =~= f);
        }
    }
    dropped
}

impl IROptimizer {
    /// Removes assignments to temporaries that no later instruction reads,
    /// sweeping until nothing more can be removed. Liveness is judged over
    /// the whole function, never block-locally.
    pub fn dead_code_elimination(&self, function: &mut IRFunction)
        ensures
            final(function)@ == spec_dce_fn(old(function)@),
    {
        let mut changed = true;
        while changed
            invariant
                spec_dce_fn(function@) == spec_dce_fn(old(function)@),
                !changed ==> spec_dce_step(function@) == function@,
            decreases spec_count_instructions(function@) + 1, (if changed {
                1int
            } else {
                0int
            }),
        {
            let ghost fpre = function@;
            proof {
                lemma_count_prefix_nonneg(fpre.blocks, fpre.blocks.len() as int);
                lemma_dce_step_count(fpre);
            }
            changed = dce_sweep(function);
            proof {
                lemma_count_prefix_nonneg(function@.blocks, function@.blocks.len() as int);
                if changed {
                    assert(spec_dce_fn(fpre) == spec_dce_fn(function@));
                }
            }
        }
        proof {
            // a fixed point of the sweep is its own elimination result
            assert(spec_dce_fn(function@) == function@);
        }
    }
}

/// An indexed read whose index is a literal integer; the conservative
/// candidate for eliding the bounds check.
pub open spec fn spec_is_elidable_index(i: IRInstructionV) -> bool {
    i matches IRInstructionV::Index { index: IRValueV::Const(IRConstantV::Int(_)), .. }
}

/// How many instructions of the first `i` satisfy `spec_is_elidable_index`.
pub open spec fn spec_count_elidable(s: Seq<IRInstructionV>, i: int) -> int
    decreases i,
{
    if i <= 0 {
        0
    } else {
        spec_count_elidable(s, i - 1) + (if spec_is_elidable_index(s[i - 1]) {
            1int
        } else {
            0int
        })
    }
}

/// How many of the first `i` instructions are `CanElideCheck` markers.
pub open spec fn spec_count_markers(s: Seq<IRInstructionV>, i: int) -> int
    decreases i,
{
    if i <= 0 {
        0
    } else {
        spec_count_markers(s, i - 1) + (if s[i - 1] == IRInstructionV::CanElideCheck {
            1int
        } else {
            0int
        })
    }
}

/// Bounds-check elimination over one block: appends `CanElideCheck` markers
/// until the block carries one per constant-indexed read. A heuristic, not a
/// proof: it never marks a read with a non-constant index.
pub open spec fn spec_bce_block(b: BasicBlockV) -> BasicBlockV {
    let eligible = spec_count_elidable(b.instructions, b.instructions.len() as int);
    let markers = spec_count_markers(b.instructions, b.instructions.len() as int);
    let missing: int = if eligible > markers {
        eligible - markers
    } else {
        0
    };
    BasicBlockV {
        id: b.id,
        instructions: b.instructions + Seq::new(
            missing as nat,
            |i: int| IRInstructionV::CanElideCheck,
        ),
        successors: b.successors,
    }
}

/// Bounds-check elimination over a whole function: block-wise.
pub open spec fn spec_bce_fn(f: IRFunctionV) -> IRFunctionV {
    IRFunctionV { blocks: Seq::new(f.blocks.len(), |b: int| spec_bce_block(f.blocks[b])), ..f }
}

/// An arithmetic binary operation, as the vectorization detector counts them.
pub open spec fn spec_is_arith(i: IRInstructionV) -> bool {
    match i {
        IRInstructionV::BinOp { op, .. } => op == BinOpIR::Add || op == BinOpIR::Mul || op
            == BinOpIR::Sub || op == BinOpIR::Div,
        _ => false,
    }
}

/// A control transfer, which breaks a vectorizable run.
pub open spec fn spec_is_control(i: IRInstructionV) -> bool {
    ||| i matches IRInstructionV::Branch { .. }
    ||| i matches IRInstructionV::Jump { .. }
    ||| i matches IRInstructionV::Return { .. }
    ||| i matches IRInstructionV::LoopStart { .. }
    ||| i == IRInstructionV::LoopEnd
}

/// Whether, scanning from `idx` with `acc` arithmetic operations already in
/// the current run, some control-free run accumulates more than three.
pub open spec fn spec_simd_scan(s: Seq<IRInstructionV>, idx: int, acc: int) -> bool
    decreases s.len() - idx,
{
    if idx < 0 || idx >= s.len() {
        false
    } else if spec_is_control(s[idx]) {
        spec_simd_scan(s, idx + 1, 0)
    } else if spec_is_arith(s[idx]) {
        acc + 1 > 3 || spec_simd_scan(s, idx + 1, acc + 1)
    } else {
        spec_simd_scan(s, idx + 1, acc)
    }
}

/// Vectorization detection over one block: appends one `Vectorizable`
/// marker when the block holds a control-free run of more than three
/// arithmetic operations.
pub open spec fn spec_simd_block(b: BasicBlockV) -> BasicBlockV {
    if spec_simd_scan(b.instructions, 0, 0) {
        BasicBlockV {
            id: b.id,
            instructions: b.instructions.push(IRInstructionV::Vectorizable),
            successors: b.successors,
        }
    } else {
        b
    }
}

pub open spec fn spec_simd_fn(f: IRFunctionV) -> IRFunctionV {
    IRFunctionV { blocks: Seq::new(f.blocks.len(), |b: int| spec_simd_block(f.blocks[b])), ..f }
}

/// An instruction whose iterations are independent: it touches no named
/// storage or memory (no `Store`, `IndexStore`, `Call` or `Load`) and every
/// value it writes is a fresh temporary — never a named local, which one
/// iteration could feed into the next.
pub open spec fn spec_is_iteration_safe(i: IRInstructionV) -> bool {
    match i {
        IRInstructionV::Store { .. } => false,
        IRInstructionV::IndexStore { .. } => false,
        IRInstructionV::Call { .. } => false,
        IRInstructionV::Load { .. } => false,
        IRInstructionV::BinOp { result, .. } => result matches IRValueV::Temporary(_),
        IRInstructionV::UnaryOp { result, .. } => result matches IRValueV::Temporary(_),
        IRInstructionV::Assign { target, .. } => target matches IRValueV::Temporary(_),
        IRInstructionV::Index { result, .. } => result matches IRValueV::Temporary(_),
        _ => true,
    }
}

/// Whether every instruction of the sequence is iteration-safe.
pub open spec fn spec_all_iteration_safe(s: Seq<IRInstructionV>) -> bool {
    forall|k: int| 0 <= k < s.len() ==> spec_is_iteration_safe(#[trigger] s[k])
}

/// The index of the first block whose id is `id`, if any.
pub open spec fn spec_find_block(blocks: Seq<BasicBlockV>, id: usize) -> Option<int>
    decreases blocks.len(),
{
    if blocks.len() == 0 {
        Option::None
    } else if blocks[0].id == id {
        Option::Some(0)
    } else {
        match spec_find_block(blocks.drop_first(), id) {
            Option::None => Option::None,
            Option::Some(i) => Option::Some(i + 1),
        }
    }
}

/// The body-block id of a `LoopStart`, if the instruction is one.
pub open spec fn spec_loopstart_body(i: IRInstructionV) -> Option<usize> {
    match i {
        IRInstructionV::LoopStart { body_block, .. } => Option::Some(body_block),
        _ => Option::None,
    }
}

/// Whether a loop headed by this instruction may be marked parallel: its
/// body block must exist and hold only iteration-safe instructions. This is
/// proven on the body, not assumed from a hint.
pub open spec fn spec_loop_parallel_safe(blocks: Seq<BasicBlockV>, i: IRInstructionV) -> bool {
    match i {
        IRInstructionV::LoopStart { body_block, .. } => match spec_find_block(blocks, body_block) {
            Option::Some(j) => spec_all_iteration_safe(blocks[j].instructions),
            Option::None => false,
        },
        _ => false,
    }
}

/// How many of the first `i` instructions head a provably parallel loop.
pub open spec fn spec_count_parallel(
    blocks: Seq<BasicBlockV>,
    s: Seq<IRInstructionV>,
    i: int,
) -> int
    decreases i,
{
    if i <= 0 {
        0
    } else {
        spec_count_parallel(blocks, s, i - 1) + (if spec_loop_parallel_safe(blocks, s[i - 1]) {
            1int
        } else {
            0int
        })
    }
}

/// Parallelization detection over one block: appends one `Parallelizable`
/// marker per provably parallel loop headed in the block.
pub open spec fn spec_parallel_block(blocks: Seq<BasicBlockV>, b: BasicBlockV) -> BasicBlockV {
    let n = spec_count_parallel(blocks, b.instructions, b.instructions.len() as int);
    BasicBlockV {
        id: b.id,
        instructions: b.instructions + Seq::new(
            n as nat,
            |i: int| IRInstructionV::Parallelizable,
        ),
        successors: b.successors,
    }
}

/// Parallelization detection over a function; loop bodies are judged against
/// the function as it stood at the start of the pass.
pub open spec fn spec_parallel_fn(f: IRFunctionV) -> IRFunctionV {
    IRFunctionV {
        blocks: Seq::new(f.blocks.len(), |b: int| spec_parallel_block(f.blocks, f.blocks[b])),
        ..f
    }
}

/// Whether the instruction is a constant-indexed read.
fn is_elidable_index_exec(inst: &IRInstruction) -> (r: bool)
    ensures
        r == spec_is_elidable_index(inst@),
{
    match inst {
        IRInstruction::Index { index: IRValue::Const(IRConstant::Int(_)), .. } => true,
        _ => false,
    }
}

/// Appends `missing` copies of `marker` to a fresh copy of `v`.
fn with_appended_markers(v: &Vec<IRInstruction>, missing: usize, marker_elide: bool) -> (out: Vec<
    IRInstruction,
>)
    ensures
        view_instr_seq(out@) == view_instr_seq(v@) + Seq::new(
            missing as nat,
            |i: int|
                if marker_elide {
                    IRInstructionV::CanElideCheck
                } else {
                    IRInstructionV::Parallelizable
                },
        ),
{
    let mut out = crate::ir::clone_instr_vec(v);
    let mut j: usize = 0;
    while j < missing
        invariant
            j <= missing,
            out@.len() == v@.len() + j,
            view_instr_seq(out@) == view_instr_seq(v@) + Seq::new(
                j as nat,
                |i: int|
                    if marker_elide {
                        IRInstructionV::CanElideCheck
                    } else {
                        IRInstructionV::Parallelizable
                    },
            ),
        decreases missing - j,
    {
        let ghost pre = view_instr_seq(out@);
        if marker_elide {
            out.push(IRInstruction::CanElideCheck);
        } else {
            out.push(IRInstruction::Parallelizable);
        }
        proof {
            let mk = if marker_elide {
                IRInstructionV::CanElideCheck
            } else {
                IRInstructionV::Parallelizable
            };
            assert(view_instr_seq(out@) =~= pre.push(mk));
            assert(pre.push(mk) =~= view_instr_seq(v@) + Seq::new((j + 1) as nat, |i: int| mk));
        }
        j += 1;
    }
    out
}

impl IROptimizer {
    /// Marks each constant-indexed read as check-elidable by appending one
    /// `CanElideCheck` marker per such read to its block. A conservative
    /// heuristic: reads with non-constant indexes are never marked.
    pub fn bounds_check_elimination(&self, function: &mut IRFunction)
        ensures
            final(function)@ == spec_bce_fn(old(function)@),
    {
        let mut new_blocks: Vec<BasicBlock> = Vec::new();
        let n = function.blocks.len();
        let mut b: usize = 0;
        while b < n
            invariant
                b <= n,
                n == function.blocks@.len(),
                *function == *old(function),
                new_blocks@.len() == b,
                forall|k: int|
                    0 <= k < b ==> (#[trigger] new_blocks@[k])@ == spec_bce_block(
                        function@.blocks[k],
                    ),
            decreases n - b,
        {
            let blk = &function.blocks[b];
            let m = blk.instructions.len();
            let mut eligible: usize = 0;
            let mut markers: usize = 0;
            let mut i: usize = 0;
            while i < m
                invariant
                    i <= m,
                    m == blk.instructions@.len(),
                    eligible == spec_count_elidable(blk@.instructions, i as int),
                    markers == spec_count_markers(blk@.instructions, i as int),
                    eligible <= i,
                    markers <= i,
                decreases m - i,
            {
                let inst = &blk.instructions[i];
                if is_elidable_index_exec(inst) {
                    eligible += 1;
                }
                if matches!(inst, IRInstruction::CanElideCheck) {
                    markers += 1;
                }
                i += 1;
            }
            let missing: usize = if eligible > markers {
                eligible - markers
            } else {
                0
            };
            let instrs = with_appended_markers(&blk.instructions, missing, true);
            new_blocks.push(
                BasicBlock {
                    id: blk.id,
                    instructions: instrs,
                    successors: clone_usize_vec(&blk.successors),
                },
            );
            proof {
                assert(new_blocks@.last()@ =~~= spec_bce_block(function@.blocks[b as int]));
            }
            b += 1;
        }
        function.blocks = new_blocks;
        proof {
            assert(function@.blocks =~~= spec_bce_fn(old(function)@).blocks);
            assert(function@ =~~= spec_bce_fn(old(function)@));
        }
    }

    /// Appends a `Vectorizable` marker to each block holding a control-free
    /// run of more than three arithmetic operations.
    pub fn detect_simd_opportunities(&self, function: &mut IRFunction)
        ensures
            final(function)@ == spec_simd_fn(old(function)@),
    {
        let mut new_blocks: Vec<BasicBlock> = Vec::new();
        let n = function.blocks.len();
        let mut b: usize = 0;
        while b < n
            invariant
                b <= n,
                n == function.blocks@.len(),
                *function == *old(function),
                new_blocks@.len() == b,
                forall|k: int|
                    0 <= k < b ==> (#[trigger] new_blocks@[k])@ == spec_simd_block(
                        function@.blocks[k],
                    ),
            decreases n - b,
        {
            let blk = &function.blocks[b];
            let m = blk.instructions.len();
            let mut found = false;
            let mut acc: usize = 0;
            let mut i: usize = 0;
            while i < m && !found
                invariant
                    i <= m,
                    m == blk.instructions@.len(),
                    acc <= 3,
                    spec_simd_scan(blk@.instructions, 0, 0) == (found || spec_simd_scan(
                        blk@.instructions,
                        i as int,
                        acc as int,
                    )),
                decreases m - i,
            {
                let inst = &blk.instructions[i];
                let is_control = matches!(
                    inst,
                    IRInstruction::Branch { .. } | IRInstruction::Jump { .. }
                        | IRInstruction::Return { .. } | IRInstruction::LoopStart { .. }
                        | IRInstruction::LoopEnd
                );
                let is_arith = match inst {
                    IRInstruction::BinOp { op, .. } => matches!(
                        op,
                        BinOpIR::Add | BinOpIR::Mul | BinOpIR::Sub | BinOpIR::Div
                    ),
                    _ => false,
                };
                proof {
                    assert(is_control == spec_is_control(blk@.instructions[i as int]));
                    assert(is_arith == spec_is_arith(blk@.instructions[i as int]));
                }
                if is_control {
                    acc = 0;
                } else if is_arith {
                    acc += 1;
                    if acc > 3 {
                        found = true;
                        acc = 3;
                    }
                }
                i += 1;
            }
            let mut instrs = crate::ir::clone_instr_vec(&blk.instructions);
            if found {
                let ghost pre = view_instr_seq(instrs@);
                instrs.push(IRInstruction::Vectorizable);
                proof {
                    assert(view_instr_seq(instrs@) =~= pre.push(IRInstructionV::Vectorizable));
                }
            }
            new_blocks.push(
                BasicBlock {
                    id: blk.id,
                    instructions: instrs,
                    successors: clone_usize_vec(&blk.successors),
                },
            );
            proof {
                assert(new_blocks@.last()@ =~~= spec_simd_block(function@.blocks[b as int]));
            }
            b += 1;
        }
        function.blocks = new_blocks;
        proof {
            assert(function@.blocks =~~= spec_simd_fn(old(function)@).blocks);
            assert(function@ =~~= spec_simd_fn(old(function)@));
        }
    }

    /// Appends a `Parallelizable` marker for each loop whose body block is
    /// proven free of cross-iteration data dependencies: the body touches
    /// no named storage or memory and writes only fresh temporaries.
    /// Nothing is marked on a hint alone.
    pub fn detect_parallel_opportunities(&self, function: &mut IRFunction)
        ensures
            final(function)@ == spec_parallel_fn(old(function)@),
    {
        let mut new_blocks: Vec<BasicBlock> = Vec::new();
        let n = function.blocks.len();
        let mut b: usize = 0;
        while b < n
            invariant
                b <= n,
                n == function.blocks@.len(),
                *function == *old(function),
                new_blocks@.len() == b,
                forall|k: int|
                    0 <= k < b ==> (#[trigger] new_blocks@[k])@ == spec_parallel_block(
                        function@.blocks,
                        function@.blocks[k],
                    ),
            decreases n - b,
        {
            let m = function.blocks[b].instructions.len();
            let mut count: usize = 0;
            let mut i: usize = 0;
            while i < m
                invariant
                    i <= m,
                    b < n,
                    n == function.blocks@.len(),
                    m == function.blocks@[b as int].instructions@.len(),
                    count == spec_count_parallel(
                        function@.blocks,
                        function@.blocks[b as int].instructions,
                        i as int,
                    ),
                    count <= i,
                decreases m - i,
            {
                if loop_parallel_safe_exec(function, b, i) {
                    count += 1;
                }
                i += 1;
            }
            let blk = &function.blocks[b];
            let instrs = with_appended_markers(&blk.instructions, count, false);
            new_blocks.push(
                BasicBlock {
                    id: blk.id,
                    instructions: instrs,
                    successors: clone_usize_vec(&blk.successors),
                },
            );
            proof {
                assert(new_blocks@.last()@ =~~= spec_parallel_block(
                    function@.blocks,
                    function@.blocks[b as int],
                ));
            }
            b += 1;
        }
        function.blocks = new_blocks;
        proof {
            assert(function@.blocks =~~= spec_parallel_fn(old(function)@).blocks);
            assert(function@ =~~= spec_parallel_fn(old(function)@));
        }
    }
}

/// Whether the instruction at `(b, i)` heads a provably parallel loop.
fn loop_parallel_safe_exec(function: &IRFunction, b: usize, i: usize) -> (r: bool)
    requires
        (b as int) < function@.blocks.len(),
        (i as int) < function@.blocks[b as int].instructions.len(),
    ensures
        r == spec_loop_parallel_safe(
            function@.blocks,
            function@.blocks[b as int].instructions[i as int],
        ),
{
    match &function.blocks[b].instructions[i] {
        IRInstruction::LoopStart { body_block, .. } => {
            let body: usize = *body_block;
            proof {
                assert(function@.blocks[b as int].instructions[i as int]
                    matches IRInstructionV::LoopStart { .. });
            }
            let n = function.blocks.len();
            let mut j: usize = 0;
            while j < n
                invariant
                    j <= n,
                    n == function.blocks@.len(),
                    (b as int) < function@.blocks.len(),
                    (i as int) < function@.blocks[b as int].instructions.len(),
                    spec_loopstart_body(function@.blocks[b as int].instructions[i as int])
                        == Option::Some(body),
                    forall|k: int| 0 <= k < j ==> function@.blocks[k].id != body,
                decreases n - j,
            {
                if function.blocks[j].id == body {
                    proof {
                        lemma_find_block_at(function@.blocks, body, j as int);
                    }
                    let blk = &function.blocks[j];
                    let m = blk.instructions.len();
                    let mut k: usize = 0;
                    while k < m
                        invariant
                            k <= m,
                            m == blk.instructions@.len(),
                            (j as int) < function@.blocks.len(),
                            blk == &function.blocks[j as int],
                            (b as int) < function@.blocks.len(),
                            (i as int) < function@.blocks[b as int].instructions.len(),
                            spec_loopstart_body(function@.blocks[b as int].instructions[i as int])
                                == Option::Some(body),
                            spec_find_block(function@.blocks, body) == Option::Some(j as int),
                            forall|x: int|
                                0 <= x < k ==> spec_is_iteration_safe(
                                    #[trigger] blk@.instructions[x],
                                ),
                        decreases m - k,
                    {
                        let safe = match &blk.instructions[k] {
                            IRInstruction::Store { .. } => false,
                            IRInstruction::IndexStore { .. } => false,
                            IRInstruction::Call { .. } => false,
                            IRInstruction::Load { .. } => false,
                            IRInstruction::BinOp { result, .. } => matches!(
                                result,
                                IRValue::Temporary(_)
                            ),
                            IRInstruction::UnaryOp { result, .. } => matches!(
                                result,
                                IRValue::Temporary(_)
                            ),
                            IRInstruction::Assign { target, .. } => matches!(
                                target,
                                IRValue::Temporary(_)
                            ),
                            IRInstruction::Index { result, .. } => matches!(
                                result,
                                IRValue::Temporary(_)
                            ),
                            _ => true,
                        };
                        proof {
                            assert(safe == spec_is_iteration_safe(blk@.instructions[k as int]));
                        }
                        if !safe {
                            proof {
                                assert(!spec_all_iteration_safe(blk@.instructions));
                            }
                            return false;
                        }
                        k += 1;
                    }
                    return true;
                }
                j += 1;
            }
            proof {
                lemma_find_block_none(function@.blocks, body);
            }
            false
        },
        _ => false,
    }
}

proof fn lemma_find_block_at(blocks: Seq<BasicBlockV>, id: usize, i: int)
    requires
        0 <= i < blocks.len(),
        blocks[i].id == id,
        forall|k: int| 0 <= k < i ==> blocks[k].id != id,
    ensures
        spec_find_block(blocks, id) == Option::Some(i),
    decreases i,
{
    if i > 0 {
        lemma_find_block_at(blocks.drop_first(), id, i - 1);
    }
}

proof fn lemma_find_block_none(blocks: Seq<BasicBlockV>, id: usize)
    requires
        forall|k: int| 0 <= k < blocks.len() ==> blocks[k].id != id,
    ensures
        spec_find_block(blocks, id) is None,
    decreases blocks.len(),
{
    if blocks.len() > 0 {
        lemma_find_block_none(blocks.drop_first(), id);
    }
}

/// An operand that common-subexpression elimination may key on: a constant
/// or a single-assignment temporary, whose value can never change between
/// two occurrences inside one block. Named locals may be reassigned, so
/// operations over them are never memoized.
pub open spec fn spec_cse_key_ok(v: IRValueV) -> bool {
    v matches IRValueV::Const(_) || v matches IRValueV::Temporary(_)
}

/// Common-subexpression elimination over the tail of a block from `i`, with
/// `memo` mapping each already-seen `(operator, left, right)` triple to the
/// first temporary that computed it: a repeated triple becomes a direct
/// assignment reusing that result.
pub open spec fn spec_cse_instrs(
    s: Seq<IRInstructionV>,
    i: int,
    memo: Map<(BinOpIR, IRValueV, IRValueV), IRValueV>,
) -> Seq<IRInstructionV>
    decreases s.len() - i,
{
    if i < 0 || i >= s.len() {
        Seq::empty()
    } else {
        match s[i] {
            IRInstructionV::BinOp { result, op, left, right } => {
                if spec_cse_key_ok(left) && spec_cse_key_ok(right) {
                    if memo.contains_key((op, left, right)) {
                        seq![
                            IRInstructionV::Assign {
                                target: result,
                                value: memo[(op, left, right)],
                            },
                        ] + spec_cse_instrs(s, i + 1, memo)
                    } else {
                        seq![s[i]] + spec_cse_instrs(s, i + 1, memo.insert((op, left, right), result))
                    }
                } else {
                    seq![s[i]] + spec_cse_instrs(s, i + 1, memo)
                }
            },
            _ => seq![s[i]] + spec_cse_instrs(s, i + 1, memo),
        }
    }
}

/// CSE over one block; the memo table is block-local, since a temporary
/// defined in one block need not be available in another.
pub open spec fn spec_cse_block(b: BasicBlockV) -> BasicBlockV {
    BasicBlockV {
        id: b.id,
        instructions: spec_cse_instrs(b.instructions, 0, Map::empty()),
        successors: b.successors,
    }
}

pub open spec fn spec_cse_fn(f: IRFunctionV) -> IRFunctionV {
    IRFunctionV { blocks: Seq::new(f.blocks.len(), |b: int| spec_cse_block(f.blocks[b])), ..f }
}

/// The key of one memo entry.
pub open spec fn spec_entry_key(e: (BinOpIR, IRValue, IRValue, IRValue)) -> (
    BinOpIR,
    IRValueV,
    IRValueV,
) {
    (e.0, e.1@, e.2@)
}

/// The memo vector faithfully represents the ghost memo map.
pub open spec fn spec_memo_inv(
    entries: Seq<(BinOpIR, IRValue, IRValue, IRValue)>,
    m: Map<(BinOpIR, IRValueV, IRValueV), IRValueV>,
) -> bool {
    &&& forall|idx: int|
        0 <= idx < entries.len() ==> m.contains_key(spec_entry_key(#[trigger] entries[idx]))
            && m[spec_entry_key(entries[idx])] == entries[idx].3@
    &&& forall|k: (BinOpIR, IRValueV, IRValueV)|
        #[trigger] m.contains_key(k) ==> exists|idx: int|
            0 <= idx < entries.len() && spec_entry_key(#[trigger] entries[idx]) == k
}

proof fn lemma_memo_insert(
    entries: Seq<(BinOpIR, IRValue, IRValue, IRValue)>,
    m: Map<(BinOpIR, IRValueV, IRValueV), IRValueV>,
    e: (BinOpIR, IRValue, IRValue, IRValue),
)
    requires
        spec_memo_inv(entries, m),
        !m.contains_key(spec_entry_key(e)),
    ensures
        spec_memo_inv(entries.push(e), m.insert(spec_entry_key(e), e.3@)),
{
    let entries2 = entries.push(e);
    let m2 = m.insert(spec_entry_key(e), e.3@);
    assert forall|idx: int| 0 <= idx < entries2.len() implies m2.contains_key(
        spec_entry_key(#[trigger] entries2[idx]),
    ) && m2[spec_entry_key(entries2[idx])] == entries2[idx].3@ by {
        if idx < entries.len() {
            assert(entries2[idx] == entries[idx]);
            assert(spec_entry_key(entries[idx]) != spec_entry_key(e));
        } else {
            assert(entries2[idx] == e);
        }
    }
    assert forall|k: (BinOpIR, IRValueV, IRValueV)| #[trigger] m2.contains_key(k) implies exists|
        idx: int,
    |
        0 <= idx < entries2.len() && spec_entry_key(#[trigger] entries2[idx]) == k by {
        if k == spec_entry_key(e) {
            assert(entries2[entries.len() as int] == e);
            assert(spec_entry_key(entries2[entries.len() as int]) == k);
        } else {
            assert(m.contains_key(k));
            let idx = choose|idx: int|
                0 <= idx < entries.len() && spec_entry_key(#[trigger] entries[idx]) == k;
            assert(entries2[idx] == entries[idx]);
            assert(spec_entry_key(entries2[idx]) == k);
        }
    }
}

/// Looks a `(operator, left, right)` triple up in the memo table.
fn cse_lookup(
    memo: &Vec<(BinOpIR, IRValue, IRValue, IRValue)>,
    op: BinOpIR,
    l: &IRValue,
    r: &IRValue,
    Ghost(m): Ghost<Map<(BinOpIR, IRValueV, IRValueV), IRValueV>>,
) -> (res: Option<IRValue>)
    requires
        spec_memo_inv(memo@, m),
    ensures
        match res {
            Option::Some(v) => m.contains_key((op, l@, r@)) && v@ == m[(op, l@, r@)],
            Option::None => !m.contains_key((op, l@, r@)),
        },
{
    let n = memo.len();
    let mut idx: usize = 0;
    while idx < n
        invariant
            idx <= n,
            n == memo@.len(),
            spec_memo_inv(memo@, m),
            forall|k: int| 0 <= k < idx ==> spec_entry_key(#[trigger] memo@[k]) != (op, l@, r@),
        decreases n - idx,
    {
        let e = &memo[idx];
        if e.0 == op && ir_value_eq(&e.1, l) && ir_value_eq(&e.2, r) {
            proof {
                assert(spec_entry_key(memo@[idx as int]) == (op, l@, r@));
            }
            return Some(e.3.clone());
        }
        idx += 1;
    }
    proof {
        if m.contains_key((op, l@, r@)) {
            let w = choose|w: int|
                0 <= w < memo@.len() && spec_entry_key(#[trigger] memo@[w]) == (op, l@, r@);
        }
    }
    None
}

/// Whether the operand may serve as a memo key.
fn cse_key_ok_exec(v: &IRValue) -> (r: bool)
    ensures
        r == spec_cse_key_ok(v@),
{
    matches!(v, IRValue::Const(_) | IRValue::Temporary(_))
}

impl IROptimizer {
    /// Memoizes, within each block, the first temporary computed for every
    /// `(operator, left, right)` triple over constants and temporaries, and
    /// rewrites later identical operations to reuse it. Triples reading a
    /// named local are left unchanged: a reassignment could invalidate
    /// them. The memo table is deliberately block-local: a temporary first
    /// computed in one block need not be defined on every path that reaches
    /// a later block, so reuse across blocks is refused rather than
    /// guessed — a rewrite that cannot be proven safe leaves the
    /// instruction unchanged.
    pub fn common_subexpression_elimination(&self, function: &mut IRFunction)
        ensures
            final(function)@ == spec_cse_fn(old(function)@),
    {
        let mut new_blocks: Vec<BasicBlock> = Vec::new();
        let n = function.blocks.len();
        let mut b: usize = 0;
        while b < n
            invariant
                b <= n,
                n == function.blocks@.len(),
                *function == *old(function),
                new_blocks@.len() == b,
                forall|k: int|
                    0 <= k < b ==> (#[trigger] new_blocks@[k])@ == spec_cse_block(
                        function@.blocks[k],
                    ),
            decreases n - b,
        {
            let blk = &function.blocks[b];
            let ghost s = blk@.instructions;
            let m = blk.instructions.len();
            let mut instrs: Vec<IRInstruction> = Vec::new();
            let mut memo: Vec<(BinOpIR, IRValue, IRValue, IRValue)> = Vec::new();
            let ghost mut memo_map: Map<(BinOpIR, IRValueV, IRValueV), IRValueV> = Map::empty();
            let mut i: usize = 0;
            while i < m
                invariant
                    i <= m,
                    b < n,
                    n == function.blocks@.len(),
                    blk == &function.blocks[b as int],
                    m == blk.instructions@.len(),
                    s == blk@.instructions,
                    spec_memo_inv(memo@, memo_map),
                    view_instr_seq(instrs@) + spec_cse_instrs(s, i as int, memo_map)
                        == spec_cse_instrs(s, 0, Map::empty()),
                decreases m - i,
            {
                let ghost out_pre = view_instr_seq(instrs@);
                let ghost memo_pre = memo_map;
                let inst = &blk.instructions[i];
                match inst {
                    IRInstruction::BinOp { result, op, left, right } => {
                        if cse_key_ok_exec(left) && cse_key_ok_exec(right) {
                            match cse_lookup(&memo, *op, left, right, Ghost(memo_map)) {
                                Option::Some(v) => {
                                    instrs.push(
                                        IRInstruction::Assign {
                                            target: result.clone(),
                                            value: v,
                                        },
                                    );
                                },
                                Option::None => {
                                    let e = (*op, left.clone(), right.clone(), result.clone());
                                    proof {
                                        lemma_memo_insert(memo@, memo_map, e);
                                        memo_map = memo_map.insert((e.0, e.1@, e.2@), e.3@);
                                    }
                                    memo.push(e);
                                    instrs.push(inst.clone());
                                },
                            }
                        } else {
                            instrs.push(inst.clone());
                        }
                    },
                    _ => {
                        instrs.push(inst.clone());
                    },
                }
                proof {
                    let xv = view_instr_seq(instrs@).last();
                    assert(view_instr_seq(instrs@) =~= out_pre.push(xv));
                    assert(spec_cse_instrs(s, i as int, memo_pre) == seq![xv] + spec_cse_instrs(
                        s,
                        i + 1 as int,
                        memo_map,
                    ));
                    assert(out_pre.push(xv) + spec_cse_instrs(s, i + 1 as int, memo_map) =~= out_pre
                        + (seq![xv] + spec_cse_instrs(s, i + 1 as int, memo_map)));
                }
                i += 1;
            }
            proof {
                assert(spec_cse_instrs(s, m as int, memo_map) =~= Seq::<IRInstructionV>::empty());
                assert(view_instr_seq(instrs@) + spec_cse_instrs(s, m as int, memo_map) =~=
                view_instr_seq(instrs@));
            }
            new_blocks.push(
                BasicBlock {
                    id: blk.id,
                    instructions: instrs,
                    successors: clone_usize_vec(&blk.successors),
                },
            );
            proof {
                assert(new_blocks@.last()@ =~~= spec_cse_block(function@.blocks[b as int]));
            }
            b += 1;
        }
        function.blocks = new_blocks;
        proof {
            assert(function@.blocks =~~= spec_cse_fn(old(function)@).blocks);
            assert(function@ =~~= spec_cse_fn(old(function)@));
        }
    }
}

/// An exclusive upper bound on the temporary an operand names; zero for
/// anything that is no temporary. The bound saturates at `usize::MAX`.
pub open spec fn spec_value_temp_bound(v: IRValueV) -> usize {
    match v {
        IRValueV::Temporary(t) => if t < usize::MAX {
            (t + 1) as usize
        } else {
            usize::MAX
        },
        _ => 0,
    }
}

/// The larger of two bounds.
pub open spec fn spec_bound_max(a: usize, b: usize) -> usize {
    if a >= b {
        a
    } else {
        b
    }
}

/// An exclusive upper bound on the temporaries an operand list names.
pub open spec fn spec_values_temp_bound(vs: Seq<IRValueV>) -> usize
    decreases vs.len(),
{
    if vs.len() == 0 {
        0
    } else {
        spec_bound_max(spec_value_temp_bound(vs[0]), spec_values_temp_bound(vs.drop_first()))
    }
}

/// An exclusive upper bound on the temporaries one instruction names,
/// read or written.
pub open spec fn spec_instr_temp_bound(i: IRInstructionV) -> usize {
    match i {
        IRInstructionV::BinOp { result, left, right, .. } => spec_bound_max(
            spec_value_temp_bound(result),
            spec_bound_max(spec_value_temp_bound(left), spec_value_temp_bound(right)),
        ),
        IRInstructionV::UnaryOp { result, operand, .. } => spec_bound_max(
            spec_value_temp_bound(result),
            spec_value_temp_bound(operand),
        ),
        IRInstructionV::Assign { target, value } => spec_bound_max(
            spec_value_temp_bound(target),
            spec_value_temp_bound(value),
        ),
        IRInstructionV::Load { result, .. } => spec_value_temp_bound(result),
        IRInstructionV::Store { value, .. } => spec_value_temp_bound(value),
        IRInstructionV::Index { result, array, index } => spec_bound_max(
            spec_value_temp_bound(result),
            spec_bound_max(spec_value_temp_bound(array), spec_value_temp_bound(index)),
        ),
        IRInstructionV::IndexStore { array, index, value } => spec_bound_max(
            spec_value_temp_bound(array),
            spec_bound_max(spec_value_temp_bound(index), spec_value_temp_bound(value)),
        ),
        IRInstructionV::Branch { condition, .. } => spec_value_temp_bound(condition),
        IRInstructionV::Return { value } => match value {
            Option::Some(v) => spec_value_temp_bound(v),
            Option::None => 0,
        },
        IRInstructionV::Call { result, args, .. } => spec_bound_max(
            spec_value_temp_bound(result),
            spec_values_temp_bound(args),
        ),
        IRInstructionV::LoopStart { iterator, .. } => spec_value_temp_bound(iterator),
        _ => 0,
    }
}

/// An exclusive upper bound on the temporaries an instruction list names.
pub open spec fn spec_instrs_temp_bound(s: Seq<IRInstructionV>) -> usize
    decreases s.len(),
{
    if s.len() == 0 {
        0
    } else {
        spec_bound_max(spec_instr_temp_bound(s[0]), spec_instrs_temp_bound(s.drop_first()))
    }
}

/// An exclusive upper bound on the temporaries a whole function names.
pub open spec fn spec_fn_temp_bound(blocks: Seq<BasicBlockV>) -> usize
    decreases blocks.len(),
{
    if blocks.len() == 0 {
        0
    } else {
        spec_bound_max(
            spec_instrs_temp_bound(blocks[0].instructions),
            spec_fn_temp_bound(blocks.drop_first()),
        )
    }
}

/// The operand with its temporary shifted by `off`; everything else is
/// kept. Admitted rewrites guarantee the shift stays in range.
pub open spec fn spec_rename_value(v: IRValueV, off: usize) -> IRValueV {
    match v {
        IRValueV::Temporary(t) => IRValueV::Temporary((t + off) as usize),
        _ => v,
    }
}

pub open spec fn spec_rename_opt_value(v: Option<IRValueV>, off: usize) -> Option<IRValueV> {
    match v {
        Option::Some(x) => Option::Some(spec_rename_value(x, off)),
        Option::None => Option::None,
    }
}

/// The instruction with every temporary it names shifted by `off`.
pub open spec fn spec_rename_instr(i: IRInstructionV, off: usize) -> IRInstructionV {
    match i {
        IRInstructionV::BinOp { result, op, left, right } => IRInstructionV::BinOp {
            result: spec_rename_value(result, off),
            op,
            left: spec_rename_value(left, off),
            right: spec_rename_value(right, off),
        },
        IRInstructionV::UnaryOp { result, op, operand } => IRInstructionV::UnaryOp {
            result: spec_rename_value(result, off),
            op,
            operand: spec_rename_value(operand, off),
        },
        IRInstructionV::Assign { target, value } => IRInstructionV::Assign {
            target: spec_rename_value(target, off),
            value: spec_rename_value(value, off),
        },
        IRInstructionV::Load { result, source } => IRInstructionV::Load {
            result: spec_rename_value(result, off),
            source,
        },
        IRInstructionV::Store { target, value } => IRInstructionV::Store {
            target,
            value: spec_rename_value(value, off),
        },
        IRInstructionV::Index { result, array, index } => IRInstructionV::Index {
            result: spec_rename_value(result, off),
            array: spec_rename_value(array, off),
            index: spec_rename_value(index, off),
        },
        IRInstructionV::IndexStore { array, index, value } => IRInstructionV::IndexStore {
            array: spec_rename_value(array, off),
            index: spec_rename_value(index, off),
            value: spec_rename_value(value, off),
        },
        IRInstructionV::Branch { condition, true_block, false_block } => IRInstructionV::Branch {
            condition: spec_rename_value(condition, off),
            true_block,
            false_block,
        },
        IRInstructionV::Return { value } => IRInstructionV::Return {
            value: spec_rename_opt_value(value, off),
        },
        IRInstructionV::Call { result, function, args } => IRInstructionV::Call {
            result: spec_rename_value(result, off),
            function,
            args: Seq::new(args.len(), |k: int| spec_rename_value(args[k], off)),
        },
        IRInstructionV::LoopStart { iterator, body_block, exit_block } => {
            IRInstructionV::LoopStart {
                iterator: spec_rename_value(iterator, off),
                body_block,
                exit_block,
            }
        },
        _ => i,
    }
}

/// The instruction list with every temporary shifted by `off`.
pub open spec fn spec_rename_instrs(s: Seq<IRInstructionV>, off: usize) -> Seq<IRInstructionV> {
    Seq::new(s.len(), |k: int| spec_rename_instr(s[k], off))
}

/// The `k`-th unrolled copy of a loop body: the first copy keeps the
/// original temporaries (the body block is emptied, so they stay single
/// assignments); every later copy shifts its temporaries past everything
/// the function already names, each copy into its own disjoint range.
pub open spec fn spec_unroll_copy(
    core: Seq<IRInstructionV>,
    k: int,
    base: usize,
    span: usize,
) -> Seq<IRInstructionV> {
    if k == 0 {
        core
    } else {
        spec_rename_instrs(core, (base + (k - 1) * span) as usize)
    }
}

/// The first `i` unrolled copies, concatenated in iteration order.
pub open spec fn spec_unroll_prefix(
    core: Seq<IRInstructionV>,
    i: nat,
    base: usize,
    span: usize,
) -> Seq<IRInstructionV>
    decreases i,
{
    if i == 0 {
        Seq::empty()
    } else {
        spec_unroll_prefix(core, (i - 1) as nat, base, span) + spec_unroll_copy(
            core,
            i - 1,
            base,
            span,
        )
    }
}

/// Whether block `b` of `f` ends in a loop that may be unrolled in place: a
/// `LoopStart` over a constant trip count of at most `threshold`, whose
/// body block exists, is a different block, and is straight-line — every
/// instruction but the trailing `LoopEnd` free of control transfers — and,
/// for more than one copy, whose temporary renaming has headroom in the
/// numbering space.
pub open spec fn spec_unroll_cand_at(f: IRFunctionV, b: int, threshold: usize) -> bool {
    &&& 0 <= b < f.blocks.len()
    &&& f.blocks[b].instructions.len() >= 1
    &&& {
        let i = f.blocks[b].instructions.len() - 1;
        match f.blocks[b].instructions[i] {
            IRInstructionV::LoopStart {
                iterator: IRValueV::Const(IRConstantV::Int(n)),
                body_block,
                exit_block,
            } => {
                &&& 0 <= n <= threshold
                &&& match spec_find_block(f.blocks, body_block) {
                    Option::Some(j) => {
                        &&& j != b
                        &&& f.blocks[j].instructions.len() >= 1
                        &&& f.blocks[j].instructions.last() == IRInstructionV::LoopEnd
                        &&& forall|k: int|
                            0 <= k < f.blocks[j].instructions.len() - 1 ==> !spec_is_control(
                                #[trigger] f.blocks[j].instructions[k],
                            )
                        &&& (n <= 1 || spec_fn_temp_bound(f.blocks) + (n - 1)
                            * spec_instrs_temp_bound(f.blocks[j].instructions.drop_last())
                            <= usize::MAX)
                    },
                    Option::None => false,
                }
            },
            _ => false,
        }
    }
}

/// The first block ending in an unrollable loop, scanning from `b`.
pub open spec fn spec_first_unroll_cand(f: IRFunctionV, b: int, threshold: usize) -> Option<int>
    decreases f.blocks.len() - b,
{
    if b < 0 || b >= f.blocks.len() {
        Option::None
    } else if spec_unroll_cand_at(f, b, threshold) {
        Option::Some(b)
    } else {
        spec_first_unroll_cand(f, b + 1, threshold)
    }
}

/// The function with the loop ending block `b` unrolled: the `LoopStart`
/// is replaced by the trip count's many copies of the body (temporaries
/// renamed per copy), the block falls through to the exit, and the body
/// block is emptied.
pub open spec fn spec_unroll_apply(f: IRFunctionV, b: int, threshold: usize) -> IRFunctionV
    recommends
        spec_unroll_cand_at(f, b, threshold),
{
    let i = f.blocks[b].instructions.len() - 1;
    match f.blocks[b].instructions[i] {
        IRInstructionV::LoopStart {
            iterator: IRValueV::Const(IRConstantV::Int(n)),
            body_block,
            exit_block,
        } => {
            match spec_find_block(f.blocks, body_block) {
                Option::Some(j) => {
                    let core = f.blocks[j].instructions.drop_last();
                    let base = spec_fn_temp_bound(f.blocks);
                    let span = spec_instrs_temp_bound(core);
                    let copies = if n >= 0 {
                        spec_unroll_prefix(core, n as nat, base, span)
                    } else {
                        Seq::<IRInstructionV>::empty()
                    };
                    let spliced = f.blocks[b].instructions.drop_last() + copies;
                    IRFunctionV {
                        blocks: Seq::new(
                            f.blocks.len(),
                            |k: int|
                                if k == b {
                                    BasicBlockV {
                                        id: f.blocks[k].id,
                                        instructions: spliced,
                                        successors: seq![exit_block],
                                    }
                                } else if k == j {
                                    BasicBlockV {
                                        id: f.blocks[k].id,
                                        instructions: Seq::empty(),
                                        successors: Seq::empty(),
                                    }
                                } else {
                                    f.blocks[k]
                                },
                        ),
                        ..f
                    }
                },
                Option::None => f,
            }
        },
        _ => f,
    }
}

/// One round of loop unrolling: the first unrollable loop, if any, is
/// unrolled; anything the pass cannot prove safe is left unchanged.
pub open spec fn spec_unroll_fn(f: IRFunctionV, threshold: usize) -> IRFunctionV {
    match spec_first_unroll_cand(f, 0, threshold) {
        Option::Some(b) => spec_unroll_apply(f, b, threshold),
        Option::None => f,
    }
}

/// The inline table: the functions of the module whose whole body is a
/// single block returning a constant, each mapped to that constant. Only
/// such callees are substituted — the call disappears, the constant
/// remains, and no side effect is lost because the callee had none.
pub open spec fn spec_inline_entry(f: IRFunctionV) -> Option<(Seq<char>, IRConstantV)> {
    if f.blocks.len() == 1 && f.blocks[0].instructions.len() == 1 {
        match f.blocks[0].instructions[0] {
            IRInstructionV::Return { value: Option::Some(IRValueV::Const(c)) } => Option::Some(
                (f.name, c),
            ),
            _ => Option::None,
        }
    } else {
        Option::None
    }
}

/// The first constant-returning function named `name`, scanning from `i`.
pub open spec fn spec_inline_lookup(fns: Seq<IRFunctionV>, i: int, name: Seq<char>) -> Option<
    IRConstantV,
>
    decreases fns.len() - i,
{
    if i < 0 || i >= fns.len() {
        Option::None
    } else {
        match spec_inline_entry(fns[i]) {
            Option::Some(e) => if e.0 == name {
                Option::Some(e.1)
            } else {
                spec_inline_lookup(fns, i + 1, name)
            },
            Option::None => spec_inline_lookup(fns, i + 1, name),
        }
    }
}

/// Inlining of one instruction against the module snapshot: a call to a
/// constant-returning function becomes a direct assignment of the constant.
pub open spec fn spec_inline_instr(fns: Seq<IRFunctionV>, i: IRInstructionV) -> IRInstructionV {
    match i {
        IRInstructionV::Call { result, function, args } => {
            match spec_inline_lookup(fns, 0, function) {
                Option::Some(c) => IRInstructionV::Assign {
                    target: result,
                    value: IRValueV::Const(c),
                },
                Option::None => i,
            }
        },
        _ => i,
    }
}

pub open spec fn spec_inline_block(fns: Seq<IRFunctionV>, b: BasicBlockV) -> BasicBlockV {
    BasicBlockV {
        id: b.id,
        instructions: Seq::new(
            b.instructions.len(),
            |i: int| spec_inline_instr(fns, b.instructions[i]),
        ),
        successors: b.successors,
    }
}

/// Inlining over one function, judged against a snapshot of the module's
/// functions.
pub open spec fn spec_inline_fn(fns: Seq<IRFunctionV>, f: IRFunctionV) -> IRFunctionV {
    IRFunctionV {
        blocks: Seq::new(f.blocks.len(), |b: int| spec_inline_block(fns, f.blocks[b])),
        ..f
    }
}

/// The fields of a `LoopStart`, if the instruction is one.
pub open spec fn spec_loopstart_parts(i: IRInstructionV) -> Option<(IRValueV, usize, usize)> {
    match i {
        IRInstructionV::LoopStart { iterator, body_block, exit_block } => Option::Some(
            (iterator, body_block, exit_block),
        ),
        _ => Option::None,
    }
}

/// A copy of `v[from..to]` of an instruction vector.
fn clone_instr_range(v: &Vec<IRInstruction>, from: usize, to: usize) -> (out: Vec<IRInstruction>)
    requires
        from <= to <= v@.len(),
    ensures
        view_instr_seq(out@) == view_instr_seq(v@).subrange(from as int, to as int),
{
    let mut out: Vec<IRInstruction> = Vec::new();
    let mut i: usize = from;
    while i < to
        invariant
            from <= i <= to <= v@.len(),
            out@.len() == i - from,
            forall|k: int| 0 <= k < i - from ==> out@[k]@ == v@[from + k]@,
        decreases to - i,
    {
        out.push(v[i].clone());
        i += 1;
    }
    proof {
        assert(view_instr_seq(out@) =~= view_instr_seq(v@).subrange(from as int, to as int));
    }
    out
}

/// An exclusive temporary bound of one operand, executably.
fn value_temp_bound(v: &IRValue) -> (r: usize)
    ensures
        r == spec_value_temp_bound(v@),
{
    match v {
        IRValue::Temporary(t) => {
            if *t < usize::MAX {
                *t + 1
            } else {
                usize::MAX
            }
        },
        _ => 0,
    }
}

/// An exclusive temporary bound of an operand list, executably.
fn values_temp_bound(vs: &Vec<IRValue>) -> (r: usize)
    ensures
        r == spec_values_temp_bound(view_value_seq(vs@)),
{
    let ghost sv = view_value_seq(vs@);
    let mut acc: usize = 0;
    proof {
        assert(sv.skip(0) =~= sv);
    }
    let n = vs.len();
    let mut i: usize = 0;
    while i < n
        invariant
            i <= n,
            n == vs@.len(),
            sv == view_value_seq(vs@),
            spec_values_temp_bound(sv) == spec_bound_max(
                acc,
                spec_values_temp_bound(sv.skip(i as int)),
            ),
        decreases n - i,
    {
        proof {
            let tail = sv.skip(i as int);
            assert(tail[0] == sv[i as int]);
            assert(sv[i as int] == vs@[i as int]@);
            assert(tail.drop_first() =~= sv.skip(i + 1 as int));
        }
        let vb = value_temp_bound(&vs[i]);
        if vb > acc {
            acc = vb;
        }
        i += 1;
    }
    proof {
        assert(sv.skip(n as int).len() == 0);
    }
    acc
}

/// An exclusive temporary bound of one instruction, executably.
fn instr_temp_bound(inst: &IRInstruction) -> (r: usize)
    ensures
        r == spec_instr_temp_bound(inst@),
{
    match inst {
        IRInstruction::BinOp { result, left, right, .. } => {
            let a = value_temp_bound(result);
            let b = value_temp_bound(left);
            let c = value_temp_bound(right);
            let bc = if b >= c {
                b
            } else {
                c
            };
            if a >= bc {
                a
            } else {
                bc
            }
        },
        IRInstruction::UnaryOp { result, operand, .. } => {
            let a = value_temp_bound(result);
            let b = value_temp_bound(operand);
            if a >= b {
                a
            } else {
                b
            }
        },
        IRInstruction::Assign { target, value } => {
            let a = value_temp_bound(target);
            let b = value_temp_bound(value);
            if a >= b {
                a
            } else {
                b
            }
        },
        IRInstruction::Load { result, .. } => value_temp_bound(result),
        IRInstruction::Store { value, .. } => value_temp_bound(value),
        IRInstruction::Index { result, array, index } => {
            let a = value_temp_bound(result);
            let b = value_temp_bound(array);
            let c = value_temp_bound(index);
            let bc = if b >= c {
                b
            } else {
                c
            };
            if a >= bc {
                a
            } else {
                bc
            }
        },
        IRInstruction::IndexStore { array, index, value } => {
            let a = value_temp_bound(array);
            let b = value_temp_bound(index);
            let c = value_temp_bound(value);
            let bc = if b >= c {
                b
            } else {
                c
            };
            if a >= bc {
                a
            } else {
                bc
            }
        },
        IRInstruction::Branch { condition, .. } => value_temp_bound(condition),
        IRInstruction::Return { value } => match value {
            Option::Some(v) => value_temp_bound(v),
            Option::None => 0,
        },
        IRInstruction::Call { result, args, .. } => {
            let a = value_temp_bound(result);
            let b = values_temp_bound(args);
            if a >= b {
                a
            } else {
                b
            }
        },
        IRInstruction::LoopStart { iterator, .. } => value_temp_bound(iterator),
        _ => 0,
    }
}

/// An exclusive temporary bound of the first `to` instructions, executably.
fn instrs_temp_bound_prefix(v: &Vec<IRInstruction>, to: usize) -> (r: usize)
    requires
        to <= v@.len(),
    ensures
        r == spec_instrs_temp_bound(view_instr_seq(v@).subrange(0, to as int)),
{
    let ghost sub = view_instr_seq(v@).subrange(0, to as int);
    let mut acc: usize = 0;
    proof {
        assert(sub.skip(0) =~= sub);
    }
    let mut i: usize = 0;
    while i < to
        invariant
            i <= to,
            to <= v@.len(),
            sub == view_instr_seq(v@).subrange(0, to as int),
            spec_instrs_temp_bound(sub) == spec_bound_max(
                acc,
                spec_instrs_temp_bound(sub.skip(i as int)),
            ),
        decreases to - i,
    {
        proof {
            let tail = sub.skip(i as int);
            assert(tail[0] == sub[i as int]);
            assert(sub[i as int] == v@[i as int]@);
            assert(tail.drop_first() =~= sub.skip(i + 1 as int));
        }
        let ib = instr_temp_bound(&v[i]);
        if ib > acc {
            acc = ib;
        }
        i += 1;
    }
    proof {
        assert(sub.skip(to as int).len() == 0);
    }
    acc
}

/// An exclusive temporary bound of a whole function, executably.
fn fn_temp_bound(blocks: &Vec<BasicBlock>) -> (r: usize)
    ensures
        r == spec_fn_temp_bound(crate::ir::view_block_seq(blocks@)),
{
    let ghost bv = crate::ir::view_block_seq(blocks@);
    let mut acc: usize = 0;
    proof {
        assert(bv.skip(0) =~= bv);
    }
    let n = blocks.len();
    let mut i: usize = 0;
    while i < n
        invariant
            i <= n,
            n == blocks@.len(),
            bv == crate::ir::view_block_seq(blocks@),
            spec_fn_temp_bound(bv) == spec_bound_max(
                acc,
                spec_fn_temp_bound(bv.skip(i as int)),
            ),
        decreases n - i,
    {
        proof {
            let tail = bv.skip(i as int);
            assert(tail[0] == bv[i as int]);
            assert(bv[i as int] == blocks@[i as int]@);
            assert(tail.drop_first() =~= bv.skip(i + 1 as int));
        }
        let m = blocks[i].instructions.len();
        let bb = instrs_temp_bound_prefix(&blocks[i].instructions, m);
        proof {
            assert(view_instr_seq(blocks@[i as int].instructions@).subrange(0, m as int) =~=
            bv[i as int].instructions);
        }
        if bb > acc {
            acc = bb;
        }
        i += 1;
    }
    proof {
        assert(bv.skip(n as int).len() == 0);
    }
    acc
}

/// Every instruction's bound is at most its list's bound.
proof fn lemma_instrs_bound_at(s: Seq<IRInstructionV>, k: int)
    requires
        0 <= k < s.len(),
    ensures
        spec_instr_temp_bound(s[k]) <= spec_instrs_temp_bound(s),
    decreases s.len(),
{
    if k > 0 {
        assert(s.drop_first()[k - 1] == s[k]);
        lemma_instrs_bound_at(s.drop_first(), k - 1);
    }
}

/// The operand with its temporary shifted, executably.
fn rename_value(v: &IRValue, off: usize) -> (r: IRValue)
    requires
        spec_value_temp_bound(v@) + off <= usize::MAX,
    ensures
        r@ == spec_rename_value(v@, off),
{
    match v {
        IRValue::Temporary(t) => IRValue::Temporary(*t + off),
        _ => v.clone(),
    }
}

/// The instruction with every temporary shifted, executably.
fn rename_instr(inst: &IRInstruction, off: usize) -> (r: IRInstruction)
    requires
        spec_instr_temp_bound(inst@) + off <= usize::MAX,
    ensures
        r@ == spec_rename_instr(inst@, off),
{
    match inst {
        IRInstruction::BinOp { result, op, left, right } => IRInstruction::BinOp {
            result: rename_value(result, off),
            op: *op,
            left: rename_value(left, off),
            right: rename_value(right, off),
        },
        IRInstruction::UnaryOp { result, op, operand } => IRInstruction::UnaryOp {
            result: rename_value(result, off),
            op: *op,
            operand: rename_value(operand, off),
        },
        IRInstruction::Assign { target, value } => IRInstruction::Assign {
            target: rename_value(target, off),
            value: rename_value(value, off),
        },
        IRInstruction::Load { result, source } => IRInstruction::Load {
            result: rename_value(result, off),
            source: source.clone(),
        },
        IRInstruction::Store { target, value } => IRInstruction::Store {
            target: target.clone(),
            value: rename_value(value, off),
        },
        IRInstruction::Index { result, array, index } => IRInstruction::Index {
            result: rename_value(result, off),
            array: rename_value(array, off),
            index: rename_value(index, off),
        },
        IRInstruction::IndexStore { array, index, value } => IRInstruction::IndexStore {
            array: rename_value(array, off),
            index: rename_value(index, off),
            value: rename_value(value, off),
        },
        IRInstruction::Branch { condition, true_block, false_block } => IRInstruction::Branch {
            condition: rename_value(condition, off),
            true_block: *true_block,
            false_block: *false_block,
        },
        IRInstruction::Return { value } => IRInstruction::Return {
            value: match value {
                Option::Some(v) => Option::Some(rename_value(v, off)),
                Option::None => Option::None,
            },
        },
        IRInstruction::Call { result, function, args } => {
            let ghost av = view_value_seq(args@);
            let mut renamed: Vec<IRValue> = Vec::new();
            let n = args.len();
            let mut k: usize = 0;
            while k < n
                invariant
                    k <= n,
                    n == args@.len(),
                    av == view_value_seq(args@),
                    spec_values_temp_bound(av) + off <= usize::MAX,
                    renamed@.len() == k,
                    forall|x: int|
                        0 <= x < k ==> (#[trigger] renamed@[x])@ == spec_rename_value(av[x], off),
                decreases n - k,
            {
                proof {
                    lemma_values_bound_at(av, k as int);
                }
                renamed.push(rename_value(&args[k], off));
                k += 1;
            }
            let out = IRInstruction::Call {
                result: rename_value(result, off),
                function: function.clone(),
                args: renamed,
            };
            proof {
                assert(out@ =~~= spec_rename_instr(inst@, off));
            }
            out
        },
        IRInstruction::LoopStart { iterator, body_block, exit_block } => {
            IRInstruction::LoopStart {
                iterator: rename_value(iterator, off),
                body_block: *body_block,
                exit_block: *exit_block,
            }
        },
        IRInstruction::Jump { target } => IRInstruction::Jump { target: *target },
        IRInstruction::LoopEnd => IRInstruction::LoopEnd,
        IRInstruction::Vectorizable => IRInstruction::Vectorizable,
        IRInstruction::Parallelizable => IRInstruction::Parallelizable,
        IRInstruction::CanElideCheck => IRInstruction::CanElideCheck,
        IRInstruction::Pure => IRInstruction::Pure,
    }
}

/// Every operand's bound is at most its list's bound.
proof fn lemma_values_bound_at(vs: Seq<IRValueV>, k: int)
    requires
        0 <= k < vs.len(),
    ensures
        spec_value_temp_bound(vs[k]) <= spec_values_temp_bound(vs),
    decreases vs.len(),
{
    if k > 0 {
        assert(vs.drop_first()[k - 1] == vs[k]);
        lemma_values_bound_at(vs.drop_first(), k - 1);
    }
}

/// Checks whether block `b` ends in an unrollable loop; on success returns
/// the body block's index, the trip count, and the exit id.
fn unroll_cand_exec(function: &IRFunction, b: usize, threshold: usize) -> (res: Option<
    (usize, usize, i64, usize),
>)
    requires
        (b as int) < function@.blocks.len(),
    ensures
        match res {
            Option::Some(parts) => {
                &&& spec_unroll_cand_at(function@, b as int, threshold)
                &&& (parts.0 as int) < function@.blocks.len()
                &&& parts.1 <= threshold
                &&& parts.2 >= 0
                &&& parts.1 as int == parts.2 as int
                &&& (parts.1 >= 2 ==> spec_fn_temp_bound(function@.blocks) + (parts.1 - 1)
                    * spec_instrs_temp_bound(
                    function@.blocks[parts.0 as int].instructions.drop_last(),
                ) <= usize::MAX)
                &&& {
                    let last = function@.blocks[b as int].instructions.last();
                    match spec_loopstart_parts(last) {
                        Option::Some(lp) => {
                            &&& lp.0 == IRValueV::Const(IRConstantV::Int(parts.2))
                            &&& spec_find_block(function@.blocks, lp.1) == Option::Some(
                                parts.0 as int,
                            )
                            &&& lp.2 == parts.3
                        },
                        Option::None => false,
                    }
                }
            },
            Option::None => !spec_unroll_cand_at(function@, b as int, threshold),
        },
{
    let m = function.blocks[b].instructions.len();
    if m == 0 {
        return None;
    }
    match &function.blocks[b].instructions[m - 1] {
        IRInstruction::LoopStart {
            iterator: IRValue::Const(IRConstant::Int(n)),
            body_block,
            exit_block,
        } => {
            let trip = *n;
            let body_id = *body_block;
            let exit_id = *exit_block;
            if trip < 0 {
                return None;
            }
            if (trip as u128) > (threshold as u128) {
                return None;
            }
            let trip_us = trip as usize;
            proof {
                assert(trip_us as int == trip as int);
            }
            // locate the body block by id
            let nb = function.blocks.len();
            let mut j: usize = 0;
            while j < nb
                invariant
                    j <= nb,
                    nb == function.blocks@.len(),
                    (b as int) < function@.blocks.len(),
                    function@.blocks[b as int].instructions.len() == m,
                    m >= 1,
                    spec_loopstart_parts(function@.blocks[b as int].instructions.last())
                        == Option::Some(
                        (
                            IRValueV::Const(IRConstantV::Int(trip)),
                            body_id,
                            exit_id,
                        ),
                    ),
                    0 <= trip,
                    trip_us as int == trip as int,
                    trip_us <= threshold,
                    forall|k: int| 0 <= k < j ==> function@.blocks[k].id != body_id,
                decreases nb - j,
            {
                if function.blocks[j].id == body_id {
                    proof {
                        lemma_find_block_at(function@.blocks, body_id, j as int);
                    }
                    if j == b {
                        return None;
                    }
                    let body = &function.blocks[j];
                    let bm = body.instructions.len();
                    if bm == 0 {
                        return None;
                    }
                    if !matches!(&body.instructions[bm - 1], IRInstruction::LoopEnd) {
                        return None;
                    }
                    let mut k: usize = 0;
                    while k < bm - 1
                        invariant
                            k <= bm - 1,
                            bm >= 1,
                            (j as int) < function@.blocks.len(),
                            (b as int) < function@.blocks.len(),
                            j != b,
                            body == &function.blocks[j as int],
                            bm == body.instructions@.len(),
                            function@.blocks[b as int].instructions.len() == m,
                            m >= 1,
                            spec_loopstart_parts(function@.blocks[b as int].instructions.last())
                                == Option::Some(
                                (
                                    IRValueV::Const(IRConstantV::Int(trip)),
                                    body_id,
                                    exit_id,
                                ),
                            ),
                            0 <= trip,
                            trip_us as int == trip as int,
                            trip_us <= threshold,
                            spec_find_block(function@.blocks, body_id) == Option::Some(j as int),
                            body@.instructions.last() == IRInstructionV::LoopEnd,
                            forall|x: int|
                                0 <= x < k ==> !spec_is_control(#[trigger] body@.instructions[x]),
                        decreases bm - 1 - k,
                    {
                        let is_control = matches!(
                            &body.instructions[k],
                            IRInstruction::Branch { .. } | IRInstruction::Jump { .. }
                                | IRInstruction::Return { .. } | IRInstruction::LoopStart { .. }
                                | IRInstruction::LoopEnd
                        );
                        proof {
                            assert(is_control == spec_is_control(body@.instructions[k as int]));
                        }
                        if is_control {
                            return None;
                        }
                        k += 1;
                    }
                    // headroom for the temporary renaming of copies past
                    // the first
                    if trip_us >= 2 {
                        let base = fn_temp_bound(&function.blocks);
                        let span = instrs_temp_bound_prefix(&body.instructions, bm - 1);
                        proof {
                            assert(view_instr_seq(body.instructions@).subrange(0, bm - 1 as int)
                                =~= body@.instructions.drop_last());
                        }
                        match span.checked_mul(trip_us - 1) {
                            Option::Some(p) => {
                                if base.checked_add(p).is_none() {
                                    proof {
                                        assert(base + (trip - 1) * span > usize::MAX)
                                            by (nonlinear_arith)
                                            requires
                                                base + span * (trip_us - 1) > usize::MAX,
                                                trip_us as int == trip as int,
                                                trip_us >= 2,
                                        ;
                                    }
                                    return None;
                                }
                                proof {
                                    assert(base + (trip_us - 1) * span <= usize::MAX)
                                        by (nonlinear_arith)
                                        requires
                                            base + span * (trip_us - 1) <= usize::MAX,
                                            trip_us >= 2,
                                    ;
                                }
                            },
                            Option::None => {
                                proof {
                                    assert(base + (trip - 1) * span > usize::MAX)
                                        by (nonlinear_arith)
                                        requires
                                            span * (trip_us - 1) > usize::MAX,
                                            trip_us as int == trip as int,
                                            trip_us >= 2,
                                            base >= 0,
                                    ;
                                }
                                return None;
                            },
                        }
                        proof {
                            assert(spec_fn_temp_bound(function@.blocks) + (trip_us - 1)
                                * spec_instrs_temp_bound(
                                function@.blocks[j as int].instructions.drop_last(),
                            ) <= usize::MAX);
                        }
                    }
                    proof {
                        assert(trip >= 0);
                        assert(trip_us as int == trip as int);
                        assert(trip_us <= threshold);
                        assert(spec_unroll_cand_at(function@, b as int, threshold));
                    }
                    return Some((j, trip_us, trip, exit_id));
                }
                j += 1;
            }
            proof {
                lemma_find_block_none(function@.blocks, body_id);
            }
            None
        },
        _ => None,
    }
}

impl IROptimizer {
    /// Unrolls the first loop with a constant trip count of at most
    /// `unroll_threshold`: the loop header falls through to the exit with
    /// the trip count's many copies of the body spliced in — the first
    /// copy keeps its temporaries (the body block is emptied), each later
    /// copy's temporaries renamed into a fresh disjoint range — and loops
    /// the pass cannot prove safe to unroll are left unchanged.
    pub fn loop_unrolling(&self, function: &mut IRFunction)
        ensures
            final(function)@ == spec_unroll_fn(old(function)@, self.unroll_threshold),
    {
        let threshold = self.unroll_threshold;
        let n = function.blocks.len();
        let mut b: usize = 0;
        while b < n
            invariant
                b <= n,
                n == function.blocks@.len(),
                *function == *old(function),
                threshold == self.unroll_threshold,
                spec_first_unroll_cand(function@, 0, threshold) == spec_first_unroll_cand(
                    function@,
                    b as int,
                    threshold,
                ),
            decreases n - b,
        {
            match unroll_cand_exec(function, b, threshold) {
                Option::Some((j, trip, trip64, exit_id)) => {
                    let m = function.blocks[b].instructions.len();
                    let mut spliced = clone_instr_range(&function.blocks[b].instructions, 0, m - 1);
                    let ghost headv = view_instr_seq(spliced@);
                    let bm = function.blocks[j].instructions.len();
                    let core = clone_instr_range(&function.blocks[j].instructions, 0, bm - 1);
                    let ghost corev = view_instr_seq(core@);
                    let base = fn_temp_bound(&function.blocks);
                    let span = instrs_temp_bound_prefix(&core, core.len());
                    proof {
                        assert(corev =~= function@.blocks[j as int].instructions.drop_last());
                        assert(view_instr_seq(core@).subrange(0, core@.len() as int) =~= corev);
                        assert(span == spec_instrs_temp_bound(corev));
                        assert(base == spec_fn_temp_bound(function@.blocks));
                        assert(trip >= 2 ==> base + (trip - 1) * span <= usize::MAX);
                        assert(spec_unroll_prefix(corev, 0nat, base, span) =~= Seq::<
                            IRInstructionV,
                        >::empty());
                        assert(headv + Seq::<IRInstructionV>::empty() =~= headv);
                    }
                    let mut i: usize = 0;
                    while i < trip
                        invariant
                            i <= trip,
                            base == spec_fn_temp_bound(function@.blocks),
                            span == spec_instrs_temp_bound(corev),
                            corev == view_instr_seq(core@),
                            core@.len() == corev.len(),
                            trip >= 2 ==> base + (trip - 1) * span <= usize::MAX,
                            view_instr_seq(spliced@) == headv + spec_unroll_prefix(
                                corev,
                                i as nat,
                                base,
                                span,
                            ),
                        decreases trip - i,
                    {
                        let ghost copy = spec_unroll_copy(corev, i as int, base, span);
                        let ghost pre_all = view_instr_seq(spliced@);
                        if i == 0 {
                            let cl = core.len();
                            let mut k: usize = 0;
                            while k < cl
                                invariant
                                    k <= cl,
                                    cl == core@.len(),
                                    corev == view_instr_seq(core@),
                                    view_instr_seq(spliced@) == pre_all + corev.take(k as int),
                                decreases cl - k,
                            {
                                let ghost pre = view_instr_seq(spliced@);
                                spliced.push(core[k].clone());
                                proof {
                                    assert(view_instr_seq(spliced@) =~= pre.push(
                                        corev[k as int],
                                    ));
                                    assert(pre.push(corev[k as int]) =~= pre_all + corev.take(
                                        k + 1 as int,
                                    ));
                                }
                                k += 1;
                            }
                            proof {
                                assert(corev.take(cl as int) =~= corev);
                                assert(copy == corev);
                            }
                        } else {
                            proof {
                                assert(base + (i - 1) * span <= usize::MAX) by (nonlinear_arith)
                                    requires
                                        1 <= i < trip,
                                        span >= 0,
                                        base >= 0,
                                        base + (trip - 1) * span <= usize::MAX,
                                ;
                            }
                            let off = base + (i - 1) * span;
                            let cl = core.len();
                            let mut k: usize = 0;
                            while k < cl
                                invariant
                                    k <= cl,
                                    cl == core@.len(),
                                    corev == view_instr_seq(core@),
                                    span == spec_instrs_temp_bound(corev),
                                    off == base + (i - 1) * span,
                                    base + (trip - 1) * span <= usize::MAX,
                                    1 <= i < trip,
                                    view_instr_seq(spliced@) == pre_all + spec_rename_instrs(
                                        corev,
                                        off,
                                    ).take(k as int),
                                decreases cl - k,
                            {
                                proof {
                                    lemma_instrs_bound_at(corev, k as int);
                                    assert(spec_instr_temp_bound(corev[k as int]) + off
                                        <= usize::MAX) by (nonlinear_arith)
                                        requires
                                            spec_instr_temp_bound(corev[k as int]) <= span,
                                            off == base + (i - 1) * span,
                                            1 <= i < trip,
                                            span >= 0,
                                            base >= 0,
                                            base + (trip - 1) * span <= usize::MAX,
                                    ;
                                }
                                let ghost pre = view_instr_seq(spliced@);
                                let renamed = rename_instr(&core[k], off);
                                spliced.push(renamed);
                                proof {
                                    assert(view_instr_seq(spliced@) =~= pre.push(
                                        spec_rename_instr(corev[k as int], off),
                                    ));
                                    assert(pre.push(spec_rename_instr(corev[k as int], off)) =~=
                                    pre_all + spec_rename_instrs(corev, off).take(k + 1 as int));
                                }
                                k += 1;
                            }
                            proof {
                                assert(spec_rename_instrs(corev, off).take(cl as int) =~=
                                spec_rename_instrs(corev, off));
                                assert(copy == spec_rename_instrs(corev, off));
                            }
                        }
                        proof {
                            assert(view_instr_seq(spliced@) =~= headv + spec_unroll_prefix(
                                corev,
                                (i + 1) as nat,
                                base,
                                span,
                            ));
                        }
                        i += 1;
                    }
                    let mut new_blocks: Vec<BasicBlock> = Vec::new();
                    let mut k: usize = 0;
                    let ghost target = spec_unroll_apply(function@, b as int, threshold);
                    proof {
                        let f = function@;
                        let insb = f.blocks[b as int].instructions;
                        assert(insb.subrange(0, insb.len() - 1) =~= insb.drop_last());
                        assert(trip64 as nat == trip as nat);
                        assert(view_instr_seq(spliced@) == target.blocks[b as int].instructions);
                        assert(spec_first_unroll_cand(f, b as int, threshold) == Option::Some(
                            b as int,
                        ));
                    }
                    while k < n
                        invariant
                            k <= n,
                            n == function.blocks@.len(),
                            *function == *old(function),
                            b < n,
                            j < n,
                            threshold == self.unroll_threshold,
                            target == spec_unroll_apply(function@, b as int, threshold),
                            target.blocks.len() == n,
                            new_blocks@.len() == k,
                            forall|x: int|
                                0 <= x < k ==> (#[trigger] new_blocks@[x])@ == target.blocks[x],
                            view_instr_seq(spliced@) == target.blocks[b as int].instructions,
                            exit_id == target.blocks[b as int].successors[0]
                                && target.blocks[b as int].successors.len() == 1,
                            target.blocks[j as int].instructions.len() == 0,
                            target.blocks[j as int].successors.len() == 0,
                            forall|x: int|
                                0 <= x < n && x != b && x != j ==> target.blocks[x]
                                    == function@.blocks[x],
                            target.blocks[b as int].id == function@.blocks[b as int].id,
                            target.blocks[j as int].id == function@.blocks[j as int].id,
                        decreases n - k,
                    {
                        if k == b {
                            let spliced_now = crate::ir::clone_instr_vec(&spliced);
                            let mut succ: Vec<usize> = Vec::new();
                            succ.push(exit_id);
                            new_blocks.push(
                                BasicBlock {
                                    id: function.blocks[k].id,
                                    instructions: spliced_now,
                                    successors: succ,
                                },
                            );
                            proof {
                                assert(new_blocks@.last()@ =~~= target.blocks[k as int]);
                            }
                        } else if k == j {
                            new_blocks.push(
                                BasicBlock {
                                    id: function.blocks[k].id,
                                    instructions: Vec::new(),
                                    successors: Vec::new(),
                                },
                            );
                            proof {
                                assert(view_instr_seq(Seq::<IRInstruction>::empty()) =~= Seq::<
                                    IRInstructionV,
                                >::empty());
                                assert(new_blocks@.last()@ =~~= target.blocks[k as int]);
                            }
                        } else {
                            let blk = &function.blocks[k];
                            new_blocks.push(
                                BasicBlock {
                                    id: blk.id,
                                    instructions: crate::ir::clone_instr_vec(&blk.instructions),
                                    successors: clone_usize_vec(&blk.successors),
                                },
                            );
                            proof {
                                assert(new_blocks@.last()@ =~~= target.blocks[k as int]);
                            }
                        }
                        k += 1;
                    }
                    function.blocks = new_blocks;
                    proof {
                        assert(function@.blocks =~~= target.blocks);
                        assert(function@ =~~= spec_unroll_fn(old(function)@, threshold));
                    }
                    return ;
                },
                Option::None => {
                    b += 1;
                },
            }
        }
    }
}

/// Inlining never changes whether a function is a constant-returning
/// callee, nor which constant it returns.
proof fn lemma_inline_entry_preserved(fns: Seq<IRFunctionV>, f: IRFunctionV)
    ensures
        spec_inline_entry(spec_inline_fn(fns, f)) == spec_inline_entry(f),
{
    let f2 = spec_inline_fn(fns, f);
    if f.blocks.len() == 1 && f.blocks[0].instructions.len() == 1 {
        assert(f2.blocks[0].instructions[0] == spec_inline_instr(fns, f.blocks[0].instructions[0]));
    }
}

/// Lookup in the inline table depends only on the entries, so a module
/// whose functions were themselves inlined answers as the snapshot does.
proof fn lemma_inline_lookup_entrywise(
    f1: Seq<IRFunctionV>,
    f2: Seq<IRFunctionV>,
    i: int,
    name: Seq<char>,
)
    requires
        f1.len() == f2.len(),
        forall|k: int|
            0 <= k < f1.len() ==> spec_inline_entry(#[trigger] f2[k]) == spec_inline_entry(f1[k]),
    ensures
        spec_inline_lookup(f2, i, name) == spec_inline_lookup(f1, i, name),
    decreases f1.len() - i,
{
    if 0 <= i < f1.len() {
        lemma_inline_lookup_entrywise(f1, f2, i + 1, name);
    }
}

/// Looks up the constant returned by the function named `name`, if that
/// function's whole body is a single constant return.
fn inline_lookup_exec(functions: &Vec<IRFunction>, name: &String) -> (res: Option<IRConstant>)
    ensures
        match res {
            Option::Some(c) => spec_inline_lookup(view_irfn_seq(functions@), 0, name@)
                == Option::Some(c@),
            Option::None => spec_inline_lookup(view_irfn_seq(functions@), 0, name@) is None,
        },
{
    let n = functions.len();
    let mut i: usize = 0;
    while i < n
        invariant
            i <= n,
            n == functions@.len(),
            spec_inline_lookup(view_irfn_seq(functions@), 0, name@) == spec_inline_lookup(
                view_irfn_seq(functions@),
                i as int,
                name@,
            ),
        decreases n - i,
    {
        let f = &functions[i];
        let ghost fv = view_irfn_seq(functions@)[i as int];
        if f.blocks.len() == 1 {
            if f.blocks[0].instructions.len() == 1 {
                match &f.blocks[0].instructions[0] {
                    IRInstruction::Return { value: Some(IRValue::Const(c)) } => {
                        proof {
                            assert(spec_inline_entry(fv) == Option::Some((f.name@, c@)));
                        }
                        if crate::text::str_eq(f.name.as_str(), name.as_str()) {
                            return Some(c.clone());
                        }
                    },
                    _ => {
                        proof {
                            assert(spec_inline_entry(fv) is None);
                        }
                    },
                }
            } else {
                proof {
                    assert(spec_inline_entry(fv) is None);
                }
            }
        } else {
            proof {
                assert(spec_inline_entry(fv) is None);
            }
        }
        i += 1;
    }
    None
}

impl IROptimizer {
    /// Substitutes calls to small pure callees: a call to a function whose
    /// whole body is a single constant return becomes a direct assignment
    /// of that constant. Only such callees are inlined — they have no side
    /// effects, so observable ordering and effect counts are kept exactly.
    pub fn inline_small_functions(&self, module: &mut IRModule)
        ensures
            final(module)@.globals == old(module)@.globals,
            final(module)@.hot_functions == old(module)@.hot_functions,
            final(module)@.functions.len() == old(module)@.functions.len(),
            forall|k: int|
                0 <= k < old(module)@.functions.len() ==> final(module)@.functions[k]
                    == spec_inline_fn(
                    old(module)@.functions,
                    #[trigger] old(module)@.functions[k],
                ),
    {
        let nf = module.functions.len();
        let mut idx: usize = 0;
        while idx < nf
            invariant
                idx <= nf,
                nf == module.functions@.len(),
                module@.globals == old(module)@.globals,
                module@.hot_functions == old(module)@.hot_functions,
                old(module)@.functions.len() == nf,
                forall|k: int|
                    idx <= k < nf ==> module@.functions[k] == old(module)@.functions[k],
                forall|k: int|
                    0 <= k < idx ==> module@.functions[k] == spec_inline_fn(
                        old(module)@.functions,
                        #[trigger] old(module)@.functions[k],
                    ),
            decreases nf - idx,
        {
            proof {
                assert forall|k: int| 0 <= k < nf implies spec_inline_entry(
                    #[trigger] module@.functions[k],
                ) == spec_inline_entry(old(module)@.functions[k]) by {
                    if k < idx {
                        lemma_inline_entry_preserved(
                            old(module)@.functions,
                            old(module)@.functions[k],
                        );
                    }
                }
            }
            let ghost snapshot = old(module)@.functions;
            let ghost cur = module@.functions;
            let mut new_blocks: Vec<BasicBlock> = Vec::new();
            let nb = module.functions[idx].blocks.len();
            let mut b: usize = 0;
            while b < nb
                invariant
                    b <= nb,
                    idx < nf,
                    nf == module.functions@.len(),
                    cur == module@.functions,
                    nb == module.functions@[idx as int].blocks@.len(),
                    forall|k: int|
                        0 <= k < nf ==> spec_inline_entry(#[trigger] cur[k]) == spec_inline_entry(
                            snapshot[k],
                        ),
                    snapshot.len() == nf,
                    new_blocks@.len() == b,
                    forall|k: int|
                        0 <= k < b ==> (#[trigger] new_blocks@[k])@ == spec_inline_block(
                            snapshot,
                            cur[idx as int].blocks[k],
                        ),
                decreases nb - b,
            {
                let m = module.functions[idx].blocks[b].instructions.len();
                let mut instrs: Vec<IRInstruction> = Vec::new();
                let mut i: usize = 0;
                while i < m
                    invariant
                        i <= m,
                        b < nb,
                        idx < nf,
                        nf == module.functions@.len(),
                        cur == module@.functions,
                        nb == module.functions@[idx as int].blocks@.len(),
                        m == module.functions@[idx as int].blocks@[b as int].instructions@.len(),
                        forall|k: int|
                            0 <= k < nf ==> spec_inline_entry(#[trigger] cur[k])
                                == spec_inline_entry(snapshot[k]),
                        snapshot.len() == nf,
                        instrs@.len() == i,
                        forall|k: int|
                            0 <= k < i ==> (#[trigger] instrs@[k])@ == spec_inline_instr(
                                snapshot,
                                cur[idx as int].blocks[b as int].instructions[k],
                            ),
                    decreases m - i,
                {
                    let inst = &module.functions[idx].blocks[b].instructions[i];
                    match inst {
                        IRInstruction::Call { result, function: fname, args } => {
                            match inline_lookup_exec(&module.functions, fname) {
                                Option::Some(c) => {
                                    proof {
                                        lemma_inline_lookup_entrywise(snapshot, cur, 0, fname@);
                                    }
                                    instrs.push(
                                        IRInstruction::Assign {
                                            target: result.clone(),
                                            value: IRValue::Const(c),
                                        },
                                    );
                                },
                                Option::None => {
                                    proof {
                                        lemma_inline_lookup_entrywise(snapshot, cur, 0, fname@);
                                    }
                                    instrs.push(inst.clone());
                                },
                            }
                        },
                        _ => {
                            instrs.push(inst.clone());
                        },
                    }
                    i += 1;
                }
                let blk = &module.functions[idx].blocks[b];
                new_blocks.push(
                    BasicBlock {
                        id: blk.id,
                        instructions: instrs,
                        successors: clone_usize_vec(&blk.successors),
                    },
                );
                proof {
                    assert(new_blocks@.last()@ =~~= spec_inline_block(
                        snapshot,
                        cur[idx as int].blocks[b as int],
                    ));
                }
                b += 1;
            }
            let src = &module.functions[idx];
            let newfn = IRFunction {
                name: src.name.clone(),
                params: crate::ir::clone_irparam_vec(&src.params),
                return_type: src.return_type.clone(),
                blocks: new_blocks,
                directives: src.directives,
                optimization_level: src.optimization_level,
            };
            proof {
                assert(newfn@ =~~= spec_inline_fn(snapshot, cur[idx as int]));
                assert(cur[idx as int] == old(module)@.functions[idx as int]);
            }
            module.functions[idx] = newfn;
            idx += 1;
        }
    }
}

/// Dead-code elimination keeps the control-flow structure: the block
/// count, every block's id, and every successor list.
pub proof fn lemma_dce_fn_structure(f: IRFunctionV)
    ensures
        spec_dce_fn(f).blocks.len() == f.blocks.len(),
        forall|b: int|
            0 <= b < f.blocks.len() ==> (#[trigger] spec_dce_fn(f).blocks[b]).id == f.blocks[b].id
                && spec_dce_fn(f).blocks[b].successors == f.blocks[b].successors,
    decreases spec_count_instructions(f),
{
    lemma_dce_step_count(f);
    lemma_count_prefix_nonneg(spec_dce_step(f).blocks, spec_dce_step(f).blocks.len() as int);
    if spec_dce_step(f) != f {
        lemma_dce_fn_structure(spec_dce_step(f));
    }
}

/// The block-wise rewrite passes and the detectors preserve the IR
/// invariants of the data model: the block count, every block id, and
/// every successor list are unchanged, so every referenced block id that
/// existed still exists and the entry block stays block 0. Only unrolling
/// rewires, and its contract pins exactly which two blocks change.
pub proof fn lemma_passes_preserve_structure(f: IRFunctionV)
    ensures
        spec_dce_fn(f).blocks.len() == f.blocks.len(),
        spec_fold_fn(f).blocks.len() == f.blocks.len(),
        spec_bce_fn(f).blocks.len() == f.blocks.len(),
        spec_cse_fn(f).blocks.len() == f.blocks.len(),
        spec_simd_fn(f).blocks.len() == f.blocks.len(),
        spec_parallel_fn(f).blocks.len() == f.blocks.len(),
        forall|b: int|
            0 <= b < f.blocks.len() ==> (#[trigger] spec_dce_fn(f).blocks[b]).id == f.blocks[b].id
                && spec_dce_fn(f).blocks[b].successors == f.blocks[b].successors,
        forall|b: int|
            0 <= b < f.blocks.len() ==> (#[trigger] spec_fold_fn(f).blocks[b]).id == f.blocks[
                b
            ].id && spec_fold_fn(f).blocks[b].successors == f.blocks[b].successors,
        forall|b: int|
            0 <= b < f.blocks.len() ==> (#[trigger] spec_bce_fn(f).blocks[b]).id == f.blocks[b].id
                && spec_bce_fn(f).blocks[b].successors == f.blocks[b].successors,
        forall|b: int|
            0 <= b < f.blocks.len() ==> (#[trigger] spec_cse_fn(f).blocks[b]).id == f.blocks[b].id
                && spec_cse_fn(f).blocks[b].successors == f.blocks[b].successors,
        forall|b: int|
            0 <= b < f.blocks.len() ==> (#[trigger] spec_simd_fn(f).blocks[b]).id == f.blocks[
                b
            ].id && spec_simd_fn(f).blocks[b].successors == f.blocks[b].successors,
        forall|b: int|
            0 <= b < f.blocks.len() ==> (#[trigger] spec_parallel_fn(f).blocks[b]).id == f.blocks[
                b
            ].id && spec_parallel_fn(f).blocks[b].successors == f.blocks[b].successors,
{
    lemma_dce_fn_structure(f);
    lemma_cse_fn_structure(f);
}

/// CSE keeps the control-flow structure block by block.
proof fn lemma_cse_fn_structure(f: IRFunctionV)
    ensures
        spec_cse_fn(f).blocks.len() == f.blocks.len(),
        forall|b: int|
            0 <= b < f.blocks.len() ==> (#[trigger] spec_cse_fn(f).blocks[b]).id == f.blocks[b].id
                && spec_cse_fn(f).blocks[b].successors == f.blocks[b].successors,
{
    assert forall|b: int| 0 <= b < f.blocks.len() implies (#[trigger] spec_cse_fn(f).blocks[b]).id
        == f.blocks[b].id && spec_cse_fn(f).blocks[b].successors == f.blocks[b].successors by {
        assert(spec_cse_fn(f).blocks[b] == spec_cse_block(f.blocks[b]));
    }
}

/// The saturated instruction count, as the fixed-point driver compares it.
pub open spec fn spec_sat_count(f: IRFunctionV) -> int {
    if spec_count_instructions(f) <= usize::MAX {
        spec_count_instructions(f)
    } else {
        usize::MAX as int
    }
}

/// Whether the function's level asks for the aggressive passes.
pub open spec fn spec_is_aggressive(f: IRFunctionV) -> bool {
    f.optimization_level == OptimizationLevel::Aggressive || f.optimization_level
        == OptimizationLevel::Extreme
}

/// One full round of the per-function pipeline: dead-code elimination,
/// constant folding, bounds-check elimination, common-subexpression
/// elimination, and — at aggressive levels — loop unrolling.
pub open spec fn spec_opt_round(f: IRFunctionV, threshold: usize) -> IRFunctionV {
    let f4 = spec_cse_fn(spec_bce_fn(spec_fold_fn(spec_dce_fn(f))));
    if spec_is_aggressive(f4) {
        spec_unroll_fn(f4, threshold)
    } else {
        f4
    }
}

/// Rounds repeated until one changes nothing — a genuine fixed point, not
/// a mere count check — with a fuel bound guaranteeing termination.
pub open spec fn spec_opt_iter(f: IRFunctionV, fuel: nat, threshold: usize) -> IRFunctionV
    decreases fuel,
{
    if fuel == 0 {
        f
    } else {
        let f2 = spec_opt_round(f, threshold);
        if f2 == f {
            f2
        } else {
            spec_opt_iter(f2, (fuel - 1) as nat, threshold)
        }
    }
}

/// Dead-code elimination rewrites blocks only; every other field of the
/// function is kept.
proof fn lemma_dce_fn_fields(f: IRFunctionV)
    ensures
        spec_dce_fn(f).name == f.name,
        spec_dce_fn(f).params == f.params,
        spec_dce_fn(f).return_type == f.return_type,
        spec_dce_fn(f).directives == f.directives,
        spec_dce_fn(f).optimization_level == f.optimization_level,
    decreases spec_count_instructions(f),
{
    lemma_dce_step_count(f);
    lemma_count_prefix_nonneg(spec_dce_step(f).blocks, spec_dce_step(f).blocks.len() as int);
    if spec_dce_step(f) != f {
        lemma_dce_fn_fields(spec_dce_step(f));
    }
}

/// The fuel the driver starts with: two more than the instruction count.
pub open spec fn spec_opt_fuel(f: IRFunctionV) -> nat {
    if spec_sat_count(f) > usize::MAX - 2 {
        usize::MAX as nat
    } else {
        (spec_sat_count(f) + 2) as nat
    }
}

/// The whole per-function pipeline: the fixed-point rounds, then one round
/// of vectorization and parallelization detection.
pub open spec fn spec_optimize_function(f: IRFunctionV, threshold: usize) -> IRFunctionV {
    spec_parallel_fn(spec_simd_fn(spec_opt_iter(f, spec_opt_fuel(f), threshold)))
}

/// What optimizing a whole module yields: small pure callees inlined
/// against the module snapshot, then every function driven to its fixed
/// point; globals and the profiled hot names are untouched.
pub open spec fn spec_optimize_module(m: IRModuleV, threshold: usize) -> IRModuleV {
    IRModuleV {
        functions: Seq::new(
            m.functions.len(),
            |k: int| spec_optimize_function(
                spec_inline_fn(m.functions, m.functions[k]),
                threshold,
            ),
        ),
        ..m
    }
}

impl IROptimizer {
    /// Optimizes one function until a full round of the rewrite passes
    /// changes nothing, then runs the vectorization and parallelization
    /// detectors once.
    pub fn optimize_function(&self, function: &mut IRFunction)
        ensures
            final(function)@ == spec_optimize_function(old(function)@, self.unroll_threshold),
    {
        let threshold = self.unroll_threshold;
        let c = self.count_instructions(function);
        let mut fuel: usize = if c > usize::MAX - 2 {
            usize::MAX
        } else {
            c + 2
        };
        proof {
            assert(fuel as nat == spec_opt_fuel(function@));
        }
        while fuel > 0
            invariant
                threshold == self.unroll_threshold,
                spec_opt_iter(function@, fuel as nat, threshold) == spec_opt_iter(
                    old(function)@,
                    spec_opt_fuel(old(function)@),
                    threshold,
                ),
            decreases fuel,
        {
            let pre_blocks = crate::ir::clone_block_vec(&function.blocks);
            let ghost fpre = function@;
            let ghost fuel_pre = fuel as nat;
            self.dead_code_elimination(function);
            self.constant_folding(function);
            self.bounds_check_elimination(function);
            self.common_subexpression_elimination(function);
            let aggressive = matches!(
                function.optimization_level,
                OptimizationLevel::Aggressive | OptimizationLevel::Extreme
            );
            proof {
                assert(aggressive == spec_is_aggressive(function@));
            }
            if aggressive {
                self.loop_unrolling(function);
            }
            proof {
                assert(function@ == spec_opt_round(fpre, threshold));
            }
            let same = crate::ir::ir_blocks_eq(&pre_blocks, &function.blocks);
            proof {
                lemma_dce_fn_fields(fpre);
                if function@.blocks == fpre.blocks {
                    assert(function@ =~~= fpre);
                }
                assert(same == (spec_opt_round(fpre, threshold) == fpre));
            }
            if same {
                proof {
                    assert(spec_opt_iter(fpre, fuel_pre, threshold) == function@);
                }
                fuel = 0;
            } else {
                fuel = fuel - 1;
                proof {
                    assert(spec_opt_iter(fpre, fuel_pre, threshold) == spec_opt_iter(
                        function@,
                        (fuel_pre - 1) as nat,
                        threshold,
                    ));
                }
            }
        }
        self.detect_simd_opportunities(function);
        self.detect_parallel_opportunities(function);
    }

    /// Optimizes a whole module: small pure callees are inlined against a
    /// snapshot of the module, then every function is driven to its fixed
    /// point independently.
    pub fn optimize(&mut self, module: &mut IRModule)
        ensures
            *final(self) == *old(self),
            final(module)@ == spec_optimize_module(old(module)@, old(self).unroll_threshold),
            final(module)@.globals == old(module)@.globals,
            final(module)@.hot_functions == old(module)@.hot_functions,
            final(module)@.functions.len() == old(module)@.functions.len(),
            forall|k: int|
                0 <= k < old(module)@.functions.len() ==> final(module)@.functions[k]
                    == spec_optimize_function(
                    spec_inline_fn(old(module)@.functions, #[trigger] old(module)@.functions[k]),
                    old(self).unroll_threshold,
                ),
    {
        self.inline_small_functions(module);
        let ghost mid = module@.functions;
        let mut newfns: Vec<IRFunction> = Vec::new();
        while module.functions.len() > 0
            invariant
                newfns@.len() + module.functions@.len() == mid.len(),
                module@.globals == old(module)@.globals,
                module@.hot_functions == old(module)@.hot_functions,
                *self == *old(self),
                forall|k: int|
                    0 <= k < newfns@.len() ==> (#[trigger] newfns@[k])@ == spec_optimize_function(
                        mid[k],
                        old(self).unroll_threshold,
                    ),
                forall|k: int|
                    0 <= k < module.functions@.len() ==> (#[trigger] module.functions@[k])@ == mid[
                        newfns@.len() + k
                    ],
            decreases module.functions@.len(),
        {
            let mut f = module.functions.remove(0);
            proof {
                assert(f@ == mid[newfns@.len() as int]);
            }
            self.optimize_function(&mut f);
            newfns.push(f);
        }
        module.functions = newfns;
        proof {
            assert(module@.functions =~~= Seq::new(
                mid.len(),
                |k: int| spec_optimize_function(mid[k], old(self).unroll_threshold),
            ));
            assert forall|k: int| 0 <= k < old(module)@.functions.len() implies module@.functions[k]
                == spec_optimize_function(
                spec_inline_fn(old(module)@.functions, #[trigger] old(module)@.functions[k]),
                old(self).unroll_threshold,
            ) by {
                assert(mid[k] == spec_inline_fn(old(module)@.functions, old(module)@.functions[k]));
            }
            assert(module@.functions =~= spec_optimize_module(
                old(module)@,
                old(self).unroll_threshold,
            ).functions);
            assert(module@ =~~= spec_optimize_module(old(module)@, old(self).unroll_threshold));
        }
    }
}

/// What an operand evaluates to under an environment mapping locals and
/// temporaries to constants; an unbound name is stuck.
pub open spec fn spec_eval_operand(
    env: Map<IRValueV, IRConstantV>,
    v: IRValueV,
) -> Option<IRConstantV> {
    match v {
        IRValueV::Const(c) => Option::Some(c),
        _ => if env.contains_key(v) {
            Option::Some(env[v])
        } else {
            Option::None
        },
    }
}

/// One straight-line step: a binary operation binds its folded value, an
/// assignment copies a value; anything else — or any operation the folding
/// rules refuse — is stuck.
pub open spec fn spec_step_instr(env: Map<IRValueV, IRConstantV>, i: IRInstructionV) -> Option<
    Map<IRValueV, IRConstantV>,
> {
    match i {
        IRInstructionV::BinOp { result, op, left, right } => {
            match (spec_eval_operand(env, left), spec_eval_operand(env, right)) {
                (Option::Some(a), Option::Some(b)) => match spec_fold(a, op, b) {
                    Option::Some(c) => Option::Some(env.insert(result, c)),
                    Option::None => Option::None,
                },
                _ => Option::None,
            }
        },
        IRInstructionV::Assign { target, value } => match spec_eval_operand(env, value) {
            Option::Some(c) => Option::Some(env.insert(target, c)),
            Option::None => Option::None,
        },
        _ => Option::None,
    }
}

/// Straight-line evaluation of the instructions from `i`: the final
/// environment, or `None` where execution gets stuck.
pub open spec fn spec_run(
    s: Seq<IRInstructionV>,
    i: int,
    env: Map<IRValueV, IRConstantV>,
) -> Option<Map<IRValueV, IRConstantV>>
    decreases s.len() - i,
{
    if i < 0 || i >= s.len() {
        Option::Some(env)
    } else {
        match spec_step_instr(env, s[i]) {
            Option::Some(env2) => spec_run(s, i + 1, env2),
            Option::None => Option::None,
        }
    }
}

/// The value an instruction defines, if any.
pub open spec fn spec_instr_target(i: IRInstructionV) -> Option<IRValueV> {
    match i {
        IRInstructionV::BinOp { result, .. } => Option::Some(result),
        IRInstructionV::Assign { target, .. } => Option::Some(target),
        _ => Option::None,
    }
}

/// The single-assignment discipline for temporaries over the suffix from
/// `i`: every binary operation defines a temporary, no temporary is
/// defined twice, and no temporary is read at or before the position that
/// defines it.
pub open spec fn spec_ssa_from(s: Seq<IRInstructionV>, i: int) -> bool {
    &&& forall|j: int|
        i <= j < s.len() ==> ((#[trigger] s[j]) matches IRInstructionV::BinOp { result, .. }
            ==> result matches IRValueV::Temporary(_))
    &&& forall|j: int, k: int|
        i <= j < k < s.len() ==> !(spec_instr_target(#[trigger] s[j]) matches Option::Some(t1)
            && spec_instr_target(#[trigger] s[k]) matches Option::Some(t2) && t1 == t2 && t1
            matches IRValueV::Temporary(_))
    &&& forall|j: int, k: int|
        i <= j <= k < s.len() ==> (spec_instr_target(#[trigger] s[k]) matches Option::Some(
            IRValueV::Temporary(t),
        ) ==> !spec_reads_value(#[trigger] s[j], IRValueV::Temporary(t)))
}

/// The memo table speaks the truth under the environment: each entry's
/// operands evaluate, their folded value exists, and the memoized
/// temporary holds exactly that value.
pub open spec fn spec_memo_sound(
    memo: Map<(BinOpIR, IRValueV, IRValueV), IRValueV>,
    env: Map<IRValueV, IRConstantV>,
) -> bool {
    forall|k: (BinOpIR, IRValueV, IRValueV)|
        #[trigger] memo.contains_key(k) ==> {
            &&& memo[k] matches IRValueV::Temporary(_)
            &&& spec_cse_key_ok(k.1)
            &&& spec_cse_key_ok(k.2)
            &&& match (spec_eval_operand(env, k.1), spec_eval_operand(env, k.2)) {
                (Option::Some(a), Option::Some(b)) => spec_fold(a, k.0, b) == spec_eval_operand(
                    env,
                    memo[k],
                ) && spec_fold(a, k.0, b) is Some,
                _ => false,
            }
        }
}

/// No instruction of the suffix rebinds a name the memo table mentions;
/// a constant in target position never affects evaluation and is exempt.
pub open spec fn spec_no_clobber(
    s: Seq<IRInstructionV>,
    i: int,
    memo: Map<(BinOpIR, IRValueV, IRValueV), IRValueV>,
) -> bool {
    forall|j: int, k: (BinOpIR, IRValueV, IRValueV)|
        i <= j < s.len() && #[trigger] memo.contains_key(k) ==> (match spec_instr_target(
            #[trigger] s[j],
        ) {
            Option::Some(t) => t matches IRValueV::Const(_) || (t != memo[k] && t != k.1 && t
                != k.2),
            Option::None => true,
        })
}

/// Running a one-element prefix plus a remainder from past the prefix is
/// running the remainder.
proof fn lemma_run_shift(
    x: IRInstructionV,
    rest: Seq<IRInstructionV>,
    i: int,
    env: Map<IRValueV, IRConstantV>,
)
    requires
        i >= 0,
    ensures
        spec_run(seq![x] + rest, i + 1, env) == spec_run(rest, i, env),
    decreases rest.len() - i,
{
    let c = seq![x] + rest;
    if i < rest.len() {
        assert(c[i + 1] == rest[i]);
        match spec_step_instr(env, rest[i]) {
            Option::Some(env2) => {
                lemma_run_shift(x, rest, i + 1, env2);
            },
            Option::None => {},
        }
    }
}

/// The simulation: from any position, with a sound, unclobbered memo
/// table, the rewritten suffix evaluates exactly as the original suffix.
proof fn lemma_cse_sim(
    s: Seq<IRInstructionV>,
    i: int,
    memo: Map<(BinOpIR, IRValueV, IRValueV), IRValueV>,
    env: Map<IRValueV, IRConstantV>,
)
    requires
        0 <= i <= s.len(),
        spec_ssa_from(s, i),
        spec_memo_sound(memo, env),
        spec_no_clobber(s, i, memo),
    ensures
        spec_run(spec_cse_instrs(s, i, memo), 0, env) == spec_run(s, i, env),
    decreases s.len() - i,
{
    if i >= s.len() {
        return ;
    }
    let inst = s[i];
    let rest_orig = spec_run(s, i, env);
    match spec_step_instr(env, inst) {
        Option::None => {
            // both runs are stuck on the same first instruction: the
            // rewrite, where there is one, replaces only a binary
            // operation whose operands the sound memo shows evaluable
            match inst {
                IRInstructionV::BinOp { result, op, left, right } => {
                    if spec_cse_key_ok(left) && spec_cse_key_ok(right) && memo.contains_key(
                        (op, left, right),
                    ) {
                        assert(false);
                    }
                },
                _ => {},
            }
        },
        Option::Some(env2) => {
            match inst {
                IRInstructionV::BinOp { result, op, left, right } => {
                    let a = spec_eval_operand(env, left)->Some_0;
                    let b = spec_eval_operand(env, right)->Some_0;
                    let c = spec_fold(a, op, b)->Some_0;
                    assert(env2 == env.insert(result, c));
                    assert(result matches IRValueV::Temporary(_));
                    if spec_cse_key_ok(left) && spec_cse_key_ok(right) {
                        let key = (op, left, right);
                        if memo.contains_key(key) {
                            // rewritten to an assignment reusing the memoized
                            // temporary, which holds the same folded value
                            let rewritten = IRInstructionV::Assign {
                                target: result,
                                value: memo[key],
                            };
                            assert(spec_eval_operand(env, memo[key]) == Option::Some(c));
                            assert(spec_step_instr(env, rewritten) == Option::Some(env2));
                            lemma_memo_sound_preserved(s, i, memo, env, result, c);
                            lemma_cse_sim(s, i + 1, memo, env2);
                            let cse_rest = spec_cse_instrs(s, i + 1, memo);
                            lemma_run_shift(rewritten, cse_rest, 0, env2);
                            assert((seq![rewritten] + cse_rest)[0] == rewritten);
                        } else {
                            // memoized afresh; the new entry is sound in the
                            // stepped environment, and single assignment keeps
                            // it unclobbered
                            let memo2 = memo.insert(key, result);
                            assert(left != result && right != result) by {
                                assert(spec_reads_value(s[i], left) || !(left matches
                                    IRValueV::Temporary(_)) || !spec_cse_key_ok(left));
                                assert(spec_instr_target(s[i]) == Option::Some(result));
                            }
                            lemma_memo_sound_preserved(s, i, memo, env, result, c);
                            assert(spec_memo_sound(memo2, env2)) by {
                                assert forall|k: (BinOpIR, IRValueV, IRValueV)| #[trigger]
                                    memo2.contains_key(k) implies {
                                    &&& memo2[k] matches IRValueV::Temporary(_)
                                    &&& spec_cse_key_ok(k.1)
                                    &&& spec_cse_key_ok(k.2)
                                    &&& match (
                                        spec_eval_operand(env2, k.1),
                                        spec_eval_operand(env2, k.2),
                                    ) {
                                        (Option::Some(x), Option::Some(y)) => spec_fold(x, k.0, y)
                                            == spec_eval_operand(env2, memo2[k]) && spec_fold(
                                            x,
                                            k.0,
                                            y,
                                        ) is Some,
                                        _ => false,
                                    }
                                } by {
                                    if k == key {
                                        assert(spec_eval_operand(env2, left) == Option::Some(a));
                                        assert(spec_eval_operand(env2, right) == Option::Some(b));
                                        assert(spec_eval_operand(env2, result) == Option::Some(c));
                                    } else {
                                        assert(memo.contains_key(k));
                                    }
                                }
                            }
                            assert(spec_no_clobber(s, i + 1, memo2)) by {
                                assert forall|j: int, k: (BinOpIR, IRValueV, IRValueV)|
                                    i + 1 <= j < s.len() && #[trigger] memo2.contains_key(
                                        k,
                                    ) implies (match spec_instr_target(#[trigger] s[j]) {
                                    Option::Some(t) => t matches IRValueV::Const(_) || (t
                                        != memo2[k] && t != k.1 && t != k.2),
                                    Option::None => true,
                                }) by {
                                    if k == key {
                                        assert(spec_instr_target(s[i as int]) == Option::Some(
                                            result,
                                        ));
                                        match spec_instr_target(s[j]) {
                                            Option::Some(t) => {
                                                match t {
                                                    IRValueV::Temporary(_) => {
                                                        assert(spec_reads_value(s[i as int], left)
                                                            || !(left matches
                                                        IRValueV::Temporary(_)));
                                                        assert(t != left);
                                                        assert(spec_reads_value(
                                                            s[i as int],
                                                            right,
                                                        ) || !(right matches IRValueV::Temporary(
                                                            _,
                                                        )));
                                                        assert(t != right);
                                                        assert(t != result);
                                                    },
                                                    _ => {},
                                                }
                                            },
                                            Option::None => {},
                                        }
                                    } else {
                                        assert(memo.contains_key(k));
                                    }
                                }
                            }
                            lemma_cse_sim(s, i + 1, memo2, env2);
                            let cse_rest = spec_cse_instrs(s, i + 1, memo2);
                            lemma_run_shift(inst, cse_rest, 0, env2);
                            assert((seq![inst] + cse_rest)[0] == inst);
                        }
                    } else {
                        lemma_memo_sound_preserved(s, i, memo, env, result, c);
                        lemma_cse_sim(s, i + 1, memo, env2);
                        let cse_rest = spec_cse_instrs(s, i + 1, memo);
                        lemma_run_shift(inst, cse_rest, 0, env2);
                        assert((seq![inst] + cse_rest)[0] == inst);
                    }
                },
                IRInstructionV::Assign { target, value } => {
                    let c = spec_eval_operand(env, value)->Some_0;
                    lemma_memo_sound_preserved(s, i, memo, env, target, c);
                    lemma_cse_sim(s, i + 1, memo, env2);
                    let cse_rest = spec_cse_instrs(s, i + 1, memo);
                    lemma_run_shift(inst, cse_rest, 0, env2);
                    assert((seq![inst] + cse_rest)[0] == inst);
                },
                _ => {
                    assert(false);
                },
            }
        },
    }
}

/// Binding the value an unclobbered instruction defines keeps every memo
/// entry true.
proof fn lemma_memo_sound_preserved(
    s: Seq<IRInstructionV>,
    i: int,
    memo: Map<(BinOpIR, IRValueV, IRValueV), IRValueV>,
    env: Map<IRValueV, IRConstantV>,
    target: IRValueV,
    c: IRConstantV,
)
    requires
        0 <= i < s.len(),
        spec_memo_sound(memo, env),
        spec_no_clobber(s, i, memo),
        spec_instr_target(s[i]) == Option::Some(target),
    ensures
        spec_memo_sound(memo, env.insert(target, c)),
        spec_no_clobber(s, i + 1, memo),
{
    let env2 = env.insert(target, c);
    assert forall|k: (BinOpIR, IRValueV, IRValueV)| #[trigger] memo.contains_key(k) implies {
        &&& memo[k] matches IRValueV::Temporary(_)
        &&& spec_cse_key_ok(k.1)
        &&& spec_cse_key_ok(k.2)
        &&& match (spec_eval_operand(env2, k.1), spec_eval_operand(env2, k.2)) {
            (Option::Some(a), Option::Some(b)) => spec_fold(a, k.0, b) == spec_eval_operand(
                env2,
                memo[k],
            ) && spec_fold(a, k.0, b) is Some,
            _ => false,
        }
    } by {
        match target {
            IRValueV::Const(_) => {
                assert(spec_eval_operand(env2, k.1) == spec_eval_operand(env, k.1));
                assert(spec_eval_operand(env2, k.2) == spec_eval_operand(env, k.2));
                assert(spec_eval_operand(env2, memo[k]) == spec_eval_operand(env, memo[k]));
            },
            _ => {
                assert(target != memo[k] && target != k.1 && target != k.2);
                assert(spec_eval_operand(env2, k.1) == spec_eval_operand(env, k.1));
                assert(spec_eval_operand(env2, k.2) == spec_eval_operand(env, k.2));
                assert(spec_eval_operand(env2, memo[k]) == spec_eval_operand(env, memo[k]));
            },
        }
    }
}

/// Common-subexpression elimination never changes a straight-line block's
/// observable outcome: under the single-assignment discipline for
/// temporaries, evaluating the rewritten instructions from any starting
/// environment ends in exactly the environment — every named local and
/// temporary, hence every returned value — the original instructions
/// produce, and gets stuck exactly where the original does.
pub proof fn lemma_cse_preserves_evaluation(
    s: Seq<IRInstructionV>,
    env0: Map<IRValueV, IRConstantV>,
)
    requires
        spec_ssa_from(s, 0),
    ensures
        spec_run(spec_cse_instrs(s, 0, Map::empty()), 0, env0) == spec_run(s, 0, env0),
{
    lemma_cse_sim(s, 0, Map::empty(), env0);
}

/// The block-level reading of the same law.
pub proof fn lemma_cse_block_preserves_evaluation(
    b: BasicBlockV,
    env0: Map<IRValueV, IRConstantV>,
)
    requires
        spec_ssa_from(b.instructions, 0),
    ensures
        spec_run(spec_cse_block(b).instructions, 0, env0) == spec_run(b.instructions, 0, env0),
{
    lemma_cse_preserves_evaluation(b.instructions, env0);
}

/// The same law over a whole function: the pass rewrites block-locally and
/// touches no block id, control transfer or successor list, so every
/// execution path through the rewritten graph visits the same blocks, and
/// each block's straight-line run produces the same environment — hence
/// the same returned values — from any starting environment.
pub proof fn lemma_cse_fn_preserves_evaluation(
    f: IRFunctionV,
    b: int,
    env0: Map<IRValueV, IRConstantV>,
)
    requires
        0 <= b < f.blocks.len(),
        spec_ssa_from(f.blocks[b].instructions, 0),
    ensures
        spec_cse_fn(f).blocks.len() == f.blocks.len(),
        spec_cse_fn(f).blocks[b].id == f.blocks[b].id,
        spec_cse_fn(f).blocks[b].successors == f.blocks[b].successors,
        spec_run(spec_cse_fn(f).blocks[b].instructions, 0, env0) == spec_run(
            f.blocks[b].instructions,
            0,
            env0,
        ),
{
    assert(spec_cse_fn(f).blocks[b] == spec_cse_block(f.blocks[b]));
    lemma_cse_block_preserves_evaluation(f.blocks[b], env0);
}

/// The instruction count of the first `b` blocks.
pub open spec fn spec_count_prefix(blocks: Seq<BasicBlockV>, b: int) -> int
    decreases b,
{
    if b <= 0 {
        0
    } else {
        spec_count_prefix(blocks, b - 1) + blocks[b - 1].instructions.len()
    }
}

/// The instruction count of a whole function.
pub open spec fn spec_count_instructions(f: IRFunctionV) -> int {
    spec_count_prefix(f.blocks, f.blocks.len() as int)
}

} // verus!
