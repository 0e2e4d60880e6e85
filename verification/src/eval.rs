//! Exact semantics of the 32-bit integer operations, on both sides of the
//! translation: what a bytecode numeric opcode computes, what the IR
//! instruction it lowers to computes, the proof that the two agree bit
//! for bit (trap for trap), and a reference interpreter for the IR side.
//! `None` is a trap: division by zero, or signed-division overflow.

use vstd::prelude::*;

use crate::ir::IrOp;
use crate::translate::Operator;
use crate::translate::spec_binop_class;
use crate::types::IrType;

verus! {

/// The signed value of a 32-bit pattern (two's complement).
pub open spec fn as_i32(x: u32) -> int {
    if x >= 0x8000_0000 {
        x - 0x1_0000_0000
    } else {
        x as int
    }
}

/// The 32-bit pattern of an integer, modulo 2^32: the wraparound rule.
pub open spec fn to_u32(x: int) -> u32 {
    (x % 0x1_0000_0000) as u32
}

/// Magnitude of an integer.
pub open spec fn abs_int(x: int) -> int {
    if x < 0 {
        -x
    } else {
        x
    }
}

/// Division truncated toward zero, as the bytecode requires of signed
/// division.
pub open spec fn trunc_div(a: int, b: int) -> int {
    if (a < 0) == (b < 0) {
        abs_int(a) / abs_int(b)
    } else {
        -(abs_int(a) / abs_int(b))
    }
}

/// What a 32-bit integer IR instruction computes.
pub open spec fn spec_eval32(op: IrOp, a: u32, b: u32) -> Option<u32> {
    match op {
        IrOp::Iadd32 => Some(to_u32(a + b)),
        IrOp::Isub32 => Some(to_u32(a - b)),
        IrOp::Imul32 => Some(to_u32(a * b)),
        IrOp::Udiv32 => if b == 0 {
            None
        } else {
            Some((a as int / b as int) as u32)
        },
        IrOp::Sdiv32 => if b == 0 {
            None
        } else if a == 0x8000_0000 && b == 0xFFFF_FFFF {
            None
        } else {
            Some(to_u32(trunc_div(as_i32(a), as_i32(b))))
        },
        IrOp::IcmpEq32 => Some(if a == b { 1 } else { 0 }),
        IrOp::IcmpLtS32 => Some(if as_i32(a) < as_i32(b) { 1 } else { 0 }),
        IrOp::IcmpLtU32 => Some(if a < b { 1 } else { 0 }),
        IrOp::IcmpEqz32 => Some(if a == 0 { 1 } else { 0 }),
        _ => None,
    }
}

/// What a 32-bit integer bytecode opcode computes: wraparound for
/// add/sub/mul, trap on a zero divisor, trap on signed-division
/// overflow, truncation toward zero for signed division.
pub open spec fn spec_eval_wasm32(op: Operator, a: u32, b: u32) -> Option<u32> {
    match op {
        Operator::I32Add => Some(to_u32(a + b)),
        Operator::I32Sub => Some(to_u32(a - b)),
        Operator::I32Mul => Some(to_u32(a * b)),
        Operator::I32DivU => if b == 0 {
            None
        } else {
            Some((a as int / b as int) as u32)
        },
        Operator::I32DivS => if b == 0 {
            None
        } else if a == 0x8000_0000 && b == 0xFFFF_FFFF {
            None
        } else {
            Some(to_u32(trunc_div(as_i32(a), as_i32(b))))
        },
        Operator::I32Eq => Some(if a == b { 1 } else { 0 }),
        Operator::I32LtS => Some(if as_i32(a) < as_i32(b) { 1 } else { 0 }),
        Operator::I32LtU => Some(if a < b { 1 } else { 0 }),
        _ => None,
    }
}

/// Round trip: for every 32-bit integer opcode, evaluating the IR
/// instruction the translator emits for it gives a result bit-identical
/// to evaluating the bytecode operation directly — and they trap on
/// exactly the same inputs.
pub proof fn lemma_numeric_round_trip32(op: Operator, a: u32, b: u32)
    requires
        spec_binop_class(op) is Some,
        spec_binop_class(op)->Some_0.0 == IrType::Int32,
    ensures
        spec_eval32(spec_binop_class(op)->Some_0.2, a, b) == spec_eval_wasm32(op, a, b),
{
}

/// The reference interpreter for the 32-bit integer IR instructions.
pub fn eval32(op: IrOp, a: u32, b: u32) -> (r: Option<u32>)
    ensures
        r == spec_eval32(op, a, b),
{
    match op {
        IrOp::Iadd32 => Some(a.wrapping_add(b)),
        IrOp::Isub32 => Some(a.wrapping_sub(b)),
        IrOp::Imul32 => Some(a.wrapping_mul(b)),
        IrOp::Udiv32 => {
            if b == 0 {
                None
            } else {
                Some(a / b)
            }
        },
        IrOp::Sdiv32 => {
            if b == 0 {
                None
            } else if a == 0x8000_0000 && b == 0xFFFF_FFFF {
                None
            } else {
                let an: u32 = if a >= 0x8000_0000 {
                    0u32.wrapping_sub(a)
                } else {
                    a
                };
                let bn: u32 = if b >= 0x8000_0000 {
                    0u32.wrapping_sub(b)
                } else {
                    b
                };
                proof {
                    assert(an == abs_int(as_i32(a)));
                    assert(bn == abs_int(as_i32(b)));
                }
                let q = an / bn;
                let neg = (a >= 0x8000_0000) != (b >= 0x8000_0000);
                let r = if neg {
                    0u32.wrapping_sub(q)
                } else {
                    q
                };
                proof {
                    assert(r == to_u32(trunc_div(as_i32(a), as_i32(b))));
                }
                Some(r)
            }
        },
        IrOp::IcmpEq32 => Some(if a == b { 1 } else { 0 }),
        IrOp::IcmpLtS32 => {
            let sa = a >= 0x8000_0000;
            let sb = b >= 0x8000_0000;
            let lt = if sa == sb {
                a < b
            } else {
                sa
            };
            Some(if lt { 1 } else { 0 })
        },
        IrOp::IcmpLtU32 => Some(if a < b { 1 } else { 0 }),
        IrOp::IcmpEqz32 => Some(if a == 0 { 1 } else { 0 }),
        _ => None,
    }
}

} // verus!
