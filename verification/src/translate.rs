//! The code translator: one dispatch case per bytecode opcode family,
//! driving the operand stack, the control stack and IR emission; and the
//! well-formedness invariant tying the two together.
//!
//! The translation of each opcode is defined by the specification
//! function [`step`]; the executable translator is proved to compute
//! exactly it.  Once the current program point is unreachable,
//! instructions are still walked so that construct nesting stays paired,
//! but nothing is emitted and the operand stack is left untouched until
//! the construct boundary that restores reachability.

use vstd::prelude::*;

use crate::environ::Environment;
use crate::environ::GlobalStorage;
use crate::environ::global_ir_ty;
use crate::environ::m_global_get;
use crate::environ::m_global_set;
use crate::environ::m_heap_addr;
use crate::environ::m_indirect_target;
use crate::environ::resolve_function;
use crate::errors::EntityKind;
use crate::errors::ErrCode;
use crate::errors::TranslationError;
use crate::errors::StructuralCause;
use crate::ir::BlockM;
use crate::ir::BranchTarget;
use crate::ir::BranchTargetM;
use crate::ir::IrFunction;
use crate::ir::IrFunctionM;
use crate::ir::IrOp;
use crate::ir::Terminator;
use crate::ir::TerminatorM;
use crate::ir::TrapCode;
use crate::ir::Value;
use crate::ir::m_create_block;
use crate::ir::mk_param_values;
use crate::ir::m_emit;
use crate::ir::m_emit_call;
use crate::ir::m_emit_void;
use crate::ir::m_set_term;
use crate::ir::m_switch;
use crate::state::ControlFrame;
use crate::state::ControlFrameM;
use crate::state::FrameKind;
use crate::state::FuncTranslationState;
use crate::state::StateM;
use crate::state::frame_limit;
use crate::state::ids_of;
use crate::state::operands_err;
use crate::state::st_pop;
use crate::state::st_push;
use crate::state::st_push_all;
use crate::state::stack_tops;
use crate::state::top_vals;
use crate::types::IrType;
use crate::types::WasmType;
use crate::types::Signature;
use crate::types::map_signature;
use crate::types::map_types;
use crate::types::spec_map_sig_params;
use crate::types::spec_map_types;

verus! {

/// One decoded bytecode instruction.
#[derive(Clone, Debug)]
pub enum Operator {
    I32Const { value: u32 },
    I64Const { value: u64 },
    F32Const { bits: u32 },
    F64Const { bits: u64 },
    I32Add,
    I32Sub,
    I32Mul,
    I32DivS,
    I32DivU,
    I64Add,
    I64Sub,
    I64Mul,
    I32Eq,
    I32LtS,
    I32LtU,
    F32Add,
    F32Sub,
    F32Mul,
    F32Div,
    F64Add,
    F64Sub,
    F64Mul,
    F64Div,
    LocalGet { local: u32 },
    LocalSet { local: u32 },
    LocalTee { local: u32 },
    GlobalGet { global: u32 },
    GlobalSet { global: u32 },
    I32Load { offset: u32 },
    I64Load { offset: u32 },
    I32Store { offset: u32 },
    I64Store { offset: u32 },
    Nop,
    Drop,
    Block { results: Vec<WasmType> },
    Loop { results: Vec<WasmType> },
    If { results: Vec<WasmType> },
    Else,
    End,
    Br { depth: u32 },
    BrIf { depth: u32 },
    BrTable { depths: Vec<u32>, default: u32 },
    Return,
    Call { function: u32 },
    CallIndirect { table: u32, sig: u32 },
    Unreachable,
}

/// The whole translation: the mutable state and the IR function being
/// built.
#[verifier::ext_equal]
pub struct TransM {
    pub st: StateM,
    pub f: IrFunctionM,
}

/// Whether every value of `vs` carries the type the function records for
/// its id.
pub open spec fn values_typed(vs: Seq<Value>, f: IrFunctionM) -> bool {
    forall|i: int|
        0 <= i < vs.len() ==> (#[trigger] vs[i]).id < f.value_types.len()
            && f.value_types[vs[i].id as int] == vs[i].ty
}

/// Whether one control entry's blocks exist and its merge block's
/// parameters are typed exactly as the entry's declared results: the
/// per-boundary type signature the translation maintains.
pub open spec fn frame_wf(fr: ControlFrameM, f: IrFunctionM) -> bool {
    match fr.kind {
        FrameKind::Dead { .. } => true,
        FrameKind::Function => true,
        FrameKind::Block => frame_dest_wf(fr, f),
        FrameKind::Loop { header } => header < f.blocks.len() && frame_dest_wf(fr, f),
        FrameKind::If { else_block, else_seen } => else_block < f.blocks.len() && frame_dest_wf(
            fr,
            f,
        ) && (!else_seen ==> f.blocks[else_block as int].params.len() == 0),
    }
}

/// The merge block of a control entry exists and carries one parameter
/// per declared result, typed alike.
pub open spec fn frame_dest_wf(fr: ControlFrameM, f: IrFunctionM) -> bool {
    &&& fr.dest < f.blocks.len()
    &&& f.blocks[fr.dest as int].params.len() == fr.results.len()
    &&& forall|i: int|
        0 <= i < fr.results.len() ==> f.blocks[fr.dest as int].params[i].ty == fr.results[i]
}

/// The translation invariant: the current block exists; every operand
/// stack value and every block parameter is typed consistently with the
/// function's value table; every control entry is well formed; entry
/// snapshots grow inward; and the operand stack never dips below the
/// innermost snapshot.
pub open spec fn trans_wf(m: TransM) -> bool {
    &&& m.st.stack.len() <= usize::MAX
    &&& m.f.current < m.f.blocks.len()
    &&& values_typed(m.st.stack, m.f)
    &&& forall|b: int|
        0 <= b < m.f.blocks.len() ==> values_typed(#[trigger] m.f.blocks[b].params, m.f)
    &&& forall|i: int| 0 <= i < m.st.control.len() ==> frame_wf(#[trigger] m.st.control[i], m.f)
    &&& forall|i: int, j: int|
        0 <= i <= j < m.st.control.len() ==> (#[trigger] m.st.control[i]).height <= (
        #[trigger] m.st.control[j]).height
    &&& (m.st.control.len() > 0 ==> m.st.stack.len() >= m.st.control.last().height)
}

/// Which constant an opcode pushes, if it is a constant push.
pub open spec fn spec_const_class(op: Operator) -> Option<(IrOp, IrType)> {
    match op {
        Operator::I32Const { value } => Some((IrOp::Iconst32 { bits: value }, IrType::Int32)),
        Operator::I64Const { value } => Some((IrOp::Iconst64 { bits: value }, IrType::Int64)),
        Operator::F32Const { bits } => Some((IrOp::Fconst32 { bits }, IrType::Float32)),
        Operator::F64Const { bits } => Some((IrOp::Fconst64 { bits }, IrType::Float64)),
        _ => None,
    }
}

/// Which constant an opcode pushes.
pub fn const_class(op: &Operator) -> (r: Option<(IrOp, IrType)>)
    ensures
        r == spec_const_class(*op),
{
    match op {
        Operator::I32Const { value } => Some((IrOp::Iconst32 { bits: *value }, IrType::Int32)),
        Operator::I64Const { value } => Some((IrOp::Iconst64 { bits: *value }, IrType::Int64)),
        Operator::F32Const { bits } => Some((IrOp::Fconst32 { bits: *bits }, IrType::Float32)),
        Operator::F64Const { bits } => Some((IrOp::Fconst64 { bits: *bits }, IrType::Float64)),
        _ => None,
    }
}

/// The operand type, result type and IR operation of a numeric
/// binary/comparison opcode.  Each entry preserves the bytecode's exact
/// semantics: wraparound for add/sub/mul, trapping division,
/// specification-mandated rounding and NaN propagation for the
/// floating-point entries.
pub open spec fn spec_binop_class(op: Operator) -> Option<(IrType, IrType, IrOp)> {
    match op {
        Operator::I32Add => Some((IrType::Int32, IrType::Int32, IrOp::Iadd32)),
        Operator::I32Sub => Some((IrType::Int32, IrType::Int32, IrOp::Isub32)),
        Operator::I32Mul => Some((IrType::Int32, IrType::Int32, IrOp::Imul32)),
        Operator::I32DivS => Some((IrType::Int32, IrType::Int32, IrOp::Sdiv32)),
        Operator::I32DivU => Some((IrType::Int32, IrType::Int32, IrOp::Udiv32)),
        Operator::I64Add => Some((IrType::Int64, IrType::Int64, IrOp::Iadd64)),
        Operator::I64Sub => Some((IrType::Int64, IrType::Int64, IrOp::Isub64)),
        Operator::I64Mul => Some((IrType::Int64, IrType::Int64, IrOp::Imul64)),
        Operator::I32Eq => Some((IrType::Int32, IrType::Int32, IrOp::IcmpEq32)),
        Operator::I32LtS => Some((IrType::Int32, IrType::Int32, IrOp::IcmpLtS32)),
        Operator::I32LtU => Some((IrType::Int32, IrType::Int32, IrOp::IcmpLtU32)),
        Operator::F32Add => Some((IrType::Float32, IrType::Float32, IrOp::Fadd32)),
        Operator::F32Sub => Some((IrType::Float32, IrType::Float32, IrOp::Fsub32)),
        Operator::F32Mul => Some((IrType::Float32, IrType::Float32, IrOp::Fmul32)),
        Operator::F32Div => Some((IrType::Float32, IrType::Float32, IrOp::Fdiv32)),
        Operator::F64Add => Some((IrType::Float64, IrType::Float64, IrOp::Fadd64)),
        Operator::F64Sub => Some((IrType::Float64, IrType::Float64, IrOp::Fsub64)),
        Operator::F64Mul => Some((IrType::Float64, IrType::Float64, IrOp::Fmul64)),
        Operator::F64Div => Some((IrType::Float64, IrType::Float64, IrOp::Fdiv64)),
        _ => None,
    }
}

/// The operand type, result type and IR operation of a numeric opcode.
pub fn binop_class(op: &Operator) -> (r: Option<(IrType, IrType, IrOp)>)
    ensures
        r == spec_binop_class(*op),
{
    match op {
        Operator::I32Add => Some((IrType::Int32, IrType::Int32, IrOp::Iadd32)),
        Operator::I32Sub => Some((IrType::Int32, IrType::Int32, IrOp::Isub32)),
        Operator::I32Mul => Some((IrType::Int32, IrType::Int32, IrOp::Imul32)),
        Operator::I32DivS => Some((IrType::Int32, IrType::Int32, IrOp::Sdiv32)),
        Operator::I32DivU => Some((IrType::Int32, IrType::Int32, IrOp::Udiv32)),
        Operator::I64Add => Some((IrType::Int64, IrType::Int64, IrOp::Iadd64)),
        Operator::I64Sub => Some((IrType::Int64, IrType::Int64, IrOp::Isub64)),
        Operator::I64Mul => Some((IrType::Int64, IrType::Int64, IrOp::Imul64)),
        Operator::I32Eq => Some((IrType::Int32, IrType::Int32, IrOp::IcmpEq32)),
        Operator::I32LtS => Some((IrType::Int32, IrType::Int32, IrOp::IcmpLtS32)),
        Operator::I32LtU => Some((IrType::Int32, IrType::Int32, IrOp::IcmpLtU32)),
        Operator::F32Add => Some((IrType::Float32, IrType::Float32, IrOp::Fadd32)),
        Operator::F32Sub => Some((IrType::Float32, IrType::Float32, IrOp::Fsub32)),
        Operator::F32Mul => Some((IrType::Float32, IrType::Float32, IrOp::Fmul32)),
        Operator::F32Div => Some((IrType::Float32, IrType::Float32, IrOp::Fdiv32)),
        Operator::F64Add => Some((IrType::Float64, IrType::Float64, IrOp::Fadd64)),
        Operator::F64Sub => Some((IrType::Float64, IrType::Float64, IrOp::Fsub64)),
        Operator::F64Mul => Some((IrType::Float64, IrType::Float64, IrOp::Fmul64)),
        Operator::F64Div => Some((IrType::Float64, IrType::Float64, IrOp::Fdiv64)),
        _ => None,
    }
}

/// The operand check shared by every popping opcode: `tys`-typed values
/// above the current construct's snapshot, handed back as (ids, state
/// after the pop).
pub open spec fn take_operands(st: StateM, tys: Seq<IrType>) -> Result<
    (Seq<usize>, StateM),
    ErrCode,
> {
    if stack_tops(st, tys) {
        Ok((ids_of(top_vals(st, tys.len() as int)), st_pop(st, tys.len() as int)))
    } else {
        Err(operands_err(st, tys))
    }
}

/// What a constant push does.
pub open spec fn step_const(m: TransM, cop: IrOp, ty: IrType) -> Result<TransM, ErrCode> {
    let (f1, v) = m_emit(m.f, cop, 0, 0, ty);
    Ok(TransM { st: st_push(m.st, v), f: f1 })
}

/// What a numeric binary opcode does: pop two `in_ty` operands, emit the
/// IR operation, push its `out_ty` result.
pub open spec fn step_binop(m: TransM, in_ty: IrType, out_ty: IrType, irop: IrOp) -> Result<
    TransM,
    ErrCode,
> {
    match take_operands(m.st, seq![in_ty, in_ty]) {
        Err(e) => Err(e),
        Ok((ids, st1)) => {
            let (f1, v) = m_emit(m.f, irop, ids[0], ids[1], out_ty);
            Ok(TransM { st: st_push(st1, v), f: f1 })
        },
    }
}

/// What one opcode does at an unreachable program point: construct
/// openers still nest (as entries owning no blocks), closers run the
/// `else`/`end` logic, and everything else is walked without effect.
pub open spec fn step_dead(m: TransM, op: Operator) -> Result<TransM, ErrCode> {
    match op {
        Operator::Block { .. } | Operator::Loop { .. } => Ok(
            TransM {
                st: StateM {
                    control: m.st.control.push(
                        ControlFrameM {
                            kind: FrameKind::Dead { is_if: false, else_seen: false },
                            dest: 0,
                            results: Seq::empty(),
                            height: m.st.stack.len() as usize,
                            branched_to: false,
                        },
                    ),
                    ..m.st
                },
                ..m
            },
        ),
        Operator::If { .. } => Ok(
            TransM {
                st: StateM {
                    control: m.st.control.push(
                        ControlFrameM {
                            kind: FrameKind::Dead { is_if: true, else_seen: false },
                            dest: 0,
                            results: Seq::empty(),
                            height: m.st.stack.len() as usize,
                            branched_to: false,
                        },
                    ),
                    ..m.st
                },
                ..m
            },
        ),
        Operator::Else => step_else(m),
        Operator::End => step_end(m),
        _ => Ok(m),
    }
}


/// A block abandoned while unreachable and never terminated (the unused
/// merge block of an inner construct) is sealed with an explicit trap,
/// so that every block of a finished function carries one terminator and
/// the dead path itself still emits no instruction.
pub open spec fn m_seal_dead(f: IrFunctionM) -> IrFunctionM {
    if f.blocks[f.current as int].term is None {
        m_set_term(f, TerminatorM::Trap { code: TrapCode::UnreachableCodeReached })
    } else {
        f
    }
}

/// What `else` does.  At a reachable point the accumulated results jump
/// to the merge block; either way the operand stack snaps back to the
/// construct's entry height, emission moves to the alternate block, and
/// the program point becomes reachable again.  An `else` inside dead
/// nesting stays dead.
pub open spec fn step_else(m: TransM) -> Result<TransM, ErrCode> {
    if m.st.control.len() == 0 {
        Err(ErrCode::Structure { cause: StructuralCause::UnmatchedElse })
    } else {
        let fr = m.st.control.last();
        match fr.kind {
            FrameKind::Dead { is_if, else_seen } => {
                if !is_if || else_seen {
                    Err(ErrCode::Structure { cause: StructuralCause::UnmatchedElse })
                } else {
                    Ok(
                        TransM {
                            st: StateM {
                                control: m.st.control.update(
                                    m.st.control.len() - 1,
                                    ControlFrameM {
                                        kind: FrameKind::Dead { is_if: true, else_seen: true },
                                        ..fr
                                    },
                                ),
                                ..m.st
                            },
                            ..m
                        },
                    )
                }
            },
            FrameKind::If { else_block, else_seen } => {
                if else_seen {
                    Err(ErrCode::Structure { cause: StructuralCause::UnmatchedElse })
                } else if m.st.reachable {
                    match take_operands(m.st, fr.results) {
                        Err(e) => Err(e),
                        Ok((ids, _)) => {
                            let f1 = m_set_term(
                                m.f,
                                TerminatorM::Jump {
                                    to: BranchTargetM { block: fr.dest, args: ids },
                                },
                            );
                            Ok(
                                TransM {
                                    st: StateM {
                                        stack: m.st.stack.take(fr.height as int),
                                        control: m.st.control.update(
                                            m.st.control.len() - 1,
                                            ControlFrameM {
                                                kind: FrameKind::If { else_block, else_seen: true },
                                                branched_to: true,
                                                ..fr
                                            },
                                        ),
                                        reachable: true,
                                    },
                                    f: m_switch(f1, else_block),
                                },
                            )
                        },
                    }
                } else {
                    Ok(
                        TransM {
                            st: StateM {
                                stack: m.st.stack.take(fr.height as int),
                                control: m.st.control.update(
                                    m.st.control.len() - 1,
                                    ControlFrameM {
                                        kind: FrameKind::If { else_block, else_seen: true },
                                        ..fr
                                    },
                                ),
                                reachable: true,
                            },
                            f: m_switch(m_seal_dead(m.f), else_block),
                        },
                    )
                }
            },
            _ => Err(ErrCode::Structure { cause: StructuralCause::UnmatchedElse }),
        }
    }
}

/// Whether the merge block of a closing construct has any predecessor
/// once its `end` is processed, `fallthrough` telling whether the point
/// before the `end` was reachable.  A loop exit is only reached by
/// falling through (a branch to a loop re-enters its header); a
/// conditional whose `else` was never seen gains the implicit empty
/// alternate edge.
pub open spec fn end_dest_used(fr: ControlFrameM, fallthrough: bool) -> bool {
    match fr.kind {
        FrameKind::Block => fallthrough || fr.branched_to,
        FrameKind::Loop { .. } => fallthrough,
        FrameKind::If { else_seen, .. } => fallthrough || fr.branched_to || !else_seen,
        _ => false,
    }
}

/// What `end` does.  The innermost entry is closed; at a reachable point
/// its results jump to its merge block; a conditional with no `else`
/// gains the implicit empty alternate edge (and must then yield no
/// values); the operand stack snaps back to the entry height; if the
/// merge block has any predecessor, emission moves there, its parameters
/// become the construct's results on the stack, and the point is
/// reachable.  Closing the function's own entry emits the implicit
/// return instead, when the end of the body is reached while still
/// reachable.
pub open spec fn step_end(m: TransM) -> Result<TransM, ErrCode> {
    if m.st.control.len() == 0 {
        Err(ErrCode::Structure { cause: StructuralCause::UnmatchedEnd })
    } else {
        let fr = m.st.control.last();
        let popped = m.st.control.drop_last();
        match fr.kind {
            FrameKind::Dead { .. } => Ok(
                TransM { st: StateM { control: popped, ..m.st }, ..m },
            ),
            FrameKind::Function => {
                if m.st.reachable {
                    if !stack_tops(m.st, fr.results) {
                        Err(operands_err(m.st, fr.results))
                    } else {
                        let f1 = m_set_term(
                            m.f,
                            TerminatorM::Return {
                                values: ids_of(top_vals(m.st, fr.results.len() as int)),
                            },
                        );
                        Ok(
                            TransM {
                                st: StateM {
                                    stack: m.st.stack.take(fr.height as int),
                                    control: popped,
                                    reachable: false,
                                },
                                f: f1,
                            },
                        )
                    }
                } else {
                    Ok(
                        TransM {
                            st: StateM {
                                stack: m.st.stack.take(fr.height as int),
                                control: popped,
                                reachable: false,
                            },
                            f: m_seal_dead(m.f),
                        },
                    )
                }
            },
            _ => {
                let needs_implicit_else = fr.kind matches FrameKind::If { else_seen: false, .. };
                if needs_implicit_else && fr.results.len() != 0 {
                    Err(ErrCode::Structure { cause: StructuralCause::TypeMismatch })
                } else if m.st.reachable && !stack_tops(m.st, fr.results) {
                    Err(operands_err(m.st, fr.results))
                } else {
                    let f1 = if m.st.reachable {
                        m_set_term(
                            m.f,
                            TerminatorM::Jump {
                                to: BranchTargetM {
                                    block: fr.dest,
                                    args: ids_of(top_vals(m.st, fr.results.len() as int)),
                                },
                            },
                        )
                    } else {
                        m_seal_dead(m.f)
                    };
                    let f2 = if needs_implicit_else {
                        m_set_term(
                            m_switch(f1, fr.kind->If_else_block),
                            TerminatorM::Jump {
                                to: BranchTargetM { block: fr.dest, args: Seq::empty() },
                            },
                        )
                    } else {
                        f1
                    };
                    let used = end_dest_used(fr, m.st.reachable);
                    let f3 = m_switch(f2, fr.dest);
                    Ok(
                        TransM {
                            st: StateM {
                                stack: m.st.stack.take(fr.height as int) + (
                                    if used {
                                        f3.blocks[fr.dest as int].params
                                    } else {
                                        Seq::empty()
                                    }
                                ),
                                control: popped,
                                reachable: used,
                            },
                            f: f3,
                        },
                    )
                }
            },
        }
    }
}


/// The branch target of a control entry: a loop is re-entered at its
/// header carrying no values, anything else is left through its merge
/// block carrying its declared results.
pub open spec fn br_target(fr: ControlFrameM) -> (usize, Seq<IrType>) {
    match fr.kind {
        FrameKind::Loop { header } => (header, Seq::empty()),
        _ => (fr.dest, fr.results),
    }
}

/// A block holding only a return of its own parameters: the trampoline a
/// conditional or computed branch to the function's outermost construct
/// jumps to.
pub open spec fn m_return_block(f: IrFunctionM, rtys: Seq<IrType>) -> (IrFunctionM, usize) {
    let (f1, b) = m_create_block(f, rtys);
    let f2 = m_set_term(
        m_switch(f1, b),
        TerminatorM::Return { values: ids_of(f1.blocks[b as int].params) },
    );
    (m_switch(f2, f.current), b)
}

/// What `br` does: an unconditional jump to the construct `depth` levels
/// out, passing the top values its boundary declares, after which the
/// program point is unreachable.
pub open spec fn step_br(m: TransM, depth: u32) -> Result<TransM, ErrCode> {
    if depth as int >= m.st.control.len() {
        Err(ErrCode::Structure { cause: StructuralCause::BadBranchDepth })
    } else {
        let idx = m.st.control.len() - 1 - depth as int;
        let fr = m.st.control[idx];
        if fr.kind is Dead {
            Err(ErrCode::Structure { cause: StructuralCause::BadBranchDepth })
        } else if fr.kind is Function {
            // A branch to the outermost construct is the return.
            match take_operands(m.st, fr.results) {
                Err(e) => Err(e),
                Ok((ids, st1)) => Ok(
                    TransM {
                        st: StateM { stack: st1.stack, control: m.st.control, reachable: false },
                        f: m_set_term(m.f, TerminatorM::Return { values: ids }),
                    },
                ),
            }
        } else {
            let (target, tys) = br_target(fr);
            match take_operands(m.st, tys) {
                Err(e) => Err(e),
                Ok((ids, st1)) => Ok(
                    TransM {
                        st: StateM {
                            stack: st1.stack,
                            control: m.st.control.update(
                                idx,
                                ControlFrameM { branched_to: true, ..fr },
                            ),
                            reachable: false,
                        },
                        f: m_set_term(
                            m.f,
                            TerminatorM::Jump { to: BranchTargetM { block: target, args: ids } },
                        ),
                    },
                ),
            }
        }
    }
}

/// What `br_if` does: pop a 32-bit condition and emit a two-way branch,
/// taken to the construct `depth` levels out with the top boundary
/// values (which stay on the stack for the fall-through), not taken to a
/// fresh continuation block where translation goes on.
pub open spec fn step_br_if(m: TransM, depth: u32) -> Result<TransM, ErrCode> {
    if depth as int >= m.st.control.len() {
        Err(ErrCode::Structure { cause: StructuralCause::BadBranchDepth })
    } else {
        let idx = m.st.control.len() - 1 - depth as int;
        let fr = m.st.control[idx];
        if fr.kind is Dead {
            Err(ErrCode::Structure { cause: StructuralCause::BadBranchDepth })
        } else {
            match take_operands(m.st, seq![IrType::Int32]) {
                Err(e) => Err(e),
                Ok((cids, st1)) => {
                    if fr.kind is Function {
                        if !stack_tops(st1, fr.results) {
                            Err(operands_err(st1, fr.results))
                        } else {
                            let args = ids_of(top_vals(st1, fr.results.len() as int));
                            let (f1, ret_block) = m_return_block(m.f, fr.results);
                            let (f2, cont) = m_create_block(f1, Seq::empty());
                            let f3 = m_set_term(
                                f2,
                                TerminatorM::CondBr {
                                    cond: cids[0],
                                    then_to: BranchTargetM { block: ret_block, args },
                                    else_to: BranchTargetM { block: cont, args: Seq::empty() },
                                },
                            );
                            Ok(
                                TransM {
                                    st: StateM {
                                        stack: st1.stack,
                                        control: m.st.control,
                                        reachable: true,
                                    },
                                    f: m_switch(f3, cont),
                                },
                            )
                        }
                    } else {
                        let (target, tys) = br_target(fr);
                        if !stack_tops(st1, tys) {
                            Err(operands_err(st1, tys))
                        } else {
                        let args = ids_of(top_vals(st1, tys.len() as int));
                        let (f1, cont) = m_create_block(m.f, Seq::empty());
                        let f2 = m_set_term(
                            f1,
                            TerminatorM::CondBr {
                                cond: cids[0],
                                then_to: BranchTargetM { block: target, args },
                                else_to: BranchTargetM { block: cont, args: Seq::empty() },
                            },
                        );
                        Ok(
                            TransM {
                                st: StateM {
                                    stack: st1.stack,
                                    control: st1.control.update(
                                        idx,
                                        ControlFrameM { branched_to: true, ..fr },
                                    ),
                                    reachable: true,
                                },
                                f: m_switch(f2, cont),
                            },
                        )
                        }
                    }
                },
            }
        }
    }
}

/// What `return` does: a branch to the function's own exit, passing the
/// top result values.
pub open spec fn step_return(m: TransM) -> Result<TransM, ErrCode> {
    if m.st.control.len() == 0 {
        Err(ErrCode::Structure { cause: StructuralCause::UnmatchedEnd })
    } else {
        let fr = m.st.control[0];
        if !(fr.kind is Function) {
            Err(ErrCode::Structure { cause: StructuralCause::BadBranchDepth })
        } else {
            match take_operands(m.st, fr.results) {
                Err(e) => Err(e),
                Ok((ids, st1)) => Ok(
                    TransM {
                        st: StateM { stack: st1.stack, control: m.st.control, reachable: false },
                        f: m_set_term(m.f, TerminatorM::Return { values: ids }),
                    },
                ),
            }
        }
    }
}

/// The argument-marshaling instructions of a call, one per argument id,
/// in order.
pub open spec fn m_emit_args(f: IrFunctionM, ids: Seq<usize>) -> IrFunctionM
    decreases ids.len(),
{
    if ids.len() == 0 {
        f
    } else {
        m_emit_void(m_emit_args(f, ids.drop_last()), IrOp::Arg, ids.last(), 0)
    }
}

/// What a direct call does: resolve the callee through the environment,
/// pop its parameters, marshal them, emit the call, push its results.
pub open spec fn step_call(m: TransM, function: u32, env: Environment) -> Result<TransM, ErrCode> {
    if function as int >= env.functions@.len() {
        Err(ErrCode::Resolution { kind: EntityKind::Function, index: function })
    } else if env.functions@[function as int] >= env.signatures@.len() {
        Err(ErrCode::Resolution { kind: EntityKind::Signature, index: function })
    } else {
        let sidx = env.functions@[function as int];
        let sig = env.signatures@[sidx as int];
        let ptys = spec_map_types(sig.params@, env.ptr);
        let rtys = spec_map_types(sig.results@, env.ptr);
        match take_operands(m.st, ptys) {
            Err(e) => Err(e),
            Ok((ids, st1)) => {
                let f1 = m_emit_args(m.f, ids);
                let (f2, vs) = m_emit_call(
                    f1,
                    IrOp::Call {
                        func: function as usize,
                        sig: sidx,
                        num_args: ptys.len() as usize,
                        num_results: rtys.len() as usize,
                    },
                    0,
                    rtys,
                );
                Ok(TransM { st: st_push_all(st1, vs), f: f2 })
            },
        }
    }
}

/// What an indirect call does: resolve the table and expected signature,
/// pop the 32-bit callee index, emit the checked signature-verified
/// dispatch address, pop and marshal the parameters, emit the call, push
/// its results.
pub open spec fn step_call_indirect(m: TransM, table: u32, sig: u32, env: Environment) -> Result<
    TransM,
    ErrCode,
> {
    if table as int >= env.tables@.len() {
        Err(ErrCode::Resolution { kind: EntityKind::Table, index: table })
    } else if sig as int >= env.signatures@.len() {
        Err(ErrCode::Resolution { kind: EntityKind::Signature, index: sig })
    } else {
        let signature = env.signatures@[sig as int];
        let ptys = spec_map_types(signature.params@, env.ptr);
        let rtys = spec_map_types(signature.results@, env.ptr);
        match take_operands(m.st, seq![IrType::Int32]) {
            Err(e) => Err(e),
            Ok((cids, st1)) => match take_operands(st1, ptys) {
                Err(e) => Err(e),
                Ok((ids, st2)) => {
                    let (f1, target) = m_indirect_target(
                        m.f,
                        env,
                        table as usize,
                        sig as usize,
                        cids[0],
                    );
                    let f2 = m_emit_args(f1, ids);
                    let (f3, vs) = m_emit_call(
                        f2,
                        IrOp::CallIndirect {
                            sig: sig as usize,
                            num_args: ptys.len() as usize,
                            num_results: rtys.len() as usize,
                        },
                        target.id,
                        rtys,
                    );
                    Ok(TransM { st: st_push_all(st2, vs), f: f3 })
                },
            },
        }
    }
}

/// The direction, value type, access size and immediate offset of a
/// memory-access opcode.
pub open spec fn spec_memop_class(op: Operator) -> Option<(bool, IrType, u32, u32)> {
    match op {
        Operator::I32Load { offset } => Some((false, IrType::Int32, 4, offset)),
        Operator::I64Load { offset } => Some((false, IrType::Int64, 8, offset)),
        Operator::I32Store { offset } => Some((true, IrType::Int32, 4, offset)),
        Operator::I64Store { offset } => Some((true, IrType::Int64, 8, offset)),
        _ => None,
    }
}

/// The direction, value type, access size and immediate offset of a
/// memory-access opcode.
pub fn memop_class(op: &Operator) -> (r: Option<(bool, IrType, u32, u32)>)
    ensures
        r == spec_memop_class(*op),
{
    match op {
        Operator::I32Load { offset } => Some((false, IrType::Int32, 4, *offset)),
        Operator::I64Load { offset } => Some((false, IrType::Int64, 8, *offset)),
        Operator::I32Store { offset } => Some((true, IrType::Int32, 4, *offset)),
        Operator::I64Store { offset } => Some((true, IrType::Int64, 8, *offset)),
        _ => None,
    }
}

/// What a memory access does: resolve the (sole) linear memory, pop the
/// 32-bit index (and, for a store, the value), emit the inline-checked
/// address, then the load or store through it.
pub open spec fn step_memop(
    m: TransM,
    is_store: bool,
    ty: IrType,
    size: u32,
    offset: u32,
    env: Environment,
) -> Result<TransM, ErrCode> {
    if env.memories@.len() == 0 {
        Err(ErrCode::Resolution { kind: EntityKind::Memory, index: 0 })
    } else if is_store {
        match take_operands(m.st, seq![IrType::Int32, ty]) {
            Err(e) => Err(e),
            Ok((ids, st1)) => {
                let (f1, addr) = m_heap_addr(m.f, env, 0, offset, size, ids[0]);
                Ok(TransM { st: st1, f: m_emit_void(f1, IrOp::Store, addr.id, ids[1]) })
            },
        }
    } else {
        match take_operands(m.st, seq![IrType::Int32]) {
            Err(e) => Err(e),
            Ok((ids, st1)) => {
                let (f1, addr) = m_heap_addr(m.f, env, 0, offset, size, ids[0]);
                let (f2, v) = m_emit(f1, IrOp::Load { ty }, addr.id, 0, ty);
                Ok(TransM { st: st_push(st1, v), f: f2 })
            },
        }
    }
}

/// What `global.get` and `global.set` do, through the environment's
/// resolution of the global.
pub open spec fn step_global_get(m: TransM, global: u32, env: Environment) -> Result<
    TransM,
    ErrCode,
> {
    if global as int >= env.globals@.len() {
        Err(ErrCode::Resolution { kind: EntityKind::Global, index: global })
    } else {
        let (f1, v) = m_global_get(m.f, env, global as int);
        Ok(TransM { st: st_push(m.st, v), f: f1 })
    }
}

/// What `global.set` does: only a mutable, context-resident global can
/// be written; the popped value must carry the global's type.
pub open spec fn step_global_set(m: TransM, global: u32, env: Environment) -> Result<
    TransM,
    ErrCode,
> {
    if global as int >= env.globals@.len() {
        Err(ErrCode::Resolution { kind: EntityKind::Global, index: global })
    } else if !env.globals@[global as int].mutable {
        Err(ErrCode::Structure { cause: StructuralCause::ImmutableGlobal })
    } else {
        match env.globals@[global as int].storage {
            GlobalStorage::Constant { .. } => Err(
                ErrCode::Resolution { kind: EntityKind::Global, index: global },
            ),
            GlobalStorage::Context { offset } => {
                match take_operands(m.st, seq![global_ir_ty(env, global as int)]) {
                    Err(e) => Err(e),
                    Ok((ids, st1)) => Ok(
                        TransM { st: st1, f: m_global_set(m.f, env, offset, ids[0]) },
                    ),
                }
            },
        }
    }
}


/// What `block` does: open a construct whose merge block carries the
/// declared results.
pub open spec fn step_block(m: TransM, results: Seq<WasmType>, env: Environment) -> Result<
    TransM,
    ErrCode,
> {
    let rtys = spec_map_types(results, env.ptr);
    let (f1, dest) = m_create_block(m.f, rtys);
    Ok(
        TransM {
            st: StateM {
                control: m.st.control.push(
                    ControlFrameM {
                        kind: FrameKind::Block,
                        dest,
                        results: rtys,
                        height: m.st.stack.len() as usize,
                        branched_to: false,
                    },
                ),
                ..m.st
            },
            f: f1,
        },
    )
}

/// What `loop` does: open a construct with a header block that branches
/// re-enter, falling into it from the code before.
pub open spec fn step_loop(m: TransM, results: Seq<WasmType>, env: Environment) -> Result<
    TransM,
    ErrCode,
> {
    let rtys = spec_map_types(results, env.ptr);
    let (f1, header) = m_create_block(m.f, Seq::empty());
    let (f2, dest) = m_create_block(f1, rtys);
    let f3 = m_set_term(
        f2,
        TerminatorM::Jump { to: BranchTargetM { block: header, args: Seq::empty() } },
    );
    let f4 = m_switch(f3, header);
    Ok(
        TransM {
            st: StateM {
                control: m.st.control.push(
                    ControlFrameM {
                        kind: FrameKind::Loop { header },
                        dest,
                        results: rtys,
                        height: m.st.stack.len() as usize,
                        branched_to: false,
                    },
                ),
                ..m.st
            },
            f: f4,
        },
    )
}

/// What `if` does: pop the 32-bit condition and emit a conditional side
/// exit to a fresh alternate block; the then arm goes on in the current
/// block, and a merge block receives the construct's results.
pub open spec fn step_if(m: TransM, results: Seq<WasmType>, env: Environment) -> Result<
    TransM,
    ErrCode,
> {
    match take_operands(m.st, seq![IrType::Int32]) {
        Err(e) => Err(e),
        Ok((cids, st1)) => {
            let rtys = spec_map_types(results, env.ptr);
            let (f1, else_block) = m_create_block(m.f, Seq::empty());
            let (f2, dest) = m_create_block(f1, rtys);
            let f3 = m_emit_void(f2, IrOp::Brz { target: else_block }, cids[0], 0);
            Ok(
                TransM {
                    st: StateM {
                        stack: st1.stack,
                        control: st1.control.push(
                            ControlFrameM {
                                kind: FrameKind::If { else_block, else_seen: false },
                                dest,
                                results: rtys,
                                height: st1.stack.len() as usize,
                                branched_to: false,
                            },
                        ),
                        reachable: true,
                    },
                    f: f3,
                },
            )
        },
    }
}


/// Whether a computed-branch entry names an open, live construct.
pub open spec fn btable_entry_ok(m: TransM, d: u32) -> bool {
    &&& (d as int) < m.st.control.len()
    &&& !(m.st.control[m.st.control.len() - 1 - d as int].kind is Dead)
}

/// The boundary types a computed-branch entry carries.
pub open spec fn btable_types(m: TransM, d: u32) -> Seq<IrType> {
    let fr = m.st.control[m.st.control.len() - 1 - d as int];
    match fr.kind {
        FrameKind::Loop { .. } => Seq::empty(),
        _ => fr.results,
    }
}

/// The block a computed-branch entry jumps to, `ret_blk` standing for the
/// return trampoline of an entry naming the outermost construct.
pub open spec fn btable_block(m: TransM, d: u32, ret_blk: usize) -> usize {
    let fr = m.st.control[m.st.control.len() - 1 - d as int];
    match fr.kind {
        FrameKind::Function => ret_blk,
        FrameKind::Loop { header } => header,
        _ => fr.dest,
    }
}

/// Whether any entry of a computed branch names the outermost construct.
pub open spec fn btable_uses_function(m: TransM, depths: Seq<u32>, default: u32) -> bool {
    ||| m.st.control[m.st.control.len() - 1 - default as int].kind is Function
    ||| exists|j: int|
        0 <= j < depths.len() && m.st.control[
            m.st.control.len() - 1 - depths[j] as int
        ].kind is Function
}

/// Every construct a computed branch names, marked as branched to.
pub open spec fn btable_marks(m: TransM, depths: Seq<u32>, default: u32) -> Seq<ControlFrameM> {
    Seq::new(
        m.st.control.len(),
        |i: int|
            if i == m.st.control.len() - 1 - default as int || (exists|j: int|
                0 <= j < depths.len() && i == m.st.control.len() - 1 - depths[j] as int) {
                ControlFrameM { branched_to: true, ..m.st.control[i] }
            } else {
                m.st.control[i]
            },
    )
}

/// What `br_table` does: pop the 32-bit selector and emit a computed
/// branch.  Each entry and the default name an enclosing construct by
/// relative depth; all must carry the same boundary types, and every edge
/// receives the same top stack values.  An entry naming the outermost
/// construct leaves through a return trampoline.  The default path is
/// unreachable afterwards.
pub open spec fn step_br_table(m: TransM, depths: Seq<u32>, default: u32) -> Result<
    TransM,
    ErrCode,
> {
    if !btable_entry_ok(m, default) {
        Err(ErrCode::Structure { cause: StructuralCause::BadBranchDepth })
    } else if exists|j: int| 0 <= j < depths.len() && !btable_entry_ok(m, depths[j]) {
        Err(ErrCode::Structure { cause: StructuralCause::BadBranchDepth })
    } else if exists|j: int|
        0 <= j < depths.len() && btable_types(m, depths[j]) != btable_types(m, default) {
        Err(ErrCode::Structure { cause: StructuralCause::BranchArityMismatch })
    } else {
        let tys = btable_types(m, default);
        match take_operands(m.st, seq![IrType::Int32]) {
            Err(e) => Err(e),
            Ok((sids, st1)) => {
                if !stack_tops(st1, tys) {
                    Err(operands_err(st1, tys))
                } else {
                    let args = ids_of(top_vals(st1, tys.len() as int));
                    let (f1, ret_blk) = if btable_uses_function(m, depths, default) {
                        m_return_block(m.f, tys)
                    } else {
                        (m.f, 0)
                    };
                    let f2 = m_set_term(
                        f1,
                        TerminatorM::BrTable {
                            selector: sids[0],
                            targets: Seq::new(
                                depths.len(),
                                |j: int| BranchTargetM {
                                    block: btable_block(m, depths[j], ret_blk),
                                    args,
                                },
                            ),
                            default_to: BranchTargetM {
                                block: btable_block(m, default, ret_blk),
                                args,
                            },
                        },
                    );
                    Ok(
                        TransM {
                            st: StateM {
                                stack: st_pop(st1, tys.len() as int).stack,
                                control: btable_marks(m, depths, default),
                                reachable: false,
                            },
                            f: f2,
                        },
                    )
                }
            },
        }
    }
}

/// What one opcode does to the whole translation: the defining model of
/// the code translator.
pub open spec fn step(m: TransM, op: Operator, env: Environment) -> Result<TransM, ErrCode> {
    if !m.st.reachable {
        step_dead(m, op)
    } else {
        match spec_const_class(op) {
            Some((cop, ty)) => step_const(m, cop, ty),
            None => match spec_binop_class(op) {
                Some((in_ty, out_ty, irop)) => step_binop(m, in_ty, out_ty, irop),
                None => step_other(m, op, env),
            },
        }
    }
}

/// The remaining opcode families at a reachable point.
pub open spec fn step_other(m: TransM, op: Operator, env: Environment) -> Result<TransM, ErrCode> {
    match op {
        Operator::Nop => Ok(m),
        Operator::Drop => {
            if m.st.stack.len() <= frame_limit(m.st) {
                Err(ErrCode::Structure { cause: StructuralCause::OperandStackUnderflow })
            } else {
                Ok(TransM { st: st_pop(m.st, 1), ..m })
            }
        },
        Operator::LocalGet { local } => {
            if local >= m.f.vars.len() {
                Err(ErrCode::Structure { cause: StructuralCause::BadLocalIndex })
            } else {
                let ty = m.f.vars[local as int];
                let (f1, v) = m_emit(m.f, IrOp::GetVar { index: local as usize }, 0, 0, ty);
                Ok(TransM { st: st_push(m.st, v), f: f1 })
            }
        },
        Operator::LocalSet { local } => {
            if local >= m.f.vars.len() {
                Err(ErrCode::Structure { cause: StructuralCause::BadLocalIndex })
            } else {
                match take_operands(m.st, seq![m.f.vars[local as int]]) {
                    Err(e) => Err(e),
                    Ok((ids, st1)) => Ok(
                        TransM {
                            st: st1,
                            f: m_emit_void(m.f, IrOp::SetVar { index: local as usize }, ids[0], 0),
                        },
                    ),
                }
            }
        },
        Operator::LocalTee { local } => {
            if local >= m.f.vars.len() {
                Err(ErrCode::Structure { cause: StructuralCause::BadLocalIndex })
            } else if !stack_tops(m.st, seq![m.f.vars[local as int]]) {
                Err(operands_err(m.st, seq![m.f.vars[local as int]]))
            } else {
                let id = ids_of(top_vals(m.st, 1))[0];
                Ok(
                    TransM {
                        st: m.st,
                        f: m_emit_void(m.f, IrOp::SetVar { index: local as usize }, id, 0),
                    },
                )
            }
        },
        Operator::Unreachable => Ok(
            TransM {
                st: StateM { reachable: false, ..m.st },
                f: m_set_term(m.f, TerminatorM::Trap { code: TrapCode::UnreachableCodeReached }),
            },
        ),
        Operator::Else => step_else(m),
        Operator::End => step_end(m),
        Operator::Block { results } => step_block(m, results@, env),
        Operator::Loop { results } => step_loop(m, results@, env),
        Operator::If { results } => step_if(m, results@, env),
        Operator::Br { depth } => step_br(m, depth),
        Operator::BrIf { depth } => step_br_if(m, depth),
        Operator::BrTable { depths, default } => step_br_table(m, depths@, default),
        Operator::Return => step_return(m),
        Operator::Call { function } => step_call(m, function, env),
        Operator::CallIndirect { table, sig } => step_call_indirect(m, table, sig, env),
        Operator::GlobalGet { global } => step_global_get(m, global, env),
        Operator::GlobalSet { global } => step_global_set(m, global, env),
        _ => match spec_memop_class(op) {
            Some((is_store, ty, size, offset)) => step_memop(m, is_store, ty, size, offset, env),
            None => Err(ErrCode::Unsupported { fundamental: false }),
        },
    }
}

/// Translates one opcode, as [`step`] defines.
pub fn translate_operator(
    state: &mut FuncTranslationState,
    f: &mut IrFunction,
    op: &Operator,
    env: &Environment,
) -> (r: Result<(), ErrCode>)
    requires
        trans_wf(TransM { st: old(state)@, f: old(f)@ }),
    ensures
        match r {
            Ok(()) => step(TransM { st: old(state)@, f: old(f)@ }, *op, *env) == Ok::<TransM, ErrCode>(
                TransM { st: final(state)@, f: final(f)@ },
            ),
            Err(e) => step(TransM { st: old(state)@, f: old(f)@ }, *op, *env) == Err::<TransM, ErrCode>(e),
        },
{
    let ghost m0 = TransM { st: state@, f: f@ };
    if !state.reachable {
        return translate_dead_operator(state, f, op);
    }
    if let Some((cop, ty)) = const_class(op) {
        let v = f.emit(cop, 0, 0, ty);
        state.push1(v);
        proof {
            assert(step(m0, *op, *env) == Ok::<TransM, ErrCode>(TransM { st: state@, f: f@ }));
        }
        return Ok(());
    }
    if let Some((in_ty, out_ty, irop)) = binop_class(op) {
        let mut tys: Vec<IrType> = Vec::new();
        tys.push(in_ty);
        tys.push(in_ty);
        proof {
            assert(tys@ =~= seq![in_ty, in_ty]);
        }
        if let Some(e) = state.tops_match(&tys) {
            return Err(e);
        }
        let ids = state.top_ids(2);
        state.drop_tops(2);
        let v = f.emit(irop, ids[0], ids[1], out_ty);
        state.push1(v);
        proof {
            assert(step(m0, *op, *env) == Ok::<TransM, ErrCode>(TransM { st: state@, f: f@ }));
        }
        return Ok(());
    }
    translate_other_operator(state, f, op, env)
}

/// Translates one opcode at an unreachable point, as [`step_dead`]
/// defines.
fn translate_dead_operator(
    state: &mut FuncTranslationState,
    f: &mut IrFunction,
    op: &Operator,
) -> (r: Result<(), ErrCode>)
    requires
        !old(state)@.reachable,
        trans_wf(TransM { st: old(state)@, f: old(f)@ }),
    ensures
        match r {
            Ok(()) => step_dead(TransM { st: old(state)@, f: old(f)@ }, *op) == Ok::<TransM, ErrCode>(
                TransM { st: final(state)@, f: final(f)@ },
            ),
            Err(e) => step_dead(TransM { st: old(state)@, f: old(f)@ }, *op) == Err::<TransM, ErrCode>(e),
        },
{
    let ghost m0 = TransM { st: state@, f: f@ };
    match op {
        Operator::Block { .. } | Operator::Loop { .. } => {
            let height = state.stack.len();
            state.push_frame(
                ControlFrame {
                    kind: FrameKind::Dead { is_if: false, else_seen: false },
                    dest: 0,
                    results: Vec::new(),
                    height,
                    branched_to: false,
                },
            );
            proof {
                assert(step_dead(m0, *op) == Ok::<TransM, ErrCode>(TransM { st: state@, f: f@ }));
            }
            Ok(())
        },
        Operator::If { .. } => {
            let height = state.stack.len();
            state.push_frame(
                ControlFrame {
                    kind: FrameKind::Dead { is_if: true, else_seen: false },
                    dest: 0,
                    results: Vec::new(),
                    height,
                    branched_to: false,
                },
            );
            proof {
                assert(step_dead(m0, *op) == Ok::<TransM, ErrCode>(TransM { st: state@, f: f@ }));
            }
            Ok(())
        },
        Operator::Else => translate_else(state, f),
        Operator::End => translate_end(state, f),
        _ => {
            proof {
                assert(step_dead(m0, *op) == Ok::<TransM, ErrCode>(TransM { st: state@, f: f@ }));
            }
            Ok(())
        },
    }
}

/// Seals an abandoned unreachable block that never got a terminator.
fn seal_dead(f: &mut IrFunction)
    requires
        old(f)@.current < old(f)@.blocks.len(),
    ensures
        final(f)@ == m_seal_dead(old(f)@),
{
    let cur = f.current;
    if f.blocks[cur].term.is_none() {
        f.set_term(Terminator::Trap { code: TrapCode::UnreachableCodeReached });
    }
}

/// Creates the return trampoline of [`m_return_block`].
fn return_block(f: &mut IrFunction, rtys: &Vec<IrType>) -> (b: usize)
    requires
        old(f)@.current < old(f)@.blocks.len(),
    ensures
        (final(f)@, b) == m_return_block(old(f)@, rtys@),
        final(f)@.current == old(f)@.current,
{
    let cur = f.current;
    let b = f.create_block(rtys);
    f.switch_to_block(b);
    let rids = param_ids(f, b);
    f.set_term(Terminator::Return { values: rids });
    f.switch_to_block(cur);
    b
}

/// Translates `else`, as [`step_else`] defines.
fn translate_else(state: &mut FuncTranslationState, f: &mut IrFunction) -> (r: Result<
    (),
    ErrCode,
>)
    requires
        trans_wf(TransM { st: old(state)@, f: old(f)@ }),
    ensures
        match r {
            Ok(()) => step_else(TransM { st: old(state)@, f: old(f)@ }) == Ok::<TransM, ErrCode>(
                TransM { st: final(state)@, f: final(f)@ },
            ),
            Err(e) => step_else(TransM { st: old(state)@, f: old(f)@ }) == Err::<TransM, ErrCode>(e),
        },
{
    let ghost m0 = TransM { st: state@, f: f@ };
    if state.control.len() == 0 {
        return Err(ErrCode::Structure { cause: StructuralCause::UnmatchedElse });
    }
    let last = state.control.len() - 1;
    let fr_kind = state.control[last].kind;
    let fr_dest = state.control[last].dest;
    let fr_height = state.control[last].height;
    proof {
        assert(m0.st.control.last() == state.control@[last as int]@);
    }
    match fr_kind {
        FrameKind::Dead { is_if, else_seen } => {
            if !is_if || else_seen {
                return Err(ErrCode::Structure { cause: StructuralCause::UnmatchedElse });
            }
            state.control[last].kind = FrameKind::Dead { is_if: true, else_seen: true };
            proof {
                assert(state@.control =~= m0.st.control.update(
                    m0.st.control.len() - 1,
                    ControlFrameM {
                        kind: FrameKind::Dead { is_if: true, else_seen: true },
                        ..m0.st.control.last()
                    },
                ));
                assert(step_else(m0) == Ok::<TransM, ErrCode>(TransM { st: state@, f: f@ }));
            }
            Ok(())
        },
        FrameKind::If { else_block, else_seen } => {
            if else_seen {
                return Err(ErrCode::Structure { cause: StructuralCause::UnmatchedElse });
            }
            if state.reachable {
                let check = state.tops_match(&state.control[last].results);
                if let Some(e) = check {
                    return Err(e);
                }
                let n = state.control[last].results.len();
                let ids = state.top_ids(n);
                f.set_term(Terminator::Jump { to: BranchTarget { block: fr_dest, args: ids } });
                f.switch_to_block(else_block);
                state.stack.truncate(fr_height);
                state.control[last].kind = FrameKind::If { else_block, else_seen: true };
                state.control[last].branched_to = true;
                proof {
                    assert(state@.control =~= m0.st.control.update(
                        m0.st.control.len() - 1,
                        ControlFrameM {
                            kind: FrameKind::If { else_block, else_seen: true },
                            branched_to: true,
                            ..m0.st.control.last()
                        },
                    ));
                    assert(state@.stack =~= m0.st.stack.take(fr_height as int));
                    assert(step_else(m0) == Ok::<TransM, ErrCode>(TransM { st: state@, f: f@ }));
                }
                Ok(())
            } else {
                seal_dead(f);
                f.switch_to_block(else_block);
                state.stack.truncate(fr_height);
                state.control[last].kind = FrameKind::If { else_block, else_seen: true };
                state.reachable = true;
                proof {
                    assert(state@.control =~= m0.st.control.update(
                        m0.st.control.len() - 1,
                        ControlFrameM {
                            kind: FrameKind::If { else_block, else_seen: true },
                            ..m0.st.control.last()
                        },
                    ));
                    assert(state@.stack =~= m0.st.stack.take(fr_height as int));
                    assert(step_else(m0) == Ok::<TransM, ErrCode>(TransM { st: state@, f: f@ }));
                }
                Ok(())
            }
        },
        _ => Err(ErrCode::Structure { cause: StructuralCause::UnmatchedElse }),
    }
}

/// Pushes block `b`'s parameters onto the operand stack: they are the
/// merged values a construct yields to the code after it.
fn push_params_of(state: &mut FuncTranslationState, f: &IrFunction, b: usize)
    requires
        b < f@.blocks.len(),
    ensures
        final(state)@.stack == old(state)@.stack + f@.blocks[b as int].params,
        final(state)@.control == old(state)@.control,
        final(state)@.reachable == old(state)@.reachable,
{
    let params = &f.blocks[b].params;
    let mut i: usize = 0;
    while i < params.len()
        invariant
            i <= params@.len(),
            params@ == f@.blocks[b as int].params,
            state.control == old(state).control,
            state.reachable == old(state).reachable,
            state.stack@ =~= old(state).stack@ + params@.take(i as int),
        decreases params@.len() - i,
    {
        state.stack.push(params[i]);
        proof {
            assert(state.stack@ =~= old(state).stack@ + params@.take(i + 1));
        }
        i = i + 1;
    }
    proof {
        assert(state@.stack =~= old(state)@.stack + f@.blocks[b as int].params);
        assert(state@.control =~= old(state)@.control);
    }
}

/// The ids of block `b`'s parameters, in order.
fn param_ids(f: &IrFunction, b: usize) -> (r: Vec<usize>)
    requires
        b < f@.blocks.len(),
    ensures
        r@ == ids_of(f@.blocks[b as int].params),
{
    let params = &f.blocks[b].params;
    let mut r: Vec<usize> = Vec::new();
    let mut i: usize = 0;
    while i < params.len()
        invariant
            i <= params@.len(),
            params@ == f@.blocks[b as int].params,
            r@ =~= ids_of(params@.take(i as int)),
        decreases params@.len() - i,
    {
        r.push(params[i].id);
        proof {
            assert(r@ =~= ids_of(params@.take(i + 1)));
        }
        i = i + 1;
    }
    proof {
        assert(r@ =~= ids_of(f@.blocks[b as int].params));
    }
    r
}

/// Translates `end`, as [`step_end`] defines.
fn translate_end(state: &mut FuncTranslationState, f: &mut IrFunction) -> (r: Result<(), ErrCode>)
    requires
        trans_wf(TransM { st: old(state)@, f: old(f)@ }),
    ensures
        match r {
            Ok(()) => step_end(TransM { st: old(state)@, f: old(f)@ }) == Ok::<TransM, ErrCode>(
                TransM { st: final(state)@, f: final(f)@ },
            ),
            Err(e) => step_end(TransM { st: old(state)@, f: old(f)@ }) == Err::<TransM, ErrCode>(e),
        },
{
    let ghost m0 = TransM { st: state@, f: f@ };
    if state.control.len() == 0 {
        return Err(ErrCode::Structure { cause: StructuralCause::UnmatchedEnd });
    }
    let last = state.control.len() - 1;
    proof {
        assert(m0.st.control.last() == state.control@[last as int]@);
        assert(frame_wf(m0.st.control.last(), m0.f));
    }
    let fr_is_function = match state.control[last].kind {
        FrameKind::Function => true,
        _ => false,
    };
    let fr_is_dead = match state.control[last].kind {
        FrameKind::Dead { .. } => true,
        _ => false,
    };
    if fr_is_dead {
        let _ = state.control.pop();
        proof {
            assert(state@.control =~= m0.st.control.drop_last());
            assert(step_end(m0) == Ok::<TransM, ErrCode>(TransM { st: state@, f: f@ }));
        }
        return Ok(());
    }
    if fr_is_function {
        if state.reachable {
            let check = state.tops_match(&state.control[last].results);
            if let Some(e) = check {
                return Err(e);
            }
            let n = state.control[last].results.len();
            let ids = state.top_ids(n);
            f.set_term(Terminator::Return { values: ids });
        } else {
            seal_dead(f);
        }
        let fr = match state.control.pop() {
            Some(fr) => fr,
            None => {
                return Err(ErrCode::Structure { cause: StructuralCause::UnmatchedEnd });
            },
        };
        state.stack.truncate(fr.height);
        state.reachable = false;
        proof {
            assert(state@.control =~= m0.st.control.drop_last());
            assert(state@.stack =~= m0.st.stack.take(fr@.height as int));
            let ghost mr = step_end(m0)->Ok_0;
            assert(state@ =~= mr.st);
            assert(f@ =~= mr.f);
            assert(step_end(m0) == Ok::<TransM, ErrCode>(TransM { st: state@, f: f@ }));
        }
        return Ok(());
    }
    // A block, loop or conditional: merge into its destination block.
    let needs_implicit_else = match state.control[last].kind {
        FrameKind::If { else_seen, .. } => !else_seen,
        _ => false,
    };
    if needs_implicit_else && state.control[last].results.len() != 0 {
        return Err(ErrCode::Structure { cause: StructuralCause::TypeMismatch });
    }
    let reach0 = state.reachable;
    if reach0 {
        let check = state.tops_match(&state.control[last].results);
        if let Some(e) = check {
            return Err(e);
        }
        let n = state.control[last].results.len();
        let ids = state.top_ids(n);
        let dest = state.control[last].dest;
        f.set_term(Terminator::Jump { to: BranchTarget { block: dest, args: ids } });
    } else {
        seal_dead(f);
    }
    let fr = match state.control.pop() {
        Some(fr) => fr,
        None => {
            return Err(ErrCode::Structure { cause: StructuralCause::UnmatchedEnd });
        },
    };
    proof {
        assert(state@.control =~= m0.st.control.drop_last());
        assert(fr@ == m0.st.control.last());
    }
    if needs_implicit_else {
        let eb = match fr.kind {
            FrameKind::If { else_block, .. } => else_block,
            _ => 0,
        };
        f.switch_to_block(eb);
        f.set_term(Terminator::Jump { to: BranchTarget { block: fr.dest, args: Vec::new() } });
    }
    let used = match fr.kind {
        FrameKind::Block => reach0 || fr.branched_to,
        FrameKind::Loop { .. } => reach0,
        FrameKind::If { else_seen, .. } => reach0 || fr.branched_to || !else_seen,
        _ => false,
    };
    proof {
        assert(used == end_dest_used(fr@, m0.st.reachable));
    }
    f.switch_to_block(fr.dest);
    state.stack.truncate(fr.height);
    if used {
        push_params_of(state, f, fr.dest);
        state.reachable = true;
    } else {
        state.reachable = false;
    }
    proof {
        let ghost mr = step_end(m0)->Ok_0;
        assert(state@.stack =~= mr.st.stack);
        assert(state@ =~= mr.st);
        assert(f@ =~= mr.f);
        assert(step_end(m0) == Ok::<TransM, ErrCode>(TransM { st: state@, f: f@ }));
    }
    Ok(())
}


/// Emits the argument-marshaling instructions of a call, in order.
fn emit_args(f: &mut IrFunction, ids: &Vec<usize>)
    requires
        old(f)@.current < old(f)@.blocks.len(),
    ensures
        final(f)@ == m_emit_args(old(f)@, ids@),
        final(f)@.current == old(f)@.current,
        final(f)@.blocks.len() == old(f)@.blocks.len(),
        final(f)@.value_types == old(f)@.value_types,
{
    let mut i: usize = 0;
    while i < ids.len()
        invariant
            i <= ids@.len(),
            f@ == m_emit_args(old(f)@, ids@.take(i as int)),
            f@.current == old(f)@.current,
            f@.current < f@.blocks.len(),
            f@.blocks.len() == old(f)@.blocks.len(),
            f@.value_types == old(f)@.value_types,
        decreases ids@.len() - i,
    {
        f.emit_void(IrOp::Arg, ids[i], 0);
        proof {
            assert(ids@.take(i + 1).drop_last() =~= ids@.take(i as int));
            assert(ids@.take(i + 1).last() == ids@[i as int]);
            assert(f@ == m_emit_args(old(f)@, ids@.take(i + 1)));
        }
        i = i + 1;
    }
    proof {
        assert(ids@.take(ids@.len() as int) =~= ids@);
    }
}

/// Pushes the `tys`-typed values whose ids start at `base` — the results
/// a call defines.
fn push_made_values(state: &mut FuncTranslationState, base: usize, tys: &Vec<IrType>)
    requires
        base + tys@.len() <= usize::MAX,
    ensures
        final(state)@.stack == old(state)@.stack + crate::ir::mk_param_values(base as int, tys@),
        final(state)@.control == old(state)@.control,
        final(state)@.reachable == old(state)@.reachable,
{
    let mut i: usize = 0;
    while i < tys.len()
        invariant
            i <= tys@.len(),
            base + tys@.len() <= usize::MAX,
            state.stack@ =~= old(state).stack@ + crate::ir::mk_param_values(
                base as int,
                tys@.take(i as int),
            ),
            state.control == old(state).control,
            state.reachable == old(state).reachable,
        decreases tys@.len() - i,
    {
        state.stack.push(Value { id: base + i, ty: tys[i] });
        proof {
            assert(state.stack@ =~= old(state).stack@ + crate::ir::mk_param_values(
                base as int,
                tys@.take(i + 1),
            ));
        }
        i = i + 1;
    }
    proof {
        assert(tys@.take(tys@.len() as int) =~= tys@);
        assert(state@.stack =~= old(state)@.stack + crate::ir::mk_param_values(base as int, tys@));
        assert(state@.control =~= old(state)@.control);
    }
}
/// Translates one opcode, as [`step_block`] defines.
#[verifier::rlimit(60)]
#[verifier::spinoff_prover]
fn translate_block(
    state: &mut FuncTranslationState,
    f: &mut IrFunction,
    env: &Environment,
    results: &Vec<WasmType>,
) -> (r: Result<(), ErrCode>)
    requires
        old(state)@.reachable,
        trans_wf(TransM { st: old(state)@, f: old(f)@ }),
    ensures
        match r {
            Ok(()) => step_block(TransM { st: old(state)@, f: old(f)@ }, results@, *env) == Ok::<TransM, ErrCode>(
                TransM { st: final(state)@, f: final(f)@ },
            ),
            Err(e) => step_block(TransM { st: old(state)@, f: old(f)@ }, results@, *env) == Err::<TransM, ErrCode>(e),
        },
{
    let ghost m0 = TransM { st: state@, f: f@ };
    let rtys = map_types(results, env.ptr_type());
    let dest = f.create_block(&rtys);
    state.push_block(dest, rtys);
    proof {
        assert(step_block(m0, results@, *env) == Ok::<TransM, ErrCode>(
            TransM { st: state@, f: f@ },
        ));
    }
    Ok(())

}

/// Translates one opcode, as [`step_loop`] defines.
#[verifier::rlimit(60)]
#[verifier::spinoff_prover]
fn translate_loop(
    state: &mut FuncTranslationState,
    f: &mut IrFunction,
    env: &Environment,
    results: &Vec<WasmType>,
) -> (r: Result<(), ErrCode>)
    requires
        old(state)@.reachable,
        trans_wf(TransM { st: old(state)@, f: old(f)@ }),
    ensures
        match r {
            Ok(()) => step_loop(TransM { st: old(state)@, f: old(f)@ }, results@, *env) == Ok::<TransM, ErrCode>(
                TransM { st: final(state)@, f: final(f)@ },
            ),
            Err(e) => step_loop(TransM { st: old(state)@, f: old(f)@ }, results@, *env) == Err::<TransM, ErrCode>(e),
        },
{
    let ghost m0 = TransM { st: state@, f: f@ };
    let rtys = map_types(results, env.ptr_type());
    let no_tys: Vec<IrType> = Vec::new();
    let header = f.create_block(&no_tys);
    let dest = f.create_block(&rtys);
    f.set_term(Terminator::Jump { to: BranchTarget { block: header, args: Vec::new() } });
    f.switch_to_block(header);
    state.push_loop(header, dest, rtys);
    proof {
        assert(no_tys@ =~= Seq::<IrType>::empty());
        assert(step_loop(m0, results@, *env) == Ok::<TransM, ErrCode>(
            TransM { st: state@, f: f@ },
        ));
    }
    Ok(())

}

/// Translates one opcode, as [`step_if`] defines.
#[verifier::rlimit(60)]
#[verifier::spinoff_prover]
fn translate_if(
    state: &mut FuncTranslationState,
    f: &mut IrFunction,
    env: &Environment,
    results: &Vec<WasmType>,
) -> (r: Result<(), ErrCode>)
    requires
        old(state)@.reachable,
        trans_wf(TransM { st: old(state)@, f: old(f)@ }),
    ensures
        match r {
            Ok(()) => step_if(TransM { st: old(state)@, f: old(f)@ }, results@, *env) == Ok::<TransM, ErrCode>(
                TransM { st: final(state)@, f: final(f)@ },
            ),
            Err(e) => step_if(TransM { st: old(state)@, f: old(f)@ }, results@, *env) == Err::<TransM, ErrCode>(e),
        },
{
    let ghost m0 = TransM { st: state@, f: f@ };
    let mut ctys: Vec<IrType> = Vec::new();
    ctys.push(IrType::Int32);
    proof {
        assert(ctys@ =~= seq![IrType::Int32]);
    }
    if let Some(e) = state.tops_match(&ctys) {
        return Err(e);
    }
    let cids = state.top_ids(1);
    state.drop_tops(1);
    let rtys = map_types(results, env.ptr_type());
    let no_tys: Vec<IrType> = Vec::new();
    let else_block = f.create_block(&no_tys);
    let dest = f.create_block(&rtys);
    f.emit_void(IrOp::Brz { target: else_block }, cids[0], 0);
    state.push_if(else_block, dest, rtys);
    proof {
        assert(no_tys@ =~= Seq::<IrType>::empty());
        assert(step_if(m0, results@, *env) == Ok::<TransM, ErrCode>(
            TransM { st: state@, f: f@ },
        ));
    }
    Ok(())

}

/// Translates one opcode, as [`step_br`] defines.
#[verifier::rlimit(60)]
#[verifier::spinoff_prover]
fn translate_br(
    state: &mut FuncTranslationState,
    f: &mut IrFunction,
    depth: u32,
) -> (r: Result<(), ErrCode>)
    requires
        old(state)@.reachable,
        trans_wf(TransM { st: old(state)@, f: old(f)@ }),
    ensures
        match r {
            Ok(()) => step_br(TransM { st: old(state)@, f: old(f)@ }, depth) == Ok::<TransM, ErrCode>(
                TransM { st: final(state)@, f: final(f)@ },
            ),
            Err(e) => step_br(TransM { st: old(state)@, f: old(f)@ }, depth) == Err::<TransM, ErrCode>(e),
        },
{
    let ghost m0 = TransM { st: state@, f: f@ };
    if depth as usize >= state.control.len() {
        return Err(ErrCode::Structure { cause: StructuralCause::BadBranchDepth });
    }
    let idx = state.control.len() - 1 - depth as usize;
    let fr_kind = state.control[idx].kind;
    proof {
        assert(m0.st.control[idx as int] == state.control@[idx as int]@);
    }
    let (target, use_results) = match fr_kind {
        FrameKind::Dead { .. } => {
            return Err(ErrCode::Structure { cause: StructuralCause::BadBranchDepth });
        },
        FrameKind::Function => {
            // A branch to the outermost construct is the return.
            if let Some(e) = state.tops_match(&state.control[idx].results) {
                return Err(e);
            }
            let n = state.control[idx].results.len();
            let ids = state.top_ids(n);
            state.drop_tops(n);
            f.set_term(Terminator::Return { values: ids });
            state.reachable = false;
            proof {
                let ghost mr = step_br(m0, depth)->Ok_0;
                assert(state@ =~~= mr.st);
                assert(f@ =~~= mr.f);
                assert(step_br(m0, depth) == Ok::<TransM, ErrCode>(
                    TransM { st: state@, f: f@ },
                ));
            }
            return Ok(());
        },
        FrameKind::Loop { header } => (header, false),
        _ => (state.control[idx].dest, true),
    };
    if use_results {
        if let Some(e) = state.tops_match(&state.control[idx].results) {
            return Err(e);
        }
        let n = state.control[idx].results.len();
        let ids = state.top_ids(n);
        state.drop_tops(n);
        f.set_term(Terminator::Jump { to: BranchTarget { block: target, args: ids } });
    } else {
        let no_tys: Vec<IrType> = Vec::new();
        proof {
            assert(no_tys@ =~= Seq::<IrType>::empty());
        }
        if let Some(e) = state.tops_match(&no_tys) {
            return Err(e);
        }
        state.drop_tops(0);
        f.set_term(
            Terminator::Jump { to: BranchTarget { block: target, args: Vec::new() } },
        );
    }
    state.control[idx].branched_to = true;
    state.reachable = false;
    proof {
        assert(state@.control =~= m0.st.control.update(
            idx as int,
            ControlFrameM { branched_to: true, ..m0.st.control[idx as int] },
        ));
        let ghost mr = step_br(m0, depth)->Ok_0;
        assert(state@.stack =~= mr.st.stack);
        assert(state@ =~~= mr.st);
        assert(f@ =~~= mr.f);
        assert(step_br(m0, depth) == Ok::<TransM, ErrCode>(
            TransM { st: state@, f: f@ },
        ));
    }
    Ok(())

}

/// Translates one opcode, as [`step_br_if`] defines.
#[verifier::rlimit(60)]
#[verifier::spinoff_prover]
fn translate_br_if(
    state: &mut FuncTranslationState,
    f: &mut IrFunction,
    depth: u32,
) -> (r: Result<(), ErrCode>)
    requires
        old(state)@.reachable,
        trans_wf(TransM { st: old(state)@, f: old(f)@ }),
    ensures
        match r {
            Ok(()) => step_br_if(TransM { st: old(state)@, f: old(f)@ }, depth) == Ok::<TransM, ErrCode>(
                TransM { st: final(state)@, f: final(f)@ },
            ),
            Err(e) => step_br_if(TransM { st: old(state)@, f: old(f)@ }, depth) == Err::<TransM, ErrCode>(e),
        },
{
    let ghost m0 = TransM { st: state@, f: f@ };
    if depth as usize >= state.control.len() {
        return Err(ErrCode::Structure { cause: StructuralCause::BadBranchDepth });
    }
    let idx = state.control.len() - 1 - depth as usize;
    let fr_kind = state.control[idx].kind;
    proof {
        assert(m0.st.control[idx as int] == state.control@[idx as int]@);
    }
    match fr_kind {
        FrameKind::Dead { .. } => {
            return Err(ErrCode::Structure { cause: StructuralCause::BadBranchDepth });
        },
        _ => {},
    }
    let is_function = match fr_kind {
        FrameKind::Function => true,
        _ => false,
    };
    let mut ctys: Vec<IrType> = Vec::new();
    ctys.push(IrType::Int32);
    proof {
        assert(ctys@ =~= seq![IrType::Int32]);
    }
    if let Some(e) = state.tops_match(&ctys) {
        return Err(e);
    }
    let cids = state.top_ids(1);
    state.drop_tops(1);
    if is_function {
        // A conditional branch to the outermost construct returns through
        // a trampoline block.
        if let Some(e) = state.tops_match(&state.control[idx].results) {
            return Err(e);
        }
        let n = state.control[idx].results.len();
        let fargs = state.top_ids(n);
        let ret_blk = return_block(f, &state.control[idx].results);
        let no_tys3: Vec<IrType> = Vec::new();
        let cont = f.create_block(&no_tys3);
        f.set_term(
            Terminator::CondBr {
                cond: cids[0],
                then_to: BranchTarget { block: ret_blk, args: fargs },
                else_to: BranchTarget { block: cont, args: Vec::new() },
            },
        );
        f.switch_to_block(cont);
        proof {
            assert(no_tys3@ =~= Seq::<IrType>::empty());
            let ghost mr = step_br_if(m0, depth)->Ok_0;
            assert(state@ =~~= mr.st);
            assert(f@ =~~= mr.f);
            assert(step_br_if(m0, depth) == Ok::<TransM, ErrCode>(
                TransM { st: state@, f: f@ },
            ));
        }
        return Ok(());
    }
    let (target, use_results) = match fr_kind {
        FrameKind::Loop { header } => (header, false),
        _ => (state.control[idx].dest, true),
    };
    let args: Vec<usize>;
    if use_results {
        if let Some(e) = state.tops_match(&state.control[idx].results) {
            return Err(e);
        }
        let n = state.control[idx].results.len();
        args = state.top_ids(n);
    } else {
        let no_tys: Vec<IrType> = Vec::new();
        proof {
            assert(no_tys@ =~= Seq::<IrType>::empty());
        }
        if let Some(e) = state.tops_match(&no_tys) {
            return Err(e);
        }
        args = Vec::new();
    }
    let no_tys2: Vec<IrType> = Vec::new();
    let cont = f.create_block(&no_tys2);
    f.set_term(
        Terminator::CondBr {
            cond: cids[0],
            then_to: BranchTarget { block: target, args },
            else_to: BranchTarget { block: cont, args: Vec::new() },
        },
    );
    f.switch_to_block(cont);
    state.control[idx].branched_to = true;
    proof {
        assert(no_tys2@ =~= Seq::<IrType>::empty());
        assert(state@.control =~= m0.st.control.update(
            idx as int,
            ControlFrameM { branched_to: true, ..m0.st.control[idx as int] },
        ));
        let ghost mr = step_br_if(m0, depth)->Ok_0;
        assert(state@ =~~= mr.st);
        assert(f@ =~~= mr.f);
        assert(step_br_if(m0, depth) == Ok::<TransM, ErrCode>(
            TransM { st: state@, f: f@ },
        ));
    }
    Ok(())

}

/// Translates one opcode, as [`step_return`] defines.
#[verifier::rlimit(60)]
#[verifier::spinoff_prover]
fn translate_return_op(
    state: &mut FuncTranslationState,
    f: &mut IrFunction,
) -> (r: Result<(), ErrCode>)
    requires
        old(state)@.reachable,
        trans_wf(TransM { st: old(state)@, f: old(f)@ }),
    ensures
        match r {
            Ok(()) => step_return(TransM { st: old(state)@, f: old(f)@ }) == Ok::<TransM, ErrCode>(
                TransM { st: final(state)@, f: final(f)@ },
            ),
            Err(e) => step_return(TransM { st: old(state)@, f: old(f)@ }) == Err::<TransM, ErrCode>(e),
        },
{
    let ghost m0 = TransM { st: state@, f: f@ };
    if state.control.len() == 0 {
        return Err(ErrCode::Structure { cause: StructuralCause::UnmatchedEnd });
    }
    proof {
        assert(m0.st.control[0] == state.control@[0]@);
    }
    match state.control[0].kind {
        FrameKind::Function => {},
        _ => {
            return Err(ErrCode::Structure { cause: StructuralCause::BadBranchDepth });
        },
    }
    if let Some(e) = state.tops_match(&state.control[0].results) {
        return Err(e);
    }
    let n = state.control[0].results.len();
    let ids = state.top_ids(n);
    state.drop_tops(n);
    f.set_term(Terminator::Return { values: ids });
    state.reachable = false;
    proof {
        let ghost mr = step_return(m0)->Ok_0;
        assert(state@ =~~= mr.st);
        assert(f@ =~~= mr.f);
        assert(step_return(m0) == Ok::<TransM, ErrCode>(
            TransM { st: state@, f: f@ },
        ));
    }
    Ok(())

}

/// Translates one opcode, as [`step_call`] defines.
#[verifier::rlimit(60)]
#[verifier::spinoff_prover]
fn translate_call(
    state: &mut FuncTranslationState,
    f: &mut IrFunction,
    env: &Environment,
    function: u32,
) -> (r: Result<(), ErrCode>)
    requires
        old(state)@.reachable,
        trans_wf(TransM { st: old(state)@, f: old(f)@ }),
    ensures
        match r {
            Ok(()) => step_call(TransM { st: old(state)@, f: old(f)@ }, function, *env) == Ok::<TransM, ErrCode>(
                TransM { st: final(state)@, f: final(f)@ },
            ),
            Err(e) => step_call(TransM { st: old(state)@, f: old(f)@ }, function, *env) == Err::<TransM, ErrCode>(e),
        },
{
    let ghost m0 = TransM { st: state@, f: f@ };
    let sidx = match resolve_function(env, function) {
        Ok(s) => s,
        Err(e) => {
            return Err(e);
        },
    };
    let ptys = map_types(&env.signatures[sidx].params, env.ptr_type());
    let rtys = map_types(&env.signatures[sidx].results, env.ptr_type());
    if let Some(e) = state.tops_match(&ptys) {
        return Err(e);
    }
    let n = ptys.len();
    let ids = state.top_ids(n);
    state.drop_tops(n);
    emit_args(f, &ids);
    let base = f.value_types.len();
    f.emit_call(
        IrOp::Call { func: function as usize, sig: sidx, num_args: n, num_results: rtys.len() },
        0,
        &rtys,
    );
    let top = f.value_types.len();
    proof {
        assert(top == base + rtys@.len());
    }
    push_made_values(state, base, &rtys);
    proof {
        let ghost mr = step_call(m0, function, *env)->Ok_0;
        assert(state@.stack =~= mr.st.stack);
        assert(state@ =~~= mr.st);
        assert(f@ =~~= mr.f);
        assert(step_call(m0, function, *env) == Ok::<TransM, ErrCode>(
            TransM { st: state@, f: f@ },
        ));
    }
    Ok(())

}

/// Translates one opcode, as [`step_call_indirect`] defines.
#[verifier::rlimit(60)]
#[verifier::spinoff_prover]
fn translate_call_indirect(
    state: &mut FuncTranslationState,
    f: &mut IrFunction,
    env: &Environment,
    table: u32,
    sig: u32,
) -> (r: Result<(), ErrCode>)
    requires
        old(state)@.reachable,
        trans_wf(TransM { st: old(state)@, f: old(f)@ }),
    ensures
        match r {
            Ok(()) => step_call_indirect(TransM { st: old(state)@, f: old(f)@ }, table, sig, *env) == Ok::<TransM, ErrCode>(
                TransM { st: final(state)@, f: final(f)@ },
            ),
            Err(e) => step_call_indirect(TransM { st: old(state)@, f: old(f)@ }, table, sig, *env) == Err::<TransM, ErrCode>(e),
        },
{
    let ghost m0 = TransM { st: state@, f: f@ };
    if table as usize >= env.tables.len() {
        return Err(ErrCode::Resolution { kind: EntityKind::Table, index: table });
    }
    if sig as usize >= env.signatures.len() {
        return Err(ErrCode::Resolution { kind: EntityKind::Signature, index: sig });
    }
    let mut ctys: Vec<IrType> = Vec::new();
    ctys.push(IrType::Int32);
    proof {
        assert(ctys@ =~= seq![IrType::Int32]);
    }
    if let Some(e) = state.tops_match(&ctys) {
        return Err(e);
    }
    let cids = state.top_ids(1);
    state.drop_tops(1);
    let ptys = map_types(&env.signatures[sig as usize].params, env.ptr_type());
    let rtys = map_types(&env.signatures[sig as usize].results, env.ptr_type());
    if let Some(e) = state.tops_match(&ptys) {
        return Err(e);
    }
    let n = ptys.len();
    let ids = state.top_ids(n);
    state.drop_tops(n);
    let target = crate::environ::emit_indirect_target(
        f,
        env,
        table as usize,
        sig as usize,
        cids[0],
    );
    emit_args(f, &ids);
    let base = f.value_types.len();
    f.emit_call(
        IrOp::CallIndirect { sig: sig as usize, num_args: n, num_results: rtys.len() },
        target.id,
        &rtys,
    );
    let top = f.value_types.len();
    proof {
        assert(top == base + rtys@.len());
    }
    push_made_values(state, base, &rtys);
    proof {
        let ghost mr = step_call_indirect(m0, table, sig, *env)->Ok_0;
        assert(state@.stack =~= mr.st.stack);
        assert(state@ =~~= mr.st);
        assert(f@ =~~= mr.f);
        assert(step_call_indirect(m0, table, sig, *env) == Ok::<TransM, ErrCode>(
            TransM { st: state@, f: f@ },
        ));
    }
    Ok(())

}


/// Compares two IR type lists.
fn types_eq(a: &Vec<IrType>, b: &Vec<IrType>) -> (r: bool)
    ensures
        r == (a@ == b@),
{
    if a.len() != b.len() {
        proof {
            assert(a@ != b@);
        }
        return false;
    }
    let mut i: usize = 0;
    while i < a.len()
        invariant
            i <= a@.len(),
            a@.len() == b@.len(),
            forall|k: int| 0 <= k < i ==> a@[k] == b@[k],
        decreases a@.len() - i,
    {
        if !crate::state::ir_type_eq(a[i], b[i]) {
            proof {
                assert(a@ != b@);
            }
            return false;
        }
        i = i + 1;
    }
    proof {
        assert(a@ =~= b@);
    }
    true
}

/// Translates `br_table`, as [`step_br_table`] defines.
#[verifier::rlimit(100)]
#[verifier::spinoff_prover]
fn translate_br_table(
    state: &mut FuncTranslationState,
    f: &mut IrFunction,
    depths: &Vec<u32>,
    default: u32,
) -> (r: Result<(), ErrCode>)
    requires
        old(state)@.reachable,
        trans_wf(TransM { st: old(state)@, f: old(f)@ }),
    ensures
        match r {
            Ok(()) => step_br_table(TransM { st: old(state)@, f: old(f)@ }, depths@, default)
                == Ok::<TransM, ErrCode>(TransM { st: final(state)@, f: final(f)@ }),
            Err(e) => step_br_table(TransM { st: old(state)@, f: old(f)@ }, depths@, default)
                == Err::<TransM, ErrCode>(e),
        },
{
    let ghost m0 = TransM { st: state@, f: f@ };
    if default as usize >= state.control.len() {
        return Err(ErrCode::Structure { cause: StructuralCause::BadBranchDepth });
    }
    let didx = state.control.len() - 1 - default as usize;
    proof {
        assert(m0.st.control[didx as int] == state.control@[didx as int]@);
    }
    match state.control[didx].kind {
        FrameKind::Dead { .. } => {
            return Err(ErrCode::Structure { cause: StructuralCause::BadBranchDepth });
        },
        _ => {},
    }
    let d_is_loop = match state.control[didx].kind {
        FrameKind::Loop { .. } => true,
        _ => false,
    };
    let no_tys: Vec<IrType> = Vec::new();
    proof {
        assert(no_tys@ =~= Seq::<IrType>::empty());
    }
    let mut j: usize = 0;
    while j < depths.len()
        invariant
            j <= depths@.len(),
            state == old(state),
            f == old(f),
            m0 == (TransM { st: state@, f: f@ }),
            trans_wf(m0),
            btable_entry_ok(m0, default),
            didx < state.control@.len(),
            didx as int == m0.st.control.len() - 1 - default as int,
            forall|k: int| 0 <= k < j ==> #[trigger] btable_entry_ok(m0, depths@[k]),
        decreases depths@.len() - j,
    {
        let d = depths[j];
        if d as usize >= state.control.len() {
            proof {
                assert(!btable_entry_ok(m0, depths@[j as int]));
            }
            return Err(ErrCode::Structure { cause: StructuralCause::BadBranchDepth });
        }
        let i2 = state.control.len() - 1 - d as usize;
        proof {
            assert(m0.st.control[i2 as int] == state.control@[i2 as int]@);
        }
        match state.control[i2].kind {
            FrameKind::Dead { .. } => {
                proof {
                    assert(!btable_entry_ok(m0, depths@[j as int]));
                }
                return Err(ErrCode::Structure { cause: StructuralCause::BadBranchDepth });
            },
            _ => {},
        }
        j = j + 1;
    }
    let mut jt: usize = 0;
    while jt < depths.len()
        invariant
            jt <= depths@.len(),
            state == old(state),
            f == old(f),
            m0 == (TransM { st: state@, f: f@ }),
            trans_wf(m0),
            btable_entry_ok(m0, default),
            didx < state.control@.len(),
            didx as int == m0.st.control.len() - 1 - default as int,
            d_is_loop == (m0.st.control[didx as int].kind is Loop),
            forall|k: int| 0 <= k < depths@.len() ==> #[trigger] btable_entry_ok(m0, depths@[k]),
            forall|k: int|
                0 <= k < jt ==> #[trigger] btable_types(m0, depths@[k]) == btable_types(m0, default),
        decreases depths@.len() - jt,
    {
        let d = depths[jt];
        proof {
            assert(btable_entry_ok(m0, depths@[jt as int]));
        }
        let i2 = state.control.len() - 1 - d as usize;
        proof {
            assert(m0.st.control[i2 as int] == state.control@[i2 as int]@);
        }
        let t_is_loop = match state.control[i2].kind {
            FrameKind::Loop { .. } => true,
            _ => false,
        };
        proof {
            assert(m0.st.control[didx as int] == state.control@[didx as int]@);
            assert(m0.st.control[i2 as int].results == state.control@[i2 as int]@.results);
            assert(m0.st.control[didx as int].results == state.control@[didx as int]@.results);
        }
        let ghost tt = btable_types(m0, depths@[jt as int]);
        let ghost dt = btable_types(m0, default);
        proof {
            if t_is_loop {
                assert(tt =~= Seq::<IrType>::empty());
            } else {
                assert(tt == m0.st.control[i2 as int].results);
            }
            if d_is_loop {
                assert(dt =~= Seq::<IrType>::empty());
            } else {
                assert(dt == m0.st.control[didx as int].results);
            }
        }
        let same: bool;
        if t_is_loop && d_is_loop {
            same = true;
            proof {
                assert(tt =~= dt);
            }
        } else if t_is_loop {
            same = state.control[didx].results.len() == 0;
            proof {
                if same {
                    assert(tt =~= dt);
                } else {
                    assert(tt.len() != dt.len());
                }
            }
        } else if d_is_loop {
            same = state.control[i2].results.len() == 0;
            proof {
                if same {
                    assert(tt =~= dt);
                } else {
                    assert(tt.len() != dt.len());
                }
            }
        } else {
            same = types_eq(&state.control[i2].results, &state.control[didx].results);
            proof {
                if same {
                    assert(tt == dt);
                }
            }
        }
        if !same {
            proof {
                assert(tt != dt);
            }
            return Err(ErrCode::Structure { cause: StructuralCause::BranchArityMismatch });
        }
        proof {
            assert(tt == dt);
        }
        jt = jt + 1;
    }
    let mut ctys: Vec<IrType> = Vec::new();
    ctys.push(IrType::Int32);
    proof {
        assert(ctys@ =~= seq![IrType::Int32]);
    }
    if let Some(e) = state.tops_match(&ctys) {
        return Err(e);
    }
    let sids = state.top_ids(1);
    state.drop_tops(1);
    let check = if d_is_loop {
        state.tops_match(&no_tys)
    } else {
        state.tops_match(&state.control[didx].results)
    };
    if let Some(e) = check {
        return Err(e);
    }
    let n = if d_is_loop {
        0
    } else {
        state.control[didx].results.len()
    };
    let args_ids = state.top_ids(n);
    let mut uses_fn = match state.control[didx].kind {
        FrameKind::Function => true,
        _ => false,
    };
    let mut j2: usize = 0;
    while j2 < depths.len()
        invariant
            j2 <= depths@.len(),
            forall|k: int| 0 <= k < depths@.len() ==> #[trigger] btable_entry_ok(m0, depths@[k]),
            state.control@.map_values(|c: ControlFrame| c@) == m0.st.control,
            uses_fn == (m0.st.control[m0.st.control.len() - 1 - default as int].kind is Function
                || exists|k: int|
                0 <= k < j2 && m0.st.control[
                    m0.st.control.len() - 1 - depths@[k] as int
                ].kind is Function),
        decreases depths@.len() - j2,
    {
        let d = depths[j2];
        proof {
            assert(btable_entry_ok(m0, depths@[j2 as int]));
            assert(state.control@.len() == m0.st.control.len());
        }
        let i2 = state.control.len() - 1 - d as usize;
        match state.control[i2].kind {
            FrameKind::Function => {
                uses_fn = true;
                proof {
                    assert(m0.st.control[
                        m0.st.control.len() - 1 - depths@[j2 as int] as int
                    ].kind is Function);
                }
            },
            _ => {},
        }
        j2 = j2 + 1;
    }
    proof {
        assert(uses_fn == btable_uses_function(m0, depths@, default));
    }
    let ret_blk: usize;
    if uses_fn {
        if d_is_loop {
            ret_blk = return_block(f, &no_tys);
        } else {
            ret_blk = return_block(f, &state.control[didx].results);
        }
    } else {
        ret_blk = 0;
    }
    let mut targets: Vec<BranchTarget> = Vec::new();
    let mut j3: usize = 0;
    while j3 < depths.len()
        invariant
            j3 <= depths@.len(),
            forall|k: int| 0 <= k < depths@.len() ==> #[trigger] btable_entry_ok(m0, depths@[k]),
            state.control@.map_values(|c: ControlFrame| c@) == m0.st.control,
            n <= state.stack@.len(),
            args_ids@ == ids_of(top_vals(state@, n as int)),
            targets@.map_values(|t: BranchTarget| t@) =~= Seq::new(
                j3 as nat,
                |k: int| BranchTargetM {
                    block: btable_block(m0, depths@[k], ret_blk),
                    args: args_ids@,
                },
            ),
        decreases depths@.len() - j3,
    {
        let d = depths[j3];
        proof {
            assert(btable_entry_ok(m0, depths@[j3 as int]));
            assert(state.control@.len() == m0.st.control.len());
        }
        let i2 = state.control.len() - 1 - d as usize;
        proof {
            assert(m0.st.control[i2 as int] == state.control@[i2 as int]@);
        }
        let blk = match state.control[i2].kind {
            FrameKind::Function => ret_blk,
            FrameKind::Loop { header } => header,
            _ => state.control[i2].dest,
        };
        let t_args = state.top_ids(n);
        let ghost pre_targets = targets@;
        targets.push(BranchTarget { block: blk, args: t_args });
        proof {
            assert(blk == btable_block(m0, depths@[j3 as int], ret_blk));
            assert(t_args@ == args_ids@);
            assert(targets@ == pre_targets.push(BranchTarget { block: blk, args: t_args }));
            assert(pre_targets.map_values(|t: BranchTarget| t@).len() == j3 as nat);
            assert(pre_targets.len() == j3 as nat);
            assert forall|k: int| 0 <= k <= j3 implies targets@.map_values(
                |t: BranchTarget| t@,
            )[k] == (BranchTargetM {
                block: btable_block(m0, depths@[k], ret_blk),
                args: args_ids@,
            }) by {
                if k < j3 {
                    assert(targets@[k] == pre_targets[k]);
                    assert(pre_targets.map_values(|t: BranchTarget| t@)[k] == BranchTargetM {
                        block: btable_block(m0, depths@[k], ret_blk),
                        args: args_ids@,
                    });
                } else {
                    assert(targets@[k] == BranchTarget { block: blk, args: t_args });
                }
            }
            assert(targets@.map_values(|t: BranchTarget| t@) =~= Seq::new(
                (j3 + 1) as nat,
                |k: int| BranchTargetM {
                    block: btable_block(m0, depths@[k], ret_blk),
                    args: args_ids@,
                },
            ));
        }
        j3 = j3 + 1;
    }
    let dblk = match state.control[didx].kind {
        FrameKind::Function => ret_blk,
        FrameKind::Loop { header } => header,
        _ => state.control[didx].dest,
    };
    f.set_term(
        Terminator::BrTable {
            selector: sids[0],
            targets,
            default_to: BranchTarget { block: dblk, args: args_ids },
        },
    );
    state.drop_tops(n);
    state.control[didx].branched_to = true;
    let ghost stack_kept = state@.stack;
    let ghost f_kept = f@;
    let mut j4: usize = 0;
    while j4 < depths.len()
        invariant
            j4 <= depths@.len(),
            forall|k: int| 0 <= k < depths@.len() ==> #[trigger] btable_entry_ok(m0, depths@[k]),
            state.control@.len() == m0.st.control.len(),
            forall|i: int|
                0 <= i < m0.st.control.len() ==> state.control@.map_values(
                    |c: ControlFrame| c@,
                )[i] == (
                    if i == m0.st.control.len() - 1 - default as int || (exists|k: int|
                        0 <= k < j4 && i == m0.st.control.len() - 1 - depths@[k] as int) {
                        ControlFrameM { branched_to: true, ..m0.st.control[i] }
                    } else {
                        m0.st.control[i]
                    }
                ),
            state.stack@ == stack_kept,
            state.reachable == m0.st.reachable,
            f@ == f_kept,
        decreases depths@.len() - j4,
    {
        let d = depths[j4];
        proof {
            assert(btable_entry_ok(m0, depths@[j4 as int]));
        }
        let i2 = state.control.len() - 1 - d as usize;
        state.control[i2].branched_to = true;
        j4 = j4 + 1;
    }
    state.reachable = false;
    proof {
        assert(state@.control =~= btable_marks(m0, depths@, default));
        let ghost mr = step_br_table(m0, depths@, default)->Ok_0;
        assert(state@.stack =~= mr.st.stack);
        assert(state@ =~~= mr.st);
        assert(f@ =~~= mr.f);
        assert(step_br_table(m0, depths@, default) == Ok::<TransM, ErrCode>(
            TransM { st: state@, f: f@ },
        ));
    }
    Ok(())
}

/// Translates the remaining opcode families, as [`step_other`] defines.
#[verifier::rlimit(100)]
#[verifier::spinoff_prover]
fn translate_other_operator(
    state: &mut FuncTranslationState,
    f: &mut IrFunction,
    op: &Operator,
    env: &Environment,
) -> (r: Result<(), ErrCode>)
    requires
        old(state)@.reachable,
        trans_wf(TransM { st: old(state)@, f: old(f)@ }),
        spec_const_class(*op) is None,
        spec_binop_class(*op) is None,
    ensures
        match r {
            Ok(()) => step_other(TransM { st: old(state)@, f: old(f)@ }, *op, *env) == Ok::<TransM, ErrCode>(
                TransM { st: final(state)@, f: final(f)@ },
            ),
            Err(e) => step_other(TransM { st: old(state)@, f: old(f)@ }, *op, *env) == Err::<TransM, ErrCode>(e),
        },
{
    let ghost m0 = TransM { st: state@, f: f@ };
    match op {
        Operator::Nop => Ok(()),
        Operator::Drop => {
            match state.pop1() {
                Ok(_) => {
                    proof {
                        assert(step_other(m0, *op, *env) == Ok::<TransM, ErrCode>(
                            TransM { st: state@, f: f@ },
                        ));
                    }
                    Ok(())
                },
                Err(e) => Err(e),
            }
        },
        Operator::LocalGet { local } => {
            if *local as usize >= f.vars.len() {
                return Err(ErrCode::Structure { cause: StructuralCause::BadLocalIndex });
            }
            let ty = f.vars[*local as usize];
            let v = f.emit(IrOp::GetVar { index: *local as usize }, 0, 0, ty);
            state.push1(v);
            proof {
                assert(step_other(m0, *op, *env) == Ok::<TransM, ErrCode>(
                    TransM { st: state@, f: f@ },
                ));
            }
            Ok(())
        },
        Operator::LocalSet { local } => {
            if *local as usize >= f.vars.len() {
                return Err(ErrCode::Structure { cause: StructuralCause::BadLocalIndex });
            }
            let ty = f.vars[*local as usize];
            let mut tys: Vec<IrType> = Vec::new();
            tys.push(ty);
            proof {
                assert(tys@ =~= seq![ty]);
            }
            if let Some(e) = state.tops_match(&tys) {
                return Err(e);
            }
            let ids = state.top_ids(1);
            state.drop_tops(1);
            f.emit_void(IrOp::SetVar { index: *local as usize }, ids[0], 0);
            proof {
                assert(step_other(m0, *op, *env) == Ok::<TransM, ErrCode>(
                    TransM { st: state@, f: f@ },
                ));
            }
            Ok(())
        },
        Operator::LocalTee { local } => {
            if *local as usize >= f.vars.len() {
                return Err(ErrCode::Structure { cause: StructuralCause::BadLocalIndex });
            }
            let ty = f.vars[*local as usize];
            let mut tys: Vec<IrType> = Vec::new();
            tys.push(ty);
            proof {
                assert(tys@ =~= seq![ty]);
            }
            if let Some(e) = state.tops_match(&tys) {
                return Err(e);
            }
            let ids = state.top_ids(1);
            f.emit_void(IrOp::SetVar { index: *local as usize }, ids[0], 0);
            proof {
                assert(step_other(m0, *op, *env) == Ok::<TransM, ErrCode>(
                    TransM { st: state@, f: f@ },
                ));
            }
            Ok(())
        },
        Operator::Unreachable => {
            f.set_term(Terminator::Trap { code: TrapCode::UnreachableCodeReached });
            state.reachable = false;
            proof {
                assert(step_other(m0, *op, *env) == Ok::<TransM, ErrCode>(
                    TransM { st: state@, f: f@ },
                ));
            }
            Ok(())
        },
        Operator::Else => translate_else(state, f),
        Operator::End => translate_end(state, f),
        Operator::Block { results } => translate_block(state, f, env, results),
        Operator::Loop { results } => translate_loop(state, f, env, results),
        Operator::If { results } => translate_if(state, f, env, results),
        Operator::Br { depth } => translate_br(state, f, *depth),
        Operator::BrIf { depth } => translate_br_if(state, f, *depth),
        Operator::BrTable { depths, default } => translate_br_table(state, f, depths, *default),
        Operator::Return => translate_return_op(state, f),
        Operator::Call { function } => translate_call(state, f, env, *function),
        Operator::CallIndirect { table, sig } => translate_call_indirect(state, f, env, *table, *sig),
        Operator::GlobalGet { global } => {
            if *global as usize >= env.globals.len() {
                return Err(ErrCode::Resolution { kind: EntityKind::Global, index: *global });
            }
            let v = crate::environ::emit_global_get(f, env, *global as usize);
            state.push1(v);
            proof {
                assert(step_other(m0, *op, *env) == Ok::<TransM, ErrCode>(
                    TransM { st: state@, f: f@ },
                ));
            }
            Ok(())
        },
        Operator::GlobalSet { global } => {
            if *global as usize >= env.globals.len() {
                return Err(ErrCode::Resolution { kind: EntityKind::Global, index: *global });
            }
            let desc = env.globals[*global as usize];
            if !desc.mutable {
                return Err(ErrCode::Structure { cause: StructuralCause::ImmutableGlobal });
            }
            let offset = match desc.storage {
                GlobalStorage::Constant { .. } => {
                    return Err(ErrCode::Resolution { kind: EntityKind::Global, index: *global });
                },
                GlobalStorage::Context { offset } => offset,
            };
            let gty = crate::types::map_value_type(desc.ty, env.ptr_type());
            let mut tys: Vec<IrType> = Vec::new();
            tys.push(gty);
            proof {
                assert(tys@ =~= seq![global_ir_ty(*env, *global as int)]);
            }
            if let Some(e) = state.tops_match(&tys) {
                return Err(e);
            }
            let ids = state.top_ids(1);
            state.drop_tops(1);
            crate::environ::emit_global_set(f, env, offset, ids[0]);
            proof {
                assert(step_other(m0, *op, *env) == Ok::<TransM, ErrCode>(
                    TransM { st: state@, f: f@ },
                ));
            }
            Ok(())
        },
        _ => {
            if let Some((is_store, ty, size, offset)) = memop_class(op) {
                if env.memories.len() == 0 {
                    return Err(ErrCode::Resolution { kind: EntityKind::Memory, index: 0 });
                }
                if is_store {
                    let mut tys: Vec<IrType> = Vec::new();
                    tys.push(IrType::Int32);
                    tys.push(ty);
                    proof {
                        assert(tys@ =~= seq![IrType::Int32, ty]);
                    }
                    if let Some(e) = state.tops_match(&tys) {
                        return Err(e);
                    }
                    let ids = state.top_ids(2);
                    state.drop_tops(2);
                    let addr = crate::environ::emit_heap_addr(f, env, 0, offset, size, ids[0]);
                    f.emit_void(IrOp::Store, addr.id, ids[1]);
                    proof {
                        assert(step_other(m0, *op, *env) == Ok::<TransM, ErrCode>(
                            TransM { st: state@, f: f@ },
                        ));
                    }
                    Ok(())
                } else {
                    let mut tys: Vec<IrType> = Vec::new();
                    tys.push(IrType::Int32);
                    proof {
                        assert(tys@ =~= seq![IrType::Int32]);
                    }
                    if let Some(e) = state.tops_match(&tys) {
                        return Err(e);
                    }
                    let ids = state.top_ids(1);
                    state.drop_tops(1);
                    let addr = crate::environ::emit_heap_addr(f, env, 0, offset, size, ids[0]);
                    let v = f.emit(IrOp::Load { ty }, addr.id, 0, ty);
                    state.push1(v);
                    proof {
                        assert(step_other(m0, *op, *env) == Ok::<TransM, ErrCode>(
                            TransM { st: state@, f: f@ },
                        ));
                    }
                    Ok(())
                }
            } else {
                proof {
                    assert(step_other(m0, *op, *env) == Err::<TransM, ErrCode>(
                        ErrCode::Unsupported { fundamental: false },
                    ));
                }
                Err(ErrCode::Unsupported { fundamental: false })
            }
        },
    }
}

/// The initial translation of one function body: an entry block bound to
/// the IR signature's parameters (context pointer first), variable slots
/// for the parameters and the declared locals, and the implicit outer
/// construct spanning the whole body, whose results return in place.
pub open spec fn init_m(sig: Signature, locals: Seq<WasmType>, env: Environment) -> TransM {
    let irparams = spec_map_sig_params(sig.params@, env.ptr);
    let rtys = spec_map_types(sig.results@, env.ptr);
    let f0 = IrFunctionM {
        sig_params: irparams,
        sig_results: rtys,
        vars: spec_map_types(sig.params@ + locals, env.ptr),
        value_types: irparams,
        blocks: seq![
            BlockM {
                params: crate::ir::mk_param_values(0, irparams),
                insts: Seq::empty(),
                term: None,
            },
        ],
        current: 0,
    };
    TransM {
        st: StateM {
            stack: Seq::empty(),
            control: seq![
                ControlFrameM {
                    kind: FrameKind::Function,
                    dest: 0,
                    results: rtys,
                    height: 0,
                    branched_to: false,
                },
            ],
            reachable: true,
        },
        f: f0,
    }
}

/// Translation of an instruction sequence from position `pos`: one
/// [`step`] per instruction, stopping once the outer construct has been
/// popped (trailing instructions are the caller's concern), and failing
/// with the offset of the offending instruction.
pub open spec fn run(m: TransM, ops: Seq<Operator>, env: Environment, pos: int) -> Result<
    TransM,
    TranslationError,
>
    decreases ops.len(),
{
    if m.st.control.len() == 0 {
        Ok(m)
    } else if ops.len() == 0 {
        Err(
            TranslationError {
                offset: pos as usize,
                code: ErrCode::Structure { cause: StructuralCause::MissingEnd },
            },
        )
    } else {
        match step(m, ops[0], env) {
            Err(c) => Err(TranslationError { offset: pos as usize, code: c }),
            Ok(m2) => run(m2, ops.drop_first(), env, pos + 1),
        }
    }
}

/// What translating one whole function body yields: the defining model of
/// the function translator.
pub open spec fn spec_translate(
    sig: Signature,
    locals: Seq<WasmType>,
    code: Seq<Operator>,
    env: Environment,
) -> Result<TransM, TranslationError> {
    run(init_m(sig, locals, env), code, env, 0)
}

/// Translates one function body into an IR function, exactly as
/// [`spec_translate`] defines: the entry block binds the parameters,
/// each instruction is translated in turn, and reaching the end of the
/// body while still reachable emits the implicit return of the final
/// operand-stack values through the function's exit block.
pub fn translate_function(
    sig: &Signature,
    locals: &Vec<WasmType>,
    code: &Vec<Operator>,
    env: &Environment,
) -> (r: Result<IrFunction, TranslationError>)
    ensures
        match r {
            Ok(func) => spec_translate(*sig, locals@, code@, *env) is Ok && func@ == spec_translate(
                *sig,
                locals@,
                code@,
                *env,
            )->Ok_0.f,
            Err(e) => spec_translate(*sig, locals@, code@, *env) == Err::<TransM, TranslationError>(
                e,
            ),
        },
{
    let ptr = env.ptr_type();
    let irsig = map_signature(sig, ptr);
    let mut all: Vec<WasmType> = Vec::new();
    let mut i: usize = 0;
    while i < sig.params.len()
        invariant
            i <= sig.params@.len(),
            all@ =~= sig.params@.take(i as int),
        decreases sig.params@.len() - i,
    {
        all.push(sig.params[i]);
        proof {
            assert(all@ =~= sig.params@.take(i + 1));
        }
        i = i + 1;
    }
    let mut j: usize = 0;
    while j < locals.len()
        invariant
            j <= locals@.len(),
            all@ =~= sig.params@ + locals@.take(j as int),
        decreases locals@.len() - j,
    {
        all.push(locals[j]);
        proof {
            assert(all@ =~= sig.params@ + locals@.take(j + 1));
        }
        j = j + 1;
    }
    proof {
        assert(all@ =~= sig.params@ + locals@);
    }
    let vars = map_types(&all, ptr);
    let rtys = map_types(&sig.results, ptr);
    let mut func = IrFunction::with_entry(irsig, vars);
    let mut state = FuncTranslationState::new();
    state.push_frame(
        ControlFrame {
            kind: FrameKind::Function,
            dest: 0,
            results: rtys,
            height: 0,
            branched_to: false,
        },
    );
    let ghost m0 = init_m(*sig, locals@, *env);
    let vt_len = func.value_types.len();
    proof {
        assert(state@.control =~= m0.st.control);
        assert(func@.blocks =~~= m0.f.blocks);
        assert(TransM { st: state@, f: func@ } =~~= m0);
        assert(vt_len == func@.value_types.len());
        let t = TransM { st: state@, f: func@ };
        assert forall|b: int| 0 <= b < t.f.blocks.len() implies values_typed(
            #[trigger] t.f.blocks[b].params,
            t.f,
        ) by {
            assert(t.f.blocks[0].params == mk_param_values(0, t.f.sig_params));
        }
        assert(trans_wf(t));
        assert(code@.skip(0) =~= code@);
    }
    let mut i: usize = 0;
    while state.control.len() > 0
        invariant
            i <= code@.len(),
            trans_wf(TransM { st: state@, f: func@ }),
            run(TransM { st: state@, f: func@ }, code@.skip(i as int), *env, i as int)
                == spec_translate(*sig, locals@, code@, *env),
        decreases code@.len() - i,
    {
        if i >= code.len() {
            return Err(
                TranslationError {
                    offset: i,
                    code: ErrCode::Structure { cause: StructuralCause::MissingEnd },
                },
            );
        }
        let ghost mpre = TransM { st: state@, f: func@ };
        match translate_operator(&mut state, &mut func, &code[i], env) {
            Ok(()) => {
                let sl = state.stack.len();
                let vtl = func.value_types.len();
                let bl = func.blocks.len();
                proof {
                    assert(code@.skip(i as int)[0] == code@[i as int]);
                    assert(code@.skip(i as int).drop_first() =~= code@.skip(i as int + 1));
                    crate::laws::lemma_step_preserves_wf(mpre, code@[i as int], *env);
                }
                i = i + 1;
            },
            Err(c) => {
                proof {
                    assert(code@.skip(i as int)[0] == code@[i as int]);
                }
                return Err(TranslationError { offset: i, code: c });
            },
        }
    }
    Ok(func)
}

} // verus!
