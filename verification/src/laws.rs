//! The translation's global guarantees, stated and proved over the
//! defining model in [`crate::translate`].

use vstd::prelude::*;

use crate::environ::Environment;
use crate::ir::IrFunctionM;
use crate::ir::Value;
use crate::state::ControlFrameM;
use crate::state::FrameKind;
use crate::translate::Operator;
use crate::translate::TransM;
use crate::translate::frame_wf;
use crate::translate::spec_binop_class;
use crate::translate::spec_const_class;
use crate::translate::spec_memop_class;
use crate::translate::step;
use crate::translate::step_block;
use crate::translate::step_br;
use crate::translate::step_br_if;
use crate::translate::step_call;
use crate::translate::step_call_indirect;
use crate::translate::step_dead;
use crate::translate::step_else;
use crate::translate::step_end;
use crate::translate::step_global_get;
use crate::translate::step_global_set;
use crate::translate::step_if;
use crate::translate::step_loop;
use crate::translate::step_memop;
use crate::translate::step_other;
use crate::translate::step_return;
use crate::translate::trans_wf;
use crate::translate::values_typed;
use crate::types::WasmType;

verus! {

/// Values stay typed when the function only gains value ids.
proof fn lemma_values_typed_extend(vs: Seq<Value>, f: IrFunctionM, f2: IrFunctionM)
    requires
        values_typed(vs, f),
        f.value_types.len() <= f2.value_types.len(),
        forall|i: int| 0 <= i < f.value_types.len() ==> f2.value_types[i] == f.value_types[i],
    ensures
        values_typed(vs, f2),
{
}

/// The function `f2` keeps every block of `f`, with its parameters, and
/// every registered value type.
pub open spec fn f_grows(f: IrFunctionM, f2: IrFunctionM) -> bool {
    &&& f.value_types.len() <= f2.value_types.len()
    &&& forall|i: int| 0 <= i < f.value_types.len() ==> f2.value_types[i] == f.value_types[i]
    &&& f.blocks.len() <= f2.blocks.len()
    &&& forall|b: int|
        0 <= b < f.blocks.len() ==> (#[trigger] f2.blocks[b]).params == f.blocks[b].params
}

/// The pieces of the translation invariant that every step case
/// re-establishes the same way once the function is known to grow.
proof fn lemma_wf_from_grows(m: TransM, m2: TransM)
    requires
        trans_wf(m),
        f_grows(m.f, m2.f),
        m2.st.stack.len() <= usize::MAX,
        m2.f.current < m2.f.blocks.len(),
        values_typed(m2.st.stack, m2.f),
        forall|i: int| 0 <= i < m2.st.control.len() ==> frame_wf(#[trigger] m2.st.control[i], m2.f),
        forall|i: int, j: int|
            0 <= i <= j < m2.st.control.len() ==> (#[trigger] m2.st.control[i]).height <= (
            #[trigger] m2.st.control[j]).height,
        m2.st.control.len() > 0 ==> m2.st.stack.len() >= m2.st.control.last().height,
        forall|b: int|
            0 <= b < m2.f.blocks.len() ==> values_typed(#[trigger] m2.f.blocks[b].params, m2.f),
    ensures
        trans_wf(m2),
{
}

/// A well-formed control entry stays well formed when the function grows.
proof fn lemma_frame_wf_grows(fr: ControlFrameM, f: IrFunctionM, f2: IrFunctionM)
    requires
        frame_wf(fr, f),
        f_grows(f, f2),
    ensures
        frame_wf(fr, f2),
{
}

/// All old frames stay well formed, and all old block parameters stay
/// typed, when the function grows.
proof fn lemma_olds_grow(m: TransM, f2: IrFunctionM)
    requires
        trans_wf(m),
        f_grows(m.f, f2),
    ensures
        forall|i: int| 0 <= i < m.st.control.len() ==> frame_wf(#[trigger] m.st.control[i], f2),
        values_typed(m.st.stack, f2),
        forall|b: int|
            0 <= b < m.f.blocks.len() ==> values_typed(#[trigger] m.f.blocks[b].params, f2),
{
    assert forall|i: int| 0 <= i < m.st.control.len() implies frame_wf(
        #[trigger] m.st.control[i],
        f2,
    ) by {
        lemma_frame_wf_grows(m.st.control[i], m.f, f2);
    }
    lemma_values_typed_extend(m.st.stack, m.f, f2);
    assert forall|b: int| 0 <= b < m.f.blocks.len() implies values_typed(
        #[trigger] m.f.blocks[b].params,
        f2,
    ) by {
        lemma_values_typed_extend(m.f.blocks[b].params, m.f, f2);
        assert(f2.blocks[b].params == m.f.blocks[b].params);
    }
}

/// Every open construct's snapshot lies at or below the stack top.
proof fn lemma_heights_below_stack(m: TransM)
    requires
        trans_wf(m),
    ensures
        forall|i: int|
            0 <= i < m.st.control.len() ==> (#[trigger] m.st.control[i]).height
                <= m.st.stack.len(),
{
    assert forall|i: int| 0 <= i < m.st.control.len() implies (#[trigger] m.st.control[i]).height
        <= m.st.stack.len() by {
        assert(m.st.control[i].height <= m.st.control[m.st.control.len() - 1].height);
    }
}

/// One opcode family keeps the invariant.
#[verifier::rlimit(100)]
#[verifier::spinoff_prover]
proof fn lemma_wf_else_op(m: TransM)
    requires
        trans_wf(m),
        step_else(m) is Ok,
        step_else(m)->Ok_0.f.value_types.len() <= usize::MAX,
        step_else(m)->Ok_0.st.stack.len() <= usize::MAX,
        step_else(m)->Ok_0.f.blocks.len() <= usize::MAX,
        step_else(m)->Ok_0.st.stack.len() <= usize::MAX,
        step_else(m)->Ok_0.f.blocks.len() <= usize::MAX,
    ensures
        trans_wf(step_else(m)->Ok_0),
{
    lemma_heights_below_stack(m);
    let m2 = step_else(m)->Ok_0;
    assert(f_grows(m.f, m2.f));
    lemma_olds_grow(m, m2.f);
    assert forall|i: int, j: int| 0 <= i <= j < m2.st.control.len() implies (
    #[trigger] m2.st.control[i]).height <= (#[trigger] m2.st.control[j]).height by {
        if j < m.st.control.len() {
        }
    }
    assert forall|i: int| 0 <= i < m2.st.control.len() implies frame_wf(
        #[trigger] m2.st.control[i],
        m2.f,
    ) by {
        if i < m.st.control.len() {
            lemma_frame_wf_grows(m.st.control[i], m.f, m2.f);
            assert(frame_wf(m2.st.control[i], m2.f));
        } else {
            assert(frame_wf(m2.st.control[i], m2.f));
        }
    }
    lemma_wf_from_grows(m, m2);
}

/// One opcode family keeps the invariant.
#[verifier::rlimit(100)]
#[verifier::spinoff_prover]
proof fn lemma_wf_end(m: TransM)
    requires
        trans_wf(m),
        step_end(m) is Ok,
        step_end(m)->Ok_0.f.value_types.len() <= usize::MAX,
        step_end(m)->Ok_0.st.stack.len() <= usize::MAX,
        step_end(m)->Ok_0.f.blocks.len() <= usize::MAX,
        step_end(m)->Ok_0.st.stack.len() <= usize::MAX,
        step_end(m)->Ok_0.f.blocks.len() <= usize::MAX,
    ensures
        trans_wf(step_end(m)->Ok_0),
{
    lemma_heights_below_stack(m);
    let m2 = step_end(m)->Ok_0;
    if m.st.control.len() > 0 {
        let fr = m.st.control.last();
        match fr.kind {
            FrameKind::Dead { .. } => {},
            _ => {},
        }
    }
    assert(f_grows(m.f, m2.f));
    lemma_olds_grow(m, m2.f);
    assert forall|i: int, j: int| 0 <= i <= j < m2.st.control.len() implies (
    #[trigger] m2.st.control[i]).height <= (#[trigger] m2.st.control[j]).height by {
        if j < m.st.control.len() {
        }
    }
    assert forall|i: int| 0 <= i < m2.st.control.len() implies frame_wf(
        #[trigger] m2.st.control[i],
        m2.f,
    ) by {
        if i < m.st.control.len() {
            lemma_frame_wf_grows(m.st.control[i], m.f, m2.f);
            assert(frame_wf(m2.st.control[i], m2.f));
        } else {
            assert(frame_wf(m2.st.control[i], m2.f));
        }
    }
    lemma_wf_from_grows(m, m2);
}

/// One opcode family keeps the invariant.
#[verifier::rlimit(100)]
#[verifier::spinoff_prover]
proof fn lemma_wf_br(m: TransM, depth: u32)
    requires
        trans_wf(m),
        step_br(m, depth) is Ok,
        step_br(m, depth)->Ok_0.f.value_types.len() <= usize::MAX,
        step_br(m, depth)->Ok_0.st.stack.len() <= usize::MAX,
        step_br(m, depth)->Ok_0.f.blocks.len() <= usize::MAX,
    ensures
        trans_wf(step_br(m, depth)->Ok_0),
{
    lemma_heights_below_stack(m);
    let m2 = step_br(m, depth)->Ok_0;
    assert(f_grows(m.f, m2.f));
    lemma_olds_grow(m, m2.f);
    assert forall|i: int, j: int| 0 <= i <= j < m2.st.control.len() implies (
    #[trigger] m2.st.control[i]).height <= (#[trigger] m2.st.control[j]).height by {
        if j < m.st.control.len() {
        }
    }
    assert forall|i: int| 0 <= i < m2.st.control.len() implies frame_wf(
        #[trigger] m2.st.control[i],
        m2.f,
    ) by {
        if i < m.st.control.len() {
            lemma_frame_wf_grows(m.st.control[i], m.f, m2.f);
            assert(frame_wf(m2.st.control[i], m2.f));
        } else {
            assert(frame_wf(m2.st.control[i], m2.f));
        }
    }
    lemma_wf_from_grows(m, m2);
}

/// One opcode family keeps the invariant.
#[verifier::rlimit(100)]
#[verifier::spinoff_prover]
proof fn lemma_wf_br_if(m: TransM, depth: u32)
    requires
        trans_wf(m),
        step_br_if(m, depth) is Ok,
        step_br_if(m, depth)->Ok_0.f.value_types.len() <= usize::MAX,
        step_br_if(m, depth)->Ok_0.st.stack.len() <= usize::MAX,
        step_br_if(m, depth)->Ok_0.f.blocks.len() <= usize::MAX,
    ensures
        trans_wf(step_br_if(m, depth)->Ok_0),
{
    lemma_heights_below_stack(m);
    let m2 = step_br_if(m, depth)->Ok_0;
    assert(f_grows(m.f, m2.f));
    lemma_olds_grow(m, m2.f);
    assert forall|i: int, j: int| 0 <= i <= j < m2.st.control.len() implies (
    #[trigger] m2.st.control[i]).height <= (#[trigger] m2.st.control[j]).height by {
        if j < m.st.control.len() {
        }
    }
    assert forall|i: int| 0 <= i < m2.st.control.len() implies frame_wf(
        #[trigger] m2.st.control[i],
        m2.f,
    ) by {
        if i < m.st.control.len() {
            lemma_frame_wf_grows(m.st.control[i], m.f, m2.f);
            assert(frame_wf(m2.st.control[i], m2.f));
        } else {
            assert(frame_wf(m2.st.control[i], m2.f));
        }
    }
    lemma_wf_from_grows(m, m2);
}

/// One opcode family keeps the invariant.
#[verifier::rlimit(100)]
#[verifier::spinoff_prover]
proof fn lemma_wf_return_op(m: TransM)
    requires
        trans_wf(m),
        step_return(m) is Ok,
        step_return(m)->Ok_0.f.value_types.len() <= usize::MAX,
        step_return(m)->Ok_0.st.stack.len() <= usize::MAX,
        step_return(m)->Ok_0.f.blocks.len() <= usize::MAX,
        step_return(m)->Ok_0.st.stack.len() <= usize::MAX,
        step_return(m)->Ok_0.f.blocks.len() <= usize::MAX,
    ensures
        trans_wf(step_return(m)->Ok_0),
{
    lemma_heights_below_stack(m);
    let m2 = step_return(m)->Ok_0;
    assert(f_grows(m.f, m2.f));
    lemma_olds_grow(m, m2.f);
    assert forall|i: int, j: int| 0 <= i <= j < m2.st.control.len() implies (
    #[trigger] m2.st.control[i]).height <= (#[trigger] m2.st.control[j]).height by {
        if j < m.st.control.len() {
        }
    }
    assert forall|i: int| 0 <= i < m2.st.control.len() implies frame_wf(
        #[trigger] m2.st.control[i],
        m2.f,
    ) by {
        if i < m.st.control.len() {
            lemma_frame_wf_grows(m.st.control[i], m.f, m2.f);
            assert(frame_wf(m2.st.control[i], m2.f));
        } else {
            assert(frame_wf(m2.st.control[i], m2.f));
        }
    }
    lemma_wf_from_grows(m, m2);
}

/// One opcode family keeps the invariant.
#[verifier::rlimit(100)]
#[verifier::spinoff_prover]
proof fn lemma_wf_block(m: TransM, results: Seq<WasmType>, env: Environment)
    requires
        trans_wf(m),
        step_block(m, results, env) is Ok,
        step_block(m, results, env)->Ok_0.f.value_types.len() <= usize::MAX,
        step_block(m, results, env)->Ok_0.st.stack.len() <= usize::MAX,
        step_block(m, results, env)->Ok_0.f.blocks.len() <= usize::MAX,
    ensures
        trans_wf(step_block(m, results, env)->Ok_0),
{
    lemma_heights_below_stack(m);
    let m2 = step_block(m, results, env)->Ok_0;
    assert(f_grows(m.f, m2.f));
    lemma_olds_grow(m, m2.f);
    assert forall|i: int, j: int| 0 <= i <= j < m2.st.control.len() implies (
    #[trigger] m2.st.control[i]).height <= (#[trigger] m2.st.control[j]).height by {
        if j < m.st.control.len() {
        }
    }
    assert forall|i: int| 0 <= i < m2.st.control.len() implies frame_wf(
        #[trigger] m2.st.control[i],
        m2.f,
    ) by {
        if i < m.st.control.len() {
            lemma_frame_wf_grows(m.st.control[i], m.f, m2.f);
            assert(frame_wf(m2.st.control[i], m2.f));
        } else {
            assert(frame_wf(m2.st.control[i], m2.f));
        }
    }
    lemma_wf_from_grows(m, m2);
}

/// One opcode family keeps the invariant.
#[verifier::rlimit(100)]
#[verifier::spinoff_prover]
proof fn lemma_wf_loop_op(m: TransM, results: Seq<WasmType>, env: Environment)
    requires
        trans_wf(m),
        step_loop(m, results, env) is Ok,
        step_loop(m, results, env)->Ok_0.f.value_types.len() <= usize::MAX,
        step_loop(m, results, env)->Ok_0.st.stack.len() <= usize::MAX,
        step_loop(m, results, env)->Ok_0.f.blocks.len() <= usize::MAX,
    ensures
        trans_wf(step_loop(m, results, env)->Ok_0),
{
    lemma_heights_below_stack(m);
    let m2 = step_loop(m, results, env)->Ok_0;
    assert(f_grows(m.f, m2.f));
    lemma_olds_grow(m, m2.f);
    assert forall|i: int, j: int| 0 <= i <= j < m2.st.control.len() implies (
    #[trigger] m2.st.control[i]).height <= (#[trigger] m2.st.control[j]).height by {
        if j < m.st.control.len() {
        }
    }
    assert forall|i: int| 0 <= i < m2.st.control.len() implies frame_wf(
        #[trigger] m2.st.control[i],
        m2.f,
    ) by {
        if i < m.st.control.len() {
            lemma_frame_wf_grows(m.st.control[i], m.f, m2.f);
            assert(frame_wf(m2.st.control[i], m2.f));
        } else {
            assert(frame_wf(m2.st.control[i], m2.f));
        }
    }
    lemma_wf_from_grows(m, m2);
}

/// One opcode family keeps the invariant.
#[verifier::rlimit(100)]
#[verifier::spinoff_prover]
proof fn lemma_wf_if_op(m: TransM, results: Seq<WasmType>, env: Environment)
    requires
        trans_wf(m),
        step_if(m, results, env) is Ok,
        step_if(m, results, env)->Ok_0.f.value_types.len() <= usize::MAX,
        step_if(m, results, env)->Ok_0.st.stack.len() <= usize::MAX,
        step_if(m, results, env)->Ok_0.f.blocks.len() <= usize::MAX,
    ensures
        trans_wf(step_if(m, results, env)->Ok_0),
{
    lemma_heights_below_stack(m);
    let m2 = step_if(m, results, env)->Ok_0;
    assert(f_grows(m.f, m2.f));
    lemma_olds_grow(m, m2.f);
    assert forall|i: int, j: int| 0 <= i <= j < m2.st.control.len() implies (
    #[trigger] m2.st.control[i]).height <= (#[trigger] m2.st.control[j]).height by {
        if j < m.st.control.len() {
        }
    }
    assert forall|i: int| 0 <= i < m2.st.control.len() implies frame_wf(
        #[trigger] m2.st.control[i],
        m2.f,
    ) by {
        if i < m.st.control.len() {
            lemma_frame_wf_grows(m.st.control[i], m.f, m2.f);
            assert(frame_wf(m2.st.control[i], m2.f));
        } else {
            assert(frame_wf(m2.st.control[i], m2.f));
        }
    }
    lemma_wf_from_grows(m, m2);
}

/// One opcode family keeps the invariant.
#[verifier::rlimit(100)]
#[verifier::spinoff_prover]
proof fn lemma_wf_call(m: TransM, function: u32, env: Environment)
    requires
        trans_wf(m),
        step_call(m, function, env) is Ok,
        step_call(m, function, env)->Ok_0.f.value_types.len() <= usize::MAX,
        step_call(m, function, env)->Ok_0.st.stack.len() <= usize::MAX,
        step_call(m, function, env)->Ok_0.f.blocks.len() <= usize::MAX,
    ensures
        trans_wf(step_call(m, function, env)->Ok_0),
{
    lemma_heights_below_stack(m);
    let m2 = step_call(m, function, env)->Ok_0;
    let sidx = env.functions@[function as int];
    let sig = env.signatures@[sidx as int];
    let ptys = crate::types::spec_map_types(sig.params@, env.ptr);
    let ids = crate::translate::take_operands(m.st, ptys)->Ok_0.0;
    lemma_emit_args_grows(m.f, ids);
    assert(f_grows(m.f, m2.f));
    lemma_olds_grow(m, m2.f);
    assert forall|i: int, j: int| 0 <= i <= j < m2.st.control.len() implies (
    #[trigger] m2.st.control[i]).height <= (#[trigger] m2.st.control[j]).height by {
        if j < m.st.control.len() {
        }
    }
    assert forall|i: int| 0 <= i < m2.st.control.len() implies frame_wf(
        #[trigger] m2.st.control[i],
        m2.f,
    ) by {
        if i < m.st.control.len() {
            lemma_frame_wf_grows(m.st.control[i], m.f, m2.f);
            assert(frame_wf(m2.st.control[i], m2.f));
        } else {
            assert(frame_wf(m2.st.control[i], m2.f));
        }
    }
    lemma_wf_from_grows(m, m2);
}

/// One opcode family keeps the invariant.
#[verifier::rlimit(100)]
#[verifier::spinoff_prover]
proof fn lemma_wf_call_indirect(m: TransM, table: u32, sig: u32, env: Environment)
    requires
        trans_wf(m),
        step_call_indirect(m, table, sig, env) is Ok,
        step_call_indirect(m, table, sig, env)->Ok_0.f.value_types.len() <= usize::MAX,
        step_call_indirect(m, table, sig, env)->Ok_0.st.stack.len() <= usize::MAX,
        step_call_indirect(m, table, sig, env)->Ok_0.f.blocks.len() <= usize::MAX,
    ensures
        trans_wf(step_call_indirect(m, table, sig, env)->Ok_0),
{
    lemma_heights_below_stack(m);
    let m2 = step_call_indirect(m, table, sig, env)->Ok_0;
    let signature = env.signatures@[sig as int];
    let ptys = crate::types::spec_map_types(signature.params@, env.ptr);
    let cids = crate::translate::take_operands(m.st, seq![crate::types::IrType::Int32])->Ok_0.0;
    let st1 = crate::translate::take_operands(m.st, seq![crate::types::IrType::Int32])->Ok_0.1;
    let ids = crate::translate::take_operands(st1, ptys)->Ok_0.0;
    let f1 = crate::environ::m_indirect_target(m.f, env, table as usize, sig as usize, cids[0]).0;
    lemma_emit_args_grows(f1, ids);
    assert(f_grows(m.f, m2.f));
    lemma_olds_grow(m, m2.f);
    assert forall|i: int, j: int| 0 <= i <= j < m2.st.control.len() implies (
    #[trigger] m2.st.control[i]).height <= (#[trigger] m2.st.control[j]).height by {
        if j < m.st.control.len() {
        }
    }
    assert forall|i: int| 0 <= i < m2.st.control.len() implies frame_wf(
        #[trigger] m2.st.control[i],
        m2.f,
    ) by {
        if i < m.st.control.len() {
            lemma_frame_wf_grows(m.st.control[i], m.f, m2.f);
            assert(frame_wf(m2.st.control[i], m2.f));
        } else {
            assert(frame_wf(m2.st.control[i], m2.f));
        }
    }
    lemma_wf_from_grows(m, m2);
}

/// One opcode family keeps the invariant.
#[verifier::rlimit(100)]
#[verifier::spinoff_prover]
proof fn lemma_wf_global_get(m: TransM, global: u32, env: Environment)
    requires
        trans_wf(m),
        step_global_get(m, global, env) is Ok,
        step_global_get(m, global, env)->Ok_0.f.value_types.len() <= usize::MAX,
        step_global_get(m, global, env)->Ok_0.st.stack.len() <= usize::MAX,
        step_global_get(m, global, env)->Ok_0.f.blocks.len() <= usize::MAX,
    ensures
        trans_wf(step_global_get(m, global, env)->Ok_0),
{
    lemma_heights_below_stack(m);
    let m2 = step_global_get(m, global, env)->Ok_0;
    assert(f_grows(m.f, m2.f));
    lemma_olds_grow(m, m2.f);
    assert forall|i: int, j: int| 0 <= i <= j < m2.st.control.len() implies (
    #[trigger] m2.st.control[i]).height <= (#[trigger] m2.st.control[j]).height by {
        if j < m.st.control.len() {
        }
    }
    assert forall|i: int| 0 <= i < m2.st.control.len() implies frame_wf(
        #[trigger] m2.st.control[i],
        m2.f,
    ) by {
        if i < m.st.control.len() {
            lemma_frame_wf_grows(m.st.control[i], m.f, m2.f);
            assert(frame_wf(m2.st.control[i], m2.f));
        } else {
            assert(frame_wf(m2.st.control[i], m2.f));
        }
    }
    lemma_wf_from_grows(m, m2);
}

/// One opcode family keeps the invariant.
#[verifier::rlimit(100)]
#[verifier::spinoff_prover]
proof fn lemma_wf_global_set(m: TransM, global: u32, env: Environment)
    requires
        trans_wf(m),
        step_global_set(m, global, env) is Ok,
        step_global_set(m, global, env)->Ok_0.f.value_types.len() <= usize::MAX,
        step_global_set(m, global, env)->Ok_0.st.stack.len() <= usize::MAX,
        step_global_set(m, global, env)->Ok_0.f.blocks.len() <= usize::MAX,
    ensures
        trans_wf(step_global_set(m, global, env)->Ok_0),
{
    lemma_heights_below_stack(m);
    let m2 = step_global_set(m, global, env)->Ok_0;
    assert(f_grows(m.f, m2.f));
    lemma_olds_grow(m, m2.f);
    assert forall|i: int, j: int| 0 <= i <= j < m2.st.control.len() implies (
    #[trigger] m2.st.control[i]).height <= (#[trigger] m2.st.control[j]).height by {
        if j < m.st.control.len() {
        }
    }
    assert forall|i: int| 0 <= i < m2.st.control.len() implies frame_wf(
        #[trigger] m2.st.control[i],
        m2.f,
    ) by {
        if i < m.st.control.len() {
            lemma_frame_wf_grows(m.st.control[i], m.f, m2.f);
            assert(frame_wf(m2.st.control[i], m2.f));
        } else {
            assert(frame_wf(m2.st.control[i], m2.f));
        }
    }
    lemma_wf_from_grows(m, m2);
}

/// One opcode family keeps the invariant.
#[verifier::rlimit(100)]
#[verifier::spinoff_prover]
proof fn lemma_wf_memop(m: TransM, is_store: bool, ty: crate::types::IrType, size: u32, offset: u32, env: Environment)
    requires
        trans_wf(m),
        step_memop(m, is_store, ty, size, offset, env) is Ok,
        step_memop(m, is_store, ty, size, offset, env)->Ok_0.f.value_types.len() <= usize::MAX,
        step_memop(m, is_store, ty, size, offset, env)->Ok_0.st.stack.len() <= usize::MAX,
        step_memop(m, is_store, ty, size, offset, env)->Ok_0.f.blocks.len() <= usize::MAX,
    ensures
        trans_wf(step_memop(m, is_store, ty, size, offset, env)->Ok_0),
{
    lemma_heights_below_stack(m);
    let m2 = step_memop(m, is_store, ty, size, offset, env)->Ok_0;
    assert(f_grows(m.f, m2.f));
    lemma_olds_grow(m, m2.f);
    assert forall|i: int, j: int| 0 <= i <= j < m2.st.control.len() implies (
    #[trigger] m2.st.control[i]).height <= (#[trigger] m2.st.control[j]).height by {
        if j < m.st.control.len() {
        }
    }
    assert forall|i: int| 0 <= i < m2.st.control.len() implies frame_wf(
        #[trigger] m2.st.control[i],
        m2.f,
    ) by {
        if i < m.st.control.len() {
            lemma_frame_wf_grows(m.st.control[i], m.f, m2.f);
            assert(frame_wf(m2.st.control[i], m2.f));
        } else {
            assert(frame_wf(m2.st.control[i], m2.f));
        }
    }
    lemma_wf_from_grows(m, m2);
}

/// Marshaling arguments appends instructions only: every block, every
/// parameter list and every value type survives.
proof fn lemma_emit_args_grows(f: IrFunctionM, ids: Seq<usize>)
    requires
        f.current < f.blocks.len(),
    ensures
        crate::translate::m_emit_args(f, ids).blocks.len() == f.blocks.len(),
        forall|b: int|
            0 <= b < f.blocks.len() ==> (#[trigger] crate::translate::m_emit_args(
                f,
                ids,
            ).blocks[b]).params == f.blocks[b].params,
        crate::translate::m_emit_args(f, ids).value_types == f.value_types,
        crate::translate::m_emit_args(f, ids).current == f.current,
        crate::translate::m_emit_args(f, ids).vars == f.vars,
    decreases ids.len(),
{
    if ids.len() == 0 {
        assert(crate::translate::m_emit_args(f, ids) == f);
    } else {
        lemma_emit_args_grows(f, ids.drop_last());
        let fr = crate::translate::m_emit_args(f, ids.drop_last());
        let f2 = crate::ir::m_emit_void(fr, crate::ir::IrOp::Arg, ids.last(), 0);
        assert(crate::translate::m_emit_args(f, ids) == f2);
        assert(f2.blocks.len() == fr.blocks.len());
        assert(f2.value_types == fr.value_types);
        assert(f2.current == fr.current);
        assert(f2.vars == fr.vars);
        assert forall|b: int| 0 <= b < f.blocks.len() implies (#[trigger] f2.blocks[b]).params
            == f.blocks[b].params by {
            assert(fr.blocks[b].params == f.blocks[b].params);
            if b == fr.current as int {
            }
        }
    }
}

/// What one translation step keeps true of the whole state: the
/// operand-stack height and the element types at every control-construct
/// boundary keep matching the boundary's declared type signature (each
/// merge block's parameters carry exactly the construct's result types,
/// and the stack never dips below an open construct's entry snapshot).
#[verifier::rlimit(100)]
#[verifier::spinoff_prover]
pub proof fn lemma_step_preserves_wf(m: TransM, op: Operator, env: Environment)
    requires
        trans_wf(m),
        step(m, op, env) is Ok,
        step(m, op, env)->Ok_0.f.value_types.len() <= usize::MAX,
        step(m, op, env)->Ok_0.st.stack.len() <= usize::MAX,
        step(m, op, env)->Ok_0.f.blocks.len() <= usize::MAX,
    ensures
        trans_wf(step(m, op, env)->Ok_0),
{
    let m2 = step(m, op, env)->Ok_0;
    lemma_heights_below_stack(m);
    if !m.st.reachable {
        match op {
            Operator::Block { .. } | Operator::Loop { .. } | Operator::If { .. } => {
                assert(f_grows(m.f, m2.f));
                lemma_olds_grow(m, m2.f);
                assert forall|i: int, j: int| 0 <= i <= j < m2.st.control.len() implies (
                #[trigger] m2.st.control[i]).height <= (#[trigger] m2.st.control[j]).height by {
                    if j < m.st.control.len() {
                    }
                }
                assert forall|i: int| 0 <= i < m2.st.control.len() implies frame_wf(
                    #[trigger] m2.st.control[i],
                    m2.f,
                ) by {
                    if i < m.st.control.len() {
                        lemma_frame_wf_grows(m.st.control[i], m.f, m2.f);
                        assert(frame_wf(m2.st.control[i], m2.f));
                    } else {
                        assert(frame_wf(m2.st.control[i], m2.f));
                    }
                }
                lemma_wf_from_grows(m, m2);
            },
            Operator::Else => {
                lemma_wf_else_op(m);
            },
            Operator::End => {
                lemma_wf_end(m);
            },
            _ => {
                assert(m2 == m);
            },
        }
    } else if spec_const_class(op) is Some {
        assert(f_grows(m.f, m2.f));
        lemma_olds_grow(m, m2.f);
        lemma_wf_from_grows(m, m2);
    } else if spec_binop_class(op) is Some {
        assert(f_grows(m.f, m2.f));
        lemma_olds_grow(m, m2.f);
        lemma_wf_from_grows(m, m2);
    } else {
        match op {
            Operator::Nop | Operator::Drop | Operator::LocalGet { .. } | Operator::LocalSet {
                ..
            } | Operator::LocalTee { .. } | Operator::Unreachable => {
                assert(f_grows(m.f, m2.f));
                lemma_olds_grow(m, m2.f);
                lemma_wf_from_grows(m, m2);
            },
            Operator::Else => {
                lemma_wf_else_op(m);
            },
            Operator::End => {
                lemma_wf_end(m);
            },
            Operator::Block { results } => {
                lemma_wf_block(m, results@, env);
            },
            Operator::Loop { results } => {
                lemma_wf_loop_op(m, results@, env);
            },
            Operator::If { results } => {
                lemma_wf_if_op(m, results@, env);
            },
            Operator::Br { depth } => {
                lemma_wf_br(m, depth);
            },
            Operator::BrIf { depth } => {
                lemma_wf_br_if(m, depth);
            },
            Operator::Return => {
                lemma_wf_return_op(m);
            },
            Operator::Call { function } => {
                lemma_wf_call(m, function, env);
            },
            Operator::CallIndirect { table, sig } => {
                lemma_wf_call_indirect(m, table, sig, env);
            },
            Operator::GlobalGet { global } => {
                lemma_wf_global_get(m, global, env);
            },
            Operator::GlobalSet { global } => {
                lemma_wf_global_set(m, global, env);
            },
            _ => {
                if spec_memop_class(op) is Some {
                    let (is_store, ty, size, offset) = spec_memop_class(op)->Some_0;
                    lemma_wf_memop(m, is_store, ty, size, offset, env);
                }
            },
        }
    }
}

/// Translating the same function body against the same environment twice
/// yields structurally identical IR — same blocks, same instructions,
/// same value numbering: the translation is a function of the body, the
/// signature, the locals and the environment alone.
pub proof fn lemma_translation_deterministic(
    sig: crate::types::Signature,
    locals: Seq<WasmType>,
    code: Seq<Operator>,
    env: Environment,
    f1: IrFunctionM,
    f2: IrFunctionM,
)
    requires
        crate::translate::spec_translate(sig, locals, code, env) is Ok,
        f1 == crate::translate::spec_translate(sig, locals, code, env)->Ok_0.f,
        f2 == crate::translate::spec_translate(sig, locals, code, env)->Ok_0.f,
    ensures
        f1 == f2,
        f1.blocks.len() == f2.blocks.len(),
        forall|b: int|
            0 <= b < f1.blocks.len() ==> (#[trigger] f1.blocks[b]).insts == f2.blocks[b].insts
                && f1.blocks[b].params == f2.blocks[b].params && f1.blocks[b].term
                == f2.blocks[b].term,
{
}

/// Branch/merge correctness: a successful branch out of a construct
/// emits a jump whose arguments are exactly the ids of the values on the
/// operand stack at the branch site, one per value the boundary declares,
/// and the merge block receiving them has exactly one parameter per such
/// value, typed alike — so every predecessor edge of the merge point
/// carries matching incoming arguments.
pub proof fn lemma_branch_merge(m: TransM, depth: u32)
    requires
        trans_wf(m),
        step_br(m, depth) is Ok,
        !(m.st.control[m.st.control.len() - 1 - depth as int].kind is Loop),
        !(m.st.control[m.st.control.len() - 1 - depth as int].kind is Function),
    ensures
        step_br(m, depth)->Ok_0.f.blocks[m.f.current as int].term == Some(
            crate::ir::TerminatorM::Jump {
                to: crate::ir::BranchTargetM {
                    block: m.st.control[m.st.control.len() - 1 - depth as int].dest,
                    args: crate::state::ids_of(
                        crate::state::top_vals(
                            m.st,
                            m.st.control[m.st.control.len() - 1 - depth as int].results.len() as int,
                        ),
                    ),
                },
            },
        ),
        step_br(m, depth)->Ok_0.f.blocks[
            m.st.control[m.st.control.len() - 1 - depth as int].dest as int
        ].params.len() == m.st.control[m.st.control.len() - 1 - depth as int].results.len(),
        forall|k: int|
            0 <= k < m.st.control[m.st.control.len() - 1 - depth as int].results.len()
                ==> (#[trigger] crate::state::top_vals(
                m.st,
                m.st.control[m.st.control.len() - 1 - depth as int].results.len() as int,
            )[k]).ty == step_br(m, depth)->Ok_0.f.blocks[
                m.st.control[m.st.control.len() - 1 - depth as int].dest as int
            ].params[k].ty,
{
    let fr = m.st.control[m.st.control.len() - 1 - depth as int];
    assert(frame_wf(fr, m.f));
    let n = fr.results.len() as int;
    assert(crate::translate::br_target(fr) == (fr.dest, fr.results));
    assert(crate::state::stack_tops(m.st, fr.results));
    let args = crate::state::ids_of(crate::state::top_vals(m.st, n));
    let t = crate::ir::TerminatorM::Jump {
        to: crate::ir::BranchTargetM { block: fr.dest, args },
    };
    let m2 = step_br(m, depth)->Ok_0;
    assert(m2.f == crate::ir::m_set_term(m.f, t));
    assert(m2.f.blocks[m.f.current as int].term == Some(t));
    assert(m2.f.blocks[fr.dest as int].params == m.f.blocks[fr.dest as int].params);
    assert forall|k: int| 0 <= k < n implies (#[trigger] crate::state::top_vals(m.st, n)[k]).ty
        == m2.f.blocks[fr.dest as int].params[k].ty by {
        assert(crate::state::top_vals(m.st, n)[k] == m.st.stack[m.st.stack.len() - n + k]);
        assert(m.st.stack[m.st.stack.len() - n + k].ty == fr.results[k]);
        assert(m.f.blocks[fr.dest as int].params[k].ty == fr.results[k]);
    }
}

/// Unreachable-code handling: an instruction at an unreachable program
/// point — other than the `else`/`end` boundaries that can restore
/// reachability — emits no IR, leaves the operand stack untouched, and
/// leaves the point unreachable, whatever the instruction is (even one
/// that could never type-check live).
pub proof fn lemma_dead_code_emits_nothing(m: TransM, op: Operator, env: Environment)
    requires
        !m.st.reachable,
        !(op matches Operator::Else),
        !(op matches Operator::End),
    ensures
        step(m, op, env) is Ok,
        step(m, op, env)->Ok_0.f == m.f,
        step(m, op, env)->Ok_0.st.stack == m.st.stack,
        !step(m, op, env)->Ok_0.st.reachable,
{
}

/// Whether every state along a run stays within the machine's size
/// bounds — true of every run the executable translator performs, whose
/// sequences live in real vectors.
pub open spec fn run_fits(m: TransM, ops: Seq<Operator>, env: Environment) -> bool
    decreases ops.len(),
{
    m.st.control.len() == 0 || ops.len() == 0 || (match step(m, ops[0], env) {
        Err(_) => true,
        Ok(m2) => m2.f.value_types.len() <= usize::MAX && m2.st.stack.len() <= usize::MAX
            && m2.f.blocks.len() <= usize::MAX && run_fits(m2, ops.drop_first(), env),
    })
}

/// The whole-translation form of the per-step invariant: along any run
/// that fits the machine, the translation invariant — the operand-stack
/// height and element types at every control-construct boundary matching
/// that boundary's declared type signature — holds at every intermediate
/// state and at the final one.
pub proof fn lemma_run_preserves_wf(m: TransM, ops: Seq<Operator>, env: Environment, pos: int)
    requires
        trans_wf(m),
        run_fits(m, ops, env),
        crate::translate::run(m, ops, env, pos) is Ok,
    ensures
        trans_wf(crate::translate::run(m, ops, env, pos)->Ok_0),
    decreases ops.len(),
{
    if m.st.control.len() == 0 {
    } else if ops.len() == 0 {
    } else {
        match step(m, ops[0], env) {
            Err(_) => {},
            Ok(m2) => {
                lemma_step_preserves_wf(m, ops[0], env);
                lemma_run_preserves_wf(m2, ops.drop_first(), env, pos + 1);
            },
        }
    }
}

} // verus!
