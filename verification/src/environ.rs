//! The environment abstraction: how module-scoped entities (globals,
//! memories, tables, callees) resolve to IR-level values and addresses.
//!
//! An embedding host fills one [`Environment`] per module with its
//! resolution tables; translation of every function of the module reads
//! them, concurrently and without mutation.  Resolution may append IR
//! instructions (constant materialization, address computation, inline
//! bounds checks) to the current block: an intentional side channel, not a
//! pure query.

use vstd::prelude::*;

use crate::errors::ErrCode;
use crate::ir::IrFunction;
use crate::ir::IrFunctionM;
use crate::ir::IrOp;
use crate::ir::Value;
use crate::ir::m_emit;
use crate::types::IrType;
use crate::types::Signature;
use crate::types::WasmType;
use crate::types::spec_map_value_type;

verus! {

/// The bounds-check strategy of a linear memory or table: a bound known
/// at compile time, or one read at run time.
#[derive(Clone, Copy, PartialEq, Eq, Structural, Debug)]
pub enum Bound {
    Static { bound: u64 },
    Dynamic,
}

/// One linear memory's resolution: its bounds-check strategy.
#[derive(Clone, Copy, PartialEq, Eq, Structural, Debug)]
pub struct MemoryDesc {
    pub bound: Bound,
}

/// One table's resolution: its bounds-check strategy.
#[derive(Clone, Copy, PartialEq, Eq, Structural, Debug)]
pub struct TableDesc {
    pub bound: Bound,
}

/// Where a global variable lives: directly embeddable as a constant, or
/// behind an address at a fixed offset from the runtime context.
#[derive(Clone, Copy, PartialEq, Eq, Structural, Debug)]
pub enum GlobalStorage {
    Constant { bits: u64 },
    Context { offset: u32 },
}

/// One global variable's resolution: its bytecode type, whether it is
/// mutable, and where it lives.
#[derive(Clone, Copy, PartialEq, Eq, Structural, Debug)]
pub struct GlobalDesc {
    pub ty: WasmType,
    pub mutable: bool,
    pub storage: GlobalStorage,
}

/// The per-module environment: the target's pointer type and byte order,
/// and the resolution tables for globals, memories, tables and functions
/// (`functions[i]` is the signature index of callee `i`).
#[derive(Clone, Debug)]
pub struct Environment {
    pub ptr: IrType,
    pub big_endian: bool,
    pub globals: Vec<GlobalDesc>,
    pub memories: Vec<MemoryDesc>,
    pub tables: Vec<TableDesc>,
    pub functions: Vec<usize>,
    pub signatures: Vec<Signature>,
}

/// The constant-materialization instruction for a `ty`-typed value with
/// the given bit pattern.
pub open spec fn const_op_for(ty: IrType, bits: u64) -> IrOp {
    match ty {
        IrType::Int32 => IrOp::Iconst32 { bits: bits as u32 },
        IrType::Int64 => IrOp::Iconst64 { bits },
        IrType::Float32 => IrOp::Fconst32 { bits: bits as u32 },
        IrType::Float64 => IrOp::Fconst64 { bits },
        IrType::Ptr32 => IrOp::Iconst32 { bits: bits as u32 },
        IrType::Ptr64 => IrOp::Iconst64 { bits },
    }
}

/// The IR type of global `g` of `env`.
pub open spec fn global_ir_ty(env: Environment, g: int) -> IrType {
    spec_map_value_type(env.globals@[g].ty, env.ptr)
}

/// Model of resolving a read of global `g`: a constant global
/// materializes as one constant; a context-resident one as its address
/// and a load through it.
pub open spec fn m_global_get(f: IrFunctionM, env: Environment, g: int) -> (IrFunctionM, Value) {
    let ty = global_ir_ty(env, g);
    match env.globals@[g].storage {
        GlobalStorage::Constant { bits } => m_emit(f, const_op_for(ty, bits), 0, 0, ty),
        GlobalStorage::Context { offset } => {
            let (f1, addr) = m_emit(f, IrOp::GlobalAddr { offset }, 0, 0, env.ptr);
            m_emit(f1, IrOp::Load { ty }, addr.id, 0, ty)
        },
    }
}

/// Model of resolving a write of the value id `val` to the
/// context-resident global at `offset`: its address, then a store.
pub open spec fn m_global_set(f: IrFunctionM, env: Environment, offset: u32, val: usize)
    -> IrFunctionM {
    let (f1, addr) = m_emit(f, IrOp::GlobalAddr { offset }, 0, 0, env.ptr);
    crate::ir::m_emit_void(f1, IrOp::Store, addr.id, val)
}

/// Model of resolving a memory access: the inline-checked address of an
/// `size`-byte access at index id `idx` plus `offset` into memory `mem`,
/// with the bounds-check strategy the memory's resolution calls for.
pub open spec fn m_heap_addr(
    f: IrFunctionM,
    env: Environment,
    mem: int,
    offset: u32,
    size: u32,
    idx: usize,
) -> (IrFunctionM, Value) {
    m_emit(
        f,
        IrOp::HeapAddr {
            memory: mem as usize,
            offset,
            access_size: size,
            dynamic_bound: env.memories@[mem].bound is Dynamic,
        },
        idx,
        0,
        env.ptr,
    )
}

/// Model of resolving an indirect-call target: the checked address of
/// entry `callee` of table `table`, then the trap-on-mismatch signature
/// check against signature `sig`.
pub open spec fn m_indirect_target(
    f: IrFunctionM,
    env: Environment,
    table: usize,
    sig: usize,
    callee: usize,
) -> (IrFunctionM, Value) {
    let (f1, addr) = m_emit(f, IrOp::TableAddr { table }, callee, 0, env.ptr);
    m_emit(f1, IrOp::SigCheck { sig }, addr.id, 0, env.ptr)
}

impl Environment {
    /// The target's pointer type.
    pub fn ptr_type(&self) -> (r: IrType)
        ensures
            r == self.ptr,
    {
        self.ptr
    }

    /// Whether the target stores multi-byte values most-significant byte
    /// first.
    pub fn byte_order_big(&self) -> (r: bool)
        ensures
            r == self.big_endian,
    {
        self.big_endian
    }
}

/// Emits the resolution of a read of global `g`.
pub fn emit_global_get(f: &mut IrFunction, env: &Environment, g: usize) -> (v: Value)
    requires
        g < env.globals@.len(),
        old(f)@.current < old(f)@.blocks.len(),
    ensures
        (final(f)@, v) == m_global_get(old(f)@, *env, g as int),
{
    let desc = env.globals[g];
    let ty = crate::types::map_value_type(desc.ty, env.ptr);
    match desc.storage {
        GlobalStorage::Constant { bits } => {
            let op = match ty {
                IrType::Int32 => IrOp::Iconst32 { bits: bits as u32 },
                IrType::Int64 => IrOp::Iconst64 { bits },
                IrType::Float32 => IrOp::Fconst32 { bits: bits as u32 },
                IrType::Float64 => IrOp::Fconst64 { bits },
                IrType::Ptr32 => IrOp::Iconst32 { bits: bits as u32 },
                IrType::Ptr64 => IrOp::Iconst64 { bits },
            };
            f.emit(op, 0, 0, ty)
        },
        GlobalStorage::Context { offset } => {
            let addr = f.emit(IrOp::GlobalAddr { offset }, 0, 0, env.ptr);
            f.emit(IrOp::Load { ty }, addr.id, 0, ty)
        },
    }
}

/// Emits the resolution of a write of value id `val` to the
/// context-resident global at `offset`.
pub fn emit_global_set(f: &mut IrFunction, env: &Environment, offset: u32, val: usize)
    requires
        old(f)@.current < old(f)@.blocks.len(),
    ensures
        final(f)@ == m_global_set(old(f)@, *env, offset, val),
{
    let addr = f.emit(IrOp::GlobalAddr { offset }, 0, 0, env.ptr);
    f.emit_void(IrOp::Store, addr.id, val);
}

/// Emits the inline bounds check and address computation of a memory
/// access, per the memory's resolved strategy.
pub fn emit_heap_addr(
    f: &mut IrFunction,
    env: &Environment,
    mem: usize,
    offset: u32,
    size: u32,
    idx: usize,
) -> (v: Value)
    requires
        mem < env.memories@.len(),
        old(f)@.current < old(f)@.blocks.len(),
    ensures
        (final(f)@, v) == m_heap_addr(old(f)@, *env, mem as int, offset, size, idx),
{
    let dynamic_bound = match env.memories[mem].bound {
        Bound::Dynamic => true,
        Bound::Static { .. } => false,
    };
    f.emit(IrOp::HeapAddr { memory: mem, offset, access_size: size, dynamic_bound }, idx, 0, env.ptr)
}

/// Emits the checked, signature-verified dispatch address of an indirect
/// call through table `table` expecting signature `sig`.
pub fn emit_indirect_target(
    f: &mut IrFunction,
    env: &Environment,
    table: usize,
    sig: usize,
    callee: usize,
) -> (v: Value)
    requires
        old(f)@.current < old(f)@.blocks.len(),
    ensures
        (final(f)@, v) == m_indirect_target(old(f)@, *env, table, sig, callee),
{
    let addr = f.emit(IrOp::TableAddr { table }, callee, 0, env.ptr);
    f.emit(IrOp::SigCheck { sig }, addr.id, 0, env.ptr)
}

/// Resolves a direct callee index to its signature index, checking both
/// tables.
pub fn resolve_function(env: &Environment, idx: u32) -> (r: Result<usize, ErrCode>)
    ensures
        match r {
            Ok(s) => idx < env.functions@.len() && s == env.functions@[idx as int] && s
                < env.signatures@.len(),
            Err(e) => {
                if idx as int >= env.functions@.len() {
                    e == ErrCode::Resolution { kind: crate::errors::EntityKind::Function, index: idx }
                } else {
                    env.functions@[idx as int] >= env.signatures@.len() && e
                        == ErrCode::Resolution {
                        kind: crate::errors::EntityKind::Signature,
                        index: idx,
                    }
                }
            },
        },
{
    if idx as usize >= env.functions.len() {
        return Err(ErrCode::Resolution { kind: crate::errors::EntityKind::Function, index: idx });
    }
    let s = env.functions[idx as usize];
    if s >= env.signatures.len() {
        return Err(ErrCode::Resolution { kind: crate::errors::EntityKind::Signature, index: idx });
    }
    Ok(s)
}

} // verus!
