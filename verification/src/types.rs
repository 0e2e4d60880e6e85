//! Type and signature mapping between the bytecode's type system and the IR.

use vstd::prelude::*;

verus! {

/// A value type of the bytecode's type system: fixed-width integers,
/// fixed-width floating point, and opaque reference types.
#[derive(Clone, Copy, PartialEq, Eq, Structural, Debug)]
pub enum WasmType {
    I32,
    I64,
    F32,
    F64,
    FuncRef,
    ExternRef,
}

/// A type of the target-independent IR.  Reference types of the bytecode
/// lower to the target's pointer type, reported by the environment.
#[derive(Clone, Copy, PartialEq, Eq, Structural, Debug)]
pub enum IrType {
    Int32,
    Int64,
    Float32,
    Float64,
    Ptr32,
    Ptr64,
}

/// A bytecode function signature: ordered parameter and result types.
#[derive(Clone, Debug)]
pub struct Signature {
    pub params: Vec<WasmType>,
    pub results: Vec<WasmType>,
}

/// An IR signature.  Its parameter list carries one implicit leading
/// context pointer so that every call site and function entry agree on
/// argument order.
#[derive(Clone, Debug)]
pub struct IrSignature {
    pub params: Vec<IrType>,
    pub results: Vec<IrType>,
}

/// What a bytecode value type lowers to, given the target's pointer type.
/// Total over the bytecode's value type set: an unrecognized type cannot
/// arise, the enumeration is closed.
pub open spec fn spec_map_value_type(t: WasmType, ptr: IrType) -> IrType {
    match t {
        WasmType::I32 => IrType::Int32,
        WasmType::I64 => IrType::Int64,
        WasmType::F32 => IrType::Float32,
        WasmType::F64 => IrType::Float64,
        WasmType::FuncRef => ptr,
        WasmType::ExternRef => ptr,
    }
}

/// Lowers one bytecode value type to its IR type.
pub fn map_value_type(t: WasmType, ptr: IrType) -> (r: IrType)
    ensures
        r == spec_map_value_type(t, ptr),
{
    match t {
        WasmType::I32 => IrType::Int32,
        WasmType::I64 => IrType::Int64,
        WasmType::F32 => IrType::Float32,
        WasmType::F64 => IrType::Float64,
        WasmType::FuncRef => ptr,
        WasmType::ExternRef => ptr,
    }
}

/// Element-wise lowering of a type list.
pub open spec fn spec_map_types(ts: Seq<WasmType>, ptr: IrType) -> Seq<IrType> {
    ts.map_values(|t: WasmType| spec_map_value_type(t, ptr))
}

/// Lowers a list of bytecode value types.
pub fn map_types(ts: &Vec<WasmType>, ptr: IrType) -> (r: Vec<IrType>)
    ensures
        r@ == spec_map_types(ts@, ptr),
{
    let mut r: Vec<IrType> = Vec::new();
    let mut i: usize = 0;
    while i < ts.len()
        invariant
            i <= ts@.len(),
            r@ == spec_map_types(ts@.take(i as int), ptr),
        decreases ts@.len() - i,
    {
        r.push(map_value_type(ts[i], ptr));
        proof {
            assert(ts@.take(i + 1).map_values(|t: WasmType| spec_map_value_type(t, ptr))
                =~= ts@.take(i as int).map_values(|t: WasmType| spec_map_value_type(t, ptr))
                    .push(spec_map_value_type(ts@[i as int], ptr)));
        }
        i = i + 1;
    }
    proof {
        assert(ts@.take(ts@.len() as int) =~= ts@);
    }
    r
}

/// The IR parameter list of a mapped signature: the implicit context
/// pointer, then the lowered bytecode parameters.
pub open spec fn spec_map_sig_params(params: Seq<WasmType>, ptr: IrType) -> Seq<IrType> {
    seq![ptr] + spec_map_types(params, ptr)
}

/// Maps a bytecode signature to an IR signature, injecting the implicit
/// leading context-pointer parameter the calling convention requires.
pub fn map_signature(sig: &Signature, ptr: IrType) -> (r: IrSignature)
    ensures
        r.params@ == spec_map_sig_params(sig.params@, ptr),
        r.results@ == spec_map_types(sig.results@, ptr),
{
    let mut params: Vec<IrType> = Vec::new();
    params.push(ptr);
    let mapped = map_types(&sig.params, ptr);
    let mut i: usize = 0;
    while i < mapped.len()
        invariant
            i <= mapped@.len(),
            params@ == seq![ptr] + mapped@.take(i as int),
        decreases mapped@.len() - i,
    {
        params.push(mapped[i]);
        proof {
            assert(seq![ptr] + mapped@.take(i + 1)
                =~= (seq![ptr] + mapped@.take(i as int)).push(mapped@[i as int]));
        }
        i = i + 1;
    }
    proof {
        assert(mapped@.take(mapped@.len() as int) =~= mapped@);
    }
    IrSignature { params, results: map_types(&sig.results, ptr) }
}

/// An abstract operation with no direct IR equivalent on the target; it
/// lowers to a call of an external support routine.
#[derive(Clone, Copy, PartialEq, Eq, Structural, Debug)]
pub enum LibraryOp {
    MemoryGrow,
    MemorySize,
    TruncSatF32ToI32,
    TruncSatF64ToI64,
    Mul128,
}

/// The external support routine a [`LibraryOp`] lowers to.
#[derive(Clone, Copy, PartialEq, Eq, Structural, Debug)]
pub enum LibCall {
    MemoryGrow,
    MemorySize,
    TruncSatF32ToI32,
    TruncSatF64ToI64,
    Mul128,
}

/// The relocation class of an emitted external-routine reference.
#[derive(Clone, Copy, PartialEq, Eq, Structural, Debug)]
pub enum RelocationKind {
    Absolute,
    CallRelative,
}

/// The static library-call table: which external routine and relocation
/// class each abstract operation lowers to.
pub open spec fn spec_map_library_call(op: LibraryOp) -> (LibCall, RelocationKind) {
    match op {
        LibraryOp::MemoryGrow => (LibCall::MemoryGrow, RelocationKind::CallRelative),
        LibraryOp::MemorySize => (LibCall::MemorySize, RelocationKind::CallRelative),
        LibraryOp::TruncSatF32ToI32 => (LibCall::TruncSatF32ToI32, RelocationKind::Absolute),
        LibraryOp::TruncSatF64ToI64 => (LibCall::TruncSatF64ToI64, RelocationKind::Absolute),
        LibraryOp::Mul128 => (LibCall::Mul128, RelocationKind::Absolute),
    }
}

/// Maps an abstract operation to its external routine and relocation
/// class.  The mapping is a static table, not computed.
pub fn map_library_call(op: LibraryOp) -> (r: (LibCall, RelocationKind))
    ensures
        r == spec_map_library_call(op),
{
    match op {
        LibraryOp::MemoryGrow => (LibCall::MemoryGrow, RelocationKind::CallRelative),
        LibraryOp::MemorySize => (LibCall::MemorySize, RelocationKind::CallRelative),
        LibraryOp::TruncSatF32ToI32 => (LibCall::TruncSatF32ToI32, RelocationKind::Absolute),
        LibraryOp::TruncSatF64ToI64 => (LibCall::TruncSatF64ToI64, RelocationKind::Absolute),
        LibraryOp::Mul128 => (LibCall::Mul128, RelocationKind::Absolute),
    }
}

} // verus!
