//! Translation errors.
//!
//! Three kinds.  Structural errors mean the function body violated the
//! operand- or control-stack discipline that an upstream validation pass
//! should have enforced; they are re-checked here, fatal for the function,
//! and never recovered from.  Resolution errors mean the environment could
//! not resolve a module-scoped entity; fatal for the whole module
//! translation.  Unsupported errors name a construct the target cannot
//! lower, with a flag separating "not yet implemented" from "fundamentally
//! unsupported".

use vstd::prelude::*;

verus! {

/// The module-scoped entity class a resolution error is about.
#[derive(Clone, Copy, PartialEq, Eq, Structural, Debug)]
pub enum EntityKind {
    Global,
    Memory,
    Table,
    Function,
    Signature,
}

/// What discipline a structural error found violated.
#[derive(Clone, Copy, PartialEq, Eq, Structural, Debug)]
pub enum StructuralCause {
    /// An instruction needed more operands than its enclosing construct
    /// still had on the operand stack.
    OperandStackUnderflow,
    /// An operand or result had the wrong type.
    TypeMismatch,
    /// An `else` with no open conditional to belong to.
    UnmatchedElse,
    /// An `end` with no open construct to close.
    UnmatchedEnd,
    /// The instruction stream ended with a construct still open.
    MissingEnd,
    /// A branch named a relative depth with no construct at it.
    BadBranchDepth,
    /// The targets of a computed branch disagree on how many values they
    /// carry.
    BranchArityMismatch,
    /// A write to a non-mutable global.
    ImmutableGlobal,
    /// A variable index with no variable behind it.
    BadLocalIndex,
}

/// An error code, without its instruction offset.
#[derive(Clone, Copy, PartialEq, Eq, Structural, Debug)]
pub enum ErrCode {
    Structure { cause: StructuralCause },
    Resolution { kind: EntityKind, index: u32 },
    Unsupported { fundamental: bool },
}

/// A translation error: the code, and the offset (instruction index in
/// the function body) it arose at.
#[derive(Clone, Copy, PartialEq, Eq, Structural, Debug)]
pub struct TranslationError {
    pub offset: usize,
    pub code: ErrCode,
}

} // verus!
