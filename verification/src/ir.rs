//! The target-independent IR and the builder the translator emits into.
//!
//! An IR function is a set of basic blocks.  Each block has typed
//! parameters (the merge mechanism standing in for SSA phi nodes), a
//! straight-line instruction list, and one terminator; the list may
//! contain conditional side exits (`Brz`), so a block is an extended
//! basic block.  Every produced value has an id; `value_types` records
//! the type of each id.
//!
//! Conventions of this IR, relied on by its consumer:
//! - variable `i` (see `vars`) is initialized to the function's `i`-th
//!   bytecode parameter where one exists, and to zero otherwise;
//! - a call instruction takes its arguments from the immediately
//!   preceding `Arg` instructions, `num_args` of them, in order;
//! - a call with `num_results` results defines the value ids
//!   `result, result + 1, ..`;
//! - `HeapAddr` traps if the access it guards would fall outside the
//!   memory's bound; `TableAddr` traps on an out-of-bounds table index;
//!   `SigCheck` traps if the callee's runtime signature differs from the
//!   expected one; the division instructions trap exactly as
//!   [`crate::eval`] states.

use vstd::prelude::*;

use crate::types::IrSignature;
use crate::types::IrType;
use crate::types::LibCall;

verus! {

/// One IR value: an id together with its type.
#[derive(Clone, Copy, PartialEq, Eq, Structural, Debug)]
pub struct Value {
    pub id: usize,
    pub ty: IrType,
}

/// A reason an emitted trap fires.
#[derive(Clone, Copy, PartialEq, Eq, Structural, Debug)]
pub enum TrapCode {
    UnreachableCodeReached,
    HeapOutOfBounds,
    TableOutOfBounds,
    IndirectCallTypeMismatch,
    IntegerDivisionByZero,
    IntegerOverflow,
}

/// The operation of one IR instruction.  Operands stand in the
/// instruction's `a` and `b` fields; unused operand fields are zero.
#[derive(Clone, Copy, PartialEq, Eq, Structural, Debug)]
pub enum IrOp {
    /// Integer constant, 32 bits.
    Iconst32 { bits: u32 },
    /// Integer constant, 64 bits.
    Iconst64 { bits: u64 },
    /// Floating-point constant, stored as its 32-bit pattern.
    Fconst32 { bits: u32 },
    /// Floating-point constant, stored as its 64-bit pattern.
    Fconst64 { bits: u64 },
    Iadd32,
    Isub32,
    Imul32,
    Iadd64,
    Isub64,
    Imul64,
    /// Unsigned 32-bit division; traps on a zero divisor.
    Udiv32,
    /// Signed 32-bit division; traps on a zero divisor and on overflow.
    Sdiv32,
    IcmpEq32,
    IcmpLtS32,
    IcmpLtU32,
    /// One if operand `a` is zero, zero otherwise.
    IcmpEqz32,
    Fadd32,
    Fsub32,
    Fmul32,
    Fdiv32,
    Fadd64,
    Fsub64,
    Fmul64,
    Fdiv64,
    /// Read of variable `index`.
    GetVar { index: usize },
    /// Write of operand `a` to variable `index`.
    SetVar { index: usize },
    /// Address of a runtime-resident global: context pointer plus offset.
    GlobalAddr { offset: u32 },
    /// Checked address of a linear-memory access of `access_size` bytes at
    /// operand `a` plus `offset`; `dynamic_bound` tells whether the bound
    /// is read at run time or known statically.
    HeapAddr { memory: usize, offset: u32, access_size: u32, dynamic_bound: bool },
    /// Load of a `ty` value from the address in operand `a`.
    Load { ty: IrType },
    /// Store of operand `b` to the address in operand `a`.
    Store,
    /// Checked address of entry `a` of a table of callees.
    TableAddr { table: usize },
    /// Signature check of the callee address in operand `a`.
    SigCheck { sig: usize },
    /// Conditional side exit: branch to `target` (a block with no
    /// parameters) when operand `a` is zero; fall through otherwise.
    Brz { target: usize },
    /// One marshaled call argument, the value in operand `a`.
    Arg,
    /// Direct call of function `func` with signature `sig`.
    Call { func: usize, sig: usize, num_args: usize, num_results: usize },
    /// Indirect call through the checked callee address in operand `a`.
    CallIndirect { sig: usize, num_args: usize, num_results: usize },
    /// Call of an external support routine.
    CallLib { call: LibCall, num_args: usize, num_results: usize },
}

/// One IR instruction: the id of its (first) result, its operation and up
/// to two operand value ids.
#[derive(Clone, Copy, PartialEq, Eq, Structural, Debug)]
pub struct IrInst {
    pub result: usize,
    pub op: IrOp,
    pub a: usize,
    pub b: usize,
}

/// One edge target of a branch: a block and the value ids passed to its
/// parameters.
#[derive(Clone, Debug)]
pub struct BranchTarget {
    pub block: usize,
    pub args: Vec<usize>,
}

/// A block terminator.
#[derive(Clone, Debug)]
pub enum Terminator {
    Jump { to: BranchTarget },
    /// Two-way branch on the 32-bit condition `cond` (nonzero takes
    /// `then_to`).
    CondBr { cond: usize, then_to: BranchTarget, else_to: BranchTarget },
    /// Computed branch on `selector`; a selector beyond `targets` takes
    /// `default_to`.
    BrTable { selector: usize, targets: Vec<BranchTarget>, default_to: BranchTarget },
    Return { values: Vec<usize> },
    Trap { code: TrapCode },
}

/// Mathematical model of a branch target.
#[verifier::ext_equal]
pub struct BranchTargetM {
    pub block: usize,
    pub args: Seq<usize>,
}

/// Mathematical model of a terminator.
#[verifier::ext_equal]
pub enum TerminatorM {
    Jump { to: BranchTargetM },
    CondBr { cond: usize, then_to: BranchTargetM, else_to: BranchTargetM },
    BrTable { selector: usize, targets: Seq<BranchTargetM>, default_to: BranchTargetM },
    Return { values: Seq<usize> },
    Trap { code: TrapCode },
}

impl View for BranchTarget {
    type V = BranchTargetM;

    open spec fn view(&self) -> BranchTargetM {
        BranchTargetM { block: self.block, args: self.args@ }
    }
}

impl View for Terminator {
    type V = TerminatorM;

    open spec fn view(&self) -> TerminatorM {
        match self {
            Terminator::Jump { to } => TerminatorM::Jump { to: to@ },
            Terminator::CondBr { cond, then_to, else_to } => TerminatorM::CondBr {
                cond: *cond,
                then_to: then_to@,
                else_to: else_to@,
            },
            Terminator::BrTable { selector, targets, default_to } => TerminatorM::BrTable {
                selector: *selector,
                targets: targets@.map_values(|t: BranchTarget| t@),
                default_to: default_to@,
            },
            Terminator::Return { values } => TerminatorM::Return { values: values@ },
            Terminator::Trap { code } => TerminatorM::Trap { code: *code },
        }
    }
}

/// One basic block under construction.
#[derive(Clone, Debug)]
pub struct Block {
    pub params: Vec<Value>,
    pub insts: Vec<IrInst>,
    pub term: Option<Terminator>,
}

/// Mathematical model of a basic block.
#[verifier::ext_equal]
pub struct BlockM {
    pub params: Seq<Value>,
    pub insts: Seq<IrInst>,
    pub term: Option<TerminatorM>,
}

impl View for Block {
    type V = BlockM;

    open spec fn view(&self) -> BlockM {
        BlockM {
            params: self.params@,
            insts: self.insts@,
            term: match self.term {
                Some(t) => Some(t@),
                None => None,
            },
        }
    }
}

/// An IR function under construction, together with its builder state
/// (`current`: the block instructions are appended to).
#[derive(Clone, Debug)]
pub struct IrFunction {
    pub sig: IrSignature,
    pub vars: Vec<IrType>,
    pub value_types: Vec<IrType>,
    pub blocks: Vec<Block>,
    pub current: usize,
}

/// Mathematical model of an IR function under construction.
#[verifier::ext_equal]
pub struct IrFunctionM {
    pub sig_params: Seq<IrType>,
    pub sig_results: Seq<IrType>,
    pub vars: Seq<IrType>,
    pub value_types: Seq<IrType>,
    pub blocks: Seq<BlockM>,
    pub current: usize,
}

impl View for IrFunction {
    type V = IrFunctionM;

    open spec fn view(&self) -> IrFunctionM {
        IrFunctionM {
            sig_params: self.sig.params@,
            sig_results: self.sig.results@,
            vars: self.vars@,
            value_types: self.value_types@,
            blocks: self.blocks@.map_values(|b: Block| b@),
            current: self.current,
        }
    }
}

/// The parameter values of a block whose first parameter gets id `base`.
pub open spec fn mk_param_values(base: int, tys: Seq<IrType>) -> Seq<Value> {
    Seq::new(tys.len(), |i: int| Value { id: (base + i) as usize, ty: tys[i] })
}

/// Model of block creation: a fresh block with `tys`-typed parameters
/// bound to fresh value ids.
pub open spec fn m_create_block(f: IrFunctionM, tys: Seq<IrType>) -> (IrFunctionM, usize) {
    (
        IrFunctionM {
            blocks: f.blocks.push(
                BlockM {
                    params: mk_param_values(f.value_types.len() as int, tys),
                    insts: Seq::empty(),
                    term: None,
                },
            ),
            value_types: f.value_types + tys,
            ..f
        },
        f.blocks.len() as usize,
    )
}

/// Model of making block `b` current.
pub open spec fn m_switch(f: IrFunctionM, b: usize) -> IrFunctionM {
    IrFunctionM { current: b, ..f }
}

/// Model of appending to the current block an instruction producing one
/// fresh `rty`-typed value.
pub open spec fn m_emit(f: IrFunctionM, op: IrOp, a: usize, b: usize, rty: IrType) -> (
    IrFunctionM,
    Value,
) {
    let v = Value { id: f.value_types.len() as usize, ty: rty };
    let blk = f.blocks[f.current as int];
    (
        IrFunctionM {
            blocks: f.blocks.update(
                f.current as int,
                BlockM {
                    insts: blk.insts.push(IrInst { result: v.id, op, a, b }),
                    ..blk
                },
            ),
            value_types: f.value_types.push(rty),
            ..f
        },
        v,
    )
}

/// Model of appending a resultless instruction to the current block.
pub open spec fn m_emit_void(f: IrFunctionM, op: IrOp, a: usize, b: usize) -> IrFunctionM {
    let blk = f.blocks[f.current as int];
    IrFunctionM {
        blocks: f.blocks.update(
            f.current as int,
            BlockM { insts: blk.insts.push(IrInst { result: 0, op, a, b }), ..blk },
        ),
        ..f
    }
}

/// Model of appending a call-like instruction defining `rtys.len()` fresh
/// result values.
pub open spec fn m_emit_call(f: IrFunctionM, op: IrOp, a: usize, rtys: Seq<IrType>) -> (
    IrFunctionM,
    Seq<Value>,
) {
    let base = f.value_types.len() as int;
    let blk = f.blocks[f.current as int];
    (
        IrFunctionM {
            blocks: f.blocks.update(
                f.current as int,
                BlockM {
                    insts: blk.insts.push(IrInst { result: base as usize, op, a, b: 0 }),
                    ..blk
                },
            ),
            value_types: f.value_types + rtys,
            ..f
        },
        mk_param_values(base, rtys),
    )
}

/// Model of setting the current block's terminator.
pub open spec fn m_set_term(f: IrFunctionM, t: TerminatorM) -> IrFunctionM {
    let blk = f.blocks[f.current as int];
    IrFunctionM {
        blocks: f.blocks.update(f.current as int, BlockM { term: Some(t), ..blk }),
        ..f
    }
}

impl IrFunction {
    /// Starts a function: one entry block whose parameters are the IR
    /// signature's (context pointer first), and the given variable slots.
    pub fn with_entry(sig: IrSignature, vars: Vec<IrType>) -> (r: IrFunction)
        ensures
            r@.sig_params == sig.params@,
            r@.sig_results == sig.results@,
            r@.vars == vars@,
            r@.value_types == sig.params@,
            r@.blocks =~= seq![
                BlockM {
                    params: mk_param_values(0, sig.params@),
                    insts: Seq::<IrInst>::empty(),
                    term: None::<TerminatorM>,
                },
            ],
            r@.current == 0,
    {
        let mut params: Vec<Value> = Vec::new();
        let mut value_types: Vec<IrType> = Vec::new();
        let mut i: usize = 0;
        while i < sig.params.len()
            invariant
                i <= sig.params@.len(),
                value_types@ == sig.params@.take(i as int),
                params@ =~= mk_param_values(0, sig.params@.take(i as int)),
            decreases sig.params@.len() - i,
        {
            params.push(Value { id: i, ty: sig.params[i] });
            value_types.push(sig.params[i]);
            proof {
                assert(params@ =~= mk_param_values(0, sig.params@.take(i + 1)));
            }
            i = i + 1;
        }
        proof {
            assert(sig.params@.take(sig.params@.len() as int) =~= sig.params@);
        }
        let mut blocks: Vec<Block> = Vec::new();
        blocks.push(Block { params, insts: Vec::new(), term: None });
        IrFunction { sig, vars, value_types, blocks, current: 0 }
    }

    /// Creates a block with `param_types`-typed parameters and returns it.
    pub fn create_block(&mut self, param_types: &Vec<IrType>) -> (b: usize)
        ensures
            (final(self)@, b) == m_create_block(old(self)@, param_types@),
    {
        let ghost spec_post = m_create_block(old(self)@, param_types@);
        let mut params: Vec<Value> = Vec::new();
        let base = self.value_types.len();
        let mut i: usize = 0;
        while i < param_types.len()
            invariant
                i <= param_types@.len(),
                base == old(self).value_types@.len(),
                self.value_types@ == old(self).value_types@ + param_types@.take(i as int),
                params@ =~= mk_param_values(base as int, param_types@.take(i as int)),
                self.sig == old(self).sig,
                self.vars == old(self).vars,
                self.blocks == old(self).blocks,
                self.current == old(self).current,
            decreases param_types@.len() - i,
        {
            params.push(Value { id: self.value_types.len(), ty: param_types[i] });
            self.value_types.push(param_types[i]);
            proof {
                assert(self.value_types@ =~= old(self).value_types@ + param_types@.take(i + 1));
                assert(params@ =~= mk_param_values(base as int, param_types@.take(i + 1)));
            }
            i = i + 1;
        }
        let b = self.blocks.len();
        self.blocks.push(Block { params, insts: Vec::new(), term: None });
        proof {
            assert(param_types@.take(param_types@.len() as int) =~= param_types@);
            assert(self@.blocks =~= spec_post.0.blocks);
            assert(self@.value_types =~= spec_post.0.value_types);
            assert(self@ == spec_post.0);
        }
        b
    }

    /// Makes block `b` the one instructions are appended to.
    pub fn switch_to_block(&mut self, b: usize)
        requires
            b < old(self)@.blocks.len(),
        ensures
            final(self)@ == m_switch(old(self)@, b),
    {
        self.current = b;
        proof {
            assert(final(self)@ == m_switch(old(self)@, b));
        }
    }

    /// Appends an instruction producing one fresh `rty`-typed value.
    pub fn emit(&mut self, op: IrOp, a: usize, b: usize, rty: IrType) -> (v: Value)
        requires
            old(self)@.current < old(self)@.blocks.len(),
        ensures
            (final(self)@, v) == m_emit(old(self)@, op, a, b, rty),
    {
        let v = Value { id: self.value_types.len(), ty: rty };
        let cur = self.current;
        self.blocks[cur].insts.push(IrInst { result: v.id, op, a, b });
        self.value_types.push(rty);
        proof {
            assert(self@.blocks =~= m_emit(old(self)@, op, a, b, rty).0.blocks);
            assert(self@ == m_emit(old(self)@, op, a, b, rty).0);
        }
        v
    }

    /// Appends an instruction that produces no value.
    pub fn emit_void(&mut self, op: IrOp, a: usize, b: usize)
        requires
            old(self)@.current < old(self)@.blocks.len(),
        ensures
            final(self)@ == m_emit_void(old(self)@, op, a, b),
    {
        let cur = self.current;
        self.blocks[cur].insts.push(IrInst { result: 0, op, a, b });
        proof {
            assert(self@.blocks =~= m_emit_void(old(self)@, op, a, b).blocks);
            assert(final(self)@ == m_emit_void(old(self)@, op, a, b));
        }
    }

    /// Appends a call-like instruction defining one fresh value per entry
    /// of `result_types`.
    pub fn emit_call(&mut self, op: IrOp, a: usize, result_types: &Vec<IrType>)
        requires
            old(self)@.current < old(self)@.blocks.len(),
        ensures
            final(self)@ == m_emit_call(old(self)@, op, a, result_types@).0,
    {
        let ghost spec_post = m_emit_call(old(self)@, op, a, result_types@);
        let base = self.value_types.len();
        let cur = self.current;
        self.blocks[cur].insts.push(IrInst { result: base, op, a, b: 0 });
        let mut i: usize = 0;
        while i < result_types.len()
            invariant
                i <= result_types@.len(),
                self.value_types@ == old(self).value_types@ + result_types@.take(i as int),
                self.sig == old(self).sig,
                self.vars == old(self).vars,
                self.current == old(self).current,
                self.blocks@ =~= old(self).blocks@.update(
                    old(self).current as int,
                    self.blocks@[old(self).current as int],
                ),
                old(self).current < self.blocks@.len(),
                self.blocks@[old(self).current as int].insts@
                    == old(self).blocks@[old(self).current as int].insts@.push(
                    IrInst { result: base, op, a, b: 0 },
                ),
                self.blocks@[old(self).current as int].params
                    == old(self).blocks@[old(self).current as int].params,
                self.blocks@[old(self).current as int].term
                    == old(self).blocks@[old(self).current as int].term,
            decreases result_types@.len() - i,
        {
            self.value_types.push(result_types[i]);
            proof {
                assert(self.value_types@ =~= old(self).value_types@ + result_types@.take(i + 1));
            }
            i = i + 1;
        }
        proof {
            assert(result_types@.take(result_types@.len() as int) =~= result_types@);
            assert(self@.blocks =~= spec_post.0.blocks);
            assert(self@.value_types =~= spec_post.0.value_types);
            assert(self@ == spec_post.0);
        }
    }

    /// Sets the current block's terminator.
    pub fn set_term(&mut self, t: Terminator)
        requires
            old(self)@.current < old(self)@.blocks.len(),
        ensures
            final(self)@ == m_set_term(old(self)@, t@),
    {
        let cur = self.current;
        self.blocks[cur].term = Some(t);
        proof {
            assert(self@.blocks =~= m_set_term(old(self)@, t@).blocks);
            assert(final(self)@ == m_set_term(old(self)@, t@));
        }
    }
}

} // verus!
