//! The mutable per-function translation state: the operand value stack,
//! the control stack (one entry per open construct), and the reachability
//! flag for the current program point.

use vstd::prelude::*;

use crate::errors::ErrCode;
use crate::errors::StructuralCause;
use crate::ir::Value;
use crate::types::IrType;

verus! {

/// What kind of construct a control entry stands for.  `Function` is the
/// implicit outer block spanning the whole body.  `Dead` is a construct
/// opened inside unreachable code: it exists only so that its matching
/// `end` (or `else`) can be paired, and owns no blocks.
#[derive(Clone, Copy, PartialEq, Eq, Structural, Debug)]
pub enum FrameKind {
    Block,
    Loop { header: usize },
    If { else_block: usize, else_seen: bool },
    Function,
    Dead { is_if: bool, else_seen: bool },
}

/// One control entry: the construct kind, the block its normal exit
/// merges into, the IR types it yields on exit, the operand-stack height
/// snapshot at entry, and whether any branch has targeted it.
#[derive(Clone, Debug)]
pub struct ControlFrame {
    pub kind: FrameKind,
    pub dest: usize,
    pub results: Vec<IrType>,
    pub height: usize,
    pub branched_to: bool,
}

/// Mathematical model of a control entry.
#[verifier::ext_equal]
pub struct ControlFrameM {
    pub kind: FrameKind,
    pub dest: usize,
    pub results: Seq<IrType>,
    pub height: usize,
    pub branched_to: bool,
}

impl View for ControlFrame {
    type V = ControlFrameM;

    open spec fn view(&self) -> ControlFrameM {
        ControlFrameM {
            kind: self.kind,
            dest: self.dest,
            results: self.results@,
            height: self.height,
            branched_to: self.branched_to,
        }
    }
}

/// The translation state.
#[derive(Clone, Debug)]
pub struct FuncTranslationState {
    pub stack: Vec<Value>,
    pub control: Vec<ControlFrame>,
    pub reachable: bool,
}

/// Mathematical model of the translation state.
#[verifier::ext_equal]
pub struct StateM {
    pub stack: Seq<Value>,
    pub control: Seq<ControlFrameM>,
    pub reachable: bool,
}

impl View for FuncTranslationState {
    type V = StateM;

    open spec fn view(&self) -> StateM {
        StateM {
            stack: self.stack@,
            control: self.control@.map_values(|f: ControlFrame| f@),
            reachable: self.reachable,
        }
    }
}

/// The operand-stack height below which the current construct may not
/// reach: its entry snapshot.
pub open spec fn frame_limit(st: StateM) -> int {
    if st.control.len() == 0 {
        0
    } else {
        st.control.last().height as int
    }
}

/// Whether the stack holds at least `tys.len()` values above the current
/// construct's snapshot, typed element-wise as `tys` (topmost last).
pub open spec fn stack_tops(st: StateM, tys: Seq<IrType>) -> bool {
    &&& st.stack.len() - tys.len() >= frame_limit(st)
    &&& forall|i: int|
        0 <= i < tys.len() ==> st.stack[st.stack.len() - tys.len() + i].ty == tys[i]
}

/// Which error a failed operand check reports: underflow when the values
/// are missing, a type mismatch otherwise.
pub open spec fn operands_err(st: StateM, tys: Seq<IrType>) -> ErrCode {
    if st.stack.len() - tys.len() < frame_limit(st) {
        ErrCode::Structure { cause: StructuralCause::OperandStackUnderflow }
    } else {
        ErrCode::Structure { cause: StructuralCause::TypeMismatch }
    }
}

/// The topmost `n` stack values, in stack order.
pub open spec fn top_vals(st: StateM, n: int) -> Seq<Value> {
    st.stack.subrange(st.stack.len() - n, st.stack.len() as int)
}

/// The ids of a value sequence.
pub open spec fn ids_of(vs: Seq<Value>) -> Seq<usize> {
    vs.map_values(|v: Value| v.id)
}

/// The state after popping `n` values.
pub open spec fn st_pop(st: StateM, n: int) -> StateM {
    StateM { stack: st.stack.take(st.stack.len() - n), ..st }
}

/// The state after pushing one value.
pub open spec fn st_push(st: StateM, v: Value) -> StateM {
    StateM { stack: st.stack.push(v), ..st }
}

/// The state after pushing a sequence of values.
pub open spec fn st_push_all(st: StateM, vs: Seq<Value>) -> StateM {
    StateM { stack: st.stack + vs, ..st }
}

impl FuncTranslationState {
    /// An empty state at a reachable program point.
    pub fn new() -> (r: FuncTranslationState)
        ensures
            r@.stack == Seq::<Value>::empty(),
            r@.control == Seq::<ControlFrameM>::empty(),
            r@.reachable,
    {
        let r = FuncTranslationState { stack: Vec::new(), control: Vec::new(), reachable: true };
        proof {
            assert(r@.control =~= Seq::<ControlFrameM>::empty());
        }
        r
    }

    /// Pushes one operand value.
    pub fn push1(&mut self, v: Value)
        ensures
            final(self)@ == st_push(old(self)@, v),
    {
        self.stack.push(v);
        proof {
            assert(self@ == st_push(old(self)@, v));
        }
    }

    /// Pops one operand value; fails when the current construct has none
    /// left.
    pub fn pop1(&mut self) -> (r: Result<Value, ErrCode>)
        ensures
            match r {
                Ok(v) => old(self)@.stack.len() > frame_limit(old(self)@) && v == old(
                    self,
                )@.stack.last() && final(self)@ == st_pop(old(self)@, 1),
                Err(e) => old(self)@.stack.len() <= frame_limit(old(self)@) && final(self)@ == old(
                    self,
                )@ && e == ErrCode::Structure { cause: StructuralCause::OperandStackUnderflow },
            },
    {
        let limit = self.frame_limit_exec();
        if self.stack.len() <= limit {
            return Err(ErrCode::Structure { cause: StructuralCause::OperandStackUnderflow });
        }
        let v = self.stack[self.stack.len() - 1];
        self.stack.truncate(self.stack.len() - 1);
        proof {
            assert(self@.stack =~= st_pop(old(self)@, 1).stack);
        }
        Ok(v)
    }

    /// Pops exactly `k` operand values, respecting the current construct's
    /// snapshot; returns them in stack order.
    pub fn popn(&mut self, k: usize) -> (r: Result<Vec<Value>, ErrCode>)
        ensures
            match r {
                Ok(vs) => old(self)@.stack.len() - k >= frame_limit(old(self)@) && vs@ == top_vals(
                    old(self)@,
                    k as int,
                ) && final(self)@ == st_pop(old(self)@, k as int),
                Err(e) => old(self)@.stack.len() - k < frame_limit(old(self)@) && final(self)@
                    == old(self)@ && e == ErrCode::Structure {
                    cause: StructuralCause::OperandStackUnderflow,
                },
            },
    {
        let limit = self.frame_limit_exec();
        if self.stack.len() < k || self.stack.len() - k < limit {
            return Err(ErrCode::Structure { cause: StructuralCause::OperandStackUnderflow });
        }
        let base = self.stack.len() - k;
        let mut vs: Vec<Value> = Vec::new();
        let mut i: usize = 0;
        while i < k
            invariant
                i <= k,
                base + k <= usize::MAX,
                base + k == self.stack@.len(),
                vs@ =~= self.stack@.subrange(base as int, base + i),
                self == old(self),
            decreases k - i,
        {
            vs.push(self.stack[base + i]);
            i = i + 1;
        }
        self.stack.truncate(base);
        proof {
            assert(vs@ =~= top_vals(old(self)@, k as int));
            assert(self@.stack =~= st_pop(old(self)@, k as int).stack);
        }
        Ok(vs)
    }

    /// The current construct's entry snapshot.
    pub fn frame_limit_exec(&self) -> (r: usize)
        ensures
            r as int == frame_limit(self@),
    {
        if self.control.len() == 0 {
            0
        } else {
            self.control[self.control.len() - 1].height
        }
    }

    /// Checks that the stack holds `tys`-typed values for the current
    /// construct, topmost last; reports which discipline failed.
    pub fn tops_match(&self, tys: &Vec<IrType>) -> (r: Option<ErrCode>)
        ensures
            r is None <==> stack_tops(self@, tys@),
            r is Some ==> r->0 == operands_err(self@, tys@),
    {
        let n = tys.len();
        let limit = self.frame_limit_exec();
        if self.stack.len() < n || self.stack.len() - n < limit {
            return Some(
                ErrCode::Structure { cause: StructuralCause::OperandStackUnderflow },
            );
        }
        let base = self.stack.len() - n;
        let mut i: usize = 0;
        while i < n
            invariant
                i <= n,
                base + n <= usize::MAX,
                base + n == self.stack@.len(),
                n == tys@.len(),
                base >= frame_limit(self@),
                forall|j: int| 0 <= j < i ==> self.stack@[base + j].ty == tys@[j],
            decreases n - i,
        {
            if !ir_type_eq(self.stack[base + i].ty, tys[i]) {
                return Some(ErrCode::Structure { cause: StructuralCause::TypeMismatch });
            }
            i = i + 1;
        }
        None
    }

    /// The ids of the topmost `n` values, in stack order.
    pub fn top_ids(&self, n: usize) -> (r: Vec<usize>)
        requires
            n <= self@.stack.len(),
        ensures
            r@ == ids_of(top_vals(self@, n as int)),
    {
        let base = self.stack.len() - n;
        let mut r: Vec<usize> = Vec::new();
        let mut i: usize = 0;
        while i < n
            invariant
                i <= n,
                base + n <= usize::MAX,
                base + n == self.stack@.len(),
                r@ =~= ids_of(self.stack@.subrange(base as int, base + i)),
            decreases n - i,
        {
            r.push(self.stack[base + i].id);
            proof {
                assert(ids_of(self.stack@.subrange(base as int, base + i + 1)) =~= ids_of(
                    self.stack@.subrange(base as int, base + i),
                ).push(self.stack@[base + i].id));
            }
            i = i + 1;
        }
        proof {
            assert(r@ =~= ids_of(top_vals(self@, n as int)));
        }
        r
    }

    /// Drops the topmost `n` values.
    pub fn drop_tops(&mut self, n: usize)
        requires
            n <= old(self)@.stack.len(),
        ensures
            final(self)@ == st_pop(old(self)@, n as int),
    {
        let base = self.stack.len() - n;
        self.stack.truncate(base);
        proof {
            assert(self@.stack =~= st_pop(old(self)@, n as int).stack);
        }
    }

    /// Pushes a control entry.
    pub fn push_frame(&mut self, fr: ControlFrame)
        ensures
            final(self)@.control == old(self)@.control.push(fr@),
            final(self)@.stack == old(self)@.stack,
            final(self)@.reachable == old(self)@.reachable,
    {
        self.control.push(fr);
        proof {
            assert(self@.control =~= old(self)@.control.push(fr@));
        }
    }

    /// Opens a block construct.
    pub fn push_block(&mut self, dest: usize, results: Vec<IrType>)
        ensures
            final(self)@.control == old(self)@.control.push(
                ControlFrameM {
                    kind: FrameKind::Block,
                    dest,
                    results: results@,
                    height: old(self)@.stack.len() as usize,
                    branched_to: false,
                },
            ),
            final(self)@.stack == old(self)@.stack,
            final(self)@.reachable == old(self)@.reachable,
    {
        let height = self.stack.len();
        self.push_frame(
            ControlFrame { kind: FrameKind::Block, dest, results, height, branched_to: false },
        );
    }

    /// Opens a loop construct whose branches re-enter `header`.
    pub fn push_loop(&mut self, header: usize, dest: usize, results: Vec<IrType>)
        ensures
            final(self)@.control == old(self)@.control.push(
                ControlFrameM {
                    kind: FrameKind::Loop { header },
                    dest,
                    results: results@,
                    height: old(self)@.stack.len() as usize,
                    branched_to: false,
                },
            ),
            final(self)@.stack == old(self)@.stack,
            final(self)@.reachable == old(self)@.reachable,
    {
        let height = self.stack.len();
        self.push_frame(
            ControlFrame {
                kind: FrameKind::Loop { header },
                dest,
                results,
                height,
                branched_to: false,
            },
        );
    }

    /// Opens a conditional construct whose alternate path starts at
    /// `else_block`.
    pub fn push_if(&mut self, else_block: usize, dest: usize, results: Vec<IrType>)
        ensures
            final(self)@.control == old(self)@.control.push(
                ControlFrameM {
                    kind: FrameKind::If { else_block, else_seen: false },
                    dest,
                    results: results@,
                    height: old(self)@.stack.len() as usize,
                    branched_to: false,
                },
            ),
            final(self)@.stack == old(self)@.stack,
            final(self)@.reachable == old(self)@.reachable,
    {
        let height = self.stack.len();
        self.push_frame(
            ControlFrame {
                kind: FrameKind::If { else_block, else_seen: false },
                dest,
                results,
                height,
                branched_to: false,
            },
        );
    }

    /// Closes the innermost construct and hands its entry back; fails when
    /// none is open, or when the operand stack was not brought back to at
    /// least the construct's declared result arity above its snapshot.
    pub fn pop_control(&mut self) -> (r: Result<ControlFrame, ErrCode>)
        ensures
            match r {
                Ok(fr) => old(self)@.control.len() > 0 && fr@ == old(self)@.control.last() && old(
                    self,
                )@.stack.len() >= fr@.height + fr@.results.len() && final(self)@ == StateM {
                    control: old(self)@.control.drop_last(),
                    ..old(self)@
                },
                Err(e) => final(self)@ == old(self)@ && (
                    if old(self)@.control.len() == 0 {
                        e == ErrCode::Structure { cause: StructuralCause::UnmatchedEnd }
                    } else {
                        old(self)@.stack.len() < old(self)@.control.last().height + old(
                            self,
                        )@.control.last().results.len() && e == ErrCode::Structure {
                            cause: StructuralCause::OperandStackUnderflow,
                        }
                    }
                ),
            },
    {
        if self.control.len() == 0 {
            return Err(ErrCode::Structure { cause: StructuralCause::UnmatchedEnd });
        }
        let last = self.control.len() - 1;
        let nres = self.control[last].results.len();
        let height = self.control[last].height;
        if self.stack.len() < height || self.stack.len() - height < nres {
            return Err(ErrCode::Structure { cause: StructuralCause::OperandStackUnderflow });
        }
        let fr = match self.control.pop() {
            Some(fr) => fr,
            None => {
                return Err(ErrCode::Structure { cause: StructuralCause::UnmatchedEnd });
            },
        };
        proof {
            assert(self@.control =~= old(self)@.control.drop_last());
        }
        Ok(fr)
    }

    /// The innermost open construct.
    pub fn current_control(&self) -> (r: Result<&ControlFrame, ErrCode>)
        ensures
            match r {
                Ok(fr) => self@.control.len() > 0 && fr@ == self@.control.last(),
                Err(e) => self@.control.len() == 0 && e == ErrCode::Structure {
                    cause: StructuralCause::UnmatchedEnd,
                },
            },
    {
        if self.control.len() == 0 {
            return Err(ErrCode::Structure { cause: StructuralCause::UnmatchedEnd });
        }
        Ok(&self.control[self.control.len() - 1])
    }
}

/// Equality of IR types.
pub fn ir_type_eq(a: IrType, b: IrType) -> (r: bool)
    ensures
        r == (a == b),
{
    a == b
}

} // verus!
