use wasm_translator::environ::Bound;
use wasm_translator::environ::Environment;
use wasm_translator::environ::GlobalDesc;
use wasm_translator::environ::GlobalStorage;
use wasm_translator::environ::MemoryDesc;
use wasm_translator::errors::EntityKind;
use wasm_translator::errors::ErrCode;
use wasm_translator::errors::StructuralCause;
use wasm_translator::eval::eval32;
use wasm_translator::ir::IrOp;
use wasm_translator::ir::Terminator;
use wasm_translator::translate::translate_function;
use wasm_translator::translate::Operator;
use wasm_translator::types::IrType;
use wasm_translator::types::Signature;
use wasm_translator::types::WasmType;

fn env64() -> Environment {
    Environment {
        ptr: IrType::Ptr64,
        big_endian: false,
        globals: vec![],
        memories: vec![],
        tables: vec![],
        functions: vec![],
        signatures: vec![],
    }
}

fn sig(params: Vec<WasmType>, results: Vec<WasmType>) -> Signature {
    Signature { params, results }
}

/// `(i32, i32) -> i32`: `local.get 0; local.get 1; i32.add; return; end`
/// translates to exactly one basic block: the two incoming parameters
/// (after the injected context pointer), the two reads, exactly one
/// addition, and one return carrying the addition's result.
#[test]
fn add_two_parameters() {
    let s = sig(vec![WasmType::I32, WasmType::I32], vec![WasmType::I32]);
    let code = vec![
        Operator::LocalGet { local: 0 },
        Operator::LocalGet { local: 1 },
        Operator::I32Add,
        Operator::Return,
        Operator::End,
    ];
    let f = translate_function(&s, &vec![], &code, &env64()).unwrap();
    assert_eq!(f.blocks.len(), 1);
    let entry = &f.blocks[0];
    assert_eq!(entry.params.len(), 3); // context pointer + two parameters
    let adds: Vec<_> = entry.insts.iter().filter(|i| matches!(i.op, IrOp::Iadd32)).collect();
    assert_eq!(adds.len(), 1);
    assert_eq!(entry.insts.len(), 3); // two variable reads, one addition
    let add_result = adds[0].result;
    match entry.term.as_ref().unwrap() {
        Terminator::Return { values } => assert_eq!(values, &vec![add_result]),
        t => panic!("unexpected terminator {t:?}"),
    }
}

/// An `if`/`else` both pushing an `i32`, closed with one result,
/// translates to three blocks — the then arm goes on in the entry block
/// after a conditional side exit, then the else block, then the merge —
/// and the merge block has exactly one parameter fed from both
/// predecessor branches.
#[test]
fn if_else_merges_one_value() {
    let s = sig(vec![WasmType::I32], vec![WasmType::I32]);
    let code = vec![
        Operator::LocalGet { local: 0 },
        Operator::If { results: vec![WasmType::I32] },
        Operator::I32Const { value: 1 },
        Operator::Else,
        Operator::I32Const { value: 2 },
        Operator::End,
        Operator::End,
    ];
    let f = translate_function(&s, &vec![], &code, &env64()).unwrap();
    // then (in the entry block), else, merge
    assert_eq!(f.blocks.len(), 3);
    let then_b = &f.blocks[0];
    let else_b = match then_b.insts[1].op {
        IrOp::Brz { target } => target,
        op => panic!("unexpected operation {op:?}"),
    };
    let (merge, c1) = match then_b.term.as_ref().unwrap() {
        Terminator::Jump { to } => (to.block, to.args[0]),
        t => panic!("unexpected terminator {t:?}"),
    };
    assert_eq!(c1, then_b.insts[2].result); // the then arm's constant
    assert_eq!(f.blocks[merge].params.len(), 1);
    assert_eq!(f.blocks[merge].params[0].ty, IrType::Int32);
    let c2 = f.blocks[else_b].insts[0].result;
    match f.blocks[else_b].term.as_ref().unwrap() {
        Terminator::Jump { to } => {
            assert_eq!(to.block, merge);
            assert_eq!(to.args, vec![c2]);
        }
        t => panic!("unexpected terminator {t:?}"),
    }
    // the merge value feeds the function's return
    match f.blocks[merge].term.as_ref().unwrap() {
        Terminator::Return { values } => assert_eq!(values, &vec![f.blocks[merge].params[0].id]),
        t => panic!("unexpected terminator {t:?}"),
    }
}

/// A duplicate `else`, even inside unreachable nesting, is rejected.
#[test]
fn duplicate_else_in_dead_code_is_rejected() {
    let s = sig(vec![], vec![]);
    let code = vec![
        Operator::Unreachable,
        Operator::If { results: vec![] },
        Operator::Else,
        Operator::Else,
        Operator::End,
        Operator::End,
    ];
    let e = translate_function(&s, &vec![], &code, &env64()).unwrap_err();
    assert_eq!(e.offset, 3);
    assert_eq!(e.code, ErrCode::Structure { cause: StructuralCause::UnmatchedElse });
}

/// A computed branch carries the same value to every named construct's
/// merge point.
#[test]
fn br_table_carries_value_to_targets() {
    let s = sig(vec![WasmType::I32], vec![WasmType::I32]);
    let code = vec![
        Operator::Block { results: vec![WasmType::I32] },
        Operator::I32Const { value: 9 },
        Operator::LocalGet { local: 0 },
        Operator::BrTable { depths: vec![0], default: 0 },
        Operator::End,
        Operator::End,
    ];
    let f = translate_function(&s, &vec![], &code, &env64()).unwrap();
    let c = f.blocks[0].insts[0].result;
    match f.blocks[0].term.as_ref().unwrap() {
        Terminator::BrTable { targets, default_to, .. } => {
            assert_eq!(targets.len(), 1);
            assert_eq!(targets[0].args, vec![c]);
            assert_eq!(default_to.args, vec![c]);
            assert_eq!(targets[0].block, default_to.block);
            assert_eq!(f.blocks[default_to.block].params.len(), 1);
        }
        t => panic!("unexpected terminator {t:?}"),
    }
}

/// The reference interpreter matches direct evaluation on the numeric
/// set: wraparound add/sub/mul, trapping unsigned and signed division.
#[test]
fn interpreter_matches_direct_evaluation() {
    assert_eq!(eval32(IrOp::Iadd32, 0xFFFF_FFFF, 1), Some(0)); // wraparound
    assert_eq!(eval32(IrOp::Isub32, 0, 1), Some(0xFFFF_FFFF));
    assert_eq!(eval32(IrOp::Imul32, 0x8000_0000, 2), Some(0));
    assert_eq!(eval32(IrOp::Udiv32, 7, 2), Some(3));
    assert_eq!(eval32(IrOp::Udiv32, 7, 0), None); // trap: zero divisor
    assert_eq!(eval32(IrOp::Sdiv32, 7u32.wrapping_neg(), 2), Some(3u32.wrapping_neg())); // truncation
    assert_eq!(eval32(IrOp::Sdiv32, 0x8000_0000, 0xFFFF_FFFF), None); // trap: overflow
    assert_eq!(eval32(IrOp::Sdiv32, 5, 0), None);
    assert_eq!(eval32(IrOp::IcmpLtS32, 0xFFFF_FFFF, 0), Some(1)); // -1 < 0 signed
    assert_eq!(eval32(IrOp::IcmpLtU32, 0xFFFF_FFFF, 0), Some(0));
    assert_eq!(eval32(IrOp::Iadd32, 2, 2), Some(2u32.wrapping_add(2)));
}

/// Code after an unconditional `return` — here an operation that could
/// never type-check live — still translates, emits no IR, and the body
/// rejoins at the closing `end`.
#[test]
fn dead_code_after_return_is_walked_not_emitted() {
    let s = sig(vec![], vec![WasmType::I32]);
    let code = vec![
        Operator::I32Const { value: 7 },
        Operator::Return,
        Operator::F64Add, // type-mismatched, but never executed
        Operator::I64Mul,
        Operator::End,
    ];
    let f = translate_function(&s, &vec![], &code, &env64()).unwrap();
    // Only the constant was emitted; the dead operations left nothing.
    assert_eq!(f.blocks[0].insts.len(), 1);
    assert!(matches!(f.blocks[0].insts[0].op, IrOp::Iconst32 { bits: 7 }));
}

/// A body that ends while a construct is still open reports the missing
/// `end` at the offset one past the last instruction.
#[test]
fn missing_end_is_reported() {
    let s = sig(vec![], vec![]);
    let code = vec![Operator::Nop];
    let e = translate_function(&s, &vec![], &code, &env64()).unwrap_err();
    assert_eq!(e.offset, 1);
    assert_eq!(e.code, ErrCode::Structure { cause: StructuralCause::MissingEnd });
}

/// An arity violation is caught exactly where it happens.
#[test]
fn operand_underflow_is_reported() {
    let s = sig(vec![], vec![]);
    let code = vec![Operator::I32Add, Operator::End];
    let e = translate_function(&s, &vec![], &code, &env64()).unwrap_err();
    assert_eq!(e.offset, 0);
    assert_eq!(
        e.code,
        ErrCode::Structure { cause: StructuralCause::OperandStackUnderflow }
    );
}

/// A type mismatch between an operand and its instruction is caught.
#[test]
fn operand_type_mismatch_is_reported() {
    let s = sig(vec![WasmType::I64, WasmType::I64], vec![]);
    let code = vec![
        Operator::LocalGet { local: 0 },
        Operator::LocalGet { local: 1 },
        Operator::I32Add,
        Operator::End,
    ];
    let e = translate_function(&s, &vec![], &code, &env64()).unwrap_err();
    assert_eq!(e.offset, 2);
    assert_eq!(e.code, ErrCode::Structure { cause: StructuralCause::TypeMismatch });
}

/// An unresolvable global index is a resolution error carrying the
/// entity kind and the offending index.
#[test]
fn unresolved_global_is_reported() {
    let s = sig(vec![], vec![]);
    let code = vec![Operator::GlobalGet { global: 3 }, Operator::Drop, Operator::End];
    let e = translate_function(&s, &vec![], &code, &env64()).unwrap_err();
    assert_eq!(e.offset, 0);
    assert_eq!(e.code, ErrCode::Resolution { kind: EntityKind::Global, index: 3 });
}

/// A write to an immutable global is rejected.
#[test]
fn immutable_global_write_is_rejected() {
    let mut env = env64();
    env.globals = vec![GlobalDesc {
        ty: WasmType::I32,
        mutable: false,
        storage: GlobalStorage::Constant { bits: 5 },
    }];
    let s = sig(vec![], vec![]);
    let code = vec![
        Operator::I32Const { value: 9 },
        Operator::GlobalSet { global: 0 },
        Operator::End,
    ];
    let e = translate_function(&s, &vec![], &code, &env).unwrap_err();
    assert_eq!(e.offset, 1);
    assert_eq!(e.code, ErrCode::Structure { cause: StructuralCause::ImmutableGlobal });
}

/// A branch out of a block carries the value on the stack to the merge
/// block's parameter.
#[test]
fn branch_carries_value_to_merge() {
    let s = sig(vec![WasmType::I32], vec![WasmType::I32]);
    let code = vec![
        Operator::Block { results: vec![WasmType::I32] },
        Operator::I32Const { value: 3 },
        Operator::Br { depth: 0 },
        Operator::End,
        Operator::End,
    ];
    let f = translate_function(&s, &vec![], &code, &env64()).unwrap();
    let c = f.blocks[0].insts[0].result;
    match f.blocks[0].term.as_ref().unwrap() {
        Terminator::Jump { to } => {
            assert_eq!(to.args, vec![c]);
            assert_eq!(f.blocks[to.block].params.len(), 1);
            assert_eq!(f.blocks[to.block].params[0].ty, IrType::Int32);
        }
        t => panic!("unexpected terminator {t:?}"),
    }
}

/// A load always goes through the environment's inline bounds check.
#[test]
fn load_emits_checked_address() {
    let mut env = env64();
    env.memories = vec![MemoryDesc { bound: Bound::Static { bound: 65536 } }];
    let s = sig(vec![WasmType::I32], vec![WasmType::I32]);
    let code = vec![
        Operator::LocalGet { local: 0 },
        Operator::I32Load { offset: 8 },
        Operator::Return,
        Operator::End,
    ];
    let f = translate_function(&s, &vec![], &code, &env).unwrap();
    let ops: Vec<_> = f.blocks[0].insts.iter().map(|i| i.op).collect();
    assert!(matches!(
        ops[1],
        IrOp::HeapAddr { memory: 0, offset: 8, access_size: 4, dynamic_bound: false }
    ));
    assert!(matches!(ops[2], IrOp::Load { ty: IrType::Int32 }));
}

/// Translating the same body twice yields structurally identical IR.
#[test]
fn translation_is_deterministic() {
    let s = sig(vec![WasmType::I32], vec![WasmType::I32]);
    let code = vec![
        Operator::LocalGet { local: 0 },
        Operator::If { results: vec![WasmType::I32] },
        Operator::I32Const { value: 1 },
        Operator::Else,
        Operator::I32Const { value: 2 },
        Operator::End,
        Operator::End,
    ];
    let f1 = translate_function(&s, &vec![], &code, &env64()).unwrap();
    let f2 = translate_function(&s, &vec![], &code, &env64()).unwrap();
    assert_eq!(f1.blocks.len(), f2.blocks.len());
    for (a, b) in f1.blocks.iter().zip(f2.blocks.iter()) {
        assert_eq!(a.insts, b.insts);
    }
}
