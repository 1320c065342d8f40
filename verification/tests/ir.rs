use walrus::error::{Error, InvalidInput, Unimplemented};
use walrus::ir::make::{exprs1, exprs2, exprs3, plain_block, types0, types1};
use walrus::ir::node::{Block, BlockId, BlockKind, Call, Expr, ExprId, FunctionId, LocalId};
use walrus::ir::ops::{BinaryOp, LoadKind, MemArg, StoreKind, UnaryOp, Value};
use walrus::module::functions::local_function::LocalFunction;
use walrus::passes::remove_i64::analysis::{high_bits_of, low_bits_of};
use walrus::passes::remove_i64::lower::{canonical_load_of, canonical_store_of};
use walrus::passes::remove_i64::names::{half_name, numbered_name, push_decimal};
use walrus::tests_utils::{handle, TestResult};
use walrus::ty::{copy_types, has_i64, Type, TypeId, ValType};

fn function() -> LocalFunction {
    LocalFunction::new(TypeId { index: 0 }, vec![LocalId { index: 3 }], vec![ValType::I32])
}

#[test]
fn a_new_function_has_an_empty_entry_block() {
    let func = function();
    assert_eq!(func.len(), 1);
    assert_eq!(func.ty(), TypeId { index: 0 });
    assert_eq!(func.args(), &vec![LocalId { index: 3 }]);
    let entry = func.entry_block();
    assert_eq!(entry.id.index, 0);
    let block = func.block(entry);
    assert_eq!(block.kind, BlockKind::FunctionEntry);
    assert!(block.params.is_empty());
    assert_eq!(block.results, vec![ValType::I32]);
    assert!(block.exprs.is_empty());
    assert!(func.is_well_formed());
}

#[test]
fn allocation_appends_and_numbers_the_nodes() {
    let mut func = function();
    let next = func.next_id();
    assert_eq!(next.index, 1);
    let a = func.const_(Value::I32(7));
    assert_eq!(a, next);
    let b = func.const_(Value::I64(8));
    assert_eq!(b.arena, a.arena);
    assert_eq!(b.index, 2);
    assert_eq!(func.len(), 3);
    assert_eq!(func.next_id().index, 3);
    // what was allocated is what is found, under the identifier that was returned
    match func.get(a) {
        Expr::Const(c) => assert_eq!(c.value, Value::I32(7)),
        other => panic!("{:?}", other),
    }
    match func.get(b) {
        Expr::Const(c) => assert_eq!(c.value, Value::I64(8)),
        other => panic!("{:?}", other),
    }
    assert!(func.contains(a));
    assert!(func.contains(b));
    assert!(!func.contains(ExprId { arena: a.arena, index: 3 }));
    assert!(!func.contains(ExprId { arena: a.arena.wrapping_add(1), index: 1 }));
}

#[test]
fn identifiers_of_one_function_are_not_those_of_another() {
    let mut one = function();
    let mut other = function();
    let a = one.const_(Value::I32(1));
    let b = other.const_(Value::I32(2));
    assert_eq!(a.index, b.index);
    assert_ne!(a.arena, b.arena);
    assert!(one.contains(a));
    assert!(!one.contains(b));
    assert!(other.contains(b));
}

#[test]
fn a_node_is_changed_in_place() {
    let mut func = function();
    let a = func.const_(Value::I32(1));
    let b = func.const_(Value::I32(2));
    *func.get_mut(a) = Expr::Unop(walrus::ir::node::Unop { op: UnaryOp::I32Eqz, expr: b });
    match func.get(a) {
        Expr::Unop(u) => {
            assert_eq!(u.op, UnaryOp::I32Eqz);
            assert_eq!(u.expr, b);
        }
        other => panic!("{:?}", other),
    }
    // the other nodes are as they were
    match func.get(b) {
        Expr::Const(c) => assert_eq!(c.value, Value::I32(2)),
        other => panic!("{:?}", other),
    }
    assert_eq!(func.len(), 3);
    let entry = func.entry_block();
    func.block_mut(entry).exprs.push(a);
    assert_eq!(func.block(entry).exprs, vec![a]);
    func.set_args(vec![]);
    assert!(func.args().is_empty());
    func.set_ty(TypeId { index: 4 });
    assert_eq!(func.ty(), TypeId { index: 4 });
}

#[test]
fn builders_build_what_they_name() {
    let mut func = function();
    let local = LocalId { index: 0 };
    let a = func.local_get(local);
    let b = func.local_tee(local, a);
    let c = func.binop(BinaryOp::I32Add, a, b);
    let d = func.unop(UnaryOp::I32Clz, c);
    let e = func.local_set(local, d);
    assert!(matches!(func.get(a), Expr::LocalGet(g) if g.local == local));
    assert!(matches!(func.get(b), Expr::LocalTee(t) if t.local == local && t.value == a));
    assert!(matches!(func.get(c), Expr::Binop(x) if x.op == BinaryOp::I32Add && x.lhs == a && x.rhs == b));
    assert!(matches!(func.get(d), Expr::Unop(x) if x.op == UnaryOp::I32Clz && x.expr == c));
    assert!(matches!(func.get(e), Expr::LocalSet(s) if s.local == local && s.value == d));
    let block = func.plain_block(vec![ValType::I32], vec![e, a]);
    let found = func.block(block);
    assert_eq!(found.kind, BlockKind::Block);
    assert_eq!(found.exprs, vec![e, a]);
    let br = func.br(block, vec![a]);
    assert!(matches!(func.get(br), Expr::Br(x) if x.block == block && x.args == vec![a]));
    let other = func.alloc_block(Block {
        kind: BlockKind::Loop,
        params: vec![],
        results: vec![],
        exprs: vec![],
    });
    assert_eq!(func.block(other).kind, BlockKind::Loop);
    let if_else = func.if_else(a, block, other);
    assert!(
        matches!(func.get(if_else), Expr::IfElse(x) if x.condition == a && x.consequent == block && x.alternative == other)
    );
    assert!(func.is_well_formed());
    assert!(func.locals_within(1));
    assert!(!func.locals_within(0));
}

#[test]
fn small_lists_and_blocks() {
    let a = ExprId { arena: 1, index: 1 };
    let b = ExprId { arena: 1, index: 2 };
    let c = ExprId { arena: 1, index: 3 };
    assert_eq!(exprs1(a), vec![a]);
    assert_eq!(exprs2(a, b), vec![a, b]);
    assert_eq!(exprs3(a, b, c), vec![a, b, c]);
    assert_eq!(types0(), Vec::<ValType>::new());
    assert_eq!(types1(ValType::F32), vec![ValType::F32]);
    let block = plain_block(types1(ValType::I32), exprs2(b, a));
    assert_eq!(block.kind, BlockKind::Block);
    assert!(block.params.is_empty());
    assert_eq!(block.results, vec![ValType::I32]);
    assert_eq!(block.exprs, vec![b, a]);
}

#[test]
fn a_body_of_literals_is_constant() {
    let mut func = function();
    assert!(func.is_const());
    let a = func.const_(Value::I32(1));
    let b = func.const_(Value::F32(2));
    let entry = func.entry_block();
    func.block_mut(entry).exprs = vec![a, b];
    assert!(func.is_const());
    let c = func.unop(UnaryOp::I32Eqz, a);
    func.block_mut(entry).exprs = vec![b, c];
    assert!(!func.is_const());
}

#[test]
fn the_size_is_the_number_of_expressions_reached() {
    let mut func = function();
    assert_eq!(func.size(), 1);
    let a = func.const_(Value::I32(1));
    let b = func.const_(Value::I32(2));
    let _unused = func.const_(Value::I32(3));
    let c = func.binop(BinaryOp::I32Add, a, b);
    let call = func.alloc_expr(Expr::Call(Call { func: FunctionId { index: 0 }, args: vec![c, a] }));
    let inner = func.plain_block(vec![], vec![call]);
    let entry = func.entry_block();
    func.block_mut(entry).exprs = vec![inner.id];
    // entry, inner, call, c, a, b: the literal that nothing uses does not count, and the
    // literal that is used twice counts once
    assert_eq!(func.size(), 6);
    assert_eq!(func.len(), 7);
    // an expression inside itself is counted once
    func.block_mut(inner).exprs.push(inner.id);
    assert_eq!(func.size(), 6);
    let _ = BlockId { id: a };
}

#[test]
fn halves_of_a_literal() {
    assert_eq!(low_bits_of(0x1122334455667788), 0x55667788);
    assert_eq!(high_bits_of(0x1122334455667788), 0x11223344);
    assert_eq!(low_bits_of(-1), -1);
    assert_eq!(high_bits_of(-1), -1);
    assert_eq!(low_bits_of(0x0000_0000_8000_0000), i32::MIN);
    assert_eq!(high_bits_of(0x0000_0000_8000_0000), 0);
    assert_eq!(low_bits_of(i64::MIN), 0);
    assert_eq!(high_bits_of(i64::MIN), i32::MIN);
    for value in [0, 1, -1, 0x0123_4567_89AB_CDEF, i64::MIN, i64::MAX] {
        let rebuilt = ((high_bits_of(value) as i64) << 32) | (low_bits_of(value) as u32 as i64);
        assert_eq!(rebuilt, value);
    }
}

#[test]
fn names_of_generated_locals() {
    assert_eq!(numbered_name("temp_low", 0), "temp_low0");
    assert_eq!(numbered_name("br_high", 9), "br_high9");
    assert_eq!(numbered_name("x", 10), "x10");
    assert_eq!(numbered_name("", 1234567890), "1234567890");
    assert_eq!(numbered_name("n", usize::MAX), format!("n{}", usize::MAX));
    let mut text = "a".to_string();
    push_decimal(&mut text, 407);
    assert_eq!(text, "a407");
    assert_eq!(half_name(Some(&"acc".to_string()), 5, "_low"), "acc_low");
    assert_eq!(half_name(Some(&String::new()), 5, "_high"), "5_high");
    assert_eq!(half_name(None, 12, "_low"), "12_low");
}

#[test]
fn signatures() {
    let ty = Type::new(vec![ValType::I32, ValType::I64], vec![ValType::F64]);
    assert_eq!(ty.params(), &vec![ValType::I32, ValType::I64]);
    assert_eq!(ty.results(), &vec![ValType::F64]);
    assert!(has_i64(ty.params()));
    assert!(!has_i64(ty.results()));
    assert!(!has_i64(&vec![]));
    assert!(has_i64(&vec![ValType::I64]));
    let copy = copy_types(ty.params());
    assert_eq!(&copy, ty.params());
}

#[test]
fn operators_of_64_bit_integers_are_told_apart() {
    assert!(BinaryOp::I64Add.is_i64());
    assert!(BinaryOp::I64GeU.is_i64());
    assert!(BinaryOp::I64Xor.is_i64());
    assert!(!BinaryOp::I32Add.is_i64());
    assert!(!BinaryOp::F64Add.is_i64());
    assert_eq!(BinaryOp::I64And.half(), Some(BinaryOp::I32And));
    assert_eq!(BinaryOp::I64Or.half(), Some(BinaryOp::I32Or));
    assert_eq!(BinaryOp::I64Xor.half(), Some(BinaryOp::I32Xor));
    assert_eq!(BinaryOp::I64Add.half(), None);
    assert_eq!(BinaryOp::I32And.half(), None);
    assert!(UnaryOp::I32WrapI64.is_i64());
    assert!(UnaryOp::F64ReinterpretI64.is_i64());
    assert!(UnaryOp::F32ConvertUI64.is_i64());
    assert!(!UnaryOp::I32Eqz.is_i64());
    assert!(!UnaryOp::F64PromoteF32.is_i64());
    assert!(LoadKind::I64_8 { kind: walrus::ir::ops::ExtendedLoad::SignExtend }.is_i64());
    assert!(!LoadKind::F64.is_i64());
    assert!(StoreKind::I64 { atomic: true }.is_i64());
    assert!(!StoreKind::I32_16 { atomic: false }.is_i64());
    assert!(walrus::ir::ops::AtomicWidth::I64_32.is_i64());
    assert!(!walrus::ir::ops::AtomicWidth::I32_8.is_i64());
    assert_eq!(
        canonical_store_of(StoreKind::I64_16 { atomic: false }),
        Some(StoreKind::I32_16 { atomic: false })
    );
    assert_eq!(canonical_store_of(StoreKind::I64_16 { atomic: true }), None);
    assert_eq!(canonical_store_of(StoreKind::I64 { atomic: false }), None);
    assert_eq!(canonical_load_of(LoadKind::I64 { atomic: false }), None);
    assert_eq!(
        canonical_load_of(LoadKind::I64_32 { kind: walrus::ir::ops::ExtendedLoad::ZeroExtend }),
        Some((LoadKind::I32 { atomic: false }, UnaryOp::I64ExtendUI32))
    );
    assert_eq!(
        canonical_load_of(LoadKind::I64_8 { kind: walrus::ir::ops::ExtendedLoad::ZeroExtendAtomic }),
        None
    );
    assert_eq!(MemArg::new(8), MemArg { align: 8, offset: 0 });
    assert_eq!(MemArg::new(8).with_align(4).with_offset(12), MemArg { align: 4, offset: 12 });
}

#[test]
fn results_of_tests() {
    handle(());
    handle(Ok::<(), Error>(()));
    assert_eq!(().report(), None);
    assert_eq!(Ok::<(), Error>(()).report(), None);
    let failed: Result<(), Error> = Err(Error::InvalidInput(InvalidInput::ExportedGlobal));
    assert_eq!(failed.report(), Some("got an error:\n  can't export a 64-bit global".to_string()));
    let failed: Result<(), Error> = Err(Error::Unimplemented(Unimplemented::Select));
    let report = failed.report().unwrap();
    assert!(report.starts_with("got an error:\n  "));
    assert!(report.len() > "got an error:\n  ".len());
}

#[test]
fn every_error_has_its_own_sentence() {
    let errors = [
        Error::InvalidInput(InvalidInput::ExportedGlobal),
        Error::InvalidInput(InvalidInput::ImportedGlobal),
        Error::InvalidInput(InvalidInput::GlobalFromGlobal),
        Error::InvalidInput(InvalidInput::GlobalTypeMismatch),
        Error::InvalidInput(InvalidInput::ExportedFunction),
        Error::InvalidInput(InvalidInput::ImportedFunction),
        Error::InvalidInput(InvalidInput::MultiValueResult),
        Error::Unimplemented(Unimplemented::Binop),
    ];
    for (i, a) in errors.iter().enumerate() {
        assert!(!a.message().is_empty());
        for b in errors.iter().skip(i + 1) {
            assert_ne!(a.message(), b.message());
        }
    }
    assert_eq!(
        Error::InvalidInput(InvalidInput::ExportedFunction).message(),
        "can't export a function which takes or returns i64"
    );
}
