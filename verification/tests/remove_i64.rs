use std::collections::{HashMap, HashSet};

use walrus::const_value::Const as Init;
use walrus::error::{Error, InvalidInput, Unimplemented};
use walrus::ir::node::{
    AtomicWait, Binop, Block, BlockId, BlockKind, Br, BrIf, BrTable, Call, CallIndirect, Expr,
    ExprId, FunctionId, GlobalId, IfElse, Load, LocalId, MemoryId, Return, Select, Store, TableId,
    Unop,
};
use walrus::ir::ops::{BinaryOp, ExtendedLoad, LoadKind, MemArg, StoreKind, UnaryOp, Value};
use walrus::module::config::ModuleConfig;
use walrus::module::exports::ExportItem;
use walrus::module::functions::local_function::LocalFunction;
use walrus::module::functions::FunctionKind;
use walrus::module::globals::GlobalKind;
use walrus::module::imports::ImportId;
use walrus::module::Module;
use walrus::passes::remove_i64::lower::LowerI64;
use walrus::passes::remove_i64::run;
use walrus::ty::ValType;

// ---------------------------------------------------------------------------------------
// A small evaluator of function bodies, so that a test can run a body before and after the
// pass and compare what it computes.

#[derive(Clone, Copy, Debug, PartialEq)]
enum Val {
    I32(i32),
    I64(i64),
}

impl Val {
    fn i32(self) -> i32 {
        match self {
            Val::I32(v) => v,
            Val::I64(v) => panic!("expected an i32, found the i64 {}", v),
        }
    }

    fn i64(self) -> i64 {
        match self {
            Val::I64(v) => v,
            Val::I32(v) => panic!("expected an i64, found the i32 {}", v),
        }
    }
}

enum Jump {
    Br(ExprId, Vec<Val>),
    Return(Vec<Val>),
}

struct Machine<'a> {
    module: &'a Module,
    func: &'a LocalFunction,
    locals: HashMap<usize, Val>,
    globals: Vec<Val>,
    memory: Vec<u8>,
}

fn literal(value: Value) -> Val {
    match value {
        Value::I32(v) => Val::I32(v),
        Value::I64(v) => Val::I64(v),
        other => panic!("the evaluator has no {:?}", other),
    }
}

impl<'a> Machine<'a> {
    fn new(module: &'a Module, func: &'a LocalFunction) -> Machine<'a> {
        let mut globals = Vec::new();
        for i in 0..module.globals.len() {
            let global = module.globals.get(GlobalId { index: i });
            globals.push(match global.kind {
                GlobalKind::Local(Init::Value(v)) => literal(v),
                _ => Val::I32(0),
            });
        }
        Machine { module, func, locals: HashMap::new(), globals, memory: vec![0; 64] }
    }

    fn local(&self, id: LocalId) -> Val {
        match self.locals.get(&id.index) {
            Some(v) => *v,
            None => match self.module.locals.get(id).ty() {
                ValType::I64 => Val::I64(0),
                _ => Val::I32(0),
            },
        }
    }

    fn one(&mut self, id: ExprId) -> Result<Val, Jump> {
        let values = self.eval(id)?;
        assert_eq!(values.len(), 1, "expression {:?} should leave one value", id);
        Ok(values[0])
    }

    fn many(&mut self, ids: &[ExprId]) -> Result<Vec<Val>, Jump> {
        let mut values = Vec::new();
        for id in ids {
            values.extend(self.eval(*id)?);
        }
        Ok(values)
    }

    fn address(&mut self, id: ExprId, arg: MemArg) -> Result<usize, Jump> {
        Ok(self.one(id)?.i32() as u32 as usize + arg.offset as usize)
    }

    fn read(&self, at: usize, bytes: usize) -> u64 {
        let mut value = 0u64;
        for i in 0..bytes {
            value |= (self.memory[at + i] as u64) << (8 * i);
        }
        value
    }

    fn write(&mut self, at: usize, bytes: usize, value: u64) {
        for i in 0..bytes {
            self.memory[at + i] = (value >> (8 * i)) as u8;
        }
    }

    fn block(&mut self, id: ExprId, block: &Block) -> Result<Vec<Val>, Jump> {
        let mut last = Vec::new();
        for expr in block.exprs.iter() {
            match self.eval(*expr) {
                Ok(values) => last = values,
                Err(Jump::Br(target, values)) if target == id => return Ok(values),
                Err(jump) => return Err(jump),
            }
        }
        if block.results.is_empty() {
            last.clear();
        }
        Ok(last)
    }

    fn eval(&mut self, id: ExprId) -> Result<Vec<Val>, Jump> {
        let func = self.func;
        match func.get(id) {
            Expr::Const(e) => Ok(vec![literal(e.value)]),
            Expr::LocalGet(e) => Ok(vec![self.local(e.local)]),
            Expr::LocalSet(e) => {
                let value = self.one(e.value)?;
                self.locals.insert(e.local.index, value);
                Ok(vec![])
            }
            Expr::LocalTee(e) => {
                let value = self.one(e.value)?;
                self.locals.insert(e.local.index, value);
                Ok(vec![value])
            }
            Expr::GlobalGet(e) => Ok(vec![self.globals[e.global.index]]),
            Expr::GlobalSet(e) => {
                let value = self.one(e.value)?;
                self.globals[e.global.index] = value;
                Ok(vec![])
            }
            Expr::Drop(e) => {
                self.one(e.expr)?;
                Ok(vec![])
            }
            Expr::Select(e) => {
                let consequent = self.one(e.consequent)?;
                let alternative = self.one(e.alternative)?;
                let condition = self.one(e.condition)?.i32();
                Ok(vec![if condition != 0 { consequent } else { alternative }])
            }
            Expr::Return(e) => {
                let values = self.many(&e.values)?;
                Err(Jump::Return(values))
            }
            Expr::Block(block) => self.block(id, block),
            Expr::IfElse(e) => {
                let condition = self.one(e.condition)?.i32();
                let arm = if condition != 0 { e.consequent } else { e.alternative };
                let block = func.block(arm);
                self.block(arm.id, block)
            }
            Expr::Br(e) => {
                let values = self.many(&e.args)?;
                Err(Jump::Br(e.block.id, values))
            }
            Expr::BrIf(e) => {
                let values = self.many(&e.args)?;
                let condition = self.one(e.condition)?.i32();
                if condition != 0 {
                    Err(Jump::Br(e.block.id, values))
                } else {
                    Ok(values)
                }
            }
            Expr::Unop(e) => {
                let operand = self.one(e.expr)?;
                Ok(vec![match e.op {
                    UnaryOp::I32Eqz => Val::I32((operand.i32() == 0) as i32),
                    UnaryOp::I32Clz => Val::I32(operand.i32().leading_zeros() as i32),
                    UnaryOp::I32Ctz => Val::I32(operand.i32().trailing_zeros() as i32),
                    UnaryOp::I32Popcnt => Val::I32(operand.i32().count_ones() as i32),
                    UnaryOp::I32Extend8S => Val::I32(operand.i32() as i8 as i32),
                    UnaryOp::I32Extend16S => Val::I32(operand.i32() as i16 as i32),
                    UnaryOp::I32WrapI64 => Val::I32(operand.i64() as i32),
                    UnaryOp::I64Eqz => Val::I32((operand.i64() == 0) as i32),
                    UnaryOp::I64Clz => Val::I64(operand.i64().leading_zeros() as i64),
                    UnaryOp::I64Ctz => Val::I64(operand.i64().trailing_zeros() as i64),
                    UnaryOp::I64Popcnt => Val::I64(operand.i64().count_ones() as i64),
                    UnaryOp::I64ExtendSI32 => Val::I64(operand.i32() as i64),
                    UnaryOp::I64ExtendUI32 => Val::I64(operand.i32() as u32 as i64),
                    UnaryOp::I64Extend8S => Val::I64(operand.i64() as i8 as i64),
                    UnaryOp::I64Extend16S => Val::I64(operand.i64() as i16 as i64),
                    UnaryOp::I64Extend32S => Val::I64(operand.i64() as i32 as i64),
                    other => panic!("the evaluator has no {:?}", other),
                }])
            }
            Expr::Binop(e) => {
                let lhs = self.one(e.lhs)?;
                let rhs = self.one(e.rhs)?;
                Ok(vec![match e.op {
                    BinaryOp::I32Add => Val::I32(lhs.i32().wrapping_add(rhs.i32())),
                    BinaryOp::I32And => Val::I32(lhs.i32() & rhs.i32()),
                    BinaryOp::I32Or => Val::I32(lhs.i32() | rhs.i32()),
                    BinaryOp::I32Xor => Val::I32(lhs.i32() ^ rhs.i32()),
                    BinaryOp::I32ShrS => Val::I32(lhs.i32() >> (rhs.i32() & 31)),
                    BinaryOp::I64And => Val::I64(lhs.i64() & rhs.i64()),
                    BinaryOp::I64Or => Val::I64(lhs.i64() | rhs.i64()),
                    BinaryOp::I64Xor => Val::I64(lhs.i64() ^ rhs.i64()),
                    other => panic!("the evaluator has no {:?}", other),
                }])
            }
            Expr::Load(e) => {
                let at = self.address(e.address, e.arg)?;
                Ok(vec![match e.kind {
                    LoadKind::I32 { .. } => Val::I32(self.read(at, 4) as i32),
                    LoadKind::I64 { .. } => Val::I64(self.read(at, 8) as i64),
                    LoadKind::I32_8 { kind: ExtendedLoad::SignExtend } => {
                        Val::I32(self.read(at, 1) as i8 as i32)
                    }
                    LoadKind::I32_8 { .. } => Val::I32(self.read(at, 1) as i32),
                    LoadKind::I32_16 { kind: ExtendedLoad::SignExtend } => {
                        Val::I32(self.read(at, 2) as i16 as i32)
                    }
                    LoadKind::I32_16 { .. } => Val::I32(self.read(at, 2) as i32),
                    LoadKind::I64_8 { kind: ExtendedLoad::SignExtend } => {
                        Val::I64(self.read(at, 1) as i8 as i64)
                    }
                    LoadKind::I64_8 { .. } => Val::I64(self.read(at, 1) as i64),
                    LoadKind::I64_16 { kind: ExtendedLoad::SignExtend } => {
                        Val::I64(self.read(at, 2) as i16 as i64)
                    }
                    LoadKind::I64_16 { .. } => Val::I64(self.read(at, 2) as i64),
                    LoadKind::I64_32 { kind: ExtendedLoad::SignExtend } => {
                        Val::I64(self.read(at, 4) as i32 as i64)
                    }
                    LoadKind::I64_32 { .. } => Val::I64(self.read(at, 4) as i64),
                    other => panic!("the evaluator has no {:?}", other),
                }])
            }
            Expr::Store(e) => {
                let at = self.address(e.address, e.arg)?;
                let value = self.one(e.value)?;
                match e.kind {
                    StoreKind::I32 { .. } => self.write(at, 4, value.i32() as u32 as u64),
                    StoreKind::I32_8 { .. } => self.write(at, 1, value.i32() as u32 as u64),
                    StoreKind::I32_16 { .. } => self.write(at, 2, value.i32() as u32 as u64),
                    StoreKind::I64 { .. } => self.write(at, 8, value.i64() as u64),
                    StoreKind::I64_8 { .. } => self.write(at, 1, value.i64() as u64),
                    StoreKind::I64_16 { .. } => self.write(at, 2, value.i64() as u64),
                    StoreKind::I64_32 { .. } => self.write(at, 4, value.i64() as u64),
                    other => panic!("the evaluator has no {:?}", other),
                }
                Ok(vec![])
            }
            other => panic!("the evaluator has no {:?}", other),
        }
    }
}

/// Runs the function at position `index` on `args`, one value for each argument local,
/// and returns what it returns.
fn call(module: &Module, index: usize, args: &[Val]) -> Vec<Val> {
    call_with_memory(module, index, args, &mut vec![0; 64])
}

fn call_with_memory(module: &Module, index: usize, args: &[Val], memory: &mut Vec<u8>) -> Vec<Val> {
    let func = body(module, index);
    let mut machine = Machine::new(module, func);
    machine.memory = memory.clone();
    assert_eq!(func.args().len(), args.len());
    for (local, value) in func.args().iter().zip(args) {
        machine.locals.insert(local.index, *value);
    }
    let entry = func.entry_block();
    let result = match machine.block(entry.id, func.block(entry)) {
        Ok(values) => values,
        Err(Jump::Return(values)) => values,
        Err(Jump::Br(..)) => panic!("a branch left the function"),
    };
    *memory = machine.memory;
    result
}

/// Calls a function and returns, with its results, what the globals hold afterwards.
fn call_with_globals(module: &Module, index: usize, args: &[Val]) -> (Vec<Val>, Vec<Val>) {
    let func = body(module, index);
    let mut machine = Machine::new(module, func);
    for (local, value) in func.args().iter().zip(args) {
        machine.locals.insert(local.index, *value);
    }
    let entry = func.entry_block();
    let result = match machine.block(entry.id, func.block(entry)) {
        Ok(values) => values,
        Err(Jump::Return(values)) => values,
        Err(Jump::Br(..)) => panic!("a branch left the function"),
    };
    (result, machine.globals)
}

fn body(module: &Module, index: usize) -> &LocalFunction {
    match &module.funcs.get(FunctionId { index }).kind {
        FunctionKind::Local(body) => body,
        FunctionKind::Import(_) => panic!("function {} is imported", index),
    }
}

// ---------------------------------------------------------------------------------------
// A structural check: nothing that a body reaches is of 64-bit integers.

fn operands(expr: &Expr) -> Vec<ExprId> {
    (0..expr.child_count()).map(|k| expr.child(k)).collect()
}

fn reached(func: &LocalFunction) -> Vec<ExprId> {
    let mut seen = HashSet::new();
    let mut order = Vec::new();
    let mut stack = vec![func.entry_block().id];
    while let Some(id) = stack.pop() {
        if !seen.insert(id.index) {
            continue;
        }
        order.push(id);
        stack.extend(operands(func.get(id)));
    }
    order
}

fn assert_no_i64(module: &Module) {
    for index in 0..module.funcs.len() {
        let function = module.funcs.get(FunctionId { index });
        let ty = module.types.get(function.ty());
        assert!(!ty.params().contains(&ValType::I64), "function {} takes an i64", index);
        assert!(!ty.results().contains(&ValType::I64), "function {} returns an i64", index);
        let func = match &function.kind {
            FunctionKind::Local(func) => func,
            FunctionKind::Import(_) => continue,
        };
        for arg in func.args() {
            assert_ne!(module.locals.get(*arg).ty(), ValType::I64);
        }
        for id in reached(func) {
            let local_is_i64 =
                |local: LocalId| module.locals.get(local).ty() == ValType::I64;
            let global_is_i64 =
                |global: GlobalId| module.globals.get(global).ty == ValType::I64;
            let bad = match func.get(id) {
                Expr::Const(e) => matches!(e.value, Value::I64(_)),
                Expr::Unop(e) => e.op.is_i64(),
                Expr::Binop(e) => e.op.is_i64(),
                Expr::Load(e) => e.kind.is_i64(),
                Expr::Store(e) => e.kind.is_i64(),
                Expr::LocalGet(e) => local_is_i64(e.local),
                Expr::LocalSet(e) => local_is_i64(e.local),
                Expr::LocalTee(e) => local_is_i64(e.local),
                Expr::GlobalGet(e) => global_is_i64(e.global),
                Expr::GlobalSet(e) => global_is_i64(e.global),
                Expr::Block(e) => e.results.contains(&ValType::I64),
                _ => false,
            };
            assert!(!bad, "function {}: {:?} is of 64-bit integers: {:?}", index, id, func.get(id));
        }
    }
}

// ---------------------------------------------------------------------------------------
// Building modules.

fn new_module() -> Module {
    Module::new(ModuleConfig { generate_names: true })
}

/// Adds a function of the given parameters and results and gives its body to `build`,
/// which returns the expressions of the entry block.
fn add_function(
    module: &mut Module,
    params: &[ValType],
    results: &[ValType],
    build: impl FnOnce(&mut Module, &mut LocalFunction, &[LocalId]) -> Vec<ExprId>,
) -> FunctionId {
    let ty = module.types.add(params.to_vec(), results.to_vec());
    let args: Vec<LocalId> = params.iter().map(|ty| module.locals.add(*ty)).collect();
    let mut func = LocalFunction::new(ty, args.clone(), results.to_vec());
    let exprs = build(module, &mut func, &args);
    let entry = func.entry_block();
    func.block_mut(entry).exprs = exprs;
    module.funcs.add_local(func)
}

fn wrap(func: &mut LocalFunction, expr: ExprId) -> ExprId {
    func.unop(UnaryOp::I32WrapI64, expr)
}

fn ret(func: &mut LocalFunction, value: ExprId) -> ExprId {
    func.alloc_expr(Expr::Return(Return { values: vec![value] }))
}

fn block_of(func: &mut LocalFunction, results: &[ValType], exprs: Vec<ExprId>) -> BlockId {
    func.plain_block(results.to_vec(), exprs)
}

fn lowered(mut module: Module) -> Module {
    assert!(module.is_well_formed());
    assert_eq!(run(&mut module), Ok(()));
    assert!(module.is_well_formed());
    assert_no_i64(&module);
    module
}

/// A module with one function that takes an i64 and returns `op` of it, wrapped to 32
/// bits where the result is a 64-bit integer itself.
fn unary(op: UnaryOp, wrapped: bool) -> Module {
    let mut module = new_module();
    add_function(&mut module, &[ValType::I64], &[ValType::I32], |_, func, args| {
        let x = func.local_get(args[0]);
        let y = func.unop(op, x);
        vec![if wrapped { wrap(func, y) } else { y }]
    });
    module
}

fn halves(value: i64) -> [Val; 2] {
    [Val::I32(value as i32), Val::I32((value >> 32) as i32)]
}

const SAMPLES: [i64; 9] = [
    0,
    1,
    -1,
    0x1122334455667788,
    0x0000_0001_0000_0000,
    0x8000_0000_0000_00FF_u64 as i64,
    0x0000_0000_8000_0000,
    0x7FFF_FFFF_FFFF_FFFF,
    i64::MIN,
];

// ---------------------------------------------------------------------------------------
// The scenarios.

#[test]
fn constant_and_wrap() {
    let mut module = new_module();
    let f = add_function(&mut module, &[], &[ValType::I32], |_, func, _| {
        let c = func.const_(Value::I64(0x1122334455667788));
        let w = wrap(func, c);
        vec![ret(func, w)]
    });
    let module = lowered(module);
    let ty = module.types.get(module.funcs.get(f).ty());
    assert_eq!(ty.results(), &vec![ValType::I32]);
    assert_eq!(call(&module, 0, &[]), vec![Val::I32(0x55667788)]);
}

#[test]
fn global_read() {
    let mut module = new_module();
    let value = 0xAAAA_BBBB_CCCC_DDDD_u64 as i64;
    let global = module.globals.add_local(ValType::I64, true, Init::Value(Value::I64(value)));
    add_function(&mut module, &[], &[ValType::I32], |_, func, _| {
        let g = func.global_get(global);
        vec![wrap(func, g)]
    });
    let module = lowered(module);
    assert_eq!(module.globals.len(), 3);
    let low = module.globals.get(GlobalId { index: 1 });
    let high = module.globals.get(GlobalId { index: 2 });
    assert_eq!(low.ty, ValType::I32);
    assert_eq!(high.ty, ValType::I32);
    assert!(low.mutable && high.mutable);
    assert_eq!(low.kind, GlobalKind::Local(Init::Value(Value::I32(0xCCCC_DDDD_u32 as i32))));
    assert_eq!(high.kind, GlobalKind::Local(Init::Value(Value::I32(0xAAAA_BBBB_u32 as i32))));
    // the 64-bit global is still in the table
    assert_eq!(module.globals.get(GlobalId { index: 0 }).ty, ValType::I64);
    // the body reads the low global
    let func = body(&module, 0);
    let reads: Vec<usize> = reached(func)
        .into_iter()
        .filter_map(|id| match func.get(id) {
            Expr::GlobalGet(g) => Some(g.global.index),
            _ => None,
        })
        .collect();
    assert!(reads.contains(&1));
    assert!(!reads.contains(&0));
    assert_eq!(call(&module, 0, &[]), vec![Val::I32(0xCCCC_DDDD_u32 as i32)]);
}

#[test]
fn global_write() {
    let mut module = new_module();
    let global = module.globals.add_local(ValType::I64, true, Init::Value(Value::I64(7)));
    add_function(&mut module, &[ValType::I64], &[ValType::I32], |_, func, args| {
        let x = func.local_get(args[0]);
        let set = func.global_set(global, x);
        let g = func.global_get(global);
        vec![set, wrap(func, g)]
    });
    let module = lowered(module);
    for value in SAMPLES {
        assert_eq!(call(&module, 0, &halves(value)), vec![Val::I32(value as i32)]);
    }
}

#[test]
fn bitwise_or() {
    let mut module = new_module();
    add_function(&mut module, &[], &[ValType::I32], |_, func, _| {
        let a = func.const_(Value::I64(0x0F0F_0F0F_0F0F_0F0F));
        let b = func.const_(Value::I64(0xF0F0_F0F0_F0F0_F0F0_u64 as i64));
        let or = func.binop(BinaryOp::I64Or, a, b);
        vec![wrap(func, or)]
    });
    let module = lowered(module);
    assert_eq!(call(&module, 0, &[]), vec![Val::I32(0xFFFF_FFFF_u32 as i32)]);
}

#[test]
fn popcnt_of_a_literal() {
    let mut module = new_module();
    add_function(&mut module, &[], &[ValType::I32], |_, func, _| {
        let a = func.const_(Value::I64(0x8000_0000_0000_00FF_u64 as i64));
        let count = func.unop(UnaryOp::I64Popcnt, a);
        vec![wrap(func, count)]
    });
    let module = lowered(module);
    assert_eq!(call(&module, 0, &[]), vec![Val::I32(9)]);
}

#[test]
fn extend_signed() {
    let mut module = new_module();
    add_function(&mut module, &[], &[ValType::I32], |_, func, _| {
        let a = func.const_(Value::I32(-1));
        let wide = func.unop(UnaryOp::I64ExtendSI32, a);
        vec![wrap(func, wide)]
    });
    let module = lowered(module);
    assert_eq!(call(&module, 0, &[]), vec![Val::I32(-1)]);
}

#[test]
fn store_and_load() {
    let mut module = new_module();
    let memory = module.memories.add_local(false, 1, None);
    add_function(&mut module, &[ValType::I64], &[ValType::I32], |_, func, args| {
        let at = func.const_(Value::I32(0));
        let x = func.local_get(args[0]);
        let arg = MemArg { align: 8, offset: 0 };
        let store = func.store(memory, StoreKind::I64 { atomic: false }, arg, at, x);
        let at = func.const_(Value::I32(0));
        let load = func.load(memory, LoadKind::I64 { atomic: false }, arg, at);
        vec![store, wrap(func, load)]
    });
    let module = lowered(module);
    for value in SAMPLES {
        let mut memory = vec![0; 64];
        let result = call_with_memory(&module, 0, &halves(value), &mut memory);
        assert_eq!(result, vec![Val::I32(value as i32)]);
        assert_eq!(&memory[0..8], &value.to_le_bytes());
    }
    // the accesses come in pairs at offsets 0 and 4, with the alignment capped at 4
    let func = body(&module, 0);
    let mut stores = Vec::new();
    let mut loads = Vec::new();
    for id in reached(func) {
        match func.get(id) {
            Expr::Store(s) => stores.push((s.kind, s.arg)),
            Expr::Load(l) => loads.push((l.kind, l.arg)),
            _ => {}
        }
    }
    stores.sort_by_key(|(_, arg)| arg.offset);
    loads.sort_by_key(|(_, arg)| arg.offset);
    let i32_store = StoreKind::I32 { atomic: false };
    let i32_load = LoadKind::I32 { atomic: false };
    assert_eq!(
        stores,
        vec![
            (i32_store, MemArg { align: 4, offset: 0 }),
            (i32_store, MemArg { align: 4, offset: 4 })
        ]
    );
    assert_eq!(
        loads,
        vec![
            (i32_load, MemArg { align: 4, offset: 0 }),
            (i32_load, MemArg { align: 4, offset: 4 })
        ]
    );
}

#[test]
fn load_keeps_a_small_alignment() {
    let mut module = new_module();
    let memory = module.memories.add_local(false, 1, None);
    add_function(&mut module, &[], &[ValType::I32], |_, func, _| {
        let at = func.const_(Value::I32(8));
        let arg = MemArg { align: 2, offset: 16 };
        let load = func.load(memory, LoadKind::I64 { atomic: false }, arg, at);
        vec![wrap(func, load)]
    });
    let module = lowered(module);
    let func = body(&module, 0);
    let mut loads: Vec<MemArg> = reached(func)
        .into_iter()
        .filter_map(|id| match func.get(id) {
            Expr::Load(l) => Some(l.arg),
            _ => None,
        })
        .collect();
    loads.sort_by_key(|arg| arg.offset);
    assert_eq!(loads, vec![MemArg { align: 2, offset: 16 }, MemArg { align: 2, offset: 20 }]);
}

// ---------------------------------------------------------------------------------------
// Each rewrite computes what the 64-bit form computed.

fn check_unary(op: UnaryOp, wrapped: bool) {
    let unlowered = unary(op, wrapped);
    let module = lowered(unary(op, wrapped));
    for value in SAMPLES {
        let expected = call(&unlowered, 0, &[Val::I64(value)]);
        assert_eq!(call(&module, 0, &halves(value)), expected, "{:?} of {:#x}", op, value);
    }
}

#[test]
fn eqz_agrees() {
    check_unary(UnaryOp::I64Eqz, false);
}

#[test]
fn popcnt_agrees() {
    check_unary(UnaryOp::I64Popcnt, true);
}

#[test]
fn clz_agrees() {
    check_unary(UnaryOp::I64Clz, true);
}

#[test]
fn ctz_agrees() {
    check_unary(UnaryOp::I64Ctz, true);
}

#[test]
fn extend32_agrees() {
    check_unary(UnaryOp::I64Extend32S, true);
}

#[test]
fn extend8_agrees() {
    check_unary(UnaryOp::I64Extend8S, true);
}

#[test]
fn extend16_agrees() {
    check_unary(UnaryOp::I64Extend16S, true);
}

/// The high half of a result, which `wrap` does not show: a function that returns the
/// 64-bit value itself returns its high bits after the pass.
fn high_of(op: UnaryOp, input: ValType) -> Module {
    let mut module = new_module();
    add_function(&mut module, &[input], &[ValType::I64], |_, func, args| {
        let x = func.local_get(args[0]);
        vec![func.unop(op, x)]
    });
    module
}

#[test]
fn high_halves_agree() {
    for op in [
        UnaryOp::I64Popcnt,
        UnaryOp::I64Clz,
        UnaryOp::I64Ctz,
        UnaryOp::I64Extend8S,
        UnaryOp::I64Extend16S,
        UnaryOp::I64Extend32S,
    ] {
        let unlowered = high_of(op, ValType::I64);
        let module = lowered(high_of(op, ValType::I64));
        for value in SAMPLES {
            let expected = call(&unlowered, 0, &[Val::I64(value)])[0].i64();
            assert_eq!(
                call(&module, 0, &halves(value)),
                vec![Val::I32((expected >> 32) as i32)],
                "{:?} of {:#x}",
                op,
                value
            );
        }
    }
    for op in [UnaryOp::I64ExtendSI32, UnaryOp::I64ExtendUI32] {
        let unlowered = high_of(op, ValType::I32);
        let module = lowered(high_of(op, ValType::I32));
        for value in [0, 1, -1, i32::MIN, i32::MAX, 0x1234] {
            let expected = call(&unlowered, 0, &[Val::I32(value)])[0].i64();
            assert_eq!(
                call(&module, 0, &[Val::I32(value)]),
                vec![Val::I32((expected >> 32) as i32)]
            );
        }
    }
}

#[test]
fn bitwise_operators_agree() {
    for op in [BinaryOp::I64And, BinaryOp::I64Or, BinaryOp::I64Xor] {
        for high in [false, true] {
            let build = || {
                let mut module = new_module();
                let result = if high { ValType::I64 } else { ValType::I32 };
                add_function(&mut module, &[ValType::I64, ValType::I64], &[result], |_, func, args| {
                    let a = func.local_get(args[0]);
                    let b = func.local_get(args[1]);
                    let c = func.binop(op, a, b);
                    vec![if high { c } else { wrap(func, c) }]
                });
                module
            };
            let unlowered = build();
            let module = lowered(build());
            for a in SAMPLES {
                for b in SAMPLES {
                    let expected = call(&unlowered, 0, &[Val::I64(a), Val::I64(b)])[0];
                    let expected = match expected {
                        Val::I64(v) => (v >> 32) as i32,
                        Val::I32(v) => v,
                    };
                    let [al, ah] = halves(a);
                    let [bl, bh] = halves(b);
                    assert_eq!(call(&module, 0, &[al, ah, bl, bh]), vec![Val::I32(expected)]);
                }
            }
        }
    }
}

#[test]
fn locals_are_split() {
    let build = || {
        let mut module = new_module();
        add_function(&mut module, &[ValType::I64], &[ValType::I32], |module, func, args| {
            let temp = module.locals.add(ValType::I64);
            let other = module.locals.add(ValType::I64);
            let x = func.local_get(args[0]);
            let set = func.local_set(temp, x);
            let get = func.local_get(temp);
            let tee = func.local_tee(other, get);
            let drop = func.drop(tee);
            let again = func.local_get(other);
            vec![set, drop, wrap(func, again)]
        });
        module
    };
    let unlowered = build();
    let module = lowered(build());
    for value in SAMPLES {
        assert_eq!(call(&unlowered, 0, &[Val::I64(value)]), vec![Val::I32(value as i32)]);
        assert_eq!(call(&module, 0, &halves(value)), vec![Val::I32(value as i32)]);
    }
}

#[test]
fn tee_leaves_the_high_bits() {
    let build = || {
        let mut module = new_module();
        add_function(&mut module, &[ValType::I64], &[ValType::I64], |module, func, args| {
            let temp = module.locals.add(ValType::I64);
            let x = func.local_get(args[0]);
            vec![func.local_tee(temp, x)]
        });
        module
    };
    let module = lowered(build());
    for value in SAMPLES {
        assert_eq!(call(&module, 0, &halves(value)), vec![Val::I32((value >> 32) as i32)]);
    }
}

#[test]
fn blocks_and_branches_carry_both_halves() {
    let build = || {
        let mut module = new_module();
        add_function(
            &mut module,
            &[ValType::I32, ValType::I64, ValType::I64],
            &[ValType::I32],
            |_, func, args| {
                // (block (result i64)
                //   (if (local.get 0) (then (br 1 (local.get 1))))
                //   (local.get 2))
                let outer = block_of(func, &[ValType::I64], vec![]);
                let a = func.local_get(args[1]);
                let br = func.br(outer, vec![a]);
                let then = block_of(func, &[], vec![br]);
                let otherwise = block_of(func, &[], vec![]);
                let condition = func.local_get(args[0]);
                let if_else = func.if_else(condition, then, otherwise);
                let b = func.local_get(args[2]);
                func.block_mut(outer).exprs = vec![if_else, b];
                vec![wrap(func, outer.id)]
            },
        );
        module
    };
    let unlowered = build();
    let module = lowered(build());
    for condition in [0, 1] {
        for a in SAMPLES {
            for b in [5, -7] {
                let expected = if condition != 0 { a } else { b };
                assert_eq!(
                    call(&unlowered, 0, &[Val::I32(condition), Val::I64(a), Val::I64(b)]),
                    vec![Val::I32(expected as i32)]
                );
                let [al, ah] = halves(a);
                let [bl, bh] = halves(b);
                assert_eq!(
                    call(&module, 0, &[Val::I32(condition), al, ah, bl, bh]),
                    vec![Val::I32(expected as i32)]
                );
            }
        }
    }
}

#[test]
fn conditionals_join_their_halves() {
    let build = |high: bool| {
        let mut module = new_module();
        let result = if high { ValType::I64 } else { ValType::I32 };
        add_function(
            &mut module,
            &[ValType::I32, ValType::I64, ValType::I64],
            &[result],
            |_, func, args| {
                let a = func.local_get(args[1]);
                let then = func.alloc_block(Block {
                    kind: BlockKind::IfElse,
                    params: vec![],
                    results: vec![ValType::I64],
                    exprs: vec![a],
                });
                let b = func.local_get(args[2]);
                let otherwise = func.alloc_block(Block {
                    kind: BlockKind::IfElse,
                    params: vec![],
                    results: vec![ValType::I64],
                    exprs: vec![b],
                });
                let condition = func.local_get(args[0]);
                let if_else = func.if_else(condition, then, otherwise);
                vec![if high { if_else } else { wrap(func, if_else) }]
            },
        );
        module
    };
    for high in [false, true] {
        let module = lowered(build(high));
        for condition in [0, 1] {
            for a in SAMPLES {
                let b = !a;
                let chosen = if condition != 0 { a } else { b };
                let expected = if high { (chosen >> 32) as i32 } else { chosen as i32 };
                let [al, ah] = halves(a);
                let [bl, bh] = halves(b);
                assert_eq!(
                    call(&module, 0, &[Val::I32(condition), al, ah, bl, bh]),
                    vec![Val::I32(expected)]
                );
            }
        }
    }
}

#[test]
fn conditional_branch_to_an_i64_block() {
    let build = || {
        let mut module = new_module();
        add_function(
            &mut module,
            &[ValType::I32, ValType::I64],
            &[ValType::I32],
            |_, func, args| {
                // (block (result i64) (drop (br_if 0 (local.get 1) (local.get 0))) (i64.const 3))
                let outer = block_of(func, &[ValType::I64], vec![]);
                let value = func.local_get(args[1]);
                let condition = func.local_get(args[0]);
                let br_if = func.alloc_expr(Expr::BrIf(BrIf {
                    condition,
                    block: outer,
                    args: vec![value],
                }));
                let drop = func.drop(br_if);
                let three = func.const_(Value::I64(3));
                func.block_mut(outer).exprs = vec![drop, three];
                vec![wrap(func, outer.id)]
            },
        );
        module
    };
    let unlowered = build();
    let module = lowered(build());
    for condition in [0, 1] {
        for a in SAMPLES {
            let expected = if condition != 0 { a as i32 } else { 3 };
            assert_eq!(
                call(&unlowered, 0, &[Val::I32(condition), Val::I64(a)]),
                vec![Val::I32(expected)]
            );
            let [al, ah] = halves(a);
            assert_eq!(call(&module, 0, &[Val::I32(condition), al, ah]), vec![Val::I32(expected)]);
        }
    }
}

#[test]
fn narrow_stores_wrap_their_value() {
    for (kind, bytes) in [
        (StoreKind::I64_8 { atomic: false }, 1),
        (StoreKind::I64_16 { atomic: false }, 2),
        (StoreKind::I64_32 { atomic: false }, 4),
    ] {
        let mut module = new_module();
        let memory = module.memories.add_local(false, 1, None);
        add_function(&mut module, &[ValType::I64], &[], |_, func, args| {
            let at = func.const_(Value::I32(8));
            let x = func.local_get(args[0]);
            vec![func.store(memory, kind, MemArg { align: 1, offset: 2 }, at, x)]
        });
        let module = lowered(module);
        for value in SAMPLES {
            let mut memory = vec![0; 64];
            call_with_memory(&module, 0, &halves(value), &mut memory);
            assert_eq!(&memory[10..10 + bytes], &value.to_le_bytes()[..bytes]);
            assert!(memory[10 + bytes..].iter().all(|byte| *byte == 0));
        }
    }
}

#[test]
fn narrow_signed_loads_agree() {
    for kind in [
        LoadKind::I64_8 { kind: ExtendedLoad::SignExtend },
        LoadKind::I64_16 { kind: ExtendedLoad::SignExtend },
        LoadKind::I64_32 { kind: ExtendedLoad::SignExtend },
        LoadKind::I64_32 { kind: ExtendedLoad::ZeroExtend },
    ] {
        for high in [false, true] {
            let build = || {
                let mut module = new_module();
                let memory = module.memories.add_local(false, 1, None);
                let result = if high { ValType::I64 } else { ValType::I32 };
                add_function(&mut module, &[], &[result], |_, func, _| {
                    let at = func.const_(Value::I32(0));
                    let load = func.load(memory, kind, MemArg { align: 1, offset: 0 }, at);
                    vec![if high { load } else { wrap(func, load) }]
                });
                module
            };
            let unlowered = build();
            let module = lowered(build());
            for value in SAMPLES {
                let mut memory = vec![0; 64];
                memory[0..8].copy_from_slice(&value.to_le_bytes());
                let expected = call_with_memory(&unlowered, 0, &[], &mut memory.clone())[0];
                let expected = match expected {
                    Val::I64(v) => (v >> 32) as i32,
                    Val::I32(v) => v,
                };
                assert_eq!(
                    call_with_memory(&module, 0, &[], &mut memory),
                    vec![Val::I32(expected)],
                    "{:?} of {:#x}",
                    kind,
                    value
                );
            }
        }
    }
}

/// An unsigned load of 8 or 16 bits becomes the *signed* 32-bit load of that width,
/// extended to 64 bits without sign: the low word of a byte above 0x7f comes out with its
/// upper bits set, which is not what the 64-bit load gave.
#[test]
fn narrow_unsigned_loads_become_signed_32_bit_loads() {
    for (kind, narrow) in [
        (
            LoadKind::I64_8 { kind: ExtendedLoad::ZeroExtend },
            LoadKind::I32_8 { kind: ExtendedLoad::SignExtend },
        ),
        (
            LoadKind::I64_16 { kind: ExtendedLoad::ZeroExtend },
            LoadKind::I32_16 { kind: ExtendedLoad::SignExtend },
        ),
    ] {
        let mut module = new_module();
        let memory = module.memories.add_local(false, 1, None);
        add_function(&mut module, &[], &[ValType::I32], |_, func, _| {
            let at = func.const_(Value::I32(0));
            let load = func.load(memory, kind, MemArg { align: 1, offset: 0 }, at);
            vec![wrap(func, load)]
        });
        let module = lowered(module);
        let func = body(&module, 0);
        let kinds: Vec<LoadKind> = reached(func)
            .into_iter()
            .filter_map(|id| match func.get(id) {
                Expr::Load(l) => Some(l.kind),
                _ => None,
            })
            .collect();
        assert_eq!(kinds, vec![narrow]);
        let mut memory = vec![0; 64];
        memory[0] = 0x7f;
        assert_eq!(call_with_memory(&module, 0, &[], &mut memory), vec![Val::I32(0x7f)]);
        memory[0] = 0xff;
        memory[1] = 0xff;
        assert_eq!(call_with_memory(&module, 0, &[], &mut memory), vec![Val::I32(-1)]);
    }
}

#[test]
fn reinterpret_goes_through_memory() {
    let mut module = new_module();
    add_function(&mut module, &[ValType::I64], &[ValType::F64], |_, func, args| {
        let x = func.local_get(args[0]);
        vec![func.unop(UnaryOp::F64ReinterpretI64, x)]
    });
    let module = lowered(module);
    // a memory of one page was created for it
    assert_eq!(module.memories.len(), 1);
    let memory = module.memories.get(MemoryId { index: 0 });
    assert_eq!((memory.shared, memory.initial, memory.maximum), (false, 1, Some(1)));
    let func = body(&module, 0);
    let mut stores = Vec::new();
    let mut loads = Vec::new();
    for id in reached(func) {
        match func.get(id) {
            Expr::Store(s) => stores.push((s.kind, s.arg.offset)),
            Expr::Load(l) => loads.push((l.kind, l.arg.offset)),
            _ => {}
        }
    }
    stores.sort_by_key(|(_, offset)| *offset);
    assert_eq!(
        stores,
        vec![(StoreKind::I32 { atomic: false }, 0), (StoreKind::I32 { atomic: false }, 4)]
    );
    assert_eq!(loads, vec![(LoadKind::F64, 0)]);
}

#[test]
fn reinterpret_to_i64_loads_both_halves() {
    let mut module = new_module();
    let memory = module.memories.add_local(true, 2, Some(4));
    add_function(&mut module, &[ValType::F64], &[ValType::I32], |_, func, args| {
        let x = func.local_get(args[0]);
        let bits = func.unop(UnaryOp::I64ReinterpretF64, x);
        vec![wrap(func, bits)]
    });
    let module = lowered(module);
    // the memory that was there is used, and none is added
    assert_eq!(module.memories.len(), 1);
    assert_eq!(module.memories.get(memory).initial, 2);
    let func = body(&module, 0);
    let mut loads: Vec<(LoadKind, u32)> = reached(func)
        .into_iter()
        .filter_map(|id| match func.get(id) {
            Expr::Load(l) => Some((l.kind, l.arg.offset)),
            _ => None,
        })
        .collect();
    loads.sort_by_key(|(_, offset)| *offset);
    assert_eq!(
        loads,
        vec![(LoadKind::I32 { atomic: false }, 0), (LoadKind::I32 { atomic: false }, 4)]
    );
}

// ---------------------------------------------------------------------------------------
// Signatures.

#[test]
fn signatures_are_split() {
    let mut module = new_module();
    let f = add_function(
        &mut module,
        &[ValType::I32, ValType::I64, ValType::F32, ValType::I64],
        &[ValType::I64],
        |_, func, args| vec![func.local_get(args[3])],
    );
    let g = add_function(&mut module, &[ValType::I32], &[ValType::I32], |_, func, args| {
        vec![func.local_get(args[0])]
    });
    let old_f = module.funcs.get(f).ty();
    let old_g = module.funcs.get(g).ty();
    let old_args = body(&module, 0).args().clone();
    let module = lowered(module);
    let new_f = module.funcs.get(f).ty();
    assert_ne!(new_f, old_f);
    assert_eq!(new_f.index, 2);
    assert_eq!(module.funcs.get(g).ty(), old_g);
    let ty = module.types.get(new_f);
    assert_eq!(
        ty.params(),
        &vec![
            ValType::I32,
            ValType::I32,
            ValType::I32,
            ValType::F32,
            ValType::I32,
            ValType::I32
        ]
    );
    assert_eq!(ty.results(), &vec![ValType::I32]);
    // the old signature is still in the table
    assert_eq!(module.types.get(old_f).results(), &vec![ValType::I64]);
    let args = body(&module, 0).args();
    assert_eq!(args.len(), 6);
    assert_eq!(args[0], old_args[0]);
    assert_eq!(args[3], old_args[2]);
    // fresh locals, low before high, in the order of the parameters
    assert_eq!(args[2].index, args[1].index + 1);
    assert_eq!(args[5].index, args[4].index + 1);
    assert!(args[1].index < args[4].index);
    for arg in [args[1], args[2], args[4], args[5]] {
        assert_eq!(module.locals.get(arg).ty(), ValType::I32);
    }
    assert_eq!(
        call(
            &module,
            0,
            &[Val::I32(1), Val::I32(2), Val::I32(3), Val::I32(4), Val::I32(5), Val::I32(6)]
        ),
        vec![Val::I32(6)]
    );
}

#[test]
fn generated_locals_are_named() {
    let mut module = new_module();
    add_function(&mut module, &[ValType::I64], &[ValType::I32], |module, func, args| {
        let temp = module.locals.add(ValType::I64);
        module.locals.set_name(temp, "acc".to_string());
        let x = func.local_get(args[0]);
        let set = func.local_set(temp, x);
        let get = func.local_get(temp);
        vec![set, wrap(func, get)]
    });
    let before = module.locals.len();
    let module = lowered(module);
    let names: Vec<Option<String>> = (before..module.locals.len())
        .map(|index| module.locals.get(LocalId { index }).name().cloned())
        .collect();
    assert!(names.contains(&Some("acc_low".to_string())));
    assert!(names.contains(&Some("acc_high".to_string())));
    let index = names.iter().position(|n| n.as_deref().map_or(false, |n| n.starts_with("temp_low")));
    let index = index.expect("a spilled low half");
    assert_eq!(names[index], Some(format!("temp_low{}", before + index)));
}

#[test]
fn an_unnamed_local_is_named_by_its_position() {
    let mut module = new_module();
    let mut temp = LocalId { index: 0 };
    add_function(&mut module, &[], &[ValType::I32], |module, func, _| {
        temp = module.locals.add(ValType::I64);
        let get = func.local_get(temp);
        vec![wrap(func, get)]
    });
    let module = lowered(module);
    let low = module.locals.get(LocalId { index: temp.index + 1 });
    let high = module.locals.get(LocalId { index: temp.index + 2 });
    assert_eq!(low.name(), Some(&format!("{}_low", temp.index)));
    assert_eq!(high.name(), Some(&format!("{}_high", temp.index)));
}

#[test]
fn no_names_without_the_setting() {
    let mut module = Module::new(ModuleConfig::new());
    add_function(&mut module, &[], &[ValType::I32], |_, func, _| {
        let c = func.const_(Value::I64(1));
        vec![wrap(func, c)]
    });
    let module = lowered(module);
    assert!(module.locals.len() > 0);
    for index in 0..module.locals.len() {
        assert_eq!(module.locals.get(LocalId { index }).name(), None);
    }
}

// ---------------------------------------------------------------------------------------
// What is refused before anything is rewritten.

fn with_global(kind: GlobalKind, exported: bool) -> Module {
    let mut module = new_module();
    let id = match kind {
        GlobalKind::Import(import) => module.globals.add_import(ValType::I64, false, import),
        GlobalKind::Local(init) => module.globals.add_local(ValType::I64, false, init),
    };
    if exported {
        module.exports.add("g".to_string(), ExportItem::Global(id));
    }
    module
}

#[test]
fn an_exported_i64_global_is_refused() {
    let mut module = with_global(GlobalKind::Local(Init::Value(Value::I64(1))), true);
    assert_eq!(run(&mut module), Err(Error::InvalidInput(InvalidInput::ExportedGlobal)));
}

#[test]
fn an_imported_i64_global_is_refused() {
    let mut module = with_global(GlobalKind::Import(ImportId { index: 0 }), false);
    assert_eq!(run(&mut module), Err(Error::InvalidInput(InvalidInput::ImportedGlobal)));
}

#[test]
fn an_i64_global_initialized_from_a_global_is_refused() {
    let mut module =
        with_global(GlobalKind::Local(Init::Global(GlobalId { index: 0 })), false);
    assert_eq!(run(&mut module), Err(Error::InvalidInput(InvalidInput::GlobalFromGlobal)));
}

#[test]
fn an_i64_global_with_another_literal_is_refused() {
    let mut module = with_global(GlobalKind::Local(Init::Value(Value::I32(1))), false);
    assert_eq!(run(&mut module), Err(Error::InvalidInput(InvalidInput::GlobalTypeMismatch)));
}

#[test]
fn the_first_faulty_global_is_named() {
    let mut module = new_module();
    module.globals.add_local(ValType::I64, false, Init::Value(Value::I64(1)));
    module.globals.add_local(ValType::I64, false, Init::Value(Value::F64(1)));
    module.globals.add_import(ValType::I64, false, ImportId { index: 0 });
    assert_eq!(run(&mut module), Err(Error::InvalidInput(InvalidInput::GlobalTypeMismatch)));
}

#[test]
fn an_exported_i64_function_is_refused() {
    let mut module = new_module();
    let f = add_function(&mut module, &[ValType::I64], &[], |_, _, _| vec![]);
    module.exports.add("f".to_string(), ExportItem::Function(f));
    assert_eq!(run(&mut module), Err(Error::InvalidInput(InvalidInput::ExportedFunction)));
}

#[test]
fn an_imported_i64_function_is_refused() {
    let mut module = new_module();
    let ty = module.types.add(vec![], vec![ValType::I64]);
    module.funcs.add_import(ty, ImportId { index: 0 });
    assert_eq!(run(&mut module), Err(Error::InvalidInput(InvalidInput::ImportedFunction)));
}

#[test]
fn several_results_with_an_i64_are_refused() {
    let mut module = new_module();
    add_function(&mut module, &[ValType::I64], &[ValType::I32, ValType::I32], |_, func, _| {
        let a = func.const_(Value::I32(1));
        let b = func.const_(Value::I32(2));
        vec![a, b]
    });
    assert_eq!(run(&mut module), Err(Error::InvalidInput(InvalidInput::MultiValueResult)));
}

#[test]
fn a_faulty_global_comes_before_a_faulty_function() {
    let mut module = new_module();
    let f = add_function(&mut module, &[ValType::I64], &[], |_, _, _| vec![]);
    module.exports.add("f".to_string(), ExportItem::Function(f));
    module.globals.add_import(ValType::I64, false, ImportId { index: 0 });
    assert_eq!(run(&mut module), Err(Error::InvalidInput(InvalidInput::ImportedGlobal)));
}

// ---------------------------------------------------------------------------------------
// What is recognized and not rewritten yet.

fn refuses(build: impl FnOnce(&mut Module, &mut LocalFunction, &[LocalId]) -> Vec<ExprId>) -> Error {
    let mut module = new_module();
    module.memories.add_local(false, 1, None);
    add_function(&mut module, &[ValType::I64, ValType::I64], &[], build);
    assert!(module.is_well_formed());
    run(&mut module).unwrap_err()
}

#[test]
fn arithmetic_is_unimplemented() {
    for op in [
        BinaryOp::I64Add,
        BinaryOp::I64Sub,
        BinaryOp::I64Mul,
        BinaryOp::I64DivS,
        BinaryOp::I64DivU,
        BinaryOp::I64RemS,
        BinaryOp::I64RemU,
        BinaryOp::I64Shl,
        BinaryOp::I64ShrS,
        BinaryOp::I64ShrU,
        BinaryOp::I64Rotl,
        BinaryOp::I64Rotr,
        BinaryOp::I64Eq,
        BinaryOp::I64Ne,
        BinaryOp::I64LtS,
        BinaryOp::I64LtU,
        BinaryOp::I64GtS,
        BinaryOp::I64GtU,
        BinaryOp::I64LeS,
        BinaryOp::I64LeU,
        BinaryOp::I64GeS,
        BinaryOp::I64GeU,
    ] {
        let error = refuses(|_, func, args| {
            let a = func.local_get(args[0]);
            let b = func.local_get(args[1]);
            let c = func.binop(op, a, b);
            vec![func.drop(c)]
        });
        assert_eq!(error, Error::Unimplemented(Unimplemented::Binop), "{:?}", op);
    }
}

#[test]
fn float_conversions_are_unimplemented() {
    for op in [
        UnaryOp::F32ConvertSI64,
        UnaryOp::F32ConvertUI64,
        UnaryOp::F64ConvertSI64,
        UnaryOp::F64ConvertUI64,
    ] {
        let error = refuses(|_, func, args| {
            let a = func.local_get(args[0]);
            let c = func.unop(op, a);
            vec![func.drop(c)]
        });
        assert_eq!(error, Error::Unimplemented(Unimplemented::Unop), "{:?}", op);
    }
    for op in [
        UnaryOp::I64TruncSF32,
        UnaryOp::I64TruncUF32,
        UnaryOp::I64TruncSF64,
        UnaryOp::I64TruncUF64,
    ] {
        let error = refuses(|_, func, _| {
            let a = func.const_(Value::F64(0));
            let c = func.unop(op, a);
            vec![func.drop(c)]
        });
        assert_eq!(error, Error::Unimplemented(Unimplemented::Unop), "{:?}", op);
    }
}

#[test]
fn atomic_accesses_are_unimplemented() {
    let memory = MemoryId { index: 0 };
    let arg = MemArg { align: 8, offset: 0 };
    let error = refuses(|_, func, _| {
        let at = func.const_(Value::I32(0));
        let load = func.load(memory, LoadKind::I64 { atomic: true }, arg, at);
        vec![func.drop(load)]
    });
    assert_eq!(error, Error::Unimplemented(Unimplemented::Load));
    let error = refuses(|_, func, _| {
        let at = func.const_(Value::I32(0));
        let kind = LoadKind::I64_8 { kind: ExtendedLoad::ZeroExtendAtomic };
        let load = func.load(memory, kind, arg, at);
        vec![func.drop(load)]
    });
    assert_eq!(error, Error::Unimplemented(Unimplemented::Load));
    for kind in [
        StoreKind::I64 { atomic: true },
        StoreKind::I64_8 { atomic: true },
        StoreKind::I64_16 { atomic: true },
        StoreKind::I64_32 { atomic: true },
    ] {
        let error = refuses(|_, func, args| {
            let at = func.const_(Value::I32(0));
            let x = func.local_get(args[0]);
            vec![func.store(memory, kind, arg, at, x)]
        });
        assert_eq!(error, Error::Unimplemented(Unimplemented::Store));
    }
    let error = refuses(|_, func, args| {
        let at = func.const_(Value::I32(0));
        let expected = func.const_(Value::I32(0));
        let timeout = func.local_get(args[0]);
        let wait = func.alloc_expr(Expr::AtomicWait(AtomicWait {
            memory,
            arg,
            address: at,
            expected,
            timeout,
            sixty_four: false,
        }));
        vec![func.drop(wait)]
    });
    assert_eq!(error, Error::Unimplemented(Unimplemented::Atomic));
}

#[test]
fn an_offset_without_room_for_the_second_word_is_refused() {
    let memory = MemoryId { index: 0 };
    let error = refuses(|_, func, _| {
        let at = func.const_(Value::I32(0));
        let arg = MemArg { align: 8, offset: u32::MAX - 3 };
        let load = func.load(memory, LoadKind::I64 { atomic: false }, arg, at);
        vec![func.drop(load)]
    });
    assert_eq!(error, Error::Unimplemented(Unimplemented::MemoryOffset));
    let error = refuses(|_, func, args| {
        let at = func.const_(Value::I32(0));
        let x = func.local_get(args[0]);
        let arg = MemArg { align: 8, offset: u32::MAX };
        vec![func.store(memory, StoreKind::I64 { atomic: false }, arg, at, x)]
    });
    assert_eq!(error, Error::Unimplemented(Unimplemented::MemoryOffset));
}

#[test]
fn calls_with_i64_are_unimplemented() {
    // the callee takes an i64
    let mut module = new_module();
    let callee = add_function(&mut module, &[ValType::I64], &[], |_, _, _| vec![]);
    add_function(&mut module, &[], &[], |_, func, _| {
        let a = func.const_(Value::I64(1));
        vec![func.alloc_expr(Expr::Call(Call { func: callee, args: vec![a] }))]
    });
    assert_eq!(run(&mut module), Err(Error::Unimplemented(Unimplemented::Call)));
    // the callee returns an i64
    let mut module = new_module();
    let callee = add_function(&mut module, &[], &[ValType::I64], |_, func, _| {
        vec![func.const_(Value::I64(1))]
    });
    add_function(&mut module, &[], &[], |_, func, _| {
        let call = func.alloc_expr(Expr::Call(Call { func: callee, args: vec![] }));
        vec![func.drop(call)]
    });
    assert_eq!(run(&mut module), Err(Error::Unimplemented(Unimplemented::Call)));
    // an indirect call through a type with an i64
    let mut module = new_module();
    let ty = module.types.add(vec![], vec![ValType::I64]);
    add_function(&mut module, &[], &[], |_, func, _| {
        let index = func.const_(Value::I32(0));
        let call = func.alloc_expr(Expr::CallIndirect(CallIndirect {
            ty,
            table: TableId { index: 0 },
            func: index,
            args: vec![],
        }));
        vec![func.drop(call)]
    });
    assert_eq!(run(&mut module), Err(Error::Unimplemented(Unimplemented::CallIndirect)));
}

#[test]
fn calls_without_i64_are_left_alone() {
    let mut module = new_module();
    let callee = add_function(&mut module, &[ValType::I32], &[ValType::I32], |_, func, args| {
        vec![func.local_get(args[0])]
    });
    add_function(&mut module, &[], &[ValType::I32], |_, func, _| {
        let a = func.const_(Value::I64(0x1_0000_0005));
        let w = wrap(func, a);
        vec![func.alloc_expr(Expr::Call(Call { func: callee, args: vec![w] }))]
    });
    let module = lowered(module);
    let func = body(&module, 1);
    assert!(reached(func).iter().any(|id| matches!(func.get(*id), Expr::Call(_))));
}

#[test]
fn select_return_and_table_branches_of_i64_are_unimplemented() {
    let error = refuses(|_, func, args| {
        let a = func.local_get(args[0]);
        let b = func.local_get(args[1]);
        let condition = func.const_(Value::I32(1));
        let select = func.select(condition, a, b);
        vec![func.drop(select)]
    });
    assert_eq!(error, Error::Unimplemented(Unimplemented::Select));
    let error = refuses(|_, func, args| {
        let a = func.local_get(args[0]);
        vec![ret(func, a)]
    });
    assert_eq!(error, Error::Unimplemented(Unimplemented::Return));
    let error = refuses(|_, func, args| {
        let outer = block_of(func, &[ValType::I32], vec![]);
        let a = func.local_get(args[0]);
        let which = func.const_(Value::I32(0));
        let table = func.alloc_expr(Expr::BrTable(BrTable {
            which,
            blocks: vec![outer],
            default: outer,
            args: vec![a],
        }));
        func.block_mut(outer).exprs = vec![table];
        vec![func.drop(outer.id)]
    });
    assert_eq!(error, Error::Unimplemented(Unimplemented::BrTable));
    // a conditional branch that carries an i64 to a block that is not of one i64
    let error = refuses(|_, func, args| {
        let outer = block_of(func, &[ValType::I32], vec![]);
        let a = func.local_get(args[0]);
        let condition = func.const_(Value::I32(0));
        let br_if =
            func.alloc_expr(Expr::BrIf(BrIf { condition, block: outer, args: vec![a] }));
        func.block_mut(outer).exprs = vec![br_if];
        vec![func.drop(outer.id)]
    });
    assert_eq!(error, Error::Unimplemented(Unimplemented::BrIf));
}

#[test]
fn blocks_of_several_results_with_an_i64_are_unimplemented() {
    let error = refuses(|_, func, args| {
        let a = func.local_get(args[0]);
        let b = func.const_(Value::I32(0));
        let block = block_of(func, &[ValType::I64, ValType::I32], vec![a, b]);
        vec![block.id]
    });
    assert_eq!(error, Error::Unimplemented(Unimplemented::MultiValueBlock));
}

#[test]
fn a_missing_low_half_is_reported() {
    // an i64 operator on an operand that leaves no i64
    let error = refuses(|_, func, _| {
        let a = func.alloc_expr(Expr::Unreachable(walrus::ir::node::Unreachable {}));
        let eqz = func.unop(UnaryOp::I64Eqz, a);
        vec![func.drop(eqz)]
    });
    assert_eq!(error, Error::Unimplemented(Unimplemented::MissingLowBits));
    // a branch with an i64 to a block that expects none
    let error = refuses(|_, func, args| {
        let outer = block_of(func, &[ValType::I32], vec![]);
        let a = func.local_get(args[0]);
        let br = func.br(outer, vec![a]);
        func.block_mut(outer).exprs = vec![br];
        vec![func.drop(outer.id)]
    });
    assert_eq!(error, Error::Unimplemented(Unimplemented::MissingLowBits));
    // several values, one of them an i64
    let error = refuses(|_, func, args| {
        let outer = block_of(func, &[ValType::I32], vec![]);
        let a = func.local_get(args[0]);
        let b = func.const_(Value::I32(0));
        let br = func.br(outer, vec![a, b]);
        func.block_mut(outer).exprs = vec![br];
        vec![func.drop(outer.id)]
    });
    assert_eq!(error, Error::Unimplemented(Unimplemented::Br));
}

#[test]
fn an_empty_block_of_an_i64_is_reported() {
    let error = refuses(|_, func, _| {
        let block = block_of(func, &[ValType::I64], vec![]);
        vec![func.drop(block.id)]
    });
    assert_eq!(error, Error::Unimplemented(Unimplemented::EmptyBlock));
}

#[test]
fn an_expression_inside_itself_is_reported() {
    let error = refuses(|_, func, _| {
        let block = block_of(func, &[], vec![]);
        func.block_mut(block).exprs = vec![block.id];
        vec![block.id]
    });
    assert_eq!(error, Error::Unimplemented(Unimplemented::Cycle));
}

// ---------------------------------------------------------------------------------------
// Laws on concrete modules.

fn snapshot(module: &Module) -> String {
    let mut text = String::new();
    for index in 0..module.funcs.len() {
        let function = module.funcs.get(FunctionId { index });
        text.push_str(&format!("func {} type {:?}\n", index, function.ty()));
        if let FunctionKind::Local(func) = &function.kind {
            text.push_str(&format!("args {:?} entry {:?}\n", func.args(), func.entry_block()));
            for i in 0..func.len() {
                let id = ExprId { arena: func.next_id().arena, index: i };
                text.push_str(&format!("{} {:?}\n", i, func.get(id)));
            }
        }
    }
    for index in 0..module.locals.len() {
        let local = module.locals.get(LocalId { index });
        text.push_str(&format!("local {} {:?} {:?}\n", index, local.ty(), local.name()));
    }
    for index in 0..module.types.len() {
        text.push_str(&format!("type {:?}\n", module.types.get(walrus::ty::TypeId { index })));
    }
    for index in 0..module.exports.len() {
        text.push_str(&format!("export {:?}\n", module.exports.get(index)));
    }
    text
}

#[test]
fn a_module_without_i64_is_left_alone() {
    let mut module = new_module();
    module.memories.add_local(false, 1, None);
    let global = module.globals.add_local(ValType::I32, true, Init::Value(Value::I32(3)));
    let f = add_function(&mut module, &[ValType::I32], &[ValType::I32], |module, func, args| {
        let temp = module.locals.add(ValType::I32);
        let x = func.local_get(args[0]);
        let g = func.global_get(global);
        let sum = func.binop(BinaryOp::I32Add, x, g);
        let tee = func.local_tee(temp, sum);
        let inner = block_of(func, &[ValType::I32], vec![tee]);
        let a = func.const_(Value::I32(1));
        let b = func.const_(Value::I32(2));
        let select = func.select(inner.id, a, b);
        vec![ret(func, select)]
    });
    module.exports.add("f".to_string(), ExportItem::Function(f));
    module.exports.add("g".to_string(), ExportItem::Global(global));
    let before = snapshot(&module);
    let globals = module.globals.len();
    assert_eq!(run(&mut module), Ok(()));
    assert_eq!(snapshot(&module), before);
    assert_eq!(module.globals.len(), globals);
    assert_eq!(module.memories.len(), 1);
}

#[test]
fn the_pass_is_idempotent_on_bodies() {
    let mut module = new_module();
    let global = module.globals.add_local(ValType::I64, true, Init::Value(Value::I64(-2)));
    add_function(&mut module, &[ValType::I64], &[ValType::I32], |module, func, args| {
        let temp = module.locals.add(ValType::I64);
        let x = func.local_get(args[0]);
        let g = func.global_get(global);
        let xor = func.binop(BinaryOp::I64Xor, x, g);
        let set = func.local_set(temp, xor);
        let get = func.local_get(temp);
        let clz = func.unop(UnaryOp::I64Clz, get);
        vec![set, wrap(func, clz)]
    });
    let mut module = lowered(module);
    let before = snapshot(&module);
    let globals = module.globals.len();
    assert_eq!(run(&mut module), Ok(()));
    assert_eq!(snapshot(&module), before);
    // the old 64-bit global is still in the table and was split once more
    assert_eq!(module.globals.len(), globals + 2);
    assert_no_i64(&module);
}

#[test]
fn exports_are_kept() {
    let mut module = new_module();
    let hidden = module.globals.add_local(ValType::I64, false, Init::Value(Value::I64(9)));
    let shown = module.globals.add_local(ValType::F32, false, Init::Value(Value::F32(7)));
    let f = add_function(&mut module, &[ValType::I32], &[ValType::I32], |_, func, _| {
        let g = func.global_get(hidden);
        vec![wrap(func, g)]
    });
    add_function(&mut module, &[ValType::I64], &[], |_, _, _| vec![]);
    module.exports.add("run".to_string(), ExportItem::Function(f));
    module.exports.add("seven".to_string(), ExportItem::Global(shown));
    module.exports.add("mem".to_string(), ExportItem::Memory(MemoryId { index: 0 }));
    let ty = module.funcs.get(f).ty();
    let module = lowered(module);
    assert_eq!(module.exports.len(), 3);
    assert_eq!(module.exports.get(0).name, "run");
    assert_eq!(module.exports.get(0).item, ExportItem::Function(f));
    assert_eq!(module.exports.get(1).name, "seven");
    assert_eq!(module.exports.get(1).item, ExportItem::Global(shown));
    assert_eq!(module.exports.get(2).item, ExportItem::Memory(MemoryId { index: 0 }));
    assert_eq!(module.funcs.get(f).ty(), ty);
    assert_eq!(module.types.get(ty).params(), &vec![ValType::I32]);
    assert_eq!(module.globals.get(shown).ty, ValType::F32);
    assert!(module.exports.contains(ExportItem::Function(f)));
    assert!(!module.exports.contains(ExportItem::Function(FunctionId { index: 1 })));
}

#[test]
fn a_shared_expression_is_rewritten_once() {
    let mut module = new_module();
    add_function(&mut module, &[ValType::I64], &[ValType::I32], |_, func, args| {
        let x = func.local_get(args[0]);
        let or = func.binop(BinaryOp::I64Or, x, x);
        vec![wrap(func, or)]
    });
    let module = lowered(module);
    for value in SAMPLES {
        assert_eq!(call(&module, 0, &halves(value)), vec![Val::I32(value as i32)]);
    }
}

#[test]
fn a_malformed_module_is_recognized() {
    let mut module = new_module();
    add_function(&mut module, &[], &[], |_, func, _| {
        let nowhere = ExprId { arena: func.next_id().arena, index: 99 };
        vec![func.drop(nowhere)]
    });
    assert!(!module.is_well_formed());
    let mut module = new_module();
    add_function(&mut module, &[], &[], |_, func, _| {
        let get = func.local_get(LocalId { index: 5 });
        vec![func.drop(get)]
    });
    assert!(!module.is_well_formed());
    let mut module = new_module();
    let ty = module.types.add(vec![ValType::I32], vec![]);
    let func = LocalFunction::new(ty, vec![], vec![]);
    module.funcs.add_local(func);
    assert!(!module.is_well_formed());
    let mut module = new_module();
    add_function(&mut module, &[], &[], |_, func, _| {
        let condition = func.const_(Value::I32(0));
        let not_a_block = BlockId { id: condition };
        let arm = block_of(func, &[], vec![]);
        let if_else = func.alloc_expr(Expr::IfElse(IfElse {
            condition,
            consequent: arm,
            alternative: not_a_block,
        }));
        vec![if_else]
    });
    assert!(!module.is_well_formed());
}

#[test]
fn operands_are_listed_in_evaluation_order() {
    let func = &mut LocalFunction::new(walrus::ty::TypeId { index: 0 }, vec![], vec![]);
    let a = func.const_(Value::I32(1));
    let b = func.const_(Value::I32(2));
    let c = func.const_(Value::I32(3));
    let select = func.select(c, a, b);
    assert_eq!(operands(func.get(select)), vec![a, b, c]);
    let store = Expr::Store(Store {
        memory: MemoryId { index: 0 },
        kind: StoreKind::I32 { atomic: false },
        arg: MemArg::new(4),
        address: a,
        value: b,
    });
    assert_eq!(operands(&store), vec![a, b]);
    let binop = Expr::Binop(Binop { op: BinaryOp::I32Add, lhs: b, rhs: a });
    assert_eq!(operands(&binop), vec![b, a]);
    let mut unop = Expr::Unop(Unop { op: UnaryOp::I32Eqz, expr: a });
    unop.set_child(0, c);
    assert_eq!(operands(&unop), vec![c]);
    let block = func.plain_block(vec![], vec![]);
    let mut br_if = Expr::BrIf(BrIf { condition: c, block, args: vec![a, b] });
    assert_eq!(operands(&br_if), vec![a, b, c]);
    br_if.set_child(1, c);
    br_if.set_child(2, a);
    assert_eq!(operands(&br_if), vec![a, c, a]);
    let _ = Br { block, args: vec![] };
    let _ = Load {
        memory: MemoryId { index: 0 },
        kind: LoadKind::F32,
        arg: MemArg::new(4).with_align(2).with_offset(8),
        address: a,
    };
    let _ = Select { condition: a, consequent: b, alternative: c };
}

// ---------------------------------------------------------------------------------------
// The low bits of a returned 64-bit value.

#[test]
fn a_returned_i64_leaves_its_low_half_in_a_global() {
    let mut module = new_module();
    module.globals.add_local(ValType::I32, false, Init::Value(Value::I32(7)));
    add_function(&mut module, &[ValType::I64], &[ValType::I64], |_, func, args| {
        vec![func.local_get(args[0])]
    });
    let old_entry = body(&module, 0).entry_block();
    let module = lowered(module);

    // one global more, after the one that was there: 32 bits, writable, zero
    assert_eq!(module.globals.len(), 2);
    let low_result = GlobalId { index: 1 };
    let global = module.globals.get(low_result);
    assert_eq!(global.ty, ValType::I32);
    assert!(global.mutable);
    assert_eq!(global.kind, GlobalKind::Local(Init::Value(Value::I32(0))));

    // the function returns the high bits alone
    let func = body(&module, 0);
    assert_eq!(module.types.get(func.ty()).results(), &vec![ValType::I32]);

    // a new entry around the old one, which is a plain block now
    let entry = func.entry_block();
    assert_ne!(entry, old_entry);
    assert_eq!(entry.id.index, func.len() - 1);
    assert_eq!(func.block(old_entry).kind, BlockKind::Block);
    let outer = func.block(entry);
    assert_eq!(outer.kind, BlockKind::FunctionEntry);
    assert!(outer.params.is_empty());
    assert_eq!(outer.results, vec![ValType::I32]);
    assert_eq!(outer.exprs.len(), 3);
    let high = match func.get(outer.exprs[0]) {
        Expr::LocalSet(e) => {
            assert_eq!(e.value, old_entry.id);
            e.local
        }
        other => panic!("expected a local.set, found {:?}", other),
    };
    match func.get(outer.exprs[1]) {
        Expr::GlobalSet(e) => {
            assert_eq!(e.global, low_result);
            assert!(matches!(func.get(e.value), Expr::LocalGet(_)));
        }
        other => panic!("expected a global.set, found {:?}", other),
    }
    match func.get(outer.exprs[2]) {
        Expr::LocalGet(e) => assert_eq!(e.local, high),
        other => panic!("expected a local.get, found {:?}", other),
    }
    // the local for the high bits is the last one, 32 bits, named after its position
    assert_eq!(high.index, module.locals.len() - 1);
    assert_eq!(module.locals.get(high).ty(), ValType::I32);
    assert_eq!(module.locals.get(high).name(), Some(&format!("result_high{}", high.index)));

    for value in SAMPLES {
        let (result, globals) = call_with_globals(&module, 0, &halves(value));
        assert_eq!(result, vec![Val::I32((value >> 32) as i32)]);
        assert_eq!(globals[1], Val::I32(value as i32));
        assert_eq!(globals[0], Val::I32(7));
    }
}

#[test]
fn a_branch_out_of_the_function_leaves_the_low_half_too() {
    let mut module = new_module();
    add_function(
        &mut module,
        &[ValType::I32, ValType::I64, ValType::I64],
        &[ValType::I64],
        |_, func, args| {
            // (if (local.get 0) (then (br 1 (local.get 1)))) (local.get 2)
            let entry = func.entry_block();
            let a = func.local_get(args[1]);
            let br = func.br(entry, vec![a]);
            let then = block_of(func, &[], vec![br]);
            let otherwise = block_of(func, &[], vec![]);
            let condition = func.local_get(args[0]);
            let if_else = func.if_else(condition, then, otherwise);
            let b = func.local_get(args[2]);
            vec![if_else, b]
        },
    );
    let module = lowered(module);
    assert_eq!(module.globals.len(), 1);
    for condition in [0, 1] {
        for a in SAMPLES {
            let b = !a;
            let expected = if condition != 0 { a } else { b };
            let [al, ah] = halves(a);
            let [bl, bh] = halves(b);
            let (result, globals) =
                call_with_globals(&module, 0, &[Val::I32(condition), al, ah, bl, bh]);
            assert_eq!(result, vec![Val::I32((expected >> 32) as i32)]);
            assert_eq!(globals[0], Val::I32(expected as i32));
        }
    }
}

#[test]
fn no_global_is_set_aside_where_no_function_returns_an_i64() {
    let mut module = new_module();
    add_function(&mut module, &[ValType::I64], &[ValType::I32], |_, func, args| {
        let x = func.local_get(args[0]);
        vec![wrap(func, x)]
    });
    let old_entry = body(&module, 0).entry_block();
    let module = lowered(module);
    assert_eq!(module.globals.len(), 0);
    assert_eq!(body(&module, 0).entry_block(), old_entry);
}

#[test]
fn a_result_without_a_low_half_is_reported() {
    // the function returns an i64, its entry block yields an i32
    let mut module = new_module();
    let ty = module.types.add(vec![], vec![ValType::I64]);
    let mut func = LocalFunction::new(ty, vec![], vec![ValType::I32]);
    let zero = func.const_(Value::I32(0));
    let entry = func.entry_block();
    func.block_mut(entry).exprs = vec![zero];
    module.funcs.add_local(func);
    assert!(module.is_well_formed());
    assert_eq!(run(&mut module), Err(Error::Unimplemented(Unimplemented::MissingLowBits)));
}

#[test]
fn a_second_run_leaves_the_way_out_alone() {
    let mut module = new_module();
    add_function(&mut module, &[ValType::I64], &[ValType::I64], |_, func, args| {
        let x = func.local_get(args[0]);
        let y = func.local_get(args[0]);
        vec![func.binop(BinaryOp::I64And, x, y)]
    });
    let mut module = lowered(module);
    let before = snapshot(&module);
    let entry = body(&module, 0).entry_block();
    assert_eq!(module.globals.len(), 1);
    assert_eq!(run(&mut module), Ok(()));
    assert_eq!(snapshot(&module), before);
    assert_eq!(body(&module, 0).entry_block(), entry);
    assert_eq!(module.globals.len(), 1);
}

// ---------------------------------------------------------------------------------------
// The first phase on its own.

fn is_reduced(expr: &Expr) -> bool {
    match expr {
        Expr::Unop(e) => !matches!(
            e.op,
            UnaryOp::F64ReinterpretI64
                | UnaryOp::I64ReinterpretF64
                | UnaryOp::I64Extend8S
                | UnaryOp::I64Extend16S
        ),
        Expr::Load(e) => !matches!(
            e.kind,
            LoadKind::I64_8 { .. } | LoadKind::I64_16 { .. } | LoadKind::I64_32 { .. }
        ),
        Expr::Store(e) => !matches!(
            e.kind,
            StoreKind::I64_8 { atomic: false }
                | StoreKind::I64_16 { atomic: false }
                | StoreKind::I64_32 { atomic: false }
        ),
        _ => true,
    }
}

#[test]
fn the_first_phase_leaves_none_of_the_forms_that_it_rewrites() {
    let mut module = new_module();
    let memory = module.memories.add_local(false, 1, None);
    add_function(&mut module, &[ValType::I64, ValType::I32], &[ValType::I32], |_, func, args| {
        let x = func.local_get(args[0]);
        let byte = func.unop(UnaryOp::I64Extend8S, x);
        let float = func.unop(UnaryOp::F64ReinterpretI64, byte);
        let back = func.unop(UnaryOp::I64ReinterpretF64, float);
        let short = func.unop(UnaryOp::I64Extend16S, back);
        let at = func.local_get(args[1]);
        let store = func.store(
            memory,
            StoreKind::I64_16 { atomic: false },
            MemArg { align: 2, offset: 0 },
            at,
            short,
        );
        let at = func.local_get(args[1]);
        let load = func.load(
            memory,
            LoadKind::I64_8 { kind: ExtendedLoad::ZeroExtend },
            MemArg { align: 1, offset: 0 },
            at,
        );
        vec![store, wrap(func, load)]
    });
    let locals = module.locals.len();
    let func = match &mut module.funcs.get_mut(FunctionId { index: 0 }).kind {
        FunctionKind::Local(func) => func,
        FunctionKind::Import(_) => panic!("the function is imported"),
    };
    assert!(reached(func).iter().any(|id| !is_reduced(func.get(*id))));
    let entry = func.entry_block();
    let size = func.len();
    assert_eq!(LowerI64::run(memory, true, func, &mut module.locals), Ok(()));
    assert_eq!(func.entry_block(), entry);
    assert!(func.len() > size);
    assert!(func.is_well_formed());
    for id in reached(func) {
        assert!(is_reduced(func.get(id)), "{:?} is left: {:?}", id, func.get(id));
    }
    // no local is needed for these
    assert_eq!(module.locals.len(), locals);
}

#[test]
fn the_first_phase_leaves_a_body_without_such_forms_alone() {
    let mut module = new_module();
    let memory = module.memories.add_local(false, 1, None);
    add_function(&mut module, &[ValType::I64], &[ValType::I32], |_, func, args| {
        let x = func.local_get(args[0]);
        let y = func.local_get(args[0]);
        let and = func.binop(BinaryOp::I64And, x, y);
        vec![wrap(func, and)]
    });
    let before = snapshot(&module);
    let func = match &mut module.funcs.get_mut(FunctionId { index: 0 }).kind {
        FunctionKind::Local(func) => func,
        FunctionKind::Import(_) => panic!("the function is imported"),
    };
    assert_eq!(LowerI64::run(memory, true, func, &mut module.locals), Ok(()));
    assert_eq!(snapshot(&module), before);
}

#[test]
fn the_first_phase_fails_for_two_reasons_only() {
    // a conditional branch to a block of an i64 that carries two values
    let mut module = new_module();
    let memory = module.memories.add_local(false, 1, None);
    add_function(&mut module, &[ValType::I64, ValType::I32], &[], |_, func, args| {
        let outer = block_of(func, &[ValType::I64], vec![]);
        let a = func.local_get(args[0]);
        let b = func.local_get(args[0]);
        let condition = func.local_get(args[1]);
        let br_if =
            func.alloc_expr(Expr::BrIf(BrIf { condition, block: outer, args: vec![a, b] }));
        func.block_mut(outer).exprs = vec![br_if];
        vec![func.drop(outer.id)]
    });
    let func = match &mut module.funcs.get_mut(FunctionId { index: 0 }).kind {
        FunctionKind::Local(func) => func,
        FunctionKind::Import(_) => panic!("the function is imported"),
    };
    assert_eq!(
        LowerI64::run(memory, true, func, &mut module.locals),
        Err(Error::Unimplemented(Unimplemented::BrIf))
    );

    // a block that holds itself
    let mut module = new_module();
    let memory = module.memories.add_local(false, 1, None);
    add_function(&mut module, &[], &[], |_, func, _| {
        let inner = block_of(func, &[], vec![]);
        func.block_mut(inner).exprs = vec![inner.id];
        vec![inner.id]
    });
    let func = match &mut module.funcs.get_mut(FunctionId { index: 0 }).kind {
        FunctionKind::Local(func) => func,
        FunctionKind::Import(_) => panic!("the function is imported"),
    };
    assert_eq!(
        LowerI64::run(memory, true, func, &mut module.locals),
        Err(Error::Unimplemented(Unimplemented::Cycle))
    );
}
