//! Expression nodes, their identifiers and their mathematical views.

use vstd::prelude::*;
use crate::ir::ops::{AtomicOp, AtomicWidth, BinaryOp, LoadKind, MemArg, StoreKind, UnaryOp, Value};
use crate::ty::{TypeId, ValType};

verus! {

/// The identifier of an expression: the arena that holds it and its position there.
#[derive(Clone, Copy, Debug, PartialEq, Eq, Hash, Structural)]
pub struct ExprId {
    pub arena: u32,
    pub index: usize,
}

/// The identifier of an expression that is a block.
#[derive(Clone, Copy, Debug, PartialEq, Eq, Hash, Structural)]
pub struct BlockId {
    pub id: ExprId,
}

/// The identifier of a local.
#[derive(Clone, Copy, Debug, PartialEq, Eq, Hash, Structural)]
pub struct LocalId {
    pub index: usize,
}

/// The identifier of a global.
#[derive(Clone, Copy, Debug, PartialEq, Eq, Hash, Structural)]
pub struct GlobalId {
    pub index: usize,
}

/// The identifier of a memory.
#[derive(Clone, Copy, Debug, PartialEq, Eq, Hash, Structural)]
pub struct MemoryId {
    pub index: usize,
}

/// The identifier of a function.
#[derive(Clone, Copy, Debug, PartialEq, Eq, Hash, Structural)]
pub struct FunctionId {
    pub index: usize,
}

/// The identifier of a table.
#[derive(Clone, Copy, Debug, PartialEq, Eq, Hash, Structural)]
pub struct TableId {
    pub index: usize,
}

/// The identifier of a data segment.
#[derive(Clone, Copy, Debug, PartialEq, Eq, Hash, Structural)]
pub struct DataId {
    pub index: usize,
}

/// What a block stands for.
#[derive(Clone, Copy, Debug, PartialEq, Eq, Structural)]
pub enum BlockKind {
    FunctionEntry,
    Block,
    Loop,
    IfElse,
}

/// A sequence of expressions with a label, a kind and declared types.
#[derive(Clone, Debug)]
pub struct Block {
    pub kind: BlockKind,
    pub params: Vec<ValType>,
    pub results: Vec<ValType>,
    pub exprs: Vec<ExprId>,
}

/// The mathematical value of a [`Block`].
pub struct BlockView {
    pub kind: BlockKind,
    pub params: Seq<ValType>,
    pub results: Seq<ValType>,
    pub exprs: Seq<ExprId>,
}

impl View for Block {
    type V = BlockView;

    open spec fn view(&self) -> BlockView {
        BlockView {
            kind: self.kind,
            params: self.params@,
            results: self.results@,
            exprs: self.exprs@,
        }
    }
}

/// A direct call.
#[derive(Clone, Debug)]
pub struct Call {
    pub func: FunctionId,
    pub args: Vec<ExprId>,
}

/// The mathematical value of a [`Call`].
pub struct CallView {
    pub func: FunctionId,
    pub args: Seq<ExprId>,
}

impl View for Call {
    type V = CallView;

    open spec fn view(&self) -> CallView {
        CallView {
            func: self.func,
            args: self.args@,
        }
    }
}

/// A call through a table.
#[derive(Clone, Debug)]
pub struct CallIndirect {
    pub ty: TypeId,
    pub table: TableId,
    pub func: ExprId,
    pub args: Vec<ExprId>,
}

/// The mathematical value of a [`CallIndirect`].
pub struct CallIndirectView {
    pub ty: TypeId,
    pub table: TableId,
    pub func: ExprId,
    pub args: Seq<ExprId>,
}

impl View for CallIndirect {
    type V = CallIndirectView;

    open spec fn view(&self) -> CallIndirectView {
        CallIndirectView {
            ty: self.ty,
            table: self.table,
            func: self.func,
            args: self.args@,
        }
    }
}

/// Reads a local.
#[derive(Clone, Copy, Debug, PartialEq, Eq, Structural)]
pub struct LocalGet {
    pub local: LocalId,
}

/// Writes a local.
#[derive(Clone, Copy, Debug, PartialEq, Eq, Structural)]
pub struct LocalSet {
    pub local: LocalId,
    pub value: ExprId,
}

/// Writes a local and yields the value.
#[derive(Clone, Copy, Debug, PartialEq, Eq, Structural)]
pub struct LocalTee {
    pub local: LocalId,
    pub value: ExprId,
}

/// Reads a global.
#[derive(Clone, Copy, Debug, PartialEq, Eq, Structural)]
pub struct GlobalGet {
    pub global: GlobalId,
}

/// Writes a global.
#[derive(Clone, Copy, Debug, PartialEq, Eq, Structural)]
pub struct GlobalSet {
    pub global: GlobalId,
    pub value: ExprId,
}

/// A literal.
#[derive(Clone, Copy, Debug, PartialEq, Eq, Structural)]
pub struct Const {
    pub value: Value,
}

/// A binary operation.
#[derive(Clone, Copy, Debug, PartialEq, Eq, Structural)]
pub struct Binop {
    pub op: BinaryOp,
    pub lhs: ExprId,
    pub rhs: ExprId,
}

/// A unary operation.
#[derive(Clone, Copy, Debug, PartialEq, Eq, Structural)]
pub struct Unop {
    pub op: UnaryOp,
    pub expr: ExprId,
}

/// Chooses one of two values.
#[derive(Clone, Copy, Debug, PartialEq, Eq, Structural)]
pub struct Select {
    pub condition: ExprId,
    pub consequent: ExprId,
    pub alternative: ExprId,
}

/// A trap.
#[derive(Clone, Copy, Debug, PartialEq, Eq, Structural)]
pub struct Unreachable {
}

/// An unconditional branch.
#[derive(Clone, Debug)]
pub struct Br {
    pub block: BlockId,
    pub args: Vec<ExprId>,
}

/// The mathematical value of a [`Br`].
pub struct BrView {
    pub block: BlockId,
    pub args: Seq<ExprId>,
}

impl View for Br {
    type V = BrView;

    open spec fn view(&self) -> BrView {
        BrView {
            block: self.block,
            args: self.args@,
        }
    }
}

/// A conditional branch.
#[derive(Clone, Debug)]
pub struct BrIf {
    pub condition: ExprId,
    pub block: BlockId,
    pub args: Vec<ExprId>,
}

/// The mathematical value of a [`BrIf`].
pub struct BrIfView {
    pub condition: ExprId,
    pub block: BlockId,
    pub args: Seq<ExprId>,
}

impl View for BrIf {
    type V = BrIfView;

    open spec fn view(&self) -> BrIfView {
        BrIfView {
            condition: self.condition,
            block: self.block,
            args: self.args@,
        }
    }
}

/// A two-armed conditional.
#[derive(Clone, Copy, Debug, PartialEq, Eq, Structural)]
pub struct IfElse {
    pub condition: ExprId,
    pub consequent: BlockId,
    pub alternative: BlockId,
}

/// A branch through a table of labels.
#[derive(Clone, Debug)]
pub struct BrTable {
    pub which: ExprId,
    pub blocks: Vec<BlockId>,
    pub default: BlockId,
    pub args: Vec<ExprId>,
}

/// The mathematical value of a [`BrTable`].
pub struct BrTableView {
    pub which: ExprId,
    pub blocks: Seq<BlockId>,
    pub default: BlockId,
    pub args: Seq<ExprId>,
}

impl View for BrTable {
    type V = BrTableView;

    open spec fn view(&self) -> BrTableView {
        BrTableView {
            which: self.which,
            blocks: self.blocks@,
            default: self.default,
            args: self.args@,
        }
    }
}

/// Evaluates an expression and discards its value.
#[derive(Clone, Copy, Debug, PartialEq, Eq, Structural)]
pub struct Drop {
    pub expr: ExprId,
}

/// Returns from the function.
#[derive(Clone, Debug)]
pub struct Return {
    pub values: Vec<ExprId>,
}

/// The mathematical value of a [`Return`].
pub struct ReturnView {
    pub values: Seq<ExprId>,
}

impl View for Return {
    type V = ReturnView;

    open spec fn view(&self) -> ReturnView {
        ReturnView {
            values: self.values@,
        }
    }
}

/// The size of a memory, in pages.
#[derive(Clone, Copy, Debug, PartialEq, Eq, Structural)]
pub struct MemorySize {
    pub memory: MemoryId,
}

/// Grows a memory.
#[derive(Clone, Copy, Debug, PartialEq, Eq, Structural)]
pub struct MemoryGrow {
    pub memory: MemoryId,
    pub pages: ExprId,
}

/// Copies from a data segment into a memory.
#[derive(Clone, Copy, Debug, PartialEq, Eq, Structural)]
pub struct MemoryInit {
    pub memory: MemoryId,
    pub data: DataId,
    pub memory_offset: ExprId,
    pub data_offset: ExprId,
    pub len: ExprId,
}

/// Discards a data segment.
#[derive(Clone, Copy, Debug, PartialEq, Eq, Structural)]
pub struct DataDrop {
    pub data: DataId,
}

/// Copies within memory.
#[derive(Clone, Copy, Debug, PartialEq, Eq, Structural)]
pub struct MemoryCopy {
    pub src: MemoryId,
    pub dst: MemoryId,
    pub dst_offset: ExprId,
    pub src_offset: ExprId,
    pub len: ExprId,
}

/// Fills a range of memory.
#[derive(Clone, Copy, Debug, PartialEq, Eq, Structural)]
pub struct MemoryFill {
    pub memory: MemoryId,
    pub offset: ExprId,
    pub value: ExprId,
    pub len: ExprId,
}

/// Loads from memory.
#[derive(Clone, Copy, Debug, PartialEq, Eq, Structural)]
pub struct Load {
    pub memory: MemoryId,
    pub kind: LoadKind,
    pub arg: MemArg,
    pub address: ExprId,
}

/// Stores to memory.
#[derive(Clone, Copy, Debug, PartialEq, Eq, Structural)]
pub struct Store {
    pub memory: MemoryId,
    pub kind: StoreKind,
    pub arg: MemArg,
    pub address: ExprId,
    pub value: ExprId,
}

/// An atomic read-modify-write.
#[derive(Clone, Copy, Debug, PartialEq, Eq, Structural)]
pub struct AtomicRmw {
    pub memory: MemoryId,
    pub op: AtomicOp,
    pub width: AtomicWidth,
    pub arg: MemArg,
    pub address: ExprId,
    pub value: ExprId,
}

/// An atomic compare-exchange.
#[derive(Clone, Copy, Debug, PartialEq, Eq, Structural)]
pub struct Cmpxchg {
    pub memory: MemoryId,
    pub width: AtomicWidth,
    pub arg: MemArg,
    pub address: ExprId,
    pub expected: ExprId,
    pub replacement: ExprId,
}

/// Wakes waiters on an address.
#[derive(Clone, Copy, Debug, PartialEq, Eq, Structural)]
pub struct AtomicNotify {
    pub memory: MemoryId,
    pub arg: MemArg,
    pub address: ExprId,
    pub count: ExprId,
}

/// Waits on an address.
#[derive(Clone, Copy, Debug, PartialEq, Eq, Structural)]
pub struct AtomicWait {
    pub memory: MemoryId,
    pub arg: MemArg,
    pub address: ExprId,
    pub expected: ExprId,
    pub timeout: ExprId,
    pub sixty_four: bool,
}

/// One node of a function body.
#[derive(Clone, Debug)]
pub enum Expr {
    Block(Block),
    Call(Call),
    CallIndirect(CallIndirect),
    LocalGet(LocalGet),
    LocalSet(LocalSet),
    LocalTee(LocalTee),
    GlobalGet(GlobalGet),
    GlobalSet(GlobalSet),
    Const(Const),
    Binop(Binop),
    Unop(Unop),
    Select(Select),
    Unreachable(Unreachable),
    Br(Br),
    BrIf(BrIf),
    IfElse(IfElse),
    BrTable(BrTable),
    Drop(Drop),
    Return(Return),
    MemorySize(MemorySize),
    MemoryGrow(MemoryGrow),
    MemoryInit(MemoryInit),
    DataDrop(DataDrop),
    MemoryCopy(MemoryCopy),
    MemoryFill(MemoryFill),
    Load(Load),
    Store(Store),
    AtomicRmw(AtomicRmw),
    Cmpxchg(Cmpxchg),
    AtomicNotify(AtomicNotify),
    AtomicWait(AtomicWait),
}

/// The mathematical value of an [`Expr`].
pub enum ExprView {
    Block(BlockView),
    Call(CallView),
    CallIndirect(CallIndirectView),
    LocalGet(LocalGet),
    LocalSet(LocalSet),
    LocalTee(LocalTee),
    GlobalGet(GlobalGet),
    GlobalSet(GlobalSet),
    Const(Const),
    Binop(Binop),
    Unop(Unop),
    Select(Select),
    Unreachable(Unreachable),
    Br(BrView),
    BrIf(BrIfView),
    IfElse(IfElse),
    BrTable(BrTableView),
    Drop(Drop),
    Return(ReturnView),
    MemorySize(MemorySize),
    MemoryGrow(MemoryGrow),
    MemoryInit(MemoryInit),
    DataDrop(DataDrop),
    MemoryCopy(MemoryCopy),
    MemoryFill(MemoryFill),
    Load(Load),
    Store(Store),
    AtomicRmw(AtomicRmw),
    Cmpxchg(Cmpxchg),
    AtomicNotify(AtomicNotify),
    AtomicWait(AtomicWait),
}

impl View for Expr {
    type V = ExprView;

    open spec fn view(&self) -> ExprView {
        match *self {
            Expr::Block(e) => ExprView::Block(e@),
            Expr::Call(e) => ExprView::Call(e@),
            Expr::CallIndirect(e) => ExprView::CallIndirect(e@),
            Expr::LocalGet(e) => ExprView::LocalGet(e),
            Expr::LocalSet(e) => ExprView::LocalSet(e),
            Expr::LocalTee(e) => ExprView::LocalTee(e),
            Expr::GlobalGet(e) => ExprView::GlobalGet(e),
            Expr::GlobalSet(e) => ExprView::GlobalSet(e),
            Expr::Const(e) => ExprView::Const(e),
            Expr::Binop(e) => ExprView::Binop(e),
            Expr::Unop(e) => ExprView::Unop(e),
            Expr::Select(e) => ExprView::Select(e),
            Expr::Unreachable(e) => ExprView::Unreachable(e),
            Expr::Br(e) => ExprView::Br(e@),
            Expr::BrIf(e) => ExprView::BrIf(e@),
            Expr::IfElse(e) => ExprView::IfElse(e),
            Expr::BrTable(e) => ExprView::BrTable(e@),
            Expr::Drop(e) => ExprView::Drop(e),
            Expr::Return(e) => ExprView::Return(e@),
            Expr::MemorySize(e) => ExprView::MemorySize(e),
            Expr::MemoryGrow(e) => ExprView::MemoryGrow(e),
            Expr::MemoryInit(e) => ExprView::MemoryInit(e),
            Expr::DataDrop(e) => ExprView::DataDrop(e),
            Expr::MemoryCopy(e) => ExprView::MemoryCopy(e),
            Expr::MemoryFill(e) => ExprView::MemoryFill(e),
            Expr::Load(e) => ExprView::Load(e),
            Expr::Store(e) => ExprView::Store(e),
            Expr::AtomicRmw(e) => ExprView::AtomicRmw(e),
            Expr::Cmpxchg(e) => ExprView::Cmpxchg(e),
            Expr::AtomicNotify(e) => ExprView::AtomicNotify(e),
            Expr::AtomicWait(e) => ExprView::AtomicWait(e),
        }
    }
}

impl ExprView {
    /// The identifiers of the node's operands, in the order in which they are evaluated.
    pub open spec fn children(self) -> Seq<ExprId> {
        match self {
            ExprView::Block(e) => e.exprs,
            ExprView::Call(e) => e.args,
            ExprView::CallIndirect(e) => e.args.push(e.func),
            ExprView::LocalGet(e) => Seq::empty(),
            ExprView::LocalSet(e) => seq![e.value],
            ExprView::LocalTee(e) => seq![e.value],
            ExprView::GlobalGet(e) => Seq::empty(),
            ExprView::GlobalSet(e) => seq![e.value],
            ExprView::Const(e) => Seq::empty(),
            ExprView::Binop(e) => seq![e.lhs, e.rhs],
            ExprView::Unop(e) => seq![e.expr],
            ExprView::Select(e) => seq![e.consequent, e.alternative, e.condition],
            ExprView::Unreachable(e) => Seq::empty(),
            ExprView::Br(e) => e.args,
            ExprView::BrIf(e) => e.args.push(e.condition),
            ExprView::IfElse(e) => seq![e.condition, e.consequent.id, e.alternative.id],
            ExprView::BrTable(e) => e.args.push(e.which),
            ExprView::Drop(e) => seq![e.expr],
            ExprView::Return(e) => e.values,
            ExprView::MemorySize(e) => Seq::empty(),
            ExprView::MemoryGrow(e) => seq![e.pages],
            ExprView::MemoryInit(e) => seq![e.memory_offset, e.data_offset, e.len],
            ExprView::DataDrop(e) => Seq::empty(),
            ExprView::MemoryCopy(e) => seq![e.dst_offset, e.src_offset, e.len],
            ExprView::MemoryFill(e) => seq![e.offset, e.value, e.len],
            ExprView::Load(e) => seq![e.address],
            ExprView::Store(e) => seq![e.address, e.value],
            ExprView::AtomicRmw(e) => seq![e.address, e.value],
            ExprView::Cmpxchg(e) => seq![e.address, e.expected, e.replacement],
            ExprView::AtomicNotify(e) => seq![e.address, e.count],
            ExprView::AtomicWait(e) => seq![e.address, e.expected, e.timeout],
        }
    }

    /// The node with its operand at position `k` replaced by `child`.
    pub open spec fn with_child(self, k: int, child: ExprId) -> ExprView {
        match self {
            ExprView::Block(e) => {
                if 0 <= k < e.exprs.len() {
                    ExprView::Block(BlockView { exprs: e.exprs.update(k, child), ..e })
                } else {
                    self
                }
            },
            ExprView::Call(e) => {
                if 0 <= k < e.args.len() {
                    ExprView::Call(CallView { args: e.args.update(k, child), ..e })
                } else {
                    self
                }
            },
            ExprView::CallIndirect(e) => {
                if 0 <= k < e.args.len() {
                    ExprView::CallIndirect(CallIndirectView { args: e.args.update(k, child), ..e })
                } else if k == e.args.len() {
                    ExprView::CallIndirect(CallIndirectView { func: child, ..e })
                } else {
                    self
                }
            },
            ExprView::LocalGet(e) => self,
            ExprView::LocalSet(e) => {
                if k == 0 {
                    ExprView::LocalSet(LocalSet { value: child, ..e })
                } else {
                    self
                }
            },
            ExprView::LocalTee(e) => {
                if k == 0 {
                    ExprView::LocalTee(LocalTee { value: child, ..e })
                } else {
                    self
                }
            },
            ExprView::GlobalGet(e) => self,
            ExprView::GlobalSet(e) => {
                if k == 0 {
                    ExprView::GlobalSet(GlobalSet { value: child, ..e })
                } else {
                    self
                }
            },
            ExprView::Const(e) => self,
            ExprView::Binop(e) => {
                if k == 0 {
                    ExprView::Binop(Binop { lhs: child, ..e })
                } else if k == 1 {
                    ExprView::Binop(Binop { rhs: child, ..e })
                } else {
                    self
                }
            },
            ExprView::Unop(e) => {
                if k == 0 {
                    ExprView::Unop(Unop { expr: child, ..e })
                } else {
                    self
                }
            },
            ExprView::Select(e) => {
                if k == 0 {
                    ExprView::Select(Select { consequent: child, ..e })
                } else if k == 1 {
                    ExprView::Select(Select { alternative: child, ..e })
                } else if k == 2 {
                    ExprView::Select(Select { condition: child, ..e })
                } else {
                    self
                }
            },
            ExprView::Unreachable(e) => self,
            ExprView::Br(e) => {
                if 0 <= k < e.args.len() {
                    ExprView::Br(BrView { args: e.args.update(k, child), ..e })
                } else {
                    self
                }
            },
            ExprView::BrIf(e) => {
                if 0 <= k < e.args.len() {
                    ExprView::BrIf(BrIfView { args: e.args.update(k, child), ..e })
                } else if k == e.args.len() {
                    ExprView::BrIf(BrIfView { condition: child, ..e })
                } else {
                    self
                }
            },
            ExprView::IfElse(e) => {
                if k == 0 {
                    ExprView::IfElse(IfElse { condition: child, ..e })
                } else if k == 1 {
                    ExprView::IfElse(IfElse { consequent: BlockId { id: child }, ..e })
                } else if k == 2 {
                    ExprView::IfElse(IfElse { alternative: BlockId { id: child }, ..e })
                } else {
                    self
                }
            },
            ExprView::BrTable(e) => {
                if 0 <= k < e.args.len() {
                    ExprView::BrTable(BrTableView { args: e.args.update(k, child), ..e })
                } else if k == e.args.len() {
                    ExprView::BrTable(BrTableView { which: child, ..e })
                } else {
                    self
                }
            },
            ExprView::Drop(e) => {
                if k == 0 {
                    ExprView::Drop(Drop { expr: child, ..e })
                } else {
                    self
                }
            },
            ExprView::Return(e) => {
                if 0 <= k < e.values.len() {
                    ExprView::Return(ReturnView { values: e.values.update(k, child), ..e })
                } else {
                    self
                }
            },
            ExprView::MemorySize(e) => self,
            ExprView::MemoryGrow(e) => {
                if k == 0 {
                    ExprView::MemoryGrow(MemoryGrow { pages: child, ..e })
                } else {
                    self
                }
            },
            ExprView::MemoryInit(e) => {
                if k == 0 {
                    ExprView::MemoryInit(MemoryInit { memory_offset: child, ..e })
                } else if k == 1 {
                    ExprView::MemoryInit(MemoryInit { data_offset: child, ..e })
                } else if k == 2 {
                    ExprView::MemoryInit(MemoryInit { len: child, ..e })
                } else {
                    self
                }
            },
            ExprView::DataDrop(e) => self,
            ExprView::MemoryCopy(e) => {
                if k == 0 {
                    ExprView::MemoryCopy(MemoryCopy { dst_offset: child, ..e })
                } else if k == 1 {
                    ExprView::MemoryCopy(MemoryCopy { src_offset: child, ..e })
                } else if k == 2 {
                    ExprView::MemoryCopy(MemoryCopy { len: child, ..e })
                } else {
                    self
                }
            },
            ExprView::MemoryFill(e) => {
                if k == 0 {
                    ExprView::MemoryFill(MemoryFill { offset: child, ..e })
                } else if k == 1 {
                    ExprView::MemoryFill(MemoryFill { value: child, ..e })
                } else if k == 2 {
                    ExprView::MemoryFill(MemoryFill { len: child, ..e })
                } else {
                    self
                }
            },
            ExprView::Load(e) => {
                if k == 0 {
                    ExprView::Load(Load { address: child, ..e })
                } else {
                    self
                }
            },
            ExprView::Store(e) => {
                if k == 0 {
                    ExprView::Store(Store { address: child, ..e })
                } else if k == 1 {
                    ExprView::Store(Store { value: child, ..e })
                } else {
                    self
                }
            },
            ExprView::AtomicRmw(e) => {
                if k == 0 {
                    ExprView::AtomicRmw(AtomicRmw { address: child, ..e })
                } else if k == 1 {
                    ExprView::AtomicRmw(AtomicRmw { value: child, ..e })
                } else {
                    self
                }
            },
            ExprView::Cmpxchg(e) => {
                if k == 0 {
                    ExprView::Cmpxchg(Cmpxchg { address: child, ..e })
                } else if k == 1 {
                    ExprView::Cmpxchg(Cmpxchg { expected: child, ..e })
                } else if k == 2 {
                    ExprView::Cmpxchg(Cmpxchg { replacement: child, ..e })
                } else {
                    self
                }
            },
            ExprView::AtomicNotify(e) => {
                if k == 0 {
                    ExprView::AtomicNotify(AtomicNotify { address: child, ..e })
                } else if k == 1 {
                    ExprView::AtomicNotify(AtomicNotify { count: child, ..e })
                } else {
                    self
                }
            },
            ExprView::AtomicWait(e) => {
                if k == 0 {
                    ExprView::AtomicWait(AtomicWait { address: child, ..e })
                } else if k == 1 {
                    ExprView::AtomicWait(AtomicWait { expected: child, ..e })
                } else if k == 2 {
                    ExprView::AtomicWait(AtomicWait { timeout: child, ..e })
                } else {
                    self
                }
            },
        }
    }
}

impl Expr {
    /// The number of operands.
    pub fn child_count(&self) -> (n: usize)
        requires
            self@.children().len() <= usize::MAX,
        ensures
            n == self@.children().len(),
    {
        match self {
            Expr::Block(e) => e.exprs.len(),
            Expr::Call(e) => e.args.len(),
            Expr::CallIndirect(e) => e.args.len() + 1,
            Expr::LocalGet(_) => 0,
            Expr::LocalSet(_) => 1,
            Expr::LocalTee(_) => 1,
            Expr::GlobalGet(_) => 0,
            Expr::GlobalSet(_) => 1,
            Expr::Const(_) => 0,
            Expr::Binop(_) => 2,
            Expr::Unop(_) => 1,
            Expr::Select(_) => 3,
            Expr::Unreachable(_) => 0,
            Expr::Br(e) => e.args.len(),
            Expr::BrIf(e) => e.args.len() + 1,
            Expr::IfElse(_) => 3,
            Expr::BrTable(e) => e.args.len() + 1,
            Expr::Drop(_) => 1,
            Expr::Return(e) => e.values.len(),
            Expr::MemorySize(_) => 0,
            Expr::MemoryGrow(_) => 1,
            Expr::MemoryInit(_) => 3,
            Expr::DataDrop(_) => 0,
            Expr::MemoryCopy(_) => 3,
            Expr::MemoryFill(_) => 3,
            Expr::Load(_) => 1,
            Expr::Store(_) => 2,
            Expr::AtomicRmw(_) => 2,
            Expr::Cmpxchg(_) => 3,
            Expr::AtomicNotify(_) => 2,
            Expr::AtomicWait(_) => 3,
        }
    }

    /// Whether the number of operands is a number of the machine.
    pub fn operands_fit(&self) -> (fits: bool)
        ensures
            fits == (self@.children().len() <= usize::MAX),
    {
        match self {
            Expr::Block(e) => {
                let _ = e.exprs.len();
                true
            },
            Expr::Call(e) => {
                let _ = e.args.len();
                true
            },
            Expr::CallIndirect(e) => e.args.len() <= usize::MAX - 1,
            Expr::LocalGet(_) => true,
            Expr::LocalSet(_) => true,
            Expr::LocalTee(_) => true,
            Expr::GlobalGet(_) => true,
            Expr::GlobalSet(_) => true,
            Expr::Const(_) => true,
            Expr::Binop(_) => true,
            Expr::Unop(_) => true,
            Expr::Select(_) => true,
            Expr::Unreachable(_) => true,
            Expr::Br(e) => {
                let _ = e.args.len();
                true
            },
            Expr::BrIf(e) => e.args.len() <= usize::MAX - 1,
            Expr::IfElse(_) => true,
            Expr::BrTable(e) => e.args.len() <= usize::MAX - 1,
            Expr::Drop(_) => true,
            Expr::Return(e) => {
                let _ = e.values.len();
                true
            },
            Expr::MemorySize(_) => true,
            Expr::MemoryGrow(_) => true,
            Expr::MemoryInit(_) => true,
            Expr::DataDrop(_) => true,
            Expr::MemoryCopy(_) => true,
            Expr::MemoryFill(_) => true,
            Expr::Load(_) => true,
            Expr::Store(_) => true,
            Expr::AtomicRmw(_) => true,
            Expr::Cmpxchg(_) => true,
            Expr::AtomicNotify(_) => true,
            Expr::AtomicWait(_) => true,
        }
    }

    /// The operand at position `k`.
    pub fn child(&self, k: usize) -> (child: ExprId)
        requires
            k < self@.children().len(),
        ensures
            child == self@.children()[k as int],
    {
        match self {
            Expr::Block(e) => {
                if k < e.exprs.len() {
                    e.exprs[k]
                } else {
                    ExprId { arena: 0, index: 0 }
                }
            },
            Expr::Call(e) => {
                if k < e.args.len() {
                    e.args[k]
                } else {
                    ExprId { arena: 0, index: 0 }
                }
            },
            Expr::CallIndirect(e) => {
                if k < e.args.len() {
                    e.args[k]
                } else {
                    e.func
                }
            },
            Expr::LocalGet(_) => ExprId { arena: 0, index: 0 },
            Expr::LocalSet(e) => e.value,
            Expr::LocalTee(e) => e.value,
            Expr::GlobalGet(_) => ExprId { arena: 0, index: 0 },
            Expr::GlobalSet(e) => e.value,
            Expr::Const(_) => ExprId { arena: 0, index: 0 },
            Expr::Binop(e) => {
                if k == 0 {
                    e.lhs
                } else {
                    e.rhs
                }
            },
            Expr::Unop(e) => e.expr,
            Expr::Select(e) => {
                if k == 0 {
                    e.consequent
                } else if k == 1 {
                    e.alternative
                } else {
                    e.condition
                }
            },
            Expr::Unreachable(_) => ExprId { arena: 0, index: 0 },
            Expr::Br(e) => {
                if k < e.args.len() {
                    e.args[k]
                } else {
                    ExprId { arena: 0, index: 0 }
                }
            },
            Expr::BrIf(e) => {
                if k < e.args.len() {
                    e.args[k]
                } else {
                    e.condition
                }
            },
            Expr::IfElse(e) => {
                if k == 0 {
                    e.condition
                } else if k == 1 {
                    e.consequent.id
                } else {
                    e.alternative.id
                }
            },
            Expr::BrTable(e) => {
                if k < e.args.len() {
                    e.args[k]
                } else {
                    e.which
                }
            },
            Expr::Drop(e) => e.expr,
            Expr::Return(e) => {
                if k < e.values.len() {
                    e.values[k]
                } else {
                    ExprId { arena: 0, index: 0 }
                }
            },
            Expr::MemorySize(_) => ExprId { arena: 0, index: 0 },
            Expr::MemoryGrow(e) => e.pages,
            Expr::MemoryInit(e) => {
                if k == 0 {
                    e.memory_offset
                } else if k == 1 {
                    e.data_offset
                } else {
                    e.len
                }
            },
            Expr::DataDrop(_) => ExprId { arena: 0, index: 0 },
            Expr::MemoryCopy(e) => {
                if k == 0 {
                    e.dst_offset
                } else if k == 1 {
                    e.src_offset
                } else {
                    e.len
                }
            },
            Expr::MemoryFill(e) => {
                if k == 0 {
                    e.offset
                } else if k == 1 {
                    e.value
                } else {
                    e.len
                }
            },
            Expr::Load(e) => e.address,
            Expr::Store(e) => {
                if k == 0 {
                    e.address
                } else {
                    e.value
                }
            },
            Expr::AtomicRmw(e) => {
                if k == 0 {
                    e.address
                } else {
                    e.value
                }
            },
            Expr::Cmpxchg(e) => {
                if k == 0 {
                    e.address
                } else if k == 1 {
                    e.expected
                } else {
                    e.replacement
                }
            },
            Expr::AtomicNotify(e) => {
                if k == 0 {
                    e.address
                } else {
                    e.count
                }
            },
            Expr::AtomicWait(e) => {
                if k == 0 {
                    e.address
                } else if k == 1 {
                    e.expected
                } else {
                    e.timeout
                }
            },
        }
    }

    /// Replaces the operand at position `k` by `child`.
    pub fn set_child(&mut self, k: usize, child: ExprId)
        requires
            k < old(self)@.children().len(),
        ensures
            final(self)@ == old(self)@.with_child(k as int, child),
    {
        match self {
            Expr::Block(e) => {
                if k < e.exprs.len() {
                    e.exprs.set(k, child);
                }
            },
            Expr::Call(e) => {
                if k < e.args.len() {
                    e.args.set(k, child);
                }
            },
            Expr::CallIndirect(e) => {
                if k < e.args.len() {
                    e.args.set(k, child);
                } else {
                    e.func = child;
                }
            },
            Expr::LocalGet(_) => {},
            Expr::LocalSet(e) => {
                e.value = child;
            },
            Expr::LocalTee(e) => {
                e.value = child;
            },
            Expr::GlobalGet(_) => {},
            Expr::GlobalSet(e) => {
                e.value = child;
            },
            Expr::Const(_) => {},
            Expr::Binop(e) => {
                if k == 0 {
                    e.lhs = child;
                } else {
                    e.rhs = child;
                }
            },
            Expr::Unop(e) => {
                e.expr = child;
            },
            Expr::Select(e) => {
                if k == 0 {
                    e.consequent = child;
                } else if k == 1 {
                    e.alternative = child;
                } else {
                    e.condition = child;
                }
            },
            Expr::Unreachable(_) => {},
            Expr::Br(e) => {
                if k < e.args.len() {
                    e.args.set(k, child);
                }
            },
            Expr::BrIf(e) => {
                if k < e.args.len() {
                    e.args.set(k, child);
                } else {
                    e.condition = child;
                }
            },
            Expr::IfElse(e) => {
                if k == 0 {
                    e.condition = child;
                } else if k == 1 {
                    e.consequent = BlockId { id: child };
                } else {
                    e.alternative = BlockId { id: child };
                }
            },
            Expr::BrTable(e) => {
                if k < e.args.len() {
                    e.args.set(k, child);
                } else {
                    e.which = child;
                }
            },
            Expr::Drop(e) => {
                e.expr = child;
            },
            Expr::Return(e) => {
                if k < e.values.len() {
                    e.values.set(k, child);
                }
            },
            Expr::MemorySize(_) => {},
            Expr::MemoryGrow(e) => {
                e.pages = child;
            },
            Expr::MemoryInit(e) => {
                if k == 0 {
                    e.memory_offset = child;
                } else if k == 1 {
                    e.data_offset = child;
                } else {
                    e.len = child;
                }
            },
            Expr::DataDrop(_) => {},
            Expr::MemoryCopy(e) => {
                if k == 0 {
                    e.dst_offset = child;
                } else if k == 1 {
                    e.src_offset = child;
                } else {
                    e.len = child;
                }
            },
            Expr::MemoryFill(e) => {
                if k == 0 {
                    e.offset = child;
                } else if k == 1 {
                    e.value = child;
                } else {
                    e.len = child;
                }
            },
            Expr::Load(e) => {
                e.address = child;
            },
            Expr::Store(e) => {
                if k == 0 {
                    e.address = child;
                } else {
                    e.value = child;
                }
            },
            Expr::AtomicRmw(e) => {
                if k == 0 {
                    e.address = child;
                } else {
                    e.value = child;
                }
            },
            Expr::Cmpxchg(e) => {
                if k == 0 {
                    e.address = child;
                } else if k == 1 {
                    e.expected = child;
                } else {
                    e.replacement = child;
                }
            },
            Expr::AtomicNotify(e) => {
                if k == 0 {
                    e.address = child;
                } else {
                    e.count = child;
                }
            },
            Expr::AtomicWait(e) => {
                if k == 0 {
                    e.address = child;
                } else if k == 1 {
                    e.expected = child;
                } else {
                    e.timeout = child;
                }
            },
        }
    }
}

} // verus!
