//! The shapes that the rewrites build: for each rewrite, the nodes it appends to the arena
//! and the locals it creates, as sequences.

use vstd::prelude::*;
use crate::ir::make::plain;
use crate::ir::node::{
    Binop, BlockId, BlockKind, BlockView, BrView, Const, Drop, ExprId, ExprView, GlobalGet,
    GlobalId, GlobalSet, IfElse, Load, LocalGet, LocalId, LocalSet, LocalTee, MemoryId, Select,
    Store, Unop,
};
use crate::ir::ops::{BinaryOp, half_align, LoadKind, MemArg, StoreKind, UnaryOp, Value};
use crate::module::locals::LocalView;
use crate::passes::remove_i64::analysis::{high_half, low_half};
use crate::passes::remove_i64::names::numbered;
use crate::ty::ValType;

verus! {

/// The identifier of the node at position `index` of the arena with the tag `tag`.
pub open spec fn at(tag: u32, index: nat) -> ExprId {
    ExprId { arena: tag, index: index as usize }
}

/// The local at position `index`.
pub open spec fn local_at(index: nat) -> LocalId {
    LocalId { index: index as usize }
}

/// A local of type `ty` that a rewrite creates at position `index`: named after `prefix`
/// and its position where names are generated.
pub open spec fn temp(ty: ValType, names: bool, prefix: Seq<char>, index: nat) -> LocalView {
    LocalView {
        ty,
        name: if names {
            Some(numbered(prefix, index))
        } else {
            None
        },
    }
}

/// A 32-bit literal.
pub open spec fn const32(value: i32) -> ExprView {
    ExprView::Const(Const { value: Value::I32(value) })
}

/// A read of a local.
pub open spec fn local_get(local: LocalId) -> ExprView {
    ExprView::LocalGet(LocalGet { local })
}

/// A write of a local.
pub open spec fn local_set(local: LocalId, value: ExprId) -> ExprView {
    ExprView::LocalSet(LocalSet { local, value })
}

/// A tee of a local.
pub open spec fn local_tee(local: LocalId, value: ExprId) -> ExprView {
    ExprView::LocalTee(LocalTee { local, value })
}

/// A unary operation.
pub open spec fn unop(op: UnaryOp, expr: ExprId) -> ExprView {
    ExprView::Unop(Unop { op, expr })
}

/// A binary operation.
pub open spec fn binop(op: BinaryOp, lhs: ExprId, rhs: ExprId) -> ExprView {
    ExprView::Binop(Binop { op, lhs, rhs })
}

/// A plain block with one 32-bit result.
pub open spec fn block32(exprs: Seq<ExprId>) -> ExprView {
    ExprView::Block(plain(seq![ValType::I32], exprs))
}

/// A plain block without a result.
pub open spec fn block0(exprs: Seq<ExprId>) -> ExprView {
    ExprView::Block(plain(Seq::empty(), exprs))
}

/// What [`split`](crate::passes::remove_i64::remove::RemoveI64::split) appends to an arena
/// of `base` nodes: a write of `low` to the fresh local `local`, and the block of that write
/// followed by `high`. The block, at position `base + 1`, stands for the 64-bit value.
pub open spec fn split_nodes(tag: u32, base: nat, local: LocalId, low: ExprId, high: ExprId) -> Seq<
    ExprView,
> {
    seq![local_set(local, low), block32(seq![at(tag, base), high])]
}

/// What a 64-bit literal becomes, appended to an arena of `base` nodes: its low half, its
/// high half, and the two split.
pub open spec fn const_nodes(tag: u32, base: nat, local: LocalId, value: i64) -> Seq<ExprView> {
    seq![const32(low_half(value)), const32(high_half(value))] + split_nodes(
        tag,
        base + 2,
        local,
        at(tag, base),
        at(tag, base + 1),
    )
}

/// A read of a global.
pub open spec fn global_get(global: GlobalId) -> ExprView {
    ExprView::GlobalGet(GlobalGet { global })
}

/// A write of a global.
pub open spec fn global_set(global: GlobalId, value: ExprId) -> ExprView {
    ExprView::GlobalSet(GlobalSet { global, value })
}

/// What a function that returned a 64-bit value is left through, appended to an arena of
/// `base` nodes: an entry block that keeps in `high` the high bits that the block `body`
/// leaves, writes the low bits, which `body` leaves in `low`, to `global`, and leaves the
/// high bits.
pub open spec fn exit_nodes(
    tag: u32,
    base: nat,
    body: ExprId,
    low: LocalId,
    high: LocalId,
    global: GlobalId,
) -> Seq<ExprView> {
    seq![
        local_set(high, body),
        local_get(low),
        global_set(global, at(tag, base + 1)),
        local_get(high),
        ExprView::Block(
            BlockView {
                kind: BlockKind::FunctionEntry,
                params: Seq::empty(),
                results: seq![ValType::I32],
                exprs: seq![at(tag, base), at(tag, base + 2), at(tag, base + 3)],
            },
        ),
    ]
}

/// Whether a function with the nodes `nodes` and the entry `entry` is left through
/// `global`: the block `body` is a plain block, the last five nodes are those of
/// [`exit_nodes`] around it, and `entry` is the last of them.
pub open spec fn left_through(
    nodes: Seq<ExprView>,
    tag: u32,
    body: ExprId,
    entry: ExprId,
    global: GlobalId,
) -> bool {
    let base = nodes.len() - 5;
    &&& body.index < base
    &&& entry == at(tag, (base + 4) as nat)
    &&& nodes[body.index as int] matches ExprView::Block(inner)
    &&& inner.kind == BlockKind::Block
    &&& nodes[base + 1] matches ExprView::LocalGet(low)
    &&& nodes[base + 3] matches ExprView::LocalGet(high)
    &&& nodes.subrange(base, nodes.len() as int) == exit_nodes(
        tag,
        base as nat,
        body,
        low.local,
        high.local,
        global,
    )
}

/// What follows a rewritten read of a 64-bit local or global, appended to an arena of
/// `base` nodes: the read `high` of the high half, and the split of the rewritten read
/// itself, `id`, which now reads the low half, with it.
pub open spec fn read_nodes(tag: u32, base: nat, local: LocalId, id: ExprId, high: ExprView) -> Seq<
    ExprView,
> {
    seq![high] + split_nodes(tag, base + 1, local, id, at(tag, base))
}

/// What follows a rewritten write of a 64-bit local or global, appended to an arena of
/// `base` nodes: a read of the local `low` that holds the low bits of the value, the write
/// `write_low` of it to the low half, and the block of the rewritten write itself, `id`,
/// which now writes the high half, followed by that write.
pub open spec fn write_nodes(tag: u32, base: nat, low: LocalId, id: ExprId, write_low: ExprView) -> Seq<
    ExprView,
> {
    seq![local_get(low), write_low, block0(seq![id, at(tag, base + 1)])]
}

/// What a tee of a 64-bit local becomes, appended to an arena of `base` nodes:
///
/// ```text
///  (block (result i32)
///      (local.set $tmp
///          (block (result i32)
///              (local.set $high $value)
///              (local.tee $low (local.get $low_temp))))
///      (local.get $high))
/// ```
pub open spec fn tee_nodes(
    tag: u32,
    base: nat,
    local: LocalId,
    low: LocalId,
    high: LocalId,
    low_temp: LocalId,
    value: ExprId,
) -> Seq<ExprView> {
    seq![
        local_set(high, value),
        local_get(low_temp),
        local_tee(low, at(tag, base + 1)),
        local_get(high),
        block32(seq![at(tag, base), at(tag, base + 2)]),
    ] + split_nodes(tag, base + 5, local, at(tag, base + 4), at(tag, base + 3))
}

/// What a 64-bit bitwise operation adds to an arena of `base` nodes. The high operands are
/// spilled into `lhs_high` and `rhs_high`; the low word is the 32-bit operation on the
/// low-bits locals of the operands; and the operation itself, `id`, which now works on the
/// spilled high operands at positions `base + 6` and `base + 7`, is split with the low word.
pub open spec fn bitop_nodes(
    tag: u32,
    base: nat,
    local: LocalId,
    id: ExprId,
    op: BinaryOp,
    lhs: ExprId,
    rhs: ExprId,
    lhs_low: LocalId,
    rhs_low: LocalId,
    lhs_high: LocalId,
    rhs_high: LocalId,
) -> Seq<ExprView> {
    seq![
        local_set(lhs_high, lhs),
        local_set(rhs_high, rhs),
        local_get(lhs_low),
        local_get(rhs_low),
        binop(op, at(tag, base + 2), at(tag, base + 3)),
        block32(seq![at(tag, base), at(tag, base + 1), at(tag, base + 4)]),
        local_get(lhs_high),
        local_get(rhs_high),
    ] + split_nodes(tag, base + 8, local, at(tag, base + 5), id)
}

/// What a rewrite makes of the node it visits and adds to the arena and to the table of
/// locals. The node that takes the place of the visited node is the last node added.
pub struct Shape {
    /// What the visited node becomes, where it changes.
    pub node: Option<ExprView>,
    /// The nodes added to the arena, in order.
    pub nodes: Seq<ExprView>,
    /// The locals added to the table of locals, in order.
    pub locals: Seq<LocalView>,
    /// The local that holds the low bits of the value of the last node added, where that
    /// node stands for a 64-bit value.
    pub low: Option<LocalId>,
}

/// An expression that evaluates another and discards its value.
pub open spec fn drop_of(expr: ExprId) -> ExprView {
    ExprView::Drop(Drop { expr })
}

/// A choice between two values.
pub open spec fn select(condition: ExprId, consequent: ExprId, alternative: ExprId) -> ExprView {
    ExprView::Select(Select { condition, consequent, alternative })
}

/// The sign extension of the 32-bit value that `low` leaves, appended to an arena of `base`
/// nodes: `low` is teed into the local `scratch`, the high bits are that local shifted right
/// by 31, arithmetically, and the two are split.
pub open spec fn sign_extend_nodes(
    tag: u32,
    base: nat,
    scratch: LocalId,
    local: LocalId,
    low: ExprId,
) -> Seq<ExprView> {
    seq![
        local_tee(scratch, low),
        const32(31),
        local_get(scratch),
        binop(BinaryOp::I32ShrS, at(tag, base + 2), at(tag, base + 1)),
    ] + split_nodes(tag, base + 4, local, at(tag, base), at(tag, base + 3))
}

/// The count of the zero bits at one end of a 64-bit value, appended to an arena of `base`
/// nodes. The high bits, which `operand` leaves, are kept in `scratch`; the low bits are in
/// `low`. Counting from the high end (`leading`), the count is that of the high half, or 32
/// more than that of the low half where the high half is zero; from the low end, the other
/// way round. The high bits of the count are zero.
pub open spec fn count_zeros_nodes(
    tag: u32,
    base: nat,
    scratch: LocalId,
    local: LocalId,
    operand: ExprId,
    low: LocalId,
    leading: bool,
) -> Seq<ExprView> {
    (if leading {
        seq![
            local_set(scratch, operand),
            local_get(low),
            local_get(scratch),
            unop(UnaryOp::I32Eqz, at(tag, base + 2)),
            unop(UnaryOp::I32Clz, at(tag, base + 1)),
            const32(32),
            binop(BinaryOp::I32Add, at(tag, base + 5), at(tag, base + 4)),
            unop(UnaryOp::I32Clz, at(tag, base + 2)),
        ]
    } else {
        seq![
            local_set(scratch, operand),
            local_get(low),
            unop(UnaryOp::I32Eqz, at(tag, base + 1)),
            local_get(scratch),
            unop(UnaryOp::I32Ctz, at(tag, base + 3)),
            const32(32),
            binop(BinaryOp::I32Add, at(tag, base + 5), at(tag, base + 4)),
            unop(UnaryOp::I32Ctz, at(tag, base + 1)),
        ]
    }) + seq![
        select(
            at(
                tag,
                if leading {
                    base + 3
                } else {
                    base + 2
                },
            ),
            at(tag, base + 6),
            at(tag, base + 7),
        ),
        block32(seq![at(tag, base), at(tag, base + 8)]),
        const32(0),
    ] + split_nodes(tag, base + 11, local, at(tag, base + 9), at(tag, base + 10))
}

/// What the second phase makes of the unary operation `op` on `expr`, in an arena of
/// `base` nodes and with `count` locals, where the low bits of a 64-bit operand are in the
/// local `low`.
pub open spec fn unop_shape(
    tag: u32,
    base: nat,
    count: nat,
    names: bool,
    id: ExprId,
    op: UnaryOp,
    expr: ExprId,
    low: LocalId,
) -> Shape {
    let temp_low = |index: nat| temp(ValType::I32, names, "temp_low"@, index);
    match op {
        UnaryOp::I64ExtendUI32 => Shape {
            node: None,
            nodes: seq![const32(0)] + split_nodes(tag, base + 1, local_at(count), expr, at(tag, base)),
            locals: seq![temp_low(count)],
            low: Some(local_at(count)),
        },
        UnaryOp::I64ExtendSI32 => Shape {
            node: None,
            nodes: sign_extend_nodes(tag, base, local_at(count), local_at(count + 1), expr),
            locals: seq![temp(ValType::I32, names, "extend"@, count), temp_low(count + 1)],
            low: Some(local_at(count + 1)),
        },
        UnaryOp::I64Extend32S => Shape {
            node: None,
            nodes: seq![
                local_get(low),
                drop_of(expr),
                block32(seq![at(tag, base + 1), at(tag, base)]),
            ] + sign_extend_nodes(
                tag,
                base + 3,
                local_at(count),
                local_at(count + 1),
                at(tag, base + 2),
            ),
            locals: seq![temp(ValType::I32, names, "extend"@, count), temp_low(count + 1)],
            low: Some(local_at(count + 1)),
        },
        UnaryOp::I64Eqz => Shape {
            node: Some(unop(UnaryOp::I32Eqz, expr)),
            nodes: seq![
                local_get(low),
                unop(UnaryOp::I32Eqz, at(tag, base)),
                binop(BinaryOp::I32And, id, at(tag, base + 1)),
            ],
            locals: Seq::empty(),
            low: None,
        },
        UnaryOp::I64Popcnt => Shape {
            node: Some(unop(UnaryOp::I32Popcnt, expr)),
            nodes: seq![
                local_get(low),
                unop(UnaryOp::I32Popcnt, at(tag, base)),
                binop(BinaryOp::I32Add, id, at(tag, base + 1)),
                const32(0),
            ] + split_nodes(tag, base + 4, local_at(count), at(tag, base + 2), at(tag, base + 3)),
            locals: seq![temp_low(count)],
            low: Some(local_at(count)),
        },
        UnaryOp::I32WrapI64 => Shape {
            node: None,
            nodes: seq![
                drop_of(expr),
                local_get(low),
                block32(seq![at(tag, base), at(tag, base + 1)]),
            ],
            locals: Seq::empty(),
            low: None,
        },
        UnaryOp::I64Ctz => Shape {
            node: None,
            nodes: count_zeros_nodes(
                tag,
                base,
                local_at(count),
                local_at(count + 1),
                expr,
                low,
                false,
            ),
            locals: seq![temp(ValType::I32, names, "ctz"@, count), temp_low(count + 1)],
            low: Some(local_at(count + 1)),
        },
        UnaryOp::I64Clz => Shape {
            node: None,
            nodes: count_zeros_nodes(
                tag,
                base,
                local_at(count),
                local_at(count + 1),
                expr,
                low,
                true,
            ),
            locals: seq![temp(ValType::I32, names, "clz"@, count), temp_low(count + 1)],
            low: Some(local_at(count + 1)),
        },
        _ => Shape { node: None, nodes: Seq::empty(), locals: Seq::empty(), low: None },
    }
}

/// The memory immediate of the low word of a 64-bit access: the same offset, and the
/// alignment capped at four.
pub open spec fn low_word(arg: MemArg) -> MemArg {
    MemArg { align: half_align(arg.align), offset: arg.offset }
}

/// The memory immediate of the high word of a 64-bit access: four bytes further, and the
/// alignment capped at four.
pub open spec fn high_word(arg: MemArg) -> MemArg {
    MemArg { align: half_align(arg.align), offset: (arg.offset + 4) as u32 }
}

/// What the second phase makes of a plain 64-bit load, in an arena of `base` nodes and
/// with `count` locals:
///
/// ```text
///  (block (result i32)
///      (local.set $tmp_low
///          (i32.load (local.tee $tmp ($address))))
///      (i32.load offset=4 (local.get $tmp)))
/// ```
///
/// The load itself becomes the load of the high word.
pub open spec fn load_shape(tag: u32, base: nat, count: nat, names: bool, id: ExprId, load: Load) -> Shape {
    let kind = LoadKind::I32 { atomic: false };
    let scratch = local_at(count);
    Shape {
        node: Some(
            ExprView::Load(
                Load { memory: load.memory, kind, arg: high_word(load.arg), address: at(tag, base + 2) },
            ),
        ),
        nodes: seq![
            local_tee(scratch, load.address),
            ExprView::Load(
                Load { memory: load.memory, kind, arg: low_word(load.arg), address: at(tag, base) },
            ),
            local_get(scratch),
        ] + split_nodes(tag, base + 3, local_at(count + 1), at(tag, base + 1), id),
        locals: seq![
            temp(ValType::I32, names, "load_address"@, count),
            temp(ValType::I32, names, "temp_low"@, count + 1),
        ],
        low: Some(local_at(count + 1)),
    }
}

/// What the second phase makes of a plain 64-bit store whose value has its low bits in
/// the local `low`, in an arena of `base` nodes and with `count` locals:
///
/// ```text
///  (block
///      (i32.store offset=4 (local.tee $tmp ($address)) $high)
///      (i32.store (local.get $tmp) (local.get $low)))
/// ```
///
/// The store itself becomes the store of the high word.
pub open spec fn store_shape(
    tag: u32,
    base: nat,
    count: nat,
    names: bool,
    id: ExprId,
    store: Store,
    low: LocalId,
) -> Shape {
    let kind = StoreKind::I32 { atomic: false };
    let scratch = local_at(count);
    Shape {
        node: Some(
            ExprView::Store(
                Store {
                    memory: store.memory,
                    kind,
                    arg: high_word(store.arg),
                    address: at(tag, base),
                    value: store.value,
                },
            ),
        ),
        nodes: seq![
            local_tee(scratch, store.address),
            local_get(low),
            local_get(scratch),
            ExprView::Store(
                Store {
                    memory: store.memory,
                    kind,
                    arg: low_word(store.arg),
                    address: at(tag, base + 2),
                    value: at(tag, base + 1),
                },
            ),
            block0(seq![id, at(tag, base + 3)]),
        ],
        locals: seq![temp(ValType::I32, names, "store_address"@, count)],
        low: None,
    }
}

/// What the second phase makes of a branch that carries one 64-bit value, whose low bits
/// are in the local `low`, to a block whose low-bits local is `block_low`, in an arena of
/// `base` nodes and with `count` locals:
///
/// ```text
///  (block
///      (local.set $tmp $expr)
///      (local.set $block_low (local.get $expr_low))
///      (br (local.get $tmp)))
/// ```
pub open spec fn br_shape(
    tag: u32,
    base: nat,
    count: nat,
    names: bool,
    id: ExprId,
    br: BrView,
    low: LocalId,
    block_low: LocalId,
) -> Shape {
    let scratch = local_at(count);
    Shape {
        node: Some(ExprView::Br(BrView { block: br.block, args: seq![at(tag, base + 3)] })),
        nodes: seq![
            local_set(scratch, br.args[0]),
            local_get(low),
            local_set(block_low, at(tag, base + 1)),
            local_get(scratch),
            block32(seq![at(tag, base), at(tag, base + 2), id]),
        ],
        locals: seq![temp(ValType::I32, names, "br_high"@, count)],
        low: None,
    }
}

/// The block `block` with its last expression replaced by the three expressions
/// `set_high`, `set_low` and `get_high`.
pub open spec fn retailed(block: BlockView, set_high: ExprId, set_low: ExprId, get_high: ExprId) -> BlockView {
    BlockView {
        exprs: block.exprs.drop_last().push(set_high).push(set_low).push(get_high),
        ..block
    }
}

/// The arena `nodes` once the arm at `arm` of a conditional of a 64-bit value is joined:
/// the arm, whose last expression leaves the high bits with the low bits in `low`, now keeps
/// the high bits in `temp_high`, moves the low bits to `low_local` and leaves the high bits.
pub open spec fn arm_joined(
    nodes: Seq<ExprView>,
    tag: u32,
    arm: ExprId,
    low: LocalId,
    low_local: LocalId,
    temp_high: LocalId,
) -> Seq<ExprView> {
    let base = nodes.len();
    let block = nodes[arm.index as int]->Block_0;
    nodes.update(
        arm.index as int,
        ExprView::Block(retailed(block, at(tag, base), at(tag, base + 2), at(tag, base + 3))),
    ) + seq![
        local_set(temp_high, block.exprs.last()),
        local_get(low),
        local_set(low_local, at(tag, base + 1)),
        local_get(temp_high),
    ]
}

/// The arena `nodes` once the block at `id`, of a single 64-bit result, is finished: its
/// result is a 32-bit integer, and where its last expression has the low-bits local `last`,
/// the block keeps the high bits in `high_temp`, moves the low bits to its own low-bits
/// local `low` and leaves the high bits.
pub open spec fn block_finished(
    nodes: Seq<ExprView>,
    tag: u32,
    id: ExprId,
    last: Option<LocalId>,
    low: LocalId,
    high_temp: LocalId,
) -> Seq<ExprView> {
    let base = nodes.len();
    let block = nodes[id.index as int]->Block_0;
    let retyped = BlockView { results: seq![ValType::I32], ..block };
    match last {
        Some(last_low) => nodes.update(
            id.index as int,
            ExprView::Block(
                retailed(retyped, at(tag, base + 1), at(tag, base + 2), at(tag, base + 3)),
            ),
        ) + seq![
            local_get(last_low),
            local_set(high_temp, block.exprs.last()),
            local_set(low, at(tag, base)),
            local_get(high_temp),
        ],
        None => nodes.update(id.index as int, ExprView::Block(retyped)),
    }
}

/// A plain block with one result of type `ty`.
pub open spec fn block_of(ty: ValType, exprs: Seq<ExprId>) -> ExprView {
    ExprView::Block(plain(seq![ty], exprs))
}

/// What the first phase makes of the unary operation `op` on `expr`, in an arena of `base`
/// nodes: a reinterpretation goes through address zero of the memory `memory`, and an
/// extension from 8 or 16 bits becomes an extension within 32 bits of the wrapped operand,
/// extended from 32 to 64 bits.
pub open spec fn canonical_unop(
    tag: u32,
    base: nat,
    memory: MemoryId,
    id: ExprId,
    op: UnaryOp,
    expr: ExprId,
) -> Shape {
    let arg = MemArg { align: 8, offset: 0 };
    match op {
        UnaryOp::F64ReinterpretI64 => Shape {
            node: None,
            nodes: seq![
                const32(0),
                ExprView::Store(
                    Store {
                        memory,
                        kind: StoreKind::I64 { atomic: false },
                        arg,
                        address: at(tag, base),
                        value: expr,
                    },
                ),
                const32(0),
                ExprView::Load(Load { memory, kind: LoadKind::F64, arg, address: at(tag, base + 2) }),
                block_of(ValType::F64, seq![at(tag, base + 1), at(tag, base + 3)]),
            ],
            locals: Seq::empty(),
            low: None,
        },
        UnaryOp::I64ReinterpretF64 => Shape {
            node: None,
            nodes: seq![
                const32(0),
                ExprView::Store(
                    Store { memory, kind: StoreKind::F64, arg, address: at(tag, base), value: expr },
                ),
                const32(0),
                ExprView::Load(
                    Load {
                        memory,
                        kind: LoadKind::I64 { atomic: false },
                        arg,
                        address: at(tag, base + 2),
                    },
                ),
                block_of(ValType::I64, seq![at(tag, base + 1), at(tag, base + 3)]),
            ],
            locals: Seq::empty(),
            low: None,
        },
        UnaryOp::I64Extend8S => Shape {
            node: Some(unop(UnaryOp::I32Extend8S, at(tag, base))),
            nodes: seq![unop(UnaryOp::I32WrapI64, expr), unop(UnaryOp::I64ExtendSI32, id)],
            locals: Seq::empty(),
            low: None,
        },
        UnaryOp::I64Extend16S => Shape {
            node: Some(unop(UnaryOp::I32Extend16S, at(tag, base))),
            nodes: seq![unop(UnaryOp::I32WrapI64, expr), unop(UnaryOp::I64ExtendSI32, id)],
            locals: Seq::empty(),
            low: None,
        },
        _ => Shape { node: None, nodes: Seq::empty(), locals: Seq::empty(), low: None },
    }
}

/// What the first phase makes of a conditional branch with the value `value` to a block of
/// a single 64-bit result, in an arena of `base` nodes and with `count` locals:
///
/// ```text
///  (block (result i64)
///      (local.set $tmp $value)
///      (if $condition
///          (br $block (local.get $tmp))
///          (local.get $tmp)))
/// ```
pub open spec fn canonical_br_if(
    tag: u32,
    base: nat,
    count: nat,
    names: bool,
    target: BlockId,
    condition: ExprId,
    value: ExprId,
) -> Shape {
    let scratch = local_at(count);
    Shape {
        node: None,
        nodes: seq![
            local_set(scratch, value),
            local_get(scratch),
            ExprView::Br(BrView { block: target, args: seq![at(tag, base + 1)] }),
            block_of(ValType::I64, seq![at(tag, base + 2)]),
            local_get(scratch),
            block_of(ValType::I64, seq![at(tag, base + 4)]),
            ExprView::IfElse(
                IfElse {
                    condition,
                    consequent: BlockId { id: at(tag, base + 3) },
                    alternative: BlockId { id: at(tag, base + 5) },
                },
            ),
            block_of(ValType::I64, seq![at(tag, base), at(tag, base + 6)]),
        ],
        locals: seq![temp(ValType::I64, names, "br_if_val"@, count)],
        low: None,
    }
}

} // verus!
