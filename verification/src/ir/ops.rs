//! Operators, literals and memory immediates of the instruction set.

use vstd::prelude::*;

verus! {

/// A literal value. Floating-point literals are kept as their IEEE 754 bit patterns.
#[derive(Clone, Copy, Debug, PartialEq, Eq, Structural)]
pub enum Value {
    I32(i32),
    I64(i64),
    F32(u32),
    F64(u64),
    V128(u128),
}

/// Unary operators.
#[derive(Clone, Copy, Debug, PartialEq, Eq, Structural)]
pub enum UnaryOp {
    I32Eqz,
    I32Clz,
    I32Ctz,
    I32Popcnt,
    I64Eqz,
    I64Clz,
    I64Ctz,
    I64Popcnt,
    F32Abs,
    F32Neg,
    F32Ceil,
    F32Floor,
    F32Trunc,
    F32Nearest,
    F32Sqrt,
    F64Abs,
    F64Neg,
    F64Ceil,
    F64Floor,
    F64Trunc,
    F64Nearest,
    F64Sqrt,
    I32WrapI64,
    I32TruncSF32,
    I32TruncUF32,
    I32TruncSF64,
    I32TruncUF64,
    I64ExtendSI32,
    I64ExtendUI32,
    I64TruncSF32,
    I64TruncUF32,
    I64TruncSF64,
    I64TruncUF64,
    F32ConvertSI32,
    F32ConvertUI32,
    F32ConvertSI64,
    F32ConvertUI64,
    F32DemoteF64,
    F64ConvertSI32,
    F64ConvertUI32,
    F64ConvertSI64,
    F64ConvertUI64,
    F64PromoteF32,
    I32ReinterpretF32,
    I64ReinterpretF64,
    F32ReinterpretI32,
    F64ReinterpretI64,
    I32Extend8S,
    I32Extend16S,
    I64Extend8S,
    I64Extend16S,
    I64Extend32S,
}

/// Binary operators.
#[derive(Clone, Copy, Debug, PartialEq, Eq, Structural)]
pub enum BinaryOp {
    I32Eq,
    I32Ne,
    I32LtS,
    I32LtU,
    I32GtS,
    I32GtU,
    I32LeS,
    I32LeU,
    I32GeS,
    I32GeU,
    I64Eq,
    I64Ne,
    I64LtS,
    I64LtU,
    I64GtS,
    I64GtU,
    I64LeS,
    I64LeU,
    I64GeS,
    I64GeU,
    F32Eq,
    F32Ne,
    F32Lt,
    F32Gt,
    F32Le,
    F32Ge,
    F64Eq,
    F64Ne,
    F64Lt,
    F64Gt,
    F64Le,
    F64Ge,
    I32Add,
    I32Sub,
    I32Mul,
    I32DivS,
    I32DivU,
    I32RemS,
    I32RemU,
    I32And,
    I32Or,
    I32Xor,
    I32Shl,
    I32ShrS,
    I32ShrU,
    I32Rotl,
    I32Rotr,
    I64Add,
    I64Sub,
    I64Mul,
    I64DivS,
    I64DivU,
    I64RemS,
    I64RemU,
    I64And,
    I64Or,
    I64Xor,
    I64Shl,
    I64ShrS,
    I64ShrU,
    I64Rotl,
    I64Rotr,
    F32Add,
    F32Sub,
    F32Mul,
    F32Div,
    F32Min,
    F32Max,
    F32Copysign,
    F64Add,
    F64Sub,
    F64Mul,
    F64Div,
    F64Min,
    F64Max,
    F64Copysign,
}

/// How a narrow load widens the loaded value.
#[derive(Clone, Copy, Debug, PartialEq, Eq, Structural)]
pub enum ExtendedLoad {
    SignExtend,
    ZeroExtend,
    ZeroExtendAtomic,
}

/// The kinds of memory load.
#[derive(Clone, Copy, Debug, PartialEq, Eq, Structural)]
pub enum LoadKind {
    I32 { atomic: bool },
    I64 { atomic: bool },
    F32,
    F64,
    V128,
    I32_8 { kind: ExtendedLoad },
    I32_16 { kind: ExtendedLoad },
    I64_8 { kind: ExtendedLoad },
    I64_16 { kind: ExtendedLoad },
    I64_32 { kind: ExtendedLoad },
}

/// The kinds of memory store.
#[derive(Clone, Copy, Debug, PartialEq, Eq, Structural)]
pub enum StoreKind {
    I32 { atomic: bool },
    I64 { atomic: bool },
    F32,
    F64,
    V128,
    I32_8 { atomic: bool },
    I32_16 { atomic: bool },
    I64_8 { atomic: bool },
    I64_16 { atomic: bool },
    I64_32 { atomic: bool },
}

/// The operation of an atomic read-modify-write.
#[derive(Clone, Copy, Debug, PartialEq, Eq, Structural)]
pub enum AtomicOp {
    Add,
    Sub,
    And,
    Or,
    Xor,
    Xchg,
}

/// The width of an atomic read-modify-write or compare-exchange.
#[derive(Clone, Copy, Debug, PartialEq, Eq, Structural)]
pub enum AtomicWidth {
    I32,
    I32_8,
    I32_16,
    I64,
    I64_8,
    I64_16,
    I64_32,
}

/// The alignment and offset of a memory access.
#[derive(Clone, Copy, Debug, PartialEq, Eq, Structural)]
pub struct MemArg {
    pub align: u32,
    pub offset: u32,
}

impl MemArg {
    /// A memory immediate with the given alignment and offset zero.
    pub fn new(align: u32) -> (arg: MemArg)
        ensures
            arg == (MemArg { align, offset: 0 }),
    {
        MemArg { align, offset: 0 }
    }

    /// The same immediate with another alignment.
    pub fn with_align(self, align: u32) -> (arg: MemArg)
        ensures
            arg == (MemArg { align, offset: self.offset }),
    {
        MemArg { align, offset: self.offset }
    }

    /// The same immediate with another offset.
    pub fn with_offset(self, offset: u32) -> (arg: MemArg)
        ensures
            arg == (MemArg { align: self.align, offset }),
    {
        MemArg { align: self.align, offset }
    }
}

impl Value {
    /// Whether the literal is a 64-bit integer.
    pub open spec fn touches_i64(self) -> bool {
        self is I64
    }
}

impl UnaryOp {
    /// Whether the operator takes or produces a 64-bit integer.
    pub open spec fn touches_i64(self) -> bool {
        match self {
            UnaryOp::I64Eqz
            | UnaryOp::I64Clz
            | UnaryOp::I64Ctz
            | UnaryOp::I64Popcnt
            | UnaryOp::I32WrapI64
            | UnaryOp::I64ExtendSI32
            | UnaryOp::I64ExtendUI32
            | UnaryOp::I64TruncSF32
            | UnaryOp::I64TruncUF32
            | UnaryOp::I64TruncSF64
            | UnaryOp::I64TruncUF64
            | UnaryOp::F32ConvertSI64
            | UnaryOp::F32ConvertUI64
            | UnaryOp::F64ConvertSI64
            | UnaryOp::F64ConvertUI64
            | UnaryOp::I64ReinterpretF64
            | UnaryOp::F64ReinterpretI64
            | UnaryOp::I64Extend8S
            | UnaryOp::I64Extend16S
            | UnaryOp::I64Extend32S => true,
            _ => false,
        }
    }
}

impl BinaryOp {
    /// Whether the operator takes 64-bit integers.
    pub open spec fn touches_i64(self) -> bool {
        match self {
            BinaryOp::I64Eq
            | BinaryOp::I64Ne
            | BinaryOp::I64LtS
            | BinaryOp::I64LtU
            | BinaryOp::I64GtS
            | BinaryOp::I64GtU
            | BinaryOp::I64LeS
            | BinaryOp::I64LeU
            | BinaryOp::I64GeS
            | BinaryOp::I64GeU
            | BinaryOp::I64Add
            | BinaryOp::I64Sub
            | BinaryOp::I64Mul
            | BinaryOp::I64DivS
            | BinaryOp::I64DivU
            | BinaryOp::I64RemS
            | BinaryOp::I64RemU
            | BinaryOp::I64And
            | BinaryOp::I64Or
            | BinaryOp::I64Xor
            | BinaryOp::I64Shl
            | BinaryOp::I64ShrS
            | BinaryOp::I64ShrU
            | BinaryOp::I64Rotl
            | BinaryOp::I64Rotr => true,
            _ => false,
        }
    }

    /// The 32-bit operator that computes each half of a 64-bit bitwise operator.
    pub open spec fn bitwise_half(self) -> Option<BinaryOp> {
        match self {
            BinaryOp::I64And => Some(BinaryOp::I32And),
            BinaryOp::I64Or => Some(BinaryOp::I32Or),
            BinaryOp::I64Xor => Some(BinaryOp::I32Xor),
            _ => None,
        }
    }
}

impl LoadKind {
    /// Whether the load produces a 64-bit integer.
    pub open spec fn touches_i64(self) -> bool {
        self is I64 || self is I64_8 || self is I64_16 || self is I64_32
    }
}

impl StoreKind {
    /// Whether the store takes a 64-bit integer.
    pub open spec fn touches_i64(self) -> bool {
        self is I64 || self is I64_8 || self is I64_16 || self is I64_32
    }
}

impl BinaryOp {
    /// Decides [`touches_i64`](Self::touches_i64).
    pub fn is_i64(self) -> (yes: bool)
        ensures
            yes == self.touches_i64(),
    {
        match self {
            BinaryOp::I64Eq
            | BinaryOp::I64Ne
            | BinaryOp::I64LtS
            | BinaryOp::I64LtU
            | BinaryOp::I64GtS
            | BinaryOp::I64GtU
            | BinaryOp::I64LeS
            | BinaryOp::I64LeU
            | BinaryOp::I64GeS
            | BinaryOp::I64GeU
            | BinaryOp::I64Add
            | BinaryOp::I64Sub
            | BinaryOp::I64Mul
            | BinaryOp::I64DivS
            | BinaryOp::I64DivU
            | BinaryOp::I64RemS
            | BinaryOp::I64RemU
            | BinaryOp::I64And
            | BinaryOp::I64Or
            | BinaryOp::I64Xor
            | BinaryOp::I64Shl
            | BinaryOp::I64ShrS
            | BinaryOp::I64ShrU
            | BinaryOp::I64Rotl
            | BinaryOp::I64Rotr => true,
            _ => false,
        }
    }

    /// Computes [`bitwise_half`](Self::bitwise_half).
    pub fn half(self) -> (op: Option<BinaryOp>)
        ensures
            op == self.bitwise_half(),
    {
        match self {
            BinaryOp::I64And => Some(BinaryOp::I32And),
            BinaryOp::I64Or => Some(BinaryOp::I32Or),
            BinaryOp::I64Xor => Some(BinaryOp::I32Xor),
            _ => None,
        }
    }
}

impl UnaryOp {
    /// Decides [`touches_i64`](Self::touches_i64).
    pub fn is_i64(self) -> (yes: bool)
        ensures
            yes == self.touches_i64(),
    {
        match self {
            UnaryOp::I64Eqz
            | UnaryOp::I64Clz
            | UnaryOp::I64Ctz
            | UnaryOp::I64Popcnt
            | UnaryOp::I32WrapI64
            | UnaryOp::I64ExtendSI32
            | UnaryOp::I64ExtendUI32
            | UnaryOp::I64TruncSF32
            | UnaryOp::I64TruncUF32
            | UnaryOp::I64TruncSF64
            | UnaryOp::I64TruncUF64
            | UnaryOp::F32ConvertSI64
            | UnaryOp::F32ConvertUI64
            | UnaryOp::F64ConvertSI64
            | UnaryOp::F64ConvertUI64
            | UnaryOp::I64ReinterpretF64
            | UnaryOp::F64ReinterpretI64
            | UnaryOp::I64Extend8S
            | UnaryOp::I64Extend16S
            | UnaryOp::I64Extend32S => true,
            _ => false,
        }
    }
}

impl AtomicWidth {
    /// Whether the access is to a 64-bit integer.
    pub open spec fn touches_i64(self) -> bool {
        self is I64 || self is I64_8 || self is I64_16 || self is I64_32
    }

    /// Decides [`touches_i64`](Self::touches_i64).
    pub fn is_i64(self) -> (yes: bool)
        ensures
            yes == self.touches_i64(),
    {
        match self {
            AtomicWidth::I64 | AtomicWidth::I64_8 | AtomicWidth::I64_16 | AtomicWidth::I64_32 => true,
            _ => false,
        }
    }
}

impl LoadKind {
    /// Decides [`touches_i64`](Self::touches_i64).
    pub fn is_i64(self) -> (yes: bool)
        ensures
            yes == self.touches_i64(),
    {
        match self {
            LoadKind::I64 { .. }
            | LoadKind::I64_8 { .. }
            | LoadKind::I64_16 { .. }
            | LoadKind::I64_32 { .. } => true,
            _ => false,
        }
    }
}

impl StoreKind {
    /// Decides [`touches_i64`](Self::touches_i64).
    pub fn is_i64(self) -> (yes: bool)
        ensures
            yes == self.touches_i64(),
    {
        match self {
            StoreKind::I64 { .. }
            | StoreKind::I64_8 { .. }
            | StoreKind::I64_16 { .. }
            | StoreKind::I64_32 { .. } => true,
            _ => false,
        }
    }
}

/// The alignment of a 32-bit access that is half of a 64-bit access: the alignment of the
/// 64-bit access, capped at four.
pub open spec fn half_align(align: u32) -> u32 {
    if align < 4 {
        align
    } else {
        4
    }
}

} // verus!
