//! The instruction representation that the lowering reads and writes:
//! registers, operands, the two pseudo-operations and the native operations
//! that replace them.

use crate::logic_op::LogicOp;
use vstd::prelude::*;

verus! {

/// The lane mask that selects all four lanes of a quad.
pub const ALL_LANES: u8 = 0xf;

/// A register file: the kind of value that a register holds.
#[derive(Clone, Copy, Debug, PartialEq, Eq, Structural)]
pub enum RegFile {
    /// General-purpose registers, one 32-bit word each.
    GPR,
    /// Uniform general-purpose registers, one 32-bit word each.
    UGPR,
    /// Predicate registers, one boolean each.
    Pred,
    /// Uniform predicate registers, one boolean each.
    UPred,
}

impl RegFile {
    /// Whether the registers of this file hold booleans.
    pub open spec fn spec_is_predicate(&self) -> bool {
        *self == RegFile::Pred || *self == RegFile::UPred
    }

    /// Whether the registers of this file hold booleans.
    #[verifier::when_used_as_spec(spec_is_predicate)]
    pub fn is_predicate(&self) -> (b: bool)
        ensures
            b == self.spec_is_predicate(),
    {
        match self {
            RegFile::Pred | RegFile::UPred => true,
            RegFile::GPR | RegFile::UGPR => false,
        }
    }
}

/// A run of `comps` consecutive physical registers of one file, starting at
/// `base_idx`.
#[derive(Clone, Copy, Debug, PartialEq, Eq, Structural)]
pub struct RegRef {
    pub file: RegFile,
    pub base_idx: u32,
    pub comps: u8,
}

impl RegRef {
    pub fn new(file: RegFile, base_idx: u32, comps: u8) -> (r: RegRef)
        ensures
            r == (RegRef { file, base_idx, comps }),
    {
        RegRef { file, base_idx, comps }
    }

    pub open spec fn spec_file(&self) -> RegFile {
        self.file
    }

    #[verifier::when_used_as_spec(spec_file)]
    pub fn file(&self) -> (f: RegFile)
        ensures
            f == self.file,
    {
        self.file
    }

    pub open spec fn spec_base_idx(&self) -> u32 {
        self.base_idx
    }

    #[verifier::when_used_as_spec(spec_base_idx)]
    pub fn base_idx(&self) -> (i: u32)
        ensures
            i == self.base_idx,
    {
        self.base_idx
    }

    pub open spec fn spec_comps(&self) -> u8 {
        self.comps
    }

    #[verifier::when_used_as_spec(spec_comps)]
    pub fn comps(&self) -> (c: u8)
        ensures
            c == self.comps,
    {
        self.comps
    }

    /// Whether the register holds a boolean.
    pub open spec fn spec_is_predicate(&self) -> bool {
        self.file.spec_is_predicate()
    }

    /// Whether the register holds a boolean.
    #[verifier::when_used_as_spec(spec_is_predicate)]
    pub fn is_predicate(&self) -> (b: bool)
        ensures
            b == self.spec_is_predicate(),
    {
        self.file.is_predicate()
    }
}

/// A value that register allocation has not yet given a physical register.
#[derive(Clone, Copy, Debug, PartialEq, Eq, Structural)]
pub struct SSAValue {
    pub file: RegFile,
    pub idx: u32,
}

impl SSAValue {
    pub fn new(file: RegFile, idx: u32) -> (v: SSAValue)
        ensures
            v == (SSAValue { file, idx }),
    {
        SSAValue { file, idx }
    }
}

/// A 32-bit word of a constant buffer.
#[derive(Clone, Copy, Debug, PartialEq, Eq, Structural)]
pub struct CBufRef {
    pub buf: u8,
    pub offset: u16,
}

impl CBufRef {
    pub fn new(buf: u8, offset: u16) -> (c: CBufRef)
        ensures
            c == (CBufRef { buf, offset }),
    {
        CBufRef { buf, offset }
    }
}

/// What a source operand reads.
#[derive(Clone, Copy, Debug, PartialEq, Eq, Structural)]
pub enum SrcRef {
    Zero,
    True,
    False,
    Imm32(u32),
    CBuf(CBufRef),
    SSA(SSAValue),
    Reg(RegRef),
}

impl SrcRef {
    pub open spec fn spec_as_reg(&self) -> Option<&RegRef> {
        match self {
            SrcRef::Reg(r) => Some(r),
            _ => None,
        }
    }

    /// The register that the operand reads, if it reads one.
    #[verifier::when_used_as_spec(spec_as_reg)]
    pub fn as_reg(&self) -> (r: Option<&RegRef>)
        ensures
            r == self.spec_as_reg(),
    {
        match self {
            SrcRef::Reg(r) => Some(r),
            _ => None,
        }
    }
}

/// A change applied to an operand's value as it is read.
#[derive(Clone, Copy, Debug, PartialEq, Eq, Structural)]
pub enum SrcMod {
    Plain,
    Abs,
    Neg,
    NegAbs,
    Not,
}

impl SrcMod {
    pub open spec fn spec_is_none(&self) -> bool {
        *self == SrcMod::Plain
    }

    /// Whether the operand is read as it is.
    #[verifier::when_used_as_spec(spec_is_none)]
    pub fn is_none(&self) -> (b: bool)
        ensures
            b == self.spec_is_none(),
    {
        match self {
            SrcMod::Plain => true,
            _ => false,
        }
    }
}

/// A source operand: what is read, and how it is modified on the way.
#[derive(Clone, Copy, Debug, PartialEq, Eq, Structural)]
pub struct Src {
    pub src_ref: SrcRef,
    pub src_mod: SrcMod,
}

impl Src {
    pub open spec fn zero() -> Src {
        Src { src_ref: SrcRef::Zero, src_mod: SrcMod::Plain }
    }

    pub open spec fn imm_u32(u: u32) -> Src {
        Src { src_ref: SrcRef::Imm32(u), src_mod: SrcMod::Plain }
    }

    pub open spec fn imm_bool(b: bool) -> Src {
        Src { src_ref: if b { SrcRef::True } else { SrcRef::False }, src_mod: SrcMod::Plain }
    }

    pub open spec fn cbuf(c: CBufRef) -> Src {
        Src { src_ref: SrcRef::CBuf(c), src_mod: SrcMod::Plain }
    }

    pub open spec fn reg(r: RegRef) -> Src {
        Src { src_ref: SrcRef::Reg(r), src_mod: SrcMod::Plain }
    }

    pub open spec fn ssa(v: SSAValue) -> Src {
        Src { src_ref: SrcRef::SSA(v), src_mod: SrcMod::Plain }
    }

    #[verifier::when_used_as_spec(zero)]
    pub fn new_zero() -> (s: Src)
        ensures
            s == Src::zero(),
    {
        Src { src_ref: SrcRef::Zero, src_mod: SrcMod::Plain }
    }

    #[verifier::when_used_as_spec(imm_u32)]
    pub fn new_imm_u32(u: u32) -> (s: Src)
        ensures
            s == Src::imm_u32(u),
    {
        Src { src_ref: SrcRef::Imm32(u), src_mod: SrcMod::Plain }
    }

    #[verifier::when_used_as_spec(imm_bool)]
    pub fn new_imm_bool(b: bool) -> (s: Src)
        ensures
            s == Src::imm_bool(b),
    {
        Src { src_ref: if b { SrcRef::True } else { SrcRef::False }, src_mod: SrcMod::Plain }
    }

    #[verifier::when_used_as_spec(cbuf)]
    pub fn new_cbuf(c: CBufRef) -> (s: Src)
        ensures
            s == Src::cbuf(c),
    {
        Src { src_ref: SrcRef::CBuf(c), src_mod: SrcMod::Plain }
    }

    #[verifier::when_used_as_spec(reg)]
    pub fn new_reg(r: RegRef) -> (s: Src)
        ensures
            s == Src::reg(r),
    {
        Src { src_ref: SrcRef::Reg(r), src_mod: SrcMod::Plain }
    }

    #[verifier::when_used_as_spec(ssa)]
    pub fn new_ssa(v: SSAValue) -> (s: Src)
        ensures
            s == Src::ssa(v),
    {
        Src { src_ref: SrcRef::SSA(v), src_mod: SrcMod::Plain }
    }
}

/// Where an instruction writes a result.
#[derive(Clone, Copy, Debug, PartialEq, Eq, Structural)]
pub enum Dst {
    /// The result is dropped.
    Null,
    SSA(SSAValue),
    Reg(RegRef),
}

impl Dst {
    pub open spec fn spec_as_reg(&self) -> Option<&RegRef> {
        match self {
            Dst::Reg(r) => Some(r),
            _ => None,
        }
    }

    /// The register that is written, if one is.
    #[verifier::when_used_as_spec(spec_as_reg)]
    pub fn as_reg(&self) -> (r: Option<&RegRef>)
        ensures
            r == self.spec_as_reg(),
    {
        match self {
            Dst::Reg(r) => Some(r),
            _ => None,
        }
    }

    /// Whether a boolean is written: to a predicate register, or to a value
    /// that will get one.
    pub open spec fn spec_is_predicate(&self) -> bool {
        match self {
            Dst::Null => false,
            Dst::SSA(v) => v.file.spec_is_predicate(),
            Dst::Reg(r) => r.file.spec_is_predicate(),
        }
    }

    /// Whether a boolean is written.
    #[verifier::when_used_as_spec(spec_is_predicate)]
    pub fn is_predicate(&self) -> (b: bool)
        ensures
            b == self.spec_is_predicate(),
    {
        match self {
            Dst::Null => false,
            Dst::SSA(v) => v.file.is_predicate(),
            Dst::Reg(r) => r.file.is_predicate(),
        }
    }
}

/// What an execution guard tests.
#[derive(Clone, Copy, Debug, PartialEq, Eq, Structural)]
pub enum PredRef {
    /// Nothing: the test always succeeds.
    Always,
    SSA(SSAValue),
    Reg(RegRef),
}

/// An execution guard: the instruction takes effect in the lanes where the
/// test, inverted if `pred_inv` is set, succeeds.
#[derive(Clone, Copy, Debug, PartialEq, Eq, Structural)]
pub struct Pred {
    pub pred_ref: PredRef,
    pub pred_inv: bool,
}

impl Pred {
    /// The guard that always lets the instruction run.
    pub open spec fn always() -> Pred {
        Pred { pred_ref: PredRef::Always, pred_inv: false }
    }

    pub open spec fn spec_is_true(&self) -> bool {
        *self == Pred::always()
    }

    #[verifier::when_used_as_spec(always)]
    pub fn new_true() -> (p: Pred)
        ensures
            p == Pred::always(),
    {
        Pred { pred_ref: PredRef::Always, pred_inv: false }
    }

    /// Whether the instruction runs unconditionally.
    #[verifier::when_used_as_spec(spec_is_true)]
    pub fn is_true(&self) -> (b: bool)
        ensures
            b == self.spec_is_true(),
    {
        match self.pred_ref {
            PredRef::Always => !self.pred_inv,
            _ => false,
        }
    }
}

/// "The destination must end up holding the source's value."
#[derive(Clone, Copy, Debug, PartialEq, Eq, Structural)]
pub struct OpCopy {
    pub dst: Dst,
    pub src: Src,
}

/// "The two destinations must exchange their values": each source names the
/// other destination.
#[derive(Clone, Copy, Debug, PartialEq, Eq)]
pub struct OpSwap {
    pub dsts: [Dst; 2],
    pub srcs: [Src; 2],
}

/// The native move of one word, in the lanes of the quad that `quad_lanes`
/// selects.
#[derive(Clone, Copy, Debug, PartialEq, Eq, Structural)]
pub struct OpMov {
    pub dst: Dst,
    pub src: Src,
    pub quad_lanes: u8,
}

/// The native logic instruction on words: `op` applied bit by bit to the
/// three sources.
#[derive(Clone, Copy, Debug, PartialEq, Eq)]
pub struct OpLop3 {
    pub dst: Dst,
    pub srcs: [Src; 3],
    pub op: LogicOp,
}

/// The native logic instruction on booleans. It reads its three sources and
/// only then writes `ops[0]` of them to `dsts[0]` and `ops[1]` of them to
/// `dsts[1]`.
#[derive(Clone, Copy, Debug, PartialEq, Eq)]
pub struct OpPLop3 {
    pub dsts: [Dst; 2],
    pub srcs: [Src; 3],
    pub ops: [LogicOp; 2],
}

/// Integer addition of two words.
#[derive(Clone, Copy, Debug, PartialEq, Eq)]
pub struct OpAdd {
    pub dst: Dst,
    pub srcs: [Src; 2],
}

/// Integer multiplication of two words.
#[derive(Clone, Copy, Debug, PartialEq, Eq)]
pub struct OpMul {
    pub dst: Dst,
    pub srcs: [Src; 2],
}

/// An operation.
#[derive(Clone, Copy, Debug, PartialEq, Eq)]
pub enum Op {
    Add(OpAdd),
    Mul(OpMul),
    Mov(OpMov),
    Lop3(OpLop3),
    PLop3(OpPLop3),
    Copy(OpCopy),
    Swap(OpSwap),
}

impl Op {
    /// Whether the operation is one of the two pseudo-operations.
    pub open spec fn spec_is_pseudo(&self) -> bool {
        *self is Copy || *self is Swap
    }

    /// Whether the operation is one of the two pseudo-operations.
    #[verifier::when_used_as_spec(spec_is_pseudo)]
    pub fn is_pseudo(&self) -> (b: bool)
        ensures
            b == self.spec_is_pseudo(),
    {
        match self {
            Op::Copy(_) | Op::Swap(_) => true,
            _ => false,
        }
    }
}

/// An operation under an execution guard.
#[derive(Clone, Copy, Debug, PartialEq, Eq)]
pub struct Instr {
    pub pred: Pred,
    pub op: Op,
}

impl Instr {
    /// The instruction that runs `op` unconditionally.
    pub open spec fn of(op: Op) -> Instr {
        Instr { pred: Pred::always(), op }
    }

    /// The instruction that runs `op` unconditionally.
    #[verifier::when_used_as_spec(of)]
    pub fn new(op: Op) -> (i: Instr)
        ensures
            i == Instr::of(op),
    {
        Instr { pred: Pred::new_true(), op }
    }
}

/// A shader program: its instructions, in program order.
#[derive(Clone, Debug, PartialEq, Eq)]
pub struct Shader {
    pub instrs: Vec<Instr>,
}

impl View for Shader {
    type V = Seq<Instr>;

    open spec fn view(&self) -> Seq<Instr> {
        self.instrs@
    }
}

impl Shader {
    pub fn new(instrs: Vec<Instr>) -> (s: Shader)
        ensures
            s@ == instrs@,
    {
        Shader { instrs }
    }
}

} // verus!
