//! Rewriting the two pseudo-operations, copy and swap, into native
//! operations, once every value has a physical register.

use crate::builder::{lop2, Builder, InstrBuilder, MappedInstrs};
use crate::ir::{
    Dst, Instr, Op, OpCopy, OpMov, OpPLop3, OpSwap, RegFile, RegRef, Shader, Src, SrcRef,
    ALL_LANES,
};
use crate::logic_op::LogicOp;
use vstd::prelude::*;

verus! {

/// Why a copy or a swap cannot be lowered. Each kind is a defect of the
/// compiler stages that ran before, never of the program being compiled.
#[derive(Clone, Copy, Debug, PartialEq, Eq, Structural)]
pub enum ErrorKind {
    /// An operand is a value that has no physical register yet: register
    /// allocation has not run, or has not finished.
    Unallocated,
    /// The operation is not what its kind promises: a copy that writes no
    /// single register or reads a modified source, a swap that is no exchange
    /// of two single registers of one file.
    Malformed,
    /// The target has no way to move this kind of source into this kind of
    /// register.
    Unsupported,
    /// The operation stands under a guard that does not always let it run.
    Guarded,
}

/// A failed lowering: the kind of defect and the operation that has it.
#[derive(Clone, Copy, Debug, PartialEq, Eq)]
pub struct LowerError {
    pub kind: ErrorKind,
    pub op: Op,
}

/// Whether the target can copy `copy.src` to `copy.dst`: into a
/// general-purpose register from zero, an immediate, a constant buffer or a
/// general-purpose register; into a predicate register from a boolean constant
/// or a predicate register.
pub open spec fn copy_is_lowerable(copy: OpCopy) -> bool {
    &&& copy.dst matches Dst::Reg(r)
    &&& r.comps == 1
    &&& copy.src.src_mod.spec_is_none()
    &&& match r.file {
        RegFile::GPR => match copy.src.src_ref {
            SrcRef::Zero | SrcRef::Imm32(_) | SrcRef::CBuf(_) => true,
            SrcRef::Reg(s) => s.file == RegFile::GPR,
            _ => false,
        },
        RegFile::Pred => match copy.src.src_ref {
            SrcRef::True | SrcRef::False => true,
            SrcRef::Reg(s) => s.file == RegFile::Pred,
            _ => false,
        },
        _ => false,
    }
}

/// The defect of `copy`, if it has one. An unallocated operand is reported
/// first, a malformed copy next, an unsupported combination last.
pub open spec fn copy_fault(copy: OpCopy) -> Option<ErrorKind> {
    if copy.dst is SSA || copy.src.src_ref is SSA {
        Some(ErrorKind::Unallocated)
    } else if !(copy.dst matches Dst::Reg(r) && r.comps == 1) || !copy.src.src_mod.spec_is_none() {
        Some(ErrorKind::Malformed)
    } else if !copy_is_lowerable(copy) {
        Some(ErrorKind::Unsupported)
    } else {
        None
    }
}

/// The native instructions that stand for a lowerable `copy`: one move for a
/// general-purpose register, one logic instruction for a predicate register.
pub open spec fn lowered_copy(copy: OpCopy) -> Seq<Instr> {
    if copy.dst.spec_is_predicate() {
        match copy.src.src_ref {
            SrcRef::True => seq![
                Instr::of(
                    lop2(copy.dst, LogicOp::constant(true), Src::imm_bool(true), Src::imm_bool(true)),
                ),
            ],
            SrcRef::False => seq![
                Instr::of(
                    lop2(copy.dst, LogicOp::constant(false), Src::imm_bool(true), Src::imm_bool(true)),
                ),
            ],
            _ => seq![Instr::of(lop2(copy.dst, LogicOp::first(), copy.src, Src::imm_bool(true)))],
        }
    } else {
        seq![Instr::of(Op::Mov(OpMov { dst: copy.dst, src: copy.src, quad_lanes: ALL_LANES }))]
    }
}

/// Whether `swap` exchanges two single registers of one file: both
/// destinations are such registers, and each source reads, unmodified, the
/// other destination.
pub open spec fn swap_is_exchange(swap: OpSwap) -> bool {
    &&& swap.dsts[0] matches Dst::Reg(x)
    &&& swap.dsts[1] matches Dst::Reg(y)
    &&& x.file == y.file
    &&& x.comps == 1
    &&& y.comps == 1
    &&& swap.srcs[0] == Src::reg(y)
    &&& swap.srcs[1] == Src::reg(x)
}

/// The defect of `swap`, if it has one. An unallocated operand is reported
/// first.
pub open spec fn swap_fault(swap: OpSwap) -> Option<ErrorKind> {
    if swap.dsts[0] is SSA || swap.dsts[1] is SSA || swap.srcs[0].src_ref is SSA
        || swap.srcs[1].src_ref is SSA {
        Some(ErrorKind::Unallocated)
    } else if !swap_is_exchange(swap) {
        Some(ErrorKind::Malformed)
    } else {
        None
    }
}

/// The native instructions that stand for the exchange of `x` and `y`:
/// nothing where they are one register; one logic instruction on booleans,
/// which reads both before it writes either, for two predicate registers;
/// three exclusive ors for two registers of words.
pub open spec fn lowered_exchange(x: RegRef, y: RegRef) -> Seq<Instr> {
    if x == y {
        Seq::empty()
    } else if x.spec_is_predicate() {
        seq![
            Instr::of(
                Op::PLop3(
                    OpPLop3 {
                        dsts: [Dst::Reg(x), Dst::Reg(y)],
                        srcs: [Src::reg(x), Src::reg(y), Src::imm_bool(true)],
                        ops: [LogicOp::second(), LogicOp::first()],
                    },
                ),
            ),
        ]
    } else {
        seq![
            Instr::of(lop2(Dst::Reg(x), LogicOp::xor(), Src::reg(x), Src::reg(y))),
            Instr::of(lop2(Dst::Reg(y), LogicOp::xor(), Src::reg(x), Src::reg(y))),
            Instr::of(lop2(Dst::Reg(x), LogicOp::xor(), Src::reg(x), Src::reg(y))),
        ]
    }
}

/// The native instructions that stand for a well-formed `swap`.
pub open spec fn lowered_swap(swap: OpSwap) -> Seq<Instr> {
    lowered_exchange(swap.dsts[0]->Reg_0, swap.dsts[1]->Reg_0)
}

/// The defect that stops the lowering at `instr`, if there is one. Only a
/// copy or a swap can have one, and its guard is looked at first.
pub open spec fn instr_fault(instr: Instr) -> Option<LowerError> {
    let kind = match instr.op {
        Op::Copy(copy) => if instr.pred.spec_is_true() {
            copy_fault(copy)
        } else {
            Some(ErrorKind::Guarded)
        },
        Op::Swap(swap) => if instr.pred.spec_is_true() {
            swap_fault(swap)
        } else {
            Some(ErrorKind::Guarded)
        },
        _ => None,
    };
    match kind {
        Some(kind) => Some(LowerError { kind, op: instr.op }),
        None => None,
    }
}

/// What stands in the place of `instr` after the lowering: the native
/// instructions of a copy or a swap, and any other instruction itself.
pub open spec fn replacement(instr: Instr) -> Seq<Instr> {
    match instr.op {
        Op::Copy(copy) => lowered_copy(copy),
        Op::Swap(swap) => lowered_swap(swap),
        _ => seq![instr],
    }
}

/// The instruction list `s` after the lowering: the replacements of its
/// instructions, one after the other in program order.
pub open spec fn lowered(s: Seq<Instr>) -> Seq<Instr>
    decreases s.len(),
{
    if s.len() == 0 {
        Seq::empty()
    } else {
        lowered(s.drop_last()) + replacement(s.last())
    }
}

/// The defect of the first instruction of `s`, in program order, that has
/// one.
pub open spec fn first_fault(s: Seq<Instr>) -> Option<LowerError>
    decreases s.len(),
{
    if s.len() == 0 {
        None
    } else {
        match first_fault(s.drop_last()) {
            Some(e) => Some(e),
            None => instr_fault(s.last()),
        }
    }
}

/// Whether a copy or a swap stands anywhere in `s`.
pub open spec fn has_pseudo(s: Seq<Instr>) -> bool {
    exists|i: int| 0 <= i < s.len() && (#[trigger] s[i]).op.spec_is_pseudo()
}

/// A defect found in a prefix of a list is the first defect of the list.
pub proof fn lemma_first_fault_prefix(s: Seq<Instr>, n: int, e: LowerError)
    requires
        0 <= n <= s.len(),
        first_fault(s.take(n)) == Some(e),
    ensures
        first_fault(s) == Some(e),
    decreases s.len() - n,
{
    if n < s.len() {
        assert(s.take(n + 1).drop_last() == s.take(n));
        lemma_first_fault_prefix(s, n + 1, e);
    } else {
        assert(s.take(n) == s);
    }
}

/// The lowering of a list without defects holds no copy and no swap.
pub proof fn lemma_lowered_is_native(s: Seq<Instr>)
    requires
        first_fault(s) is None,
    ensures
        !has_pseudo(lowered(s)),
    decreases s.len(),
{
    if s.len() > 0 {
        lemma_lowered_is_native(s.drop_last());
        let head = lowered(s.drop_last());
        let tail = replacement(s.last());
        assert forall|i: int| 0 <= i < lowered(s).len() implies !(#[trigger] lowered(
            s,
        )[i]).op.spec_is_pseudo() by {
            if i < head.len() {
                assert(lowered(s)[i] == head[i]);
            } else {
                assert(lowered(s)[i] == tail[i - head.len()]);
            }
        }
    }
}

/// A copy has a defect exactly where the target cannot perform it: no copy
/// that can be lowered is refused, and none that cannot is let through. In
/// particular a boolean never reaches a general-purpose register, nor a word a
/// predicate register.
pub proof fn lemma_copy_fault_iff(copy: OpCopy)
    ensures
        copy_fault(copy) is None <==> copy_is_lowerable(copy),
        copy.dst matches Dst::Reg(r) && r.file == RegFile::GPR && (copy.src.src_ref is True
            || copy.src.src_ref is False || (copy.src.src_ref matches SrcRef::Reg(s)
            && s.spec_is_predicate())) ==> copy_fault(copy) is Some,
        copy.dst matches Dst::Reg(r) && r.file == RegFile::Pred && (copy.src.src_ref is Zero
            || copy.src.src_ref is Imm32 || copy.src.src_ref is CBuf || (
        copy.src.src_ref matches SrcRef::Reg(s) && !s.spec_is_predicate())) ==> copy_fault(copy)
            is Some,
{
}

/// A swap has a defect exactly where it is no exchange of two single
/// registers of one file.
pub proof fn lemma_swap_fault_iff(swap: OpSwap)
    ensures
        swap_fault(swap) is None <==> swap_is_exchange(swap),
{
}

/// A copy is lowered to one native instruction, a move with the full lane
/// mask or a logic instruction on booleans; a swap to none, to one logic
/// instruction on booleans or to three on words.
pub proof fn lemma_lowered_shape(instr: Instr)
    requires
        instr_fault(instr) is None,
    ensures
        !instr.op.spec_is_pseudo() ==> replacement(instr) == seq![instr],
        instr.op matches Op::Copy(copy) ==> {
            let out = replacement(instr);
            &&& out.len() == 1
            &&& copy.dst->Reg_0.file == RegFile::GPR ==> out[0] == Instr::of(
                Op::Mov(OpMov { dst: copy.dst, src: copy.src, quad_lanes: ALL_LANES }),
            )
            &&& copy.dst->Reg_0.file == RegFile::Pred ==> out[0].op is PLop3
        },
        instr.op matches Op::Swap(swap) ==> {
            let out = replacement(instr);
            let x = swap.dsts[0]->Reg_0;
            let y = swap.dsts[1]->Reg_0;
            &&& x == y ==> out.len() == 0
            &&& x != y && x.spec_is_predicate() ==> out.len() == 1 && out[0].op is PLop3
            &&& x != y && !x.spec_is_predicate() ==> out.len() == 3 && out[0].op is Lop3
                && out[1].op is Lop3 && out[2].op is Lop3
        },
{
}

/// Lowering two lists one after the other lowers their concatenation: what
/// an instruction is replaced with does not depend on its neighbours.
pub proof fn lemma_lowered_concat(a: Seq<Instr>, b: Seq<Instr>)
    ensures
        lowered(a + b) == lowered(a) + lowered(b),
    decreases b.len(),
{
    if b.len() == 0 {
        assert(a + b == a);
    } else {
        assert((a + b).drop_last() == a + b.drop_last());
        assert((a + b).last() == b.last());
        lemma_lowered_concat(a, b.drop_last());
    }
}

/// A list without a copy or a swap is lowered to itself.
pub proof fn lemma_lowered_native(s: Seq<Instr>)
    requires
        !has_pseudo(s),
    ensures
        lowered(s) == s,
    decreases s.len(),
{
    if s.len() > 0 {
        assert(!s.last().op.spec_is_pseudo());
        assert forall|i: int| 0 <= i < s.drop_last().len() implies !(#[trigger] s.drop_last()[i]).op.spec_is_pseudo() by {
            assert(s.drop_last()[i] == s[i]);
        }
        lemma_lowered_native(s.drop_last());
        assert(s.drop_last() + seq![s.last()] == s);
    }
}

/// Order is kept around a site. Where position `k` of a list holds its only
/// copy or swap, the lowered list is the `k` instructions before it, then its
/// replacement, then the instructions after it: its length is that of the
/// list, less one, plus that of the replacement; the replacement stands at
/// positions `k` and following, and every other instruction keeps its place
/// among the others.
pub proof fn lemma_lowered_single_site(s: Seq<Instr>, k: int)
    requires
        0 <= k < s.len(),
        forall|i: int| 0 <= i < s.len() && i != k ==> !(#[trigger] s[i]).op.spec_is_pseudo(),
    ensures
        lowered(s) == s.take(k) + replacement(s[k]) + s.skip(k + 1),
        lowered(s).len() == s.len() - 1 + replacement(s[k]).len(),
        forall|i: int| 0 <= i < k ==> lowered(s)[i] == s[i],
        forall|j: int|
            0 <= j < replacement(s[k]).len() ==> lowered(s)[k + j] == replacement(s[k])[j],
        forall|i: int|
            k < i < s.len() ==> lowered(s)[i - 1 + replacement(s[k]).len()] == s[i],
{
    let front = s.take(k);
    let site = seq![s[k]];
    let back = s.skip(k + 1);
    assert(s == front + site + back);
    assert(!has_pseudo(front));
    assert(!has_pseudo(back)) by {
        assert forall|i: int| 0 <= i < back.len() implies !(#[trigger] back[i]).op.spec_is_pseudo() by {
            assert(back[i] == s[k + 1 + i]);
        }
    }
    lemma_lowered_native(front);
    lemma_lowered_native(back);
    lemma_lowered_concat(front + site, back);
    lemma_lowered_concat(front, site);
    assert(lowered(site) == replacement(s[k])) by {
        assert(site.drop_last().len() == 0);
        assert(lowered(site.drop_last()) == Seq::<Instr>::empty());
        assert(site.last() == s[k]);
        assert(Seq::<Instr>::empty() + replacement(s[k]) == replacement(s[k]));
    }
}

/// The first defect of a list is that of the first instruction, in program
/// order, that has one; a list has none exactly where no instruction has one.
pub proof fn lemma_first_fault_is_first(s: Seq<Instr>)
    ensures
        first_fault(s) is None <==> forall|i: int|
            0 <= i < s.len() ==> instr_fault(#[trigger] s[i]) is None,
        first_fault(s) matches Some(e) ==> exists|k: int|
            0 <= k < s.len() && instr_fault(#[trigger] s[k]) == Some(e) && forall|i: int|
                0 <= i < k ==> instr_fault(#[trigger] s[i]) is None,
    decreases s.len(),
{
    if s.len() > 0 {
        let init = s.drop_last();
        lemma_first_fault_is_first(init);
        assert forall|i: int| 0 <= i < init.len() implies init[i] == s[i] by {}
        match first_fault(init) {
            Some(e) => {
                let k = choose|k: int|
                    0 <= k < init.len() && instr_fault(#[trigger] init[k]) == Some(e)
                        && forall|i: int| 0 <= i < k ==> instr_fault(#[trigger] init[i]) is None;
                assert(instr_fault(s[k]) == Some(e));
                assert forall|i: int| 0 <= i < k implies instr_fault(#[trigger] s[i]) is None by {
                    assert(instr_fault(init[i]) is None);
                }
            },
            None => {
                assert forall|i: int| 0 <= i < init.len() implies instr_fault(
                    #[trigger] s[i],
                ) is None by {
                    assert(instr_fault(init[i]) is None);
                }
                if let Some(e) = instr_fault(s.last()) {
                    let k = s.len() - 1;
                    assert(instr_fault(s[k]) == Some(e));
                }
            },
        }
    }
}

/// The pass that lowers copies and swaps.
pub struct LowerCopySwap {}

impl LowerCopySwap {
    pub fn new() -> (pass: LowerCopySwap) {
        Self {  }
    }

    /// Appends to `b` the native instructions that stand for `copy`, or
    /// reports the defect of `copy` and leaves `b` as it was.
    pub fn lower_copy<B: Builder>(&mut self, b: &mut B, copy: OpCopy) -> (res: Result<
        (),
        LowerError,
    >)
        ensures
            match copy_fault(copy) {
                Some(kind) => res == Err::<(), LowerError>(LowerError { kind, op: Op::Copy(copy) })
                    && final(b).emitted() == old(b).emitted(),
                None => res is Ok && final(b).emitted() == old(b).emitted() + lowered_copy(copy),
            },
    {
        let op = Op::Copy(copy);
        if let Dst::SSA(_) = copy.dst {
            return Err(LowerError { kind: ErrorKind::Unallocated, op });
        }
        if let SrcRef::SSA(_) = copy.src.src_ref {
            return Err(LowerError { kind: ErrorKind::Unallocated, op });
        }
        let dst_reg = match copy.dst.as_reg() {
            Some(r) => *r,
            None => {
                return Err(LowerError { kind: ErrorKind::Malformed, op });
            },
        };
        if dst_reg.comps() != 1 || !copy.src.src_mod.is_none() {
            return Err(LowerError { kind: ErrorKind::Malformed, op });
        }
        match dst_reg.file() {
            RegFile::GPR => match copy.src.src_ref {
                SrcRef::Zero | SrcRef::Imm32(_) | SrcRef::CBuf(_) => {
                    b.push_op(
                        Op::Mov(OpMov { dst: copy.dst, src: copy.src, quad_lanes: ALL_LANES }),
                    );
                },
                SrcRef::True | SrcRef::False => {
                    return Err(LowerError { kind: ErrorKind::Unsupported, op });
                },
                SrcRef::Reg(src_reg) => match src_reg.file() {
                    RegFile::GPR => {
                        b.push_op(
                            Op::Mov(OpMov { dst: copy.dst, src: copy.src, quad_lanes: ALL_LANES }),
                        );
                    },
                    _ => {
                        return Err(LowerError { kind: ErrorKind::Unsupported, op });
                    },
                },
                SrcRef::SSA(_) => {
                    return Err(LowerError { kind: ErrorKind::Unallocated, op });
                },
            },
            RegFile::Pred => match copy.src.src_ref {
                SrcRef::Zero | SrcRef::Imm32(_) | SrcRef::CBuf(_) => {
                    return Err(LowerError { kind: ErrorKind::Unsupported, op });
                },
                SrcRef::True => {
                    b.lop2_to(
                        copy.dst,
                        LogicOp::new_const(true),
                        Src::new_imm_bool(true),
                        Src::new_imm_bool(true),
                    );
                },
                SrcRef::False => {
                    b.lop2_to(
                        copy.dst,
                        LogicOp::new_const(false),
                        Src::new_imm_bool(true),
                        Src::new_imm_bool(true),
                    );
                },
                SrcRef::Reg(src_reg) => match src_reg.file() {
                    RegFile::Pred => {
                        let pass_x = LogicOp::new_lut(
                            &|x: bool, _y: bool, _z: bool| -> (r: bool)
                                ensures r == x
                                { x },
                        );
                        proof {
                            LogicOp::lemma_table_of(pass_x, |x: bool, y: bool, z: bool| x);
                        }
                        b.lop2_to(copy.dst, pass_x, copy.src, Src::new_imm_bool(true));
                    },
                    _ => {
                        return Err(LowerError { kind: ErrorKind::Unsupported, op });
                    },
                },
                SrcRef::SSA(_) => {
                    return Err(LowerError { kind: ErrorKind::Unallocated, op });
                },
            },
            _ => {
                return Err(LowerError { kind: ErrorKind::Unsupported, op });
            },
        }
        Ok(())
    }

    /// Appends to `b` the native instructions that stand for `swap`, or
    /// reports the defect of `swap` and leaves `b` as it was.
    pub fn lower_swap<B: Builder>(&mut self, b: &mut B, swap: OpSwap) -> (res: Result<
        (),
        LowerError,
    >)
        ensures
            match swap_fault(swap) {
                Some(kind) => res == Err::<(), LowerError>(LowerError { kind, op: Op::Swap(swap) })
                    && final(b).emitted() == old(b).emitted(),
                None => res is Ok && final(b).emitted() == old(b).emitted() + lowered_swap(swap),
            },
    {
        let op = Op::Swap(swap);
        if let Dst::SSA(_) = swap.dsts[0] {
            return Err(LowerError { kind: ErrorKind::Unallocated, op });
        }
        if let Dst::SSA(_) = swap.dsts[1] {
            return Err(LowerError { kind: ErrorKind::Unallocated, op });
        }
        if let SrcRef::SSA(_) = swap.srcs[0].src_ref {
            return Err(LowerError { kind: ErrorKind::Unallocated, op });
        }
        if let SrcRef::SSA(_) = swap.srcs[1].src_ref {
            return Err(LowerError { kind: ErrorKind::Unallocated, op });
        }
        let malformed = LowerError { kind: ErrorKind::Malformed, op };
        let x = match swap.dsts[0].as_reg() {
            Some(r) => *r,
            None => {
                return Err(malformed);
            },
        };
        let y = match swap.dsts[1].as_reg() {
            Some(r) => *r,
            None => {
                return Err(malformed);
            },
        };
        if x.file() != y.file() || x.comps() != 1 || y.comps() != 1 {
            return Err(malformed);
        }
        if !swap.srcs[0].src_mod.is_none() || !swap.srcs[1].src_mod.is_none() {
            return Err(malformed);
        }
        match swap.srcs[0].src_ref.as_reg() {
            Some(r) => {
                if *r != y {
                    return Err(malformed);
                }
            },
            None => {
                return Err(malformed);
            },
        }
        match swap.srcs[1].src_ref.as_reg() {
            Some(r) => {
                if *r != x {
                    return Err(malformed);
                }
            },
            None => {
                return Err(malformed);
            },
        }

        if x == y {
            // Nothing to do: a register already holds its own value.
        } else if x.is_predicate() {
            let pass_y = LogicOp::new_lut(
                &|_x: bool, y: bool, _z: bool| -> (r: bool)
                    ensures r == y
                    { y },
            );
            let pass_x = LogicOp::new_lut(
                &|x: bool, _y: bool, _z: bool| -> (r: bool)
                    ensures r == x
                    { x },
            );
            proof {
                LogicOp::lemma_table_of(pass_y, |x: bool, y: bool, z: bool| y);
                LogicOp::lemma_table_of(pass_x, |x: bool, y: bool, z: bool| x);
            }
            b.push_op(
                Op::PLop3(
                    OpPLop3 {
                        dsts: [Dst::Reg(x), Dst::Reg(y)],
                        srcs: [Src::new_reg(x), Src::new_reg(y), Src::new_imm_bool(true)],
                        ops: [pass_y, pass_x],
                    },
                ),
            );
        } else {
            let xor = LogicOp::new_lut(
                &|x: bool, y: bool, _z: bool| -> (r: bool)
                    ensures r == (x != y)
                    { x != y },
            );
            proof {
                LogicOp::lemma_table_of(xor, |x: bool, y: bool, z: bool| x != y);
            }
            b.lop2_to(Dst::Reg(x), xor, Src::new_reg(x), Src::new_reg(y));
            b.lop2_to(Dst::Reg(y), xor, Src::new_reg(x), Src::new_reg(y));
            b.lop2_to(Dst::Reg(x), xor, Src::new_reg(x), Src::new_reg(y));
        }
        Ok(())
    }

    /// What `instr` is replaced with: the native instructions of a copy or a
    /// swap that always runs, any other instruction itself.
    pub fn lower_instr(&mut self, instr: Instr) -> (res: Result<MappedInstrs, LowerError>)
        ensures
            match instr_fault(instr) {
                Some(e) => res == Err::<MappedInstrs, LowerError>(e),
                None => res is Ok && res->Ok_0@ == replacement(instr),
            },
    {
        match instr.op {
            Op::Copy(copy) => {
                if !instr.pred.is_true() {
                    return Err(LowerError { kind: ErrorKind::Guarded, op: instr.op });
                }
                let mut b = InstrBuilder::new();
                match self.lower_copy(&mut b, copy) {
                    Ok(()) => Ok(b.as_mapped_instrs()),
                    Err(e) => Err(e),
                }
            },
            Op::Swap(swap) => {
                if !instr.pred.is_true() {
                    return Err(LowerError { kind: ErrorKind::Guarded, op: instr.op });
                }
                let mut b = InstrBuilder::new();
                match self.lower_swap(&mut b, swap) {
                    Ok(()) => Ok(b.as_mapped_instrs()),
                    Err(e) => Err(e),
                }
            },
            _ => Ok(MappedInstrs::One(instr)),
        }
    }

    /// Lowers every copy and swap of `s`, in one walk over its instructions
    /// in program order. Where one of them has a defect, the first such defect
    /// is reported and `s` stays as it was.
    pub fn run(&mut self, s: &mut Shader) -> (res: Result<(), LowerError>)
        ensures
            match first_fault(old(s)@) {
                Some(e) => res == Err::<(), LowerError>(e) && final(s)@ == old(s)@,
                None => res is Ok && final(s)@ == lowered(old(s)@),
            },
            res is Ok ==> !has_pseudo(final(s)@),
    {
        let n = s.instrs.len();
        let mut out: Vec<Instr> = Vec::new();
        let mut i: usize = 0;
        while i < n
            invariant
                i <= n,
                n == s@.len(),
                s@ == old(s)@,
                first_fault(s@.take(i as int)) is None,
                out@ == lowered(s@.take(i as int)),
            decreases n - i,
        {
            let instr = s.instrs[i];
            proof {
                assert(s@.take(i + 1).drop_last() == s@.take(i as int));
            }
            match self.lower_instr(instr) {
                Ok(mapped) => {
                    mapped.append_to(&mut out);
                },
                Err(e) => {
                    proof {
                        lemma_first_fault_prefix(s@, i + 1, e);
                    }
                    return Err(e);
                },
            }
            i += 1;
        }
        proof {
            assert(s@.take(n as int) == s@);
            lemma_lowered_is_native(s@);
        }
        s.instrs = out;
        Ok(())
    }
}

impl Shader {
    /// Replaces every copy and swap of the shader with the native
    /// instructions that stand for it, and leaves every other instruction
    /// where it is. Where a copy or a swap has a defect, the first such defect,
    /// in program order, is reported and the shader stays as it was.
    pub fn lower_copy_swap(&mut self) -> (res: Result<(), LowerError>)
        ensures
            match first_fault(old(self)@) {
                Some(e) => res == Err::<(), LowerError>(e) && final(self)@ == old(self)@,
                None => res is Ok && final(self)@ == lowered(old(self)@),
            },
            res is Ok ==> !has_pseudo(final(self)@),
    {
        let mut pass = LowerCopySwap::new();
        pass.run(self)
    }
}

} // verus!
