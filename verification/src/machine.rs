//! What the instructions mean, and the proof that the lowering keeps it.
//!
//! The model follows one lane of a quad through a list of instructions. It
//! covers single registers and unmodified operands, which is all that a copy
//! or a swap may hold when it is lowered; a step outside the model has no
//! result.

use crate::ir::{
    CBufRef, Dst, Instr, Op, OpCopy, OpSwap, Pred, PredRef, RegRef, Src, SrcRef, ALL_LANES,
};
use crate::lower::{
    copy_fault, first_fault, instr_fault, lowered, lowered_copy, lowered_exchange, lowered_swap,
    replacement, swap_fault,
};
use crate::logic_op::LogicOp;
use vstd::prelude::*;

verus! {

/// What one lane sees: the word in each general-purpose register, the boolean
/// in each predicate register, the words of the constant buffers, and which of
/// the four lanes of its quad it is.
#[verifier::ext_equal]
pub struct Machine {
    pub words: spec_fn(RegRef) -> u32,
    pub flags: spec_fn(RegRef) -> bool,
    pub consts: spec_fn(CBufRef) -> u32,
    pub lane: u8,
}

/// Whether the lane mask `mask` selects lane `lane`.
pub open spec fn lane_active(mask: u8, lane: u8) -> bool {
    (mask >> lane) & 1 == 1
}

/// Whether `r` is one register that holds a word.
pub open spec fn is_word_reg(r: RegRef) -> bool {
    r.comps == 1 && !r.spec_is_predicate()
}

/// Whether `r` is one register that holds a boolean.
pub open spec fn is_flag_reg(r: RegRef) -> bool {
    r.comps == 1 && r.spec_is_predicate()
}

impl Machine {
    /// The word in the register `r`.
    pub open spec fn reg_word(self, r: RegRef) -> u32 {
        (self.words)(r)
    }

    /// The boolean in the register `r`.
    pub open spec fn reg_flag(self, r: RegRef) -> bool {
        (self.flags)(r)
    }

    /// The word that `src` reads, where it reads one.
    pub open spec fn word(self, src: Src) -> Option<u32> {
        if !src.src_mod.spec_is_none() {
            None
        } else {
            match src.src_ref {
                SrcRef::Zero => Some(0u32),
                SrcRef::Imm32(u) => Some(u),
                SrcRef::CBuf(c) => Some((self.consts)(c)),
                SrcRef::Reg(r) => if is_word_reg(r) {
                    Some((self.words)(r))
                } else {
                    None
                },
                _ => None,
            }
        }
    }

    /// The boolean that `src` reads, where it reads one.
    pub open spec fn flag(self, src: Src) -> Option<bool> {
        if !src.src_mod.spec_is_none() {
            None
        } else {
            match src.src_ref {
                SrcRef::True => Some(true),
                SrcRef::False => Some(false),
                SrcRef::Reg(r) => if is_flag_reg(r) {
                    Some((self.flags)(r))
                } else {
                    None
                },
                _ => None,
            }
        }
    }

    /// The machine after `w` is written to the word register `r`.
    pub open spec fn with_word(self, r: RegRef, w: u32) -> Machine {
        Machine { words: |q: RegRef| if q == r { w } else { (self.words)(q) }, ..self }
    }

    /// The machine after `b` is written to the predicate register `r`.
    pub open spec fn with_flag(self, r: RegRef, b: bool) -> Machine {
        Machine { flags: |q: RegRef| if q == r { b } else { (self.flags)(q) }, ..self }
    }

    /// The machine after `w` is written to `dst`, where `dst` takes a word.
    pub open spec fn write_word(self, dst: Dst, w: u32) -> Option<Machine> {
        match dst {
            Dst::Null => Some(self),
            Dst::Reg(r) => if is_word_reg(r) {
                Some(self.with_word(r, w))
            } else {
                None
            },
            _ => None,
        }
    }

    /// The machine after `b` is written to `dst`, where `dst` takes a boolean.
    pub open spec fn write_flag(self, dst: Dst, b: bool) -> Option<Machine> {
        match dst {
            Dst::Null => Some(self),
            Dst::Reg(r) => if is_flag_reg(r) {
                Some(self.with_flag(r, b))
            } else {
                None
            },
            _ => None,
        }
    }

    /// Whether an instruction under the guard `pred` takes effect.
    pub open spec fn passes(self, pred: Pred) -> Option<bool> {
        match pred.pred_ref {
            PredRef::Always => Some(!pred.pred_inv),
            PredRef::Reg(r) => if is_flag_reg(r) {
                Some((self.flags)(r) != pred.pred_inv)
            } else {
                None
            },
            _ => None,
        }
    }

    /// The machine after `op` has taken effect.
    pub open spec fn exec_op(self, op: Op) -> Option<Machine> {
        match op {
            Op::Add(a) => match (self.word(a.srcs[0]), self.word(a.srcs[1])) {
                (Some(x), Some(y)) => self.write_word(a.dst, ((x + y) % 0x1_0000_0000) as u32),
                _ => None,
            },
            Op::Mul(a) => match (self.word(a.srcs[0]), self.word(a.srcs[1])) {
                (Some(x), Some(y)) => self.write_word(a.dst, ((x * y) % 0x1_0000_0000) as u32),
                _ => None,
            },
            Op::Mov(mov) => match self.word(mov.src) {
                Some(w) => if lane_active(mov.quad_lanes, self.lane) {
                    self.write_word(mov.dst, w)
                } else if self.write_word(mov.dst, w) is Some {
                    Some(self)
                } else {
                    None
                },
                None => None,
            },
            Op::Lop3(lop) => match (
                self.word(lop.srcs[0]),
                self.word(lop.srcs[1]),
                self.word(lop.srcs[2]),
            ) {
                (Some(x), Some(y), Some(z)) => self.write_word(
                    lop.dst,
                    lop.op.spec_eval_bits(x, y, z),
                ),
                _ => None,
            },
            Op::PLop3(lop) => match (
                self.flag(lop.srcs[0]),
                self.flag(lop.srcs[1]),
                self.flag(lop.srcs[2]),
            ) {
                (Some(x), Some(y), Some(z)) => if lop.dsts[0] is Reg && lop.dsts[0]
                    == lop.dsts[1] {
                    None
                } else {
                    match self.write_flag(lop.dsts[0], lop.ops[0].spec_eval(x, y, z)) {
                        Some(m) => m.write_flag(lop.dsts[1], lop.ops[1].spec_eval(x, y, z)),
                        None => None,
                    }
                },
                _ => None,
            },
            Op::Copy(copy) => self.exec_copy(copy),
            Op::Swap(swap) => self.exec_swap(swap),
        }
    }

    /// The machine after the copy: the destination holds what the source
    /// held, and nothing else has changed.
    pub open spec fn exec_copy(self, copy: OpCopy) -> Option<Machine> {
        if copy.dst.spec_is_predicate() {
            match self.flag(copy.src) {
                Some(b) => self.write_flag(copy.dst, b),
                None => None,
            }
        } else {
            match self.word(copy.src) {
                Some(w) => self.write_word(copy.dst, w),
                None => None,
            }
        }
    }

    /// The machine after the swap: each of the two registers holds what the
    /// other held, and nothing else has changed.
    pub open spec fn exec_swap(self, swap: OpSwap) -> Option<Machine> {
        match (swap.dsts[0], swap.dsts[1]) {
            (Dst::Reg(x), Dst::Reg(y)) => if swap.srcs[0] != Src::reg(y) || swap.srcs[1]
                != Src::reg(x) {
                None
            } else if is_word_reg(x) && is_word_reg(y) {
                Some(self.with_word(x, (self.words)(y)).with_word(y, (self.words)(x)))
            } else if is_flag_reg(x) && is_flag_reg(y) {
                Some(self.with_flag(x, (self.flags)(y)).with_flag(y, (self.flags)(x)))
            } else {
                None
            },
            _ => None,
        }
    }

    /// The machine after `instr`: after its operation where its guard lets it
    /// run, unchanged where not.
    pub open spec fn step(self, instr: Instr) -> Option<Machine> {
        match self.passes(instr.pred) {
            Some(true) => self.exec_op(instr.op),
            Some(false) => Some(self),
            None => None,
        }
    }

    /// The machine after the instructions of `s`, taken in order.
    pub open spec fn run(self, s: Seq<Instr>) -> Option<Machine>
        decreases s.len(),
    {
        if s.len() == 0 {
            Some(self)
        } else {
            match self.run(s.drop_last()) {
                Some(m) => m.step(s.last()),
                None => None,
            }
        }
    }
}

/// Every lane of a quad is in the full lane mask.
pub proof fn lemma_all_lanes(lane: u8)
    requires
        lane < 4,
    ensures
        lane_active(ALL_LANES, lane),
{
    assert((0xfu8 >> lane) & 1 == 1) by (bit_vector)
        requires
            lane < 4,
    ;
}

/// Exchanging two words with three exclusive ors: the second and the third
/// give back, each in the other's place, the words that went in.
pub proof fn lemma_xor_exchange(x: u32, y: u32)
    ensures
        (x ^ y) ^ y == x,
        (x ^ y) ^ x == y,
{
    assert((x ^ y) ^ y == x) by (bit_vector);
    assert((x ^ y) ^ x == y) by (bit_vector);
}

impl Machine {
    /// A machine is one of the four lanes of its quad.
    pub open spec fn wf(self) -> bool {
        self.lane < 4
    }

    /// No instruction changes which lane a machine is.
    pub proof fn lemma_step_keeps_lane(self, instr: Instr)
        ensures
            self.step(instr) matches Some(m) ==> m.lane == self.lane,
    {
    }

    /// A list of one instruction runs as that instruction.
    pub proof fn lemma_run_one(self, instr: Instr)
        ensures
            self.run(seq![instr]) == self.step(instr),
    {
        let s = seq![instr];
        assert(s.drop_last().len() == 0);
        assert(self.run(s.drop_last()) == Some(self));
        assert(s.last() == instr);
    }

    /// A list runs as its first part and then, from where that ends, its
    /// second part.
    pub proof fn lemma_run_concat(self, a: Seq<Instr>, b: Seq<Instr>)
        ensures
            self.run(a + b) == match self.run(a) {
                Some(m) => m.run(b),
                None => None,
            },
        decreases b.len(),
    {
        if b.len() == 0 {
            assert(a + b == a);
        } else {
            assert((a + b).drop_last() == a + b.drop_last());
            assert((a + b).last() == b.last());
            self.lemma_run_concat(a, b.drop_last());
        }
    }

    /// No list of instructions changes which lane a machine is.
    pub proof fn lemma_run_keeps_lane(self, s: Seq<Instr>)
        ensures
            self.run(s) matches Some(m) ==> m.lane == self.lane,
        decreases s.len(),
    {
        if s.len() > 0 {
            self.lemma_run_keeps_lane(s.drop_last());
            if let Some(m) = self.run(s.drop_last()) {
                m.lemma_step_keeps_lane(s.last());
            }
        }
    }

    /// The native instructions of a copy do what the copy asks for: from
    /// every state they lead to the state in which the destination holds what
    /// the source held and nothing else has changed.
    pub proof fn lemma_copy_preserved(self, copy: OpCopy)
        requires
            self.wf(),
            copy_fault(copy) is None,
        ensures
            self.run(lowered_copy(copy)) == self.exec_copy(copy),
    {
        lemma_all_lanes(self.lane);
        LogicOp::lemma_constant_eval(true);
        LogicOp::lemma_constant_eval(false);
        LogicOp::lemma_first_eval();
        let s = lowered_copy(copy);
        assert(s.len() == 1);
        assert(s =~= seq![s[0]]);
        self.lemma_run_one(s[0]);
        match (self.run(s), self.exec_copy(copy)) {
            (Some(a), Some(b)) => {
                assert(a =~= b);
            },
            _ => {},
        }
    }

    /// The native instructions of a swap do what the swap asks for: from
    /// every state they lead to the state in which each of the two registers
    /// holds what the other held and nothing else has changed.
    pub proof fn lemma_swap_preserved(self, swap: OpSwap)
        requires
            swap_fault(swap) is None,
        ensures
            self.run(lowered_swap(swap)) == self.exec_swap(swap),
    {
        let x = swap.dsts[0]->Reg_0;
        let y = swap.dsts[1]->Reg_0;
        self.lemma_exchange_preserved(x, y);
    }

    /// The native instructions that exchange two single registers of one
    /// file lead, from every state, to the state in which each holds what the
    /// other held and nothing else has changed.
    pub proof fn lemma_exchange_preserved(self, x: RegRef, y: RegRef)
        requires
            x.file == y.file,
            x.comps == 1,
            y.comps == 1,
        ensures
            self.run(lowered_exchange(x, y)) == Some(
                if x.spec_is_predicate() {
                    self.with_flag(x, (self.flags)(y)).with_flag(y, (self.flags)(x))
                } else {
                    self.with_word(x, (self.words)(y)).with_word(y, (self.words)(x))
                },
            ),
            self.run(lowered_exchange(x, y)) matches Some(after) && if x.spec_is_predicate() {
                &&& after.reg_flag(x) == self.reg_flag(y)
                &&& after.reg_flag(y) == self.reg_flag(x)
                &&& forall|r: RegRef|
                    r != x && r != y ==> #[trigger] after.reg_flag(r) == self.reg_flag(r)
                &&& after.words == self.words
            } else {
                &&& after.reg_word(x) == self.reg_word(y)
                &&& after.reg_word(y) == self.reg_word(x)
                &&& forall|r: RegRef|
                    r != x && r != y ==> #[trigger] after.reg_word(r) == self.reg_word(r)
                &&& after.flags == self.flags
            },
    {
        let s = lowered_exchange(x, y);
        let wx = (self.words)(x);
        let wy = (self.words)(y);
        if x == y {
            assert(s.len() == 0);
            if x.spec_is_predicate() {
                assert(self.with_flag(x, (self.flags)(y)).with_flag(y, (self.flags)(x)) =~= self);
            } else {
                assert(self.with_word(x, wy).with_word(y, wx) =~= self);
            }
        } else if x.spec_is_predicate() {
            LogicOp::lemma_first_eval();
            LogicOp::lemma_second_eval();
            assert(s =~= seq![s[0]]);
            self.lemma_run_one(s[0]);
            let a = self.run(s)->Some_0;
            assert(a =~= self.with_flag(x, (self.flags)(y)).with_flag(y, (self.flags)(x)));
        } else {
            LogicOp::lemma_xor_bits(wx, wy, 0);
            LogicOp::lemma_xor_bits(wx ^ wy, wy, 0);
            LogicOp::lemma_xor_bits(wx ^ wy, wx, 0);
            lemma_xor_exchange(wx, wy);
            let m1 = self.with_word(x, wx ^ wy);
            let m2 = m1.with_word(y, wx);
            let m3 = m2.with_word(x, wy);
            assert(self.step(s[0]) == Some(m1));
            assert(m1.step(s[1]) == Some(m2));
            assert(m2.step(s[2]) == Some(m3));
            self.lemma_run_one(s[0]);
            m1.lemma_run_one(s[1]);
            m2.lemma_run_one(s[2]);
            assert(s =~= seq![s[0]] + seq![s[1]] + seq![s[2]]);
            self.lemma_run_concat(seq![s[0]], seq![s[1]]);
            self.lemma_run_concat(seq![s[0]] + seq![s[1]], seq![s[2]]);
            assert(m3 =~= self.with_word(x, wy).with_word(y, wx));
        }
    }

    /// What stands in the place of an instruction without defect does what
    /// the instruction does.
    pub proof fn lemma_replacement_preserved(self, instr: Instr)
        requires
            self.wf(),
            instr_fault(instr) is None,
        ensures
            self.run(replacement(instr)) == self.step(instr),
    {
        match instr.op {
            Op::Copy(copy) => {
                self.lemma_copy_preserved(copy);
            },
            Op::Swap(swap) => {
                self.lemma_swap_preserved(swap);
            },
            _ => {
                self.lemma_run_one(instr);
            },
        }
    }

    /// The lowering keeps the meaning of a program: a list without defects
    /// and its lowering lead from every state to the same state.
    pub proof fn lemma_lowering_preserved(self, s: Seq<Instr>)
        requires
            self.wf(),
            first_fault(s) is None,
        ensures
            self.run(lowered(s)) == self.run(s),
        decreases s.len(),
    {
        if s.len() > 0 {
            let init = s.drop_last();
            self.lemma_lowering_preserved(init);
            self.lemma_run_concat(lowered(init), replacement(s.last()));
            self.lemma_run_keeps_lane(init);
            if let Some(m) = self.run(init) {
                m.lemma_replacement_preserved(s.last());
            }
        }
    }
}

} // verus!
