//! Collecting the instructions that a lowering emits.

use crate::ir::{Dst, Instr, Op, OpLop3, OpPLop3, Src};
use crate::logic_op::LogicOp;
use vstd::prelude::*;

verus! {

/// The native operation that applies the two-input function `op` to `x` and
/// `y` and writes the result to `dst`: the logic instruction on booleans where
/// `dst` takes a boolean, the one on words elsewhere. The input that `op` does
/// not look at is `true` on booleans and zero on words.
pub open spec fn lop2(dst: Dst, op: LogicOp, x: Src, y: Src) -> Op {
    if dst.spec_is_predicate() {
        Op::PLop3(
            OpPLop3 {
                dsts: [dst, Dst::Null],
                srcs: [x, y, Src::imm_bool(true)],
                ops: [op, LogicOp::constant(false)],
            },
        )
    } else {
        Op::Lop3(OpLop3 { dst, srcs: [x, y, Src::zero()], op })
    }
}

/// Something that instructions can be appended to.
pub trait Builder {
    /// The instructions appended so far, oldest first.
    spec fn emitted(&self) -> Seq<Instr>;

    /// Appends `instr`.
    fn push_instr(&mut self, instr: Instr)
        ensures
            final(self).emitted() == old(self).emitted().push(instr),
    ;

    /// Appends `op`, to run unconditionally.
    fn push_op(&mut self, op: Op)
        ensures
            final(self).emitted() == old(self).emitted().push(Instr::of(op)),
    {
        self.push_instr(Instr::new(op));
    }

    /// Appends the native operation that applies `op` to `x` and `y` and
    /// writes the result to `dst`.
    fn lop2_to(&mut self, dst: Dst, op: LogicOp, x: Src, y: Src)
        ensures
            final(self).emitted() == old(self).emitted().push(Instr::of(lop2(dst, op, x, y))),
    {
        if dst.is_predicate() {
            self.push_op(
                Op::PLop3(
                    OpPLop3 {
                        dsts: [dst, Dst::Null],
                        srcs: [x, y, Src::new_imm_bool(true)],
                        ops: [op, LogicOp::new_const(false)],
                    },
                ),
            );
        } else {
            self.push_op(Op::Lop3(OpLop3 { dst, srcs: [x, y, Src::new_zero()], op }));
        }
    }
}

/// What one instruction was replaced with.
#[derive(Clone, Debug, PartialEq, Eq)]
pub enum MappedInstrs {
    Empty,
    One(Instr),
    Many(Vec<Instr>),
}

impl View for MappedInstrs {
    type V = Seq<Instr>;

    open spec fn view(&self) -> Seq<Instr> {
        match self {
            MappedInstrs::Empty => Seq::empty(),
            MappedInstrs::One(i) => seq![*i],
            MappedInstrs::Many(v) => v@,
        }
    }
}

impl MappedInstrs {
    /// Moves the instructions to the end of `out`, in their order.
    pub fn append_to(self, out: &mut Vec<Instr>)
        ensures
            final(out)@ == old(out)@ + self@,
    {
        match self {
            MappedInstrs::Empty => {},
            MappedInstrs::One(i) => {
                out.push(i);
            },
            MappedInstrs::Many(v) => {
                let mut v = v;
                out.append(&mut v);
            },
        }
    }
}

/// A builder that keeps what it is given in a vector.
pub struct InstrBuilder {
    instrs: Vec<Instr>,
}

impl View for InstrBuilder {
    type V = Seq<Instr>;

    closed spec fn view(&self) -> Seq<Instr> {
        self.instrs@
    }
}

impl Builder for InstrBuilder {
    open spec fn emitted(&self) -> Seq<Instr> {
        self@
    }

    fn push_instr(&mut self, instr: Instr) {
        self.instrs.push(instr);
    }
}

impl InstrBuilder {
    /// A builder that holds nothing yet.
    pub fn new() -> (b: InstrBuilder)
        ensures
            b@ == Seq::<Instr>::empty(),
    {
        InstrBuilder { instrs: Vec::new() }
    }

    /// The instructions collected, oldest first.
    pub fn as_vec(self) -> (v: Vec<Instr>)
        ensures
            v@ == self@,
    {
        self.instrs
    }

    /// The instructions collected, oldest first, in the shortest form that
    /// holds them.
    pub fn as_mapped_instrs(self) -> (m: MappedInstrs)
        ensures
            m@ == self@,
            self@.len() == 0 <==> m is Empty,
            self@.len() == 1 <==> m is One,
    {
        let n = self.instrs.len();
        if n == 0 {
            MappedInstrs::Empty
        } else if n == 1 {
            MappedInstrs::One(self.instrs[0])
        } else {
            MappedInstrs::Many(self.instrs)
        }
    }
}

} // verus!
