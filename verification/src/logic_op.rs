//! Three-input boolean functions as eight-entry truth tables.
//!
//! A [`LogicOp`] is what a hardware logic instruction is programmed with. The
//! same table answers two questions: what the instruction computes on three
//! booleans (`eval`), and what it computes on three words, bit by bit
//! (`eval_bits`).

use vstd::prelude::*;

verus! {

/// The row of the truth table that holds the output for the inputs `(x, y, z)`.
///
/// The first input is the most significant bit of the row number.
pub open spec fn row(x: bool, y: bool, z: bool) -> int {
    (if x { 4int } else { 0 }) + (if y { 2int } else { 0 }) + (if z { 1int } else { 0 })
}

/// Bit `i` of the packed table `lut`.
pub open spec fn row_bit(lut: u8, i: u8) -> bool {
    (lut >> i) & 1 == 1
}

/// Bit `k` of the word `w`.
pub open spec fn word_bit(w: u32, k: u32) -> bool {
    (w >> k) & 1 == 1
}

/// `w` where `b` holds, zero elsewhere.
pub open spec fn spec_gate(b: bool, w: u8) -> u8 {
    if b {
        w
    } else {
        0
    }
}

/// `w` where `b` holds, zero elsewhere.
pub open spec fn spec_gate_word(b: bool, w: u32) -> u32 {
    if b {
        w
    } else {
        0
    }
}

/// The byte whose bit `i` is `bi`.
pub open spec fn pack(
    b0: bool,
    b1: bool,
    b2: bool,
    b3: bool,
    b4: bool,
    b5: bool,
    b6: bool,
    b7: bool,
) -> u8 {
    spec_gate(b0, 0x01) | spec_gate(b1, 0x02) | spec_gate(b2, 0x04) | spec_gate(b3, 0x08)
        | spec_gate(b4, 0x10) | spec_gate(b5, 0x20) | spec_gate(b6, 0x40) | spec_gate(b7, 0x80)
}

/// A boolean function of three inputs, packed into one byte: bit `row(x, y, z)`
/// of `lut` is the output for the inputs `(x, y, z)`.
#[derive(Clone, Copy, Debug, PartialEq, Eq, Structural)]
pub struct LogicOp {
    pub lut: u8,
}

impl View for LogicOp {
    type V = Seq<bool>;

    /// The truth table: eight outputs, indexed by `row`.
    open spec fn view(&self) -> Seq<bool> {
        Seq::new(8, |i: int| row_bit(self.lut, i as u8))
    }
}

#[verifier::when_used_as_spec(spec_gate)]
fn gate(b: bool, w: u8) -> (r: u8)
    ensures
        r == spec_gate(b, w),
{
    if b {
        w
    } else {
        0
    }
}

#[verifier::when_used_as_spec(spec_gate_word)]
fn gate_word(b: bool, w: u32) -> (r: u32)
    ensures
        r == spec_gate_word(b, w),
{
    if b {
        w
    } else {
        0
    }
}

impl LogicOp {
    /// The output of the function on the inputs `(x, y, z)`.
    pub open spec fn spec_eval(&self, x: bool, y: bool, z: bool) -> bool {
        self@[row(x, y, z)]
    }

    /// The output of the function applied to each bit position of three words:
    /// the union of the minterms whose row of the table holds `true`.
    pub open spec fn spec_eval_bits(&self, x: u32, y: u32, z: u32) -> u32 {
        spec_gate_word(self@[0], !x & !y & !z) | spec_gate_word(self@[1], !x & !y & z)
            | spec_gate_word(self@[2], !x & y & !z) | spec_gate_word(self@[3], !x & y & z)
            | spec_gate_word(self@[4], x & !y & !z) | spec_gate_word(self@[5], x & !y & z)
            | spec_gate_word(self@[6], x & y & !z) | spec_gate_word(self@[7], x & y & z)
    }

    /// The table of the spec-level function `f`.
    pub open spec fn from_fn(f: spec_fn(bool, bool, bool) -> bool) -> LogicOp {
        LogicOp {
            lut: pack(
                f(false, false, false),
                f(false, false, true),
                f(false, true, false),
                f(false, true, true),
                f(true, false, false),
                f(true, false, true),
                f(true, true, false),
                f(true, true, true),
            ),
        }
    }

    /// The table of the function that ignores its inputs and yields `val`.
    pub open spec fn constant(val: bool) -> LogicOp {
        Self::from_fn(|x: bool, y: bool, z: bool| val)
    }

    /// The table of the function that yields its first input.
    pub open spec fn first() -> LogicOp {
        Self::from_fn(|x: bool, y: bool, z: bool| x)
    }

    /// The table of the function that yields its second input.
    pub open spec fn second() -> LogicOp {
        Self::from_fn(|x: bool, y: bool, z: bool| y)
    }

    /// The table of the exclusive or of the first two inputs.
    pub open spec fn xor() -> LogicOp {
        Self::from_fn(|x: bool, y: bool, z: bool| x != y)
    }

    /// Every bit of a packed table is the boolean it was packed from.
    pub proof fn lemma_pack_rows(
        b0: bool,
        b1: bool,
        b2: bool,
        b3: bool,
        b4: bool,
        b5: bool,
        b6: bool,
        b7: bool,
    )
        ensures
            (LogicOp { lut: pack(b0, b1, b2, b3, b4, b5, b6, b7) })@ == seq![
                b0,
                b1,
                b2,
                b3,
                b4,
                b5,
                b6,
                b7,
            ],
    {
        let lut = pack(b0, b1, b2, b3, b4, b5, b6, b7);
        assert(row_bit(lut, 0) == b0 && row_bit(lut, 1) == b1 && row_bit(lut, 2) == b2 && row_bit(
            lut,
            3,
        ) == b3 && row_bit(lut, 4) == b4 && row_bit(lut, 5) == b5 && row_bit(lut, 6) == b6
            && row_bit(lut, 7) == b7) by (bit_vector)
            requires
                lut == pack(b0, b1, b2, b3, b4, b5, b6, b7),
        ;
    }

    /// The table of `f` yields what `f` yields, on all inputs.
    pub proof fn lemma_from_fn(f: spec_fn(bool, bool, bool) -> bool)
        ensures
            forall|x: bool, y: bool, z: bool| #[trigger] Self::from_fn(f).spec_eval(x, y, z) == f(x, y, z),
    {
        Self::lemma_pack_rows(
            f(false, false, false),
            f(false, false, true),
            f(false, true, false),
            f(false, true, true),
            f(true, false, false),
            f(true, false, true),
            f(true, true, false),
            f(true, true, true),
        );
    }

    /// Two tables that agree on all inputs are the same table.
    pub proof fn lemma_eval_determines(a: LogicOp, b: LogicOp)
        requires
            forall|x: bool, y: bool, z: bool| a.spec_eval(x, y, z) == b.spec_eval(x, y, z),
        ensures
            a == b,
    {
        let p = a.lut;
        let q = b.lut;
        assert(a.spec_eval(false, false, false) == b.spec_eval(false, false, false));
        assert(a.spec_eval(false, false, true) == b.spec_eval(false, false, true));
        assert(a.spec_eval(false, true, false) == b.spec_eval(false, true, false));
        assert(a.spec_eval(false, true, true) == b.spec_eval(false, true, true));
        assert(a.spec_eval(true, false, false) == b.spec_eval(true, false, false));
        assert(a.spec_eval(true, false, true) == b.spec_eval(true, false, true));
        assert(a.spec_eval(true, true, false) == b.spec_eval(true, true, false));
        assert(a.spec_eval(true, true, true) == b.spec_eval(true, true, true));
        assert(p == q) by (bit_vector)
            requires
                row_bit(p, 0) == row_bit(q, 0),
                row_bit(p, 1) == row_bit(q, 1),
                row_bit(p, 2) == row_bit(q, 2),
                row_bit(p, 3) == row_bit(q, 3),
                row_bit(p, 4) == row_bit(q, 4),
                row_bit(p, 5) == row_bit(q, 5),
                row_bit(p, 6) == row_bit(q, 6),
                row_bit(p, 7) == row_bit(q, 7),
        ;
    }

    /// A table that agrees with `f` on all inputs is the table of `f`.
    pub proof fn lemma_table_of(op: LogicOp, f: spec_fn(bool, bool, bool) -> bool)
        requires
            forall|x: bool, y: bool, z: bool| op.spec_eval(x, y, z) == f(x, y, z),
        ensures
            op == Self::from_fn(f),
    {
        Self::lemma_from_fn(f);
        Self::lemma_eval_determines(op, Self::from_fn(f));
    }

    /// A constant table yields its constant, whatever the inputs.
    pub proof fn lemma_constant_eval(val: bool)
        ensures
            forall|x: bool, y: bool, z: bool| #[trigger] Self::constant(val).spec_eval(x, y, z) == val,
    {
        Self::lemma_from_fn(|x: bool, y: bool, z: bool| val);
    }

    /// The table `first` yields its first input, whatever the other two.
    pub proof fn lemma_first_eval()
        ensures
            forall|x: bool, y: bool, z: bool| #[trigger] Self::first().spec_eval(x, y, z) == x,
    {
        Self::lemma_from_fn(|x: bool, y: bool, z: bool| x);
    }

    /// The table `second` yields its second input, whatever the other two.
    pub proof fn lemma_second_eval()
        ensures
            forall|x: bool, y: bool, z: bool| #[trigger] Self::second().spec_eval(x, y, z) == y,
    {
        Self::lemma_from_fn(|x: bool, y: bool, z: bool| y);
    }

    /// The table `xor` yields whether its first two inputs differ.
    pub proof fn lemma_xor_eval()
        ensures
            forall|x: bool, y: bool, z: bool|
                #[trigger] Self::xor().spec_eval(x, y, z) == (x != y),
    {
        Self::lemma_from_fn(|x: bool, y: bool, z: bool| x != y);
    }

    /// On words, a table computes in each bit position what it computes on
    /// the three booleans that stand there.
    pub proof fn lemma_eval_bits_pointwise(op: LogicOp, x: u32, y: u32, z: u32, k: u32)
        requires
            k < 32,
        ensures
            word_bit(op.spec_eval_bits(x, y, z), k) == op.spec_eval(
                word_bit(x, k),
                word_bit(y, k),
                word_bit(z, k),
            ),
    {
        let t0 = op@[0];
        let t1 = op@[1];
        let t2 = op@[2];
        let t3 = op@[3];
        let t4 = op@[4];
        let t5 = op@[5];
        let t6 = op@[6];
        let t7 = op@[7];
        let r = op.spec_eval_bits(x, y, z);
        assert(word_bit(r, k) == (if word_bit(x, k) {
            if word_bit(y, k) {
                if word_bit(z, k) {
                    t7
                } else {
                    t6
                }
            } else {
                if word_bit(z, k) {
                    t5
                } else {
                    t4
                }
            }
        } else {
            if word_bit(y, k) {
                if word_bit(z, k) {
                    t3
                } else {
                    t2
                }
            } else {
                if word_bit(z, k) {
                    t1
                } else {
                    t0
                }
            }
        })) by (bit_vector)
            requires
                k < 32,
                r == spec_gate_word(t0, !x & !y & !z) | spec_gate_word(t1, !x & !y & z)
                    | spec_gate_word(t2, !x & y & !z) | spec_gate_word(t3, !x & y & z)
                    | spec_gate_word(t4, x & !y & !z) | spec_gate_word(t5, x & !y & z)
                    | spec_gate_word(t6, x & y & !z) | spec_gate_word(t7, x & y & z),
        ;
    }

    /// On words, the table `xor` is the exclusive or of the first two.
    pub proof fn lemma_xor_bits(x: u32, y: u32, z: u32)
        ensures
            Self::xor().spec_eval_bits(x, y, z) == x ^ y,
    {
        Self::lemma_pack_rows(false, false, true, true, true, true, false, false);
        let r = Self::xor().spec_eval_bits(x, y, z);
        assert(r == x ^ y) by (bit_vector)
            requires
                r == 0u32 | 0u32 | (!x & y & !z) | (!x & y & z) | (x & !y & !z) | (x & !y & z)
                    | 0u32 | 0u32,
        ;
    }

    /// The table of the constant function `val`.
    pub fn new_const(val: bool) -> (op: LogicOp)
        ensures
            op == Self::constant(val),
            forall|x: bool, y: bool, z: bool| #[trigger] op.spec_eval(x, y, z) == val,
    {
        let lut: u8 = if val { 0xff } else { 0 };
        proof {
            assert(lut == pack(val, val, val, val, val, val, val, val)) by (bit_vector)
                requires
                    lut == (if val { 0xffu8 } else { 0u8 }),
            ;
            Self::lemma_pack_rows(val, val, val, val, val, val, val, val);
        }
        LogicOp { lut }
    }

    /// The table of `f`, filled in by calling `f` once on each of the eight
    /// combinations of inputs.
    pub fn new_lut<F: Fn(bool, bool, bool) -> bool>(f: &F) -> (op: LogicOp)
        requires
            forall|x: bool, y: bool, z: bool| call_requires(f, (x, y, z)),
        ensures
            forall|x: bool, y: bool, z: bool|
                call_ensures(f, (x, y, z), #[trigger] op.spec_eval(x, y, z)),
    {
        let b0 = f(false, false, false);
        let b1 = f(false, false, true);
        let b2 = f(false, true, false);
        let b3 = f(false, true, true);
        let b4 = f(true, false, false);
        let b5 = f(true, false, true);
        let b6 = f(true, true, false);
        let b7 = f(true, true, true);
        let lut = gate(b0, 0x01) | gate(b1, 0x02) | gate(b2, 0x04) | gate(b3, 0x08) | gate(
            b4,
            0x10,
        ) | gate(b5, 0x20) | gate(b6, 0x40) | gate(b7, 0x80);
        let op = LogicOp { lut };
        proof {
            Self::lemma_pack_rows(b0, b1, b2, b3, b4, b5, b6, b7);
            assert forall|x: bool, y: bool, z: bool|
                call_ensures(f, (x, y, z), #[trigger] op.spec_eval(x, y, z)) by {
                assert(0 <= row(x, y, z) < 8);
            }
        }
        op
    }

    /// The output of the function on the inputs `(x, y, z)`.
    #[verifier::when_used_as_spec(spec_eval)]
    pub fn eval(&self, x: bool, y: bool, z: bool) -> (out: bool)
        ensures
            out == self.spec_eval(x, y, z),
    {
        let i: u8 = gate(x, 4) + gate(y, 2) + gate(z, 1);
        (self.lut >> i) & 1 == 1
    }

    /// The output of the function applied to each bit position of three words.
    #[verifier::when_used_as_spec(spec_eval_bits)]
    pub fn eval_bits(&self, x: u32, y: u32, z: u32) -> (out: u32)
        ensures
            out == self.spec_eval_bits(x, y, z),
    {
        gate_word(self.eval(false, false, false), !x & !y & !z) | gate_word(
            self.eval(false, false, true),
            !x & !y & z,
        ) | gate_word(self.eval(false, true, false), !x & y & !z) | gate_word(
            self.eval(false, true, true),
            !x & y & z,
        ) | gate_word(self.eval(true, false, false), x & !y & !z) | gate_word(
            self.eval(true, false, true),
            x & !y & z,
        ) | gate_word(self.eval(true, true, false), x & y & !z) | gate_word(
            self.eval(true, true, true),
            x & y & z,
        )
    }
}

} // verus!
