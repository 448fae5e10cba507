use copy_swap::builder::{Builder, InstrBuilder, MappedInstrs};
use copy_swap::ir::{
    CBufRef, Dst, Instr, Op, OpAdd, OpCopy, OpLop3, OpMov, OpMul, OpPLop3, OpSwap, Pred, PredRef,
    RegFile, RegRef, SSAValue, Shader, Src, SrcMod, SrcRef, ALL_LANES,
};
use copy_swap::logic_op::LogicOp;
use copy_swap::lower::{ErrorKind, LowerCopySwap, LowerError};

fn gpr(idx: u32) -> RegRef {
    RegRef::new(RegFile::GPR, idx, 1)
}

fn pred(idx: u32) -> RegRef {
    RegRef::new(RegFile::Pred, idx, 1)
}

fn add(dst: u32, a: u32, b: u32) -> Instr {
    Instr::new(Op::Add(OpAdd { dst: Dst::Reg(gpr(dst)), srcs: [Src::new_reg(gpr(a)), Src::new_reg(gpr(b))] }))
}

fn mul(dst: u32, a: u32, b: u32) -> Instr {
    Instr::new(Op::Mul(OpMul { dst: Dst::Reg(gpr(dst)), srcs: [Src::new_reg(gpr(a)), Src::new_reg(gpr(b))] }))
}

fn copy(dst: RegRef, src: Src) -> OpCopy {
    OpCopy { dst: Dst::Reg(dst), src }
}

fn swap(x: RegRef, y: RegRef) -> OpSwap {
    OpSwap { dsts: [Dst::Reg(x), Dst::Reg(y)], srcs: [Src::new_reg(y), Src::new_reg(x)] }
}

fn lower_copy(c: OpCopy) -> Result<Vec<Instr>, LowerError> {
    let mut b = InstrBuilder::new();
    LowerCopySwap::new().lower_copy(&mut b, c)?;
    Ok(b.as_vec())
}

fn lower_swap(s: OpSwap) -> Result<Vec<Instr>, LowerError> {
    let mut b = InstrBuilder::new();
    LowerCopySwap::new().lower_swap(&mut b, s)?;
    Ok(b.as_vec())
}

fn copy_err(c: OpCopy) -> ErrorKind {
    let e = lower_copy(c).unwrap_err();
    assert_eq!(e.op, Op::Copy(c));
    e.kind
}

fn swap_err(s: OpSwap) -> ErrorKind {
    let e = lower_swap(s).unwrap_err();
    assert_eq!(e.op, Op::Swap(s));
    e.kind
}

/// Runs one native logic instruction on words, on the registers `regs`.
fn run_lop3(regs: &mut [u32; 8], instr: &Instr) {
    assert_eq!(instr.pred, Pred::new_true());
    let Op::Lop3(lop) = instr.op else { panic!("not a word logic instruction") };
    let read = |s: Src| -> u32 {
        assert_eq!(s.src_mod, SrcMod::Plain);
        match s.src_ref {
            SrcRef::Zero => 0,
            SrcRef::Imm32(u) => u,
            SrcRef::Reg(r) => regs[r.base_idx as usize],
            _ => panic!("not a word"),
        }
    };
    let out = lop.op.eval_bits(read(lop.srcs[0]), read(lop.srcs[1]), read(lop.srcs[2]));
    let Dst::Reg(d) = lop.dst else { panic!("no destination") };
    regs[d.base_idx as usize] = out;
}

/// Runs one native logic instruction on booleans, on the registers `regs`:
/// all sources are read before either destination is written.
fn run_plop3(regs: &mut [bool; 8], instr: &Instr) {
    assert_eq!(instr.pred, Pred::new_true());
    let Op::PLop3(lop) = instr.op else { panic!("not a boolean logic instruction") };
    let read = |s: Src| -> bool {
        assert_eq!(s.src_mod, SrcMod::Plain);
        match s.src_ref {
            SrcRef::True => true,
            SrcRef::False => false,
            SrcRef::Reg(r) => regs[r.base_idx as usize],
            _ => panic!("not a boolean"),
        }
    };
    let (x, y, z) = (read(lop.srcs[0]), read(lop.srcs[1]), read(lop.srcs[2]));
    for i in 0..2 {
        if let Dst::Reg(d) = lop.dsts[i] {
            regs[d.base_idx as usize] = lop.ops[i].eval(x, y, z);
        }
    }
}

#[test]
fn copy_of_zero_to_gpr_is_one_full_mask_move() {
    let c = copy(gpr(3), Src::new_zero());
    let mov = Instr::new(Op::Mov(OpMov { dst: c.dst, src: c.src, quad_lanes: 0xf }));
    assert_eq!(lower_copy(c), Ok(vec![mov]));
}

#[test]
fn copy_of_immediate_to_gpr_is_one_full_mask_move() {
    let c = copy(gpr(3), Src::new_imm_u32(5));
    let mov = Instr::new(Op::Mov(OpMov { dst: c.dst, src: c.src, quad_lanes: 0xf }));
    assert_eq!(lower_copy(c), Ok(vec![mov]));
}

#[test]
fn copy_of_constant_buffer_to_gpr_is_one_full_mask_move() {
    let c = copy(gpr(0), Src::new_cbuf(CBufRef::new(1, 0x40)));
    let mov = Instr::new(Op::Mov(OpMov { dst: c.dst, src: c.src, quad_lanes: 0xf }));
    assert_eq!(lower_copy(c), Ok(vec![mov]));
}

#[test]
fn copy_of_gpr_to_gpr_is_one_full_mask_move() {
    let c = copy(gpr(7), Src::new_reg(gpr(9)));
    let mov = Instr::new(Op::Mov(OpMov { dst: c.dst, src: c.src, quad_lanes: 0xf }));
    assert_eq!(lower_copy(c), Ok(vec![mov]));
}

#[test]
fn full_lane_mask_is_four_lanes() {
    assert_eq!(ALL_LANES, 0xf);
}

#[test]
fn copy_of_true_to_predicate_is_constant_true_logic() {
    let c = copy(pred(1), Src::new_imm_bool(true));
    let out = lower_copy(c).unwrap();
    let t = Src::new_imm_bool(true);
    let expected = Instr::new(Op::PLop3(OpPLop3 {
        dsts: [c.dst, Dst::Null],
        srcs: [t, t, t],
        ops: [LogicOp::new_const(true), LogicOp::new_const(false)],
    }));
    assert_eq!(out, vec![expected]);
    let Op::PLop3(lop) = out[0].op else { panic!() };
    for x in [false, true] {
        for y in [false, true] {
            assert!(lop.ops[0].eval(x, y, true));
        }
    }
}

#[test]
fn copy_of_false_to_predicate_is_constant_false_logic() {
    let c = copy(pred(1), Src::new_imm_bool(false));
    let out = lower_copy(c).unwrap();
    let t = Src::new_imm_bool(true);
    let expected = Instr::new(Op::PLop3(OpPLop3 {
        dsts: [c.dst, Dst::Null],
        srcs: [t, t, t],
        ops: [LogicOp::new_const(false), LogicOp::new_const(false)],
    }));
    assert_eq!(out, vec![expected]);
    let Op::PLop3(lop) = out[0].op else { panic!() };
    for x in [false, true] {
        for y in [false, true] {
            assert!(!lop.ops[0].eval(x, y, true));
        }
    }
}

#[test]
fn copy_of_predicate_to_predicate_is_identity_logic() {
    let c = copy(pred(2), Src::new_reg(pred(5)));
    let out = lower_copy(c).unwrap();
    let t = Src::new_imm_bool(true);
    let expected = Instr::new(Op::PLop3(OpPLop3 {
        dsts: [c.dst, Dst::Null],
        srcs: [c.src, t, t],
        ops: [LogicOp { lut: 0xf0 }, LogicOp::new_const(false)],
    }));
    assert_eq!(out, vec![expected]);
    for v in [false, true] {
        let mut regs = [false; 8];
        regs[5] = v;
        regs[2] = !v;
        run_plop3(&mut regs, &out[0]);
        assert_eq!(regs[2], v);
        assert_eq!(regs[5], v);
    }
}

#[test]
fn copy_of_boolean_to_gpr_is_unsupported() {
    assert_eq!(copy_err(copy(gpr(0), Src::new_imm_bool(true))), ErrorKind::Unsupported);
    assert_eq!(copy_err(copy(gpr(0), Src::new_imm_bool(false))), ErrorKind::Unsupported);
    assert_eq!(copy_err(copy(gpr(0), Src::new_reg(pred(0)))), ErrorKind::Unsupported);
    assert_eq!(
        copy_err(copy(gpr(0), Src::new_reg(RegRef::new(RegFile::UGPR, 0, 1)))),
        ErrorKind::Unsupported
    );
}

#[test]
fn copy_of_number_to_predicate_is_unsupported() {
    assert_eq!(copy_err(copy(pred(0), Src::new_zero())), ErrorKind::Unsupported);
    assert_eq!(copy_err(copy(pred(0), Src::new_imm_u32(1))), ErrorKind::Unsupported);
    assert_eq!(copy_err(copy(pred(0), Src::new_cbuf(CBufRef::new(0, 0)))), ErrorKind::Unsupported);
    assert_eq!(copy_err(copy(pred(0), Src::new_reg(gpr(0)))), ErrorKind::Unsupported);
    assert_eq!(
        copy_err(copy(pred(0), Src::new_reg(RegRef::new(RegFile::UPred, 0, 1)))),
        ErrorKind::Unsupported
    );
}

#[test]
fn copy_to_other_register_file_is_unsupported() {
    let ugpr = RegRef::new(RegFile::UGPR, 0, 1);
    let upred = RegRef::new(RegFile::UPred, 0, 1);
    assert_eq!(copy_err(copy(ugpr, Src::new_zero())), ErrorKind::Unsupported);
    assert_eq!(copy_err(copy(upred, Src::new_imm_bool(true))), ErrorKind::Unsupported);
}

#[test]
fn copy_of_unallocated_value_is_reported_first() {
    let v = SSAValue::new(RegFile::GPR, 4);
    assert_eq!(copy_err(copy(gpr(0), Src::new_ssa(v))), ErrorKind::Unallocated);
    assert_eq!(copy_err(copy(pred(0), Src::new_ssa(v))), ErrorKind::Unallocated);
    assert_eq!(
        copy_err(copy(RegRef::new(RegFile::UGPR, 0, 2), Src::new_ssa(v))),
        ErrorKind::Unallocated
    );
    assert_eq!(
        copy_err(OpCopy { dst: Dst::SSA(v), src: Src::new_zero() }),
        ErrorKind::Unallocated
    );
}

#[test]
fn copy_with_wide_destination_or_modifier_is_malformed() {
    assert_eq!(
        copy_err(copy(RegRef::new(RegFile::GPR, 0, 2), Src::new_zero())),
        ErrorKind::Malformed
    );
    assert_eq!(
        copy_err(copy(gpr(0), Src { src_ref: SrcRef::Reg(gpr(1)), src_mod: SrcMod::Neg })),
        ErrorKind::Malformed
    );
    assert_eq!(
        copy_err(copy(pred(0), Src { src_ref: SrcRef::Reg(pred(1)), src_mod: SrcMod::Not })),
        ErrorKind::Malformed
    );
    assert_eq!(copy_err(OpCopy { dst: Dst::Null, src: Src::new_zero() }), ErrorKind::Malformed);
}

#[test]
fn failed_copy_emits_nothing() {
    let mut b = InstrBuilder::new();
    b.push_instr(add(0, 1, 2));
    let mut pass = LowerCopySwap::new();
    assert!(pass.lower_copy(&mut b, copy(gpr(0), Src::new_imm_bool(true))).is_err());
    assert!(pass.lower_swap(&mut b, swap(gpr(0), pred(0))).is_err());
    assert_eq!(b.as_vec(), vec![add(0, 1, 2)]);
}

#[test]
fn swap_of_a_register_with_itself_is_empty() {
    assert_eq!(lower_swap(swap(gpr(4), gpr(4))), Ok(vec![]));
    assert_eq!(lower_swap(swap(pred(4), pred(4))), Ok(vec![]));
    let u = RegRef::new(RegFile::UGPR, 63, 1);
    assert_eq!(lower_swap(swap(u, u)), Ok(vec![]));
}

#[test]
fn swap_of_predicates_is_one_instruction_that_exchanges() {
    let (x, y) = (pred(1), pred(2));
    let out = lower_swap(swap(x, y)).unwrap();
    let expected = Instr::new(Op::PLop3(OpPLop3 {
        dsts: [Dst::Reg(x), Dst::Reg(y)],
        srcs: [Src::new_reg(x), Src::new_reg(y), Src::new_imm_bool(true)],
        ops: [LogicOp { lut: 0xcc }, LogicOp { lut: 0xf0 }],
    }));
    assert_eq!(out, vec![expected]);
    for vx in [false, true] {
        for vy in [false, true] {
            let mut regs = [false; 8];
            regs[1] = vx;
            regs[2] = vy;
            run_plop3(&mut regs, &out[0]);
            assert_eq!((regs[1], regs[2]), (vy, vx));
        }
    }
}

#[test]
fn swap_of_uniform_predicates_is_one_instruction() {
    let (x, y) = (RegRef::new(RegFile::UPred, 0, 1), RegRef::new(RegFile::UPred, 1, 1));
    let out = lower_swap(swap(x, y)).unwrap();
    assert_eq!(out.len(), 1);
    assert!(matches!(out[0].op, Op::PLop3(_)));
}

#[test]
fn swap_of_gprs_is_three_exclusive_ors() {
    let (x, y) = (gpr(1), gpr(2));
    let out = lower_swap(swap(x, y)).unwrap();
    let xor = LogicOp { lut: 0x3c };
    let srcs = [Src::new_reg(x), Src::new_reg(y), Src::new_zero()];
    let to = |d: RegRef| Instr::new(Op::Lop3(OpLop3 { dst: Dst::Reg(d), srcs, op: xor }));
    assert_eq!(out, vec![to(x), to(y), to(x)]);
}

#[test]
fn swap_of_gprs_exchanges_the_bit_patterns() {
    let out = lower_swap(swap(gpr(1), gpr(2))).unwrap();
    for (vx, vy) in [(0b1010u32, 0b0101u32), (0, 0), (0xffff_ffff, 0), (0xdead_beef, 0x0bad_f00d), (7, 7)] {
        let mut regs = [0x5a5a_5a5au32; 8];
        regs[1] = vx;
        regs[2] = vy;
        for i in &out {
            run_lop3(&mut regs, i);
        }
        assert_eq!(regs[1], vy);
        assert_eq!(regs[2], vx);
        assert_eq!(regs[0], 0x5a5a_5a5a);
        assert_eq!(regs[3], 0x5a5a_5a5a);
    }
}

#[test]
fn swap_that_is_no_exchange_is_malformed() {
    let (x, y, z) = (gpr(1), gpr(2), gpr(3));
    let good = swap(x, y);
    assert_eq!(swap_err(OpSwap { srcs: [Src::new_reg(x), Src::new_reg(y)], ..good }), ErrorKind::Malformed);
    assert_eq!(swap_err(OpSwap { srcs: [Src::new_reg(y), Src::new_reg(z)], ..good }), ErrorKind::Malformed);
    assert_eq!(swap_err(OpSwap { srcs: [Src::new_reg(z), Src::new_reg(x)], ..good }), ErrorKind::Malformed);
    assert_eq!(swap_err(OpSwap { srcs: [Src::new_zero(), Src::new_reg(x)], ..good }), ErrorKind::Malformed);
    assert_eq!(
        swap_err(OpSwap {
            srcs: [Src { src_ref: SrcRef::Reg(y), src_mod: SrcMod::Neg }, Src::new_reg(x)],
            ..good
        }),
        ErrorKind::Malformed
    );
    assert_eq!(
        swap_err(OpSwap {
            srcs: [Src::new_reg(y), Src { src_ref: SrcRef::Reg(x), src_mod: SrcMod::Abs }],
            ..good
        }),
        ErrorKind::Malformed
    );
    assert_eq!(swap_err(OpSwap { dsts: [Dst::Null, Dst::Reg(y)], ..good }), ErrorKind::Malformed);
    assert_eq!(swap_err(OpSwap { dsts: [Dst::Reg(x), Dst::Null], ..good }), ErrorKind::Malformed);
}

#[test]
fn swap_of_mismatched_registers_is_malformed() {
    assert_eq!(swap_err(swap(gpr(1), pred(2))), ErrorKind::Malformed);
    assert_eq!(swap_err(swap(gpr(1), RegRef::new(RegFile::UGPR, 2, 1))), ErrorKind::Malformed);
    assert_eq!(swap_err(swap(gpr(1), RegRef::new(RegFile::GPR, 2, 2))), ErrorKind::Malformed);
    assert_eq!(swap_err(swap(RegRef::new(RegFile::GPR, 0, 4), gpr(4))), ErrorKind::Malformed);
    let wide = RegRef::new(RegFile::GPR, 0, 2);
    assert_eq!(swap_err(swap(wide, wide)), ErrorKind::Malformed);
}

#[test]
fn swap_of_unallocated_value_is_reported_first() {
    let v = SSAValue::new(RegFile::GPR, 0);
    let good = swap(gpr(1), gpr(2));
    assert_eq!(swap_err(OpSwap { dsts: [Dst::SSA(v), Dst::Reg(gpr(2))], ..good }), ErrorKind::Unallocated);
    assert_eq!(swap_err(OpSwap { dsts: [Dst::Reg(gpr(1)), Dst::SSA(v)], ..good }), ErrorKind::Unallocated);
    assert_eq!(swap_err(OpSwap { srcs: [Src::new_ssa(v), Src::new_reg(gpr(1))], ..good }), ErrorKind::Unallocated);
    assert_eq!(swap_err(OpSwap { srcs: [Src::new_reg(gpr(2)), Src::new_ssa(v)], ..good }), ErrorKind::Unallocated);
    assert_eq!(
        swap_err(OpSwap { dsts: [Dst::Null, Dst::Null], srcs: [Src::new_ssa(v), Src::new_zero()] }),
        ErrorKind::Unallocated
    );
}

#[test]
fn pass_lowers_copy_between_add_and_mul() {
    let r3 = gpr(3);
    let imm = Src::new_imm_u32(5);
    let mut s = Shader::new(vec![
        add(0, 1, 2),
        Instr::new(Op::Copy(OpCopy { dst: Dst::Reg(r3), src: imm })),
        mul(4, 0, 3),
    ]);
    assert_eq!(s.lower_copy_swap(), Ok(()));
    assert_eq!(
        s.instrs,
        vec![
            add(0, 1, 2),
            Instr::new(Op::Mov(OpMov { dst: Dst::Reg(r3), src: imm, quad_lanes: 0xf })),
            mul(4, 0, 3),
        ]
    );
}

#[test]
fn pass_keeps_the_order_around_one_site() {
    let others: Vec<Instr> = (0..5).map(|i| add(i, i + 1, i + 2)).collect();
    let sites = [
        (Op::Swap(swap(gpr(1), gpr(1))), 0usize),
        (Op::Copy(copy(gpr(1), Src::new_zero())), 1),
        (Op::Copy(copy(pred(1), Src::new_imm_bool(false))), 1),
        (Op::Swap(swap(pred(1), pred(2))), 1),
        (Op::Swap(swap(gpr(1), gpr(2))), 3),
    ];
    for (site, m) in sites {
        for k in 0..=others.len() {
            let mut input = others.clone();
            input.insert(k, Instr::new(site));
            let n = input.len();
            let mut s = Shader::new(input);
            assert_eq!(s.lower_copy_swap(), Ok(()));
            assert_eq!(s.instrs.len(), n - 1 + m);
            assert_eq!(&s.instrs[..k], &others[..k]);
            assert_eq!(&s.instrs[k + m..], &others[k..]);
            let mut b = InstrBuilder::new();
            match site {
                Op::Copy(c) => LowerCopySwap::new().lower_copy(&mut b, c).unwrap(),
                Op::Swap(w) => LowerCopySwap::new().lower_swap(&mut b, w).unwrap(),
                _ => unreachable!(),
            }
            assert_eq!(&s.instrs[k..k + m], &b.as_vec()[..]);
        }
    }
}

#[test]
fn pass_lowers_every_site_and_leaves_none() {
    let mut s = Shader::new(vec![
        Instr::new(Op::Swap(swap(gpr(1), gpr(2)))),
        add(0, 1, 2),
        Instr::new(Op::Copy(copy(pred(0), Src::new_reg(pred(3))))),
        Instr::new(Op::Swap(swap(gpr(5), gpr(5)))),
        Instr::new(Op::Swap(swap(pred(0), pred(1)))),
        mul(0, 1, 2),
        Instr::new(Op::Copy(copy(gpr(0), Src::new_reg(gpr(3))))),
    ]);
    assert_eq!(s.lower_copy_swap(), Ok(()));
    assert_eq!(s.instrs.len(), 3 + 1 + 1 + 0 + 1 + 1 + 1);
    assert!(s.instrs.iter().all(|i| !i.op.is_pseudo()));
    assert_eq!(s.instrs[3], add(0, 1, 2));
    assert_eq!(s.instrs[6], mul(0, 1, 2));
}

#[test]
fn pass_leaves_a_list_without_sites_alone() {
    let input = vec![add(0, 1, 2), mul(3, 0, 0), add(1, 3, 3)];
    let mut s = Shader::new(input.clone());
    assert_eq!(s.lower_copy_swap(), Ok(()));
    assert_eq!(s.instrs, input);
    let mut empty = Shader::new(vec![]);
    assert_eq!(empty.lower_copy_swap(), Ok(()));
    assert_eq!(empty.instrs, vec![]);
}

#[test]
fn pass_keeps_guards_of_other_instructions() {
    let guarded = Instr {
        pred: Pred { pred_ref: PredRef::Reg(pred(0)), pred_inv: true },
        op: add(0, 1, 2).op,
    };
    let mut s = Shader::new(vec![guarded, Instr::new(Op::Copy(copy(gpr(1), Src::new_zero())))]);
    assert_eq!(s.lower_copy_swap(), Ok(()));
    assert_eq!(s.instrs[0], guarded);
    assert_eq!(s.instrs.len(), 2);
}

#[test]
fn pass_reports_guarded_site_and_changes_nothing() {
    let c = Op::Copy(copy(gpr(1), Src::new_zero()));
    let w = Op::Swap(swap(gpr(1), gpr(2)));
    let guards = [
        Pred { pred_ref: PredRef::Reg(pred(0)), pred_inv: false },
        Pred { pred_ref: PredRef::Reg(pred(0)), pred_inv: true },
        Pred { pred_ref: PredRef::Always, pred_inv: true },
        Pred { pred_ref: PredRef::SSA(SSAValue::new(RegFile::Pred, 0)), pred_inv: false },
    ];
    for op in [c, w] {
        for g in guards {
            let input = vec![add(0, 1, 2), Instr { pred: g, op }, mul(0, 1, 2)];
            let mut s = Shader::new(input.clone());
            assert_eq!(s.lower_copy_swap(), Err(LowerError { kind: ErrorKind::Guarded, op }));
            assert_eq!(s.instrs, input);
        }
    }
}

#[test]
fn pass_reports_the_first_defect_and_changes_nothing() {
    let bad_copy = Op::Copy(copy(gpr(0), Src::new_imm_bool(true)));
    let bad_swap = Op::Swap(swap(gpr(0), pred(0)));
    let input = vec![
        Instr::new(Op::Swap(swap(gpr(1), gpr(2)))),
        add(0, 1, 2),
        Instr::new(bad_swap),
        Instr::new(bad_copy),
    ];
    let mut s = Shader::new(input.clone());
    assert_eq!(s.lower_copy_swap(), Err(LowerError { kind: ErrorKind::Malformed, op: bad_swap }));
    assert_eq!(s.instrs, input);

    let input = vec![Instr::new(bad_copy), Instr::new(bad_swap)];
    let mut s = Shader::new(input.clone());
    assert_eq!(s.lower_copy_swap(), Err(LowerError { kind: ErrorKind::Unsupported, op: bad_copy }));
    assert_eq!(s.instrs, input);
}

#[test]
fn run_is_what_lower_copy_swap_does() {
    let input = vec![
        add(0, 1, 2),
        Instr::new(Op::Swap(swap(gpr(1), gpr(2)))),
        Instr::new(Op::Copy(copy(pred(1), Src::new_imm_bool(true)))),
    ];
    let mut a = Shader::new(input.clone());
    let mut b = Shader::new(input);
    assert_eq!(a.lower_copy_swap(), Ok(()));
    assert_eq!(LowerCopySwap::new().run(&mut b), Ok(()));
    assert_eq!(a, b);
}

#[test]
fn lower_instr_maps_to_the_shortest_form() {
    let mut pass = LowerCopySwap::new();
    let other = add(0, 1, 2);
    assert_eq!(pass.lower_instr(other), Ok(MappedInstrs::One(other)));
    assert_eq!(pass.lower_instr(Instr::new(Op::Swap(swap(gpr(1), gpr(1))))), Ok(MappedInstrs::Empty));
    let c = copy(gpr(1), Src::new_zero());
    let mov = Instr::new(Op::Mov(OpMov { dst: c.dst, src: c.src, quad_lanes: 0xf }));
    assert_eq!(pass.lower_instr(Instr::new(Op::Copy(c))), Ok(MappedInstrs::One(mov)));
    let three = lower_swap(swap(gpr(1), gpr(2))).unwrap();
    assert_eq!(pass.lower_instr(Instr::new(Op::Swap(swap(gpr(1), gpr(2))))), Ok(MappedInstrs::Many(three)));
}
