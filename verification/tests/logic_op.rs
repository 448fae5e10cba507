use copy_swap::logic_op::LogicOp;

fn all_inputs() -> Vec<(bool, bool, bool)> {
    let mut v = Vec::new();
    for x in [false, true] {
        for y in [false, true] {
            for z in [false, true] {
                v.push((x, y, z));
            }
        }
    }
    v
}

#[test]
fn const_tables_are_all_ones_and_all_zeros() {
    assert_eq!(LogicOp::new_const(true).lut, 0xff);
    assert_eq!(LogicOp::new_const(false).lut, 0x00);
}

#[test]
fn const_table_ignores_its_inputs() {
    for (x, y, z) in all_inputs() {
        assert!(LogicOp::new_const(true).eval(x, y, z));
        assert!(!LogicOp::new_const(false).eval(x, y, z));
    }
}

#[test]
fn lut_puts_first_input_in_the_high_bit_of_the_row() {
    assert_eq!(LogicOp::new_lut(&|x, _, _| x).lut, 0xf0);
    assert_eq!(LogicOp::new_lut(&|_, y, _| y).lut, 0xcc);
    assert_eq!(LogicOp::new_lut(&|_, _, z| z).lut, 0xaa);
}

#[test]
fn lut_of_xor_and_of_and_or() {
    assert_eq!(LogicOp::new_lut(&|x, y, _| x != y).lut, 0x3c);
    assert_eq!(LogicOp::new_lut(&|x, y, z| x && y && z).lut, 0x80);
    assert_eq!(LogicOp::new_lut(&|x, y, z| x || y || z).lut, 0xfe);
    assert_eq!(LogicOp::new_lut(&|x, y, z| !x && !y && !z).lut, 0x01);
}

#[test]
fn lut_of_constant_function_is_const_table() {
    assert_eq!(LogicOp::new_lut(&|_, _, _| true), LogicOp::new_const(true));
    assert_eq!(LogicOp::new_lut(&|_, _, _| false), LogicOp::new_const(false));
}

#[test]
fn eval_gives_back_the_function() {
    let majority = |x: bool, y: bool, z: bool| (x && y) || (y && z) || (x && z);
    let op = LogicOp::new_lut(&majority);
    assert_eq!(op.lut, 0xe8);
    for (x, y, z) in all_inputs() {
        assert_eq!(op.eval(x, y, z), majority(x, y, z));
    }
}

#[test]
fn every_table_is_the_table_of_its_own_eval() {
    for lut in 0..=255u8 {
        let op = LogicOp { lut };
        let again = LogicOp::new_lut(&|x, y, z| op.eval(x, y, z));
        assert_eq!(again, op);
    }
}

#[test]
fn identity_table_reproduces_its_first_input() {
    let op = LogicOp::new_lut(&|x, _, _| x);
    for (x, y, z) in all_inputs() {
        assert_eq!(op.eval(x, y, z), x);
    }
}

#[test]
fn eval_bits_of_xor_is_exclusive_or() {
    let op = LogicOp::new_lut(&|x, y, _| x != y);
    assert_eq!(op.eval_bits(0b1010, 0b0101, 0), 0b1111);
    assert_eq!(op.eval_bits(0b1111, 0b0101, 0), 0b1010);
    assert_eq!(op.eval_bits(0xdead_beef, 0x1234_5678, 0xffff_ffff), 0xdead_beef ^ 0x1234_5678);
}

#[test]
fn eval_bits_of_const_tables() {
    assert_eq!(LogicOp::new_const(true).eval_bits(1, 2, 3), 0xffff_ffff);
    assert_eq!(LogicOp::new_const(false).eval_bits(1, 2, 3), 0);
}

#[test]
fn eval_bits_of_three_input_functions() {
    let and3 = LogicOp::new_lut(&|x, y, z| x && y && z);
    let or3 = LogicOp::new_lut(&|x, y, z| x || y || z);
    let mux = LogicOp::new_lut(&|x, y, z| if x { y } else { z });
    assert_eq!(and3.eval_bits(0b1100, 0b1010, 0b1001), 0b1000);
    assert_eq!(or3.eval_bits(0b1100, 0b1010, 0b1001), 0b1111);
    assert_eq!(mux.eval_bits(0xffff_0000, 0x1234_5678, 0x9abc_def0), 0x1234_def0);
}

#[test]
fn eval_bits_agrees_with_eval_in_every_bit() {
    let x = 0x0f0f_3c5au32;
    let y = 0x3333_a5c3u32;
    let z = 0x5555_9966u32;
    for lut in [0x00u8, 0x01, 0x3c, 0x80, 0x96, 0xe8, 0xf0, 0xfe, 0xff] {
        let op = LogicOp { lut };
        let r = op.eval_bits(x, y, z);
        for k in 0..32 {
            let bit = |w: u32| (w >> k) & 1 == 1;
            assert_eq!(bit(r), op.eval(bit(x), bit(y), bit(z)));
        }
    }
}
