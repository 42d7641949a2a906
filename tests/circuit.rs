use snark_accumulation::field::Scalar;
use snark_accumulation::halo2_lib::{CircuitContext, FlexGateScalarChip};
use snark_accumulation::shim::IntegerInstructions;
use snark_accumulation::Error;

fn bytes_of(n: u64) -> [u8; 32] {
    let mut b = [0u8; 32];
    b[..8].copy_from_slice(&n.to_le_bytes());
    b
}

fn s(n: u64) -> Scalar {
    Scalar::from_u64(n)
}

#[test]
fn assigned_cells_hold_their_values() {
    let chip = FlexGateScalarChip::new();
    let mut ctx = CircuitContext::new();
    let w = chip.assign_integer(&mut ctx, &s(17));
    let c = chip.assign_constant(&mut ctx, &s(19));
    assert_eq!(w.value().repr, bytes_of(17));
    assert_eq!(c.value().repr, bytes_of(19));
    assert_eq!(chip.integer(s(5)).repr, bytes_of(5));
}

#[test]
fn sum_with_coeff_and_const_in_circuit() {
    let chip = FlexGateScalarChip::new();
    let mut ctx = CircuitContext::new();
    let a = chip.assign_integer(&mut ctx, &s(3));
    let b = chip.assign_integer(&mut ctx, &s(4));
    let r = chip.sum_with_coeff_and_const(&mut ctx, &vec![(s(2), a), (s(5), b)], &s(7));
    assert_eq!(r.value().repr, bytes_of(33));
    let r = chip.sum_with_coeff_and_const(&mut ctx, &vec![(s(2), a), (s(5), b)], &s(0));
    assert_eq!(r.value().repr, bytes_of(26));
    let r = chip.sum_with_coeff_and_const(&mut ctx, &vec![], &s(9));
    assert_eq!(r.value().repr, bytes_of(9));
}

#[test]
fn sum_products_with_coeff_and_const_in_circuit() {
    let chip = FlexGateScalarChip::new();
    let mut ctx = CircuitContext::new();
    let a = chip.assign_integer(&mut ctx, &s(3));
    let b = chip.assign_integer(&mut ctx, &s(4));
    let r = chip.sum_products_with_coeff_and_const(&mut ctx, &vec![(s(2), a, b), (s(1), a, a)], &s(1));
    assert_eq!(r.value().repr, bytes_of(2 * 12 + 9 + 1));
    let r = chip.sum_products_with_coeff_and_const(&mut ctx, &vec![], &s(8));
    assert_eq!(r.value().repr, bytes_of(8));
}

#[test]
fn circuit_and_native_mul_add_agree() {
    let chip = FlexGateScalarChip::new();
    let mut ctx = CircuitContext::new();
    let (x, y, z) = (s(123456789), s(987654321), s(55));
    let a = chip.assign_integer(&mut ctx, &x);
    let b = chip.assign_integer(&mut ctx, &y);
    let circuit = chip.sum_products_with_coeff_and_const(&mut ctx, &vec![(s(1), a, b)], &z);
    let native = Scalar::mul_add(&x, &y, &z);
    assert_eq!(circuit.value().repr, native.repr);
}

#[test]
fn sub_neg_and_invert_in_circuit() {
    let chip = FlexGateScalarChip::new();
    let mut ctx = CircuitContext::new();
    let a = chip.assign_integer(&mut ctx, &s(10));
    let b = chip.assign_integer(&mut ctx, &s(4));
    assert_eq!(chip.sub(&mut ctx, &a, &b).value().repr, bytes_of(6));
    let n = chip.neg(&mut ctx, &b);
    let back = chip.sum_with_coeff_and_const(&mut ctx, &vec![(s(1), n)], &s(4));
    assert_eq!(back.value().repr, [0u8; 32]);
    let inv = chip.invert(&mut ctx, &b);
    assert_eq!(inv.value().mul(&s(4)).repr, bytes_of(1));
}

#[test]
fn assert_equal_in_circuit_checks_witnesses() {
    let chip = FlexGateScalarChip::new();
    let mut ctx = CircuitContext::new();
    let a = chip.assign_integer(&mut ctx, &s(10));
    let b = chip.assign_constant(&mut ctx, &s(10));
    let c = chip.assign_integer(&mut ctx, &s(11));
    assert_eq!(chip.assert_equal(&mut ctx, &a, &b), Ok(()));
    assert!(matches!(chip.assert_equal(&mut ctx, &a, &c), Err(Error::AssertionFailure(_))));
}
