use snark_accumulation::curve::Point;
use snark_accumulation::field::Scalar;
use snark_accumulation::native::NativeLoader;
use snark_accumulation::Error;

fn bytes_of(n: u64) -> [u8; 32] {
    let mut b = [0u8; 32];
    b[..8].copy_from_slice(&n.to_le_bytes());
    b
}

fn generator() -> Point {
    Point::from_xy(bytes_of(1), bytes_of(2)).expect("the generator lies on the curve")
}

fn same(a: &Point, b: &Point) -> bool {
    a.x == b.x && a.y == b.y
}

#[test]
fn scalar_from_u64_encodes_little_endian() {
    assert_eq!(Scalar::from_u64(0x0102).repr, bytes_of(0x0102));
    assert_eq!(Scalar::zero().repr, [0u8; 32]);
    assert_eq!(Scalar::one().repr, bytes_of(1));
}

#[test]
fn scalar_from_repr_rejects_non_canonical() {
    assert!(Scalar::from_repr([0xff; 32]).is_none());
    // the scalar field order itself
    let mut order = [0u8; 32];
    let hex = "30644e72e131a029b85045b68181585d2833e84879b9709143e1f593f0000001";
    for i in 0..32 {
        order[31 - i] = u8::from_str_radix(&hex[2 * i..2 * i + 2], 16).unwrap();
    }
    assert!(Scalar::from_repr(order).is_none());
    order[0] = 0;
    assert_eq!(Scalar::from_repr(order).unwrap().repr, order);
}

#[test]
fn mul_add_computes_a_times_b_plus_c() {
    let r = Scalar::mul_add(&Scalar::from_u64(6), &Scalar::from_u64(7), &Scalar::from_u64(8));
    assert_eq!(r.repr, bytes_of(50));
    let r = Scalar::mul_add_constant(&Scalar::from_u64(3), &Scalar::from_u64(0), &Scalar::from_u64(9));
    assert_eq!(r.repr, bytes_of(9));
}

#[test]
fn mul_add_wraps_around_the_field_order() {
    // (r - 1) * 1 + 2 = 1 modulo r
    let mut minus_one = [0u8; 32];
    let hex = "30644e72e131a029b85045b68181585d2833e84879b9709143e1f593f0000000";
    for i in 0..32 {
        minus_one[31 - i] = u8::from_str_radix(&hex[2 * i..2 * i + 2], 16).unwrap();
    }
    let m = Scalar::from_repr(minus_one).unwrap();
    let r = Scalar::mul_add(&m, &Scalar::one(), &Scalar::from_u64(2));
    assert_eq!(r.repr, bytes_of(1));
}

#[test]
fn invert_gives_the_inverse_and_none_for_zero() {
    assert!(Scalar::zero().invert().is_none());
    let two = Scalar::from_u64(2);
    let inv = two.invert().unwrap();
    assert_ne!(inv.repr, two.repr);
    assert_eq!(two.mul(&inv).repr, bytes_of(1));
}

#[test]
fn scalar_equality() {
    assert!(Scalar::from_u64(5).equals(&Scalar::from_u64(5)));
    assert!(!Scalar::from_u64(5).equals(&Scalar::from_u64(6)));
}

#[test]
fn point_from_xy_checks_the_curve() {
    assert!(Point::from_xy(bytes_of(1), bytes_of(2)).is_some());
    assert!(Point::from_xy(bytes_of(1), bytes_of(3)).is_none());
    assert!(Point::from_xy([0u8; 32], [0u8; 32]).is_some());
    assert!(Point::from_xy([0xff; 32], bytes_of(2)).is_none());
}

#[test]
fn point_addition_and_scaling_agree() {
    let g = generator();
    let doubled = g.add(&g);
    assert!(!same(&doubled, &g));
    assert!(same(&doubled, &g.mul(&Scalar::from_u64(2))));
    assert!(same(&g.mul(&Scalar::one()), &g));
    let identity = g.mul(&Scalar::zero());
    assert_eq!(identity.x, [0u8; 32]);
    assert_eq!(identity.y, [0u8; 32]);
    assert!(same(&identity.add(&g), &g));
}

#[test]
fn msm_sums_the_weighted_points() {
    let g = generator();
    let pairs = vec![(Scalar::from_u64(2), g), (Scalar::from_u64(3), g)];
    let r = Point::multi_scalar_multiplication(&pairs);
    assert!(same(&r, &g.mul(&Scalar::from_u64(5))));
    let single = Point::multi_scalar_multiplication(&vec![(Scalar::from_u64(7), g)]);
    assert!(same(&single, &g.mul(&Scalar::from_u64(7))));
}

#[test]
fn native_loader_loads_constants_as_themselves() {
    let loader = NativeLoader;
    assert_eq!(loader.load_const(&Scalar::from_u64(11)).repr, bytes_of(11));
    let g = generator();
    assert!(same(&loader.ec_point_load_const(&g), &g));
}

#[test]
fn native_assert_eq_reports_the_annotation() {
    let loader = NativeLoader;
    assert_eq!(loader.assert_eq("same", &Scalar::from_u64(4), &Scalar::from_u64(4)), Ok(()));
    assert_eq!(
        loader.assert_eq("quotient check", &Scalar::from_u64(4), &Scalar::from_u64(5)),
        Err(Error::AssertionFailure("quotient check".to_string()))
    );
    let g = generator();
    assert_eq!(loader.ec_point_assert_eq("pt", &g, &g), Ok(()));
    assert_eq!(
        loader.ec_point_assert_eq("pt", &g, &g.add(&g)),
        Err(Error::AssertionFailure("pt".to_string()))
    );
}

#[test]
fn tampered_instance_fails_the_equality_check() {
    let loader = NativeLoader;
    let expected = Scalar::from_u64(42);
    let mut tampered = expected;
    tampered.repr[0] ^= 1;
    assert!(loader.assert_eq("instance", &expected, &tampered).is_err());
}
