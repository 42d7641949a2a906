use snark_accumulation::accumulation::{accumulate, KzgAccumulator};
use snark_accumulation::aggregation::{
    accumulator_instance_cells, accumulator_instances, aggregate, AssignedAccumulator,
};
use snark_accumulation::curve::Point;
use snark_accumulation::field::Scalar;
use snark_accumulation::halo2_lib::{BaseFieldEccChip, CircuitContext, FlexGateScalarChip};
use snark_accumulation::shim::{EccInstructions, IntegerInstructions};

fn bytes_of(n: u64) -> [u8; 32] {
    let mut b = [0u8; 32];
    b[..8].copy_from_slice(&n.to_le_bytes());
    b
}

fn g_times(k: u64) -> Point {
    let g = Point::from_xy(bytes_of(1), bytes_of(2)).unwrap();
    g.mul(&Scalar::from_u64(k))
}

fn same(a: &Point, b: &Point) -> bool {
    a.x == b.x && a.y == b.y
}

#[test]
fn assigned_points_hold_their_values() {
    let mut chip = BaseFieldEccChip::new(8);
    let mut ctx = CircuitContext::new();
    let g = g_times(1);
    assert!(same(&chip.assign_point(&mut ctx, &g).value(), &g));
    assert!(same(&chip.assign_constant(&mut ctx, &g_times(3)).value(), &g_times(3)));
    let infinity = Point::from_xy([0u8; 32], [0u8; 32]).unwrap();
    assert!(same(&chip.assign_point(&mut ctx, &infinity).value(), &infinity));
}

#[test]
fn sum_with_const_in_circuit() {
    let mut chip = BaseFieldEccChip::new(8);
    let mut ctx = CircuitContext::new();
    let a = chip.assign_point(&mut ctx, &g_times(1));
    let b = chip.assign_point(&mut ctx, &g_times(2));
    let r = chip.sum_with_const(&mut ctx, &vec![a, b], &g_times(3));
    assert!(same(&r.value(), &g_times(6)));
    let a = chip.assign_point(&mut ctx, &g_times(1));
    let b = chip.assign_point(&mut ctx, &g_times(2));
    let infinity = Point::from_xy([0u8; 32], [0u8; 32]).unwrap();
    let r = chip.sum_with_const(&mut ctx, &vec![a, b], &infinity);
    assert!(same(&r.value(), &g_times(3)));
}

#[test]
fn variable_base_msm_matches_native() {
    let mut chip = BaseFieldEccChip::new(8);
    let scalars = FlexGateScalarChip::new();
    let mut ctx = CircuitContext::new();
    let s2 = scalars.assign_integer(&mut ctx, &Scalar::from_u64(2));
    let s3 = scalars.assign_integer(&mut ctx, &Scalar::from_u64(3));
    let p1 = chip.assign_point(&mut ctx, &g_times(1));
    let p2 = chip.assign_point(&mut ctx, &g_times(2));
    let r = chip.variable_base_msm(&mut ctx, &vec![(s2, p1), (s3, p2)]);
    let native = Point::multi_scalar_multiplication(&vec![
        (Scalar::from_u64(2), g_times(1)),
        (Scalar::from_u64(3), g_times(2)),
    ]);
    assert!(same(&r.value(), &native));
    assert!(same(&r.value(), &g_times(8)));
}

#[test]
fn fixed_base_msm_in_circuit() {
    let mut chip = BaseFieldEccChip::new(8);
    let scalars = FlexGateScalarChip::new();
    let mut ctx = CircuitContext::new();
    let s5 = scalars.assign_integer(&mut ctx, &Scalar::from_u64(5));
    let r = chip.fixed_base_msm(&mut ctx, &vec![(s5, g_times(1))]);
    assert!(same(&r.value(), &g_times(5)));
}

#[test]
fn normalize_and_assert_equal_points() {
    let mut chip = BaseFieldEccChip::new(8);
    let mut ctx = CircuitContext::new();
    let a = chip.assign_point(&mut ctx, &g_times(4));
    let b = chip.assign_constant(&mut ctx, &g_times(4));
    let c = chip.assign_point(&mut ctx, &g_times(5));
    assert!(same(&chip.normalize(&mut ctx, &a).value(), &g_times(4)));
    assert!(chip.assert_equal(&mut ctx, &a, &b).is_ok());
    assert!(chip.assert_equal(&mut ctx, &a, &c).is_err());
}

fn no_instances(n: usize) -> Vec<Vec<Vec<Scalar>>> {
    (0..n).map(|_| vec![]).collect()
}

fn assigned_acc(
    chip: &BaseFieldEccChip,
    ctx: &mut CircuitContext,
    a: u64,
    b: u64,
) -> AssignedAccumulator {
    AssignedAccumulator { lhs: chip.assign_point(ctx, &g_times(a)), rhs: chip.assign_point(ctx, &g_times(b)) }
}

#[test]
fn aggregate_in_circuit_matches_native_accumulation() {
    let mut chip = BaseFieldEccChip::new(8);
    let scalars = FlexGateScalarChip::new();
    let mut ctx = CircuitContext::new();
    let accs = vec![assigned_acc(&chip, &mut ctx, 3, 5), assigned_acc(&chip, &mut ctx, 2, 4)];
    let r = scalars.assign_integer(&mut ctx, &Scalar::from_u64(7));
    let (_, out) = aggregate(&scalars, &mut chip, &mut ctx, &no_instances(accs.len()), &accs, &r);
    let native = accumulate(
        &vec![
            KzgAccumulator { lhs: g_times(3), rhs: g_times(5) },
            KzgAccumulator { lhs: g_times(2), rhs: g_times(4) },
        ],
        &Scalar::from_u64(7),
    );
    assert!(same(&out.lhs.value(), &native.lhs));
    assert!(same(&out.rhs.value(), &native.rhs));
    assert!(same(&out.lhs.value(), &g_times(17)));
}

#[test]
fn aggregate_in_circuit_passes_a_lone_accumulator_through() {
    let mut chip = BaseFieldEccChip::new(8);
    let scalars = FlexGateScalarChip::new();
    let mut ctx = CircuitContext::new();
    let accs = vec![assigned_acc(&chip, &mut ctx, 3, 5)];
    let r = scalars.assign_integer(&mut ctx, &Scalar::from_u64(7));
    let (_, out) = aggregate(&scalars, &mut chip, &mut ctx, &no_instances(accs.len()), &accs, &r);
    assert!(same(&out.lhs.value(), &g_times(3)));
    assert!(same(&out.rhs.value(), &g_times(5)));
}

#[test]
fn circuit_instances_match_native_instances() {
    let mut chip = BaseFieldEccChip::new(8);
    let scalars = FlexGateScalarChip::new();
    let mut ctx = CircuitContext::new();
    let accs = vec![assigned_acc(&chip, &mut ctx, 3, 5), assigned_acc(&chip, &mut ctx, 2, 4)];
    let r = scalars.assign_integer(&mut ctx, &Scalar::from_u64(7));
    let (_, out) = aggregate(&scalars, &mut chip, &mut ctx, &no_instances(accs.len()), &accs, &r);
    let cells = accumulator_instance_cells(&out);
    let native = accumulator_instances(&KzgAccumulator { lhs: g_times(17), rhs: g_times(33) });
    assert_eq!(cells.len(), 12);
    for k in 0..12 {
        assert_eq!(cells[k].value().repr, native[k].repr);
    }
}

#[test]
fn off_curve_point_is_assigned_as_it_is() {
    let chip = BaseFieldEccChip::new(8);
    let mut ctx = CircuitContext::new();
    let off = Point { x: bytes_of(1), y: bytes_of(3) };
    assert!(Point::from_xy(off.x, off.y).is_none());
    let a = chip.assign_point(&mut ctx, &off);
    assert!(same(&a.value(), &off));
}

#[test]
fn aggregate_returns_the_proofs_instances_in_order() {
    let mut chip = BaseFieldEccChip::new(8);
    let scalars = FlexGateScalarChip::new();
    let mut ctx = CircuitContext::new();
    let accs = vec![assigned_acc(&chip, &mut ctx, 3, 5), assigned_acc(&chip, &mut ctx, 2, 4)];
    let r = scalars.assign_integer(&mut ctx, &Scalar::from_u64(7));
    let instances = vec![
        vec![vec![Scalar::from_u64(1), Scalar::from_u64(2)], vec![Scalar::from_u64(3)]],
        vec![vec![Scalar::from_u64(4)]],
    ];
    let (previous, out) = aggregate(&scalars, &mut chip, &mut ctx, &instances, &accs, &r);
    assert_eq!(previous.len(), 4);
    for (k, cell) in previous.iter().enumerate() {
        assert_eq!(cell.value().repr, bytes_of(k as u64 + 1));
    }
    assert!(same(&out.lhs.value(), &g_times(17)));
}
