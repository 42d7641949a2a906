use snark_accumulation::accumulation::{accumulate, fold_accumulators, KzgAccumulator};
use snark_accumulation::aggregation::{
    accumulator_instances, AggregationCircuit, AggregationConfigParams, FpStrategy, Snark,
};
use snark_accumulation::curve::Point;
use snark_accumulation::field::Scalar;
use snark_accumulation::limbs::{fe_to_limbs, BITS, LIMBS};
use snark_accumulation::Error;

fn bytes_of(n: u64) -> [u8; 32] {
    let mut b = [0u8; 32];
    b[..8].copy_from_slice(&n.to_le_bytes());
    b
}

fn g_times(k: u64) -> Point {
    let g = Point::from_xy(bytes_of(1), bytes_of(2)).unwrap();
    g.mul(&Scalar::from_u64(k))
}

fn acc(a: u64, b: u64) -> KzgAccumulator {
    KzgAccumulator { lhs: g_times(a), rhs: g_times(b) }
}

fn same(a: &KzgAccumulator, b: &KzgAccumulator) -> bool {
    a.lhs.x == b.lhs.x && a.lhs.y == b.lhs.y && a.rhs.x == b.rhs.x && a.rhs.y == b.rhs.y
}

#[test]
fn single_accumulator_is_returned_unchanged() {
    let a = acc(3, 5);
    let out = accumulate(&vec![a], &Scalar::from_u64(99));
    assert!(same(&out, &a));
    // folding it alone gives it back as well
    assert!(same(&fold_accumulators(&vec![a], &Scalar::from_u64(99)), &a));
}

#[test]
fn two_accumulators_fold_with_the_challenge() {
    // (G*3, G*5) + 7 * (G*2, G*4) = (G*17, G*33)
    let out = accumulate(&vec![acc(3, 5), acc(2, 4)], &Scalar::from_u64(7));
    assert!(same(&out, &acc(17, 33)));
}

#[test]
fn three_accumulators_use_successive_powers() {
    // 1*1 + 2*2 + 4*3 = 17 and 1*1 + 2*1 + 4*1 = 7
    let out = accumulate(&vec![acc(1, 1), acc(2, 1), acc(3, 1)], &Scalar::from_u64(2));
    assert!(same(&out, &acc(17, 7)));
}

#[test]
fn reversed_order_folds_differently() {
    let r = Scalar::from_u64(7);
    let forward = accumulate(&vec![acc(3, 5), acc(2, 4)], &r);
    let backward = accumulate(&vec![acc(2, 4), acc(3, 5)], &r);
    assert!(!same(&forward, &backward));
}

#[test]
fn same_inputs_fold_to_the_same_accumulator() {
    let inputs = vec![acc(3, 5), acc(2, 4), acc(6, 1)];
    let r = Scalar::from_u64(1234567);
    assert!(same(&accumulate(&inputs, &r), &accumulate(&inputs.clone(), &r)));
}

#[test]
fn limbs_split_at_eighty_eight_bits() {
    // 5 + 1 * 2^88 + 9 * 2^176
    let mut x = [0u8; 32];
    x[0] = 5;
    x[11] = 1;
    x[22] = 9;
    let limbs = fe_to_limbs(&x);
    assert_eq!(limbs.len(), LIMBS);
    assert_eq!(limbs[0].repr, bytes_of(5));
    assert_eq!(limbs[1].repr, bytes_of(1));
    assert_eq!(limbs[2].repr, bytes_of(9));
    assert_eq!(BITS, 88);
}

#[test]
fn limbs_of_the_top_bytes() {
    let mut x = [0u8; 32];
    x[10] = 0xab;
    x[31] = 0x30;
    let limbs = fe_to_limbs(&x);
    let mut first = [0u8; 32];
    first[10] = 0xab;
    let mut last = [0u8; 32];
    last[9] = 0x30;
    assert_eq!(limbs[0].repr, first);
    assert_eq!(limbs[1].repr, [0u8; 32]);
    assert_eq!(limbs[2].repr, last);
}

#[test]
fn instances_expose_four_coordinates() {
    let a = acc(3, 5);
    let values = accumulator_instances(&a);
    assert_eq!(values.len(), 4 * LIMBS);
    let coords = [a.lhs.x, a.lhs.y, a.rhs.x, a.rhs.y];
    for (j, c) in coords.iter().enumerate() {
        let limbs = fe_to_limbs(c);
        for i in 0..LIMBS {
            assert_eq!(values[j * LIMBS + i].repr, limbs[i].repr);
        }
    }
}

fn snarks() -> Vec<Snark> {
    vec![
        Snark { instances: vec![vec![Scalar::from_u64(11), Scalar::from_u64(12)]], proof: vec![0xa0] },
        Snark {
            instances: vec![vec![Scalar::from_u64(21)], vec![Scalar::from_u64(23)]],
            proof: vec![0xb0, 0xb1],
        },
    ]
}

#[test]
fn circuit_exposes_the_accumulated_result() {
    let svk = g_times(1);
    let circuit =
        AggregationCircuit::new(svk, snarks(), &vec![acc(3, 5), acc(2, 4)], &Scalar::from_u64(7), vec![1, 2, 3]);
    let instances = circuit.instances();
    assert_eq!(instances.len(), 1);
    let expected = accumulator_instances(&acc(17, 33));
    assert_eq!(instances[0].len(), 4 * LIMBS);
    for k in 0..4 * LIMBS {
        assert_eq!(instances[0][k].repr, expected[k].repr);
    }
    assert_eq!(circuit.as_proof(), Some(&[1u8, 2, 3][..]));
    let kept = circuit.snark_witnesses();
    assert_eq!(kept.len(), 2);
    assert_eq!(kept[0].instances.as_ref().unwrap()[0][0].repr, bytes_of(11));
    assert_eq!(kept[1].instances.as_ref().unwrap()[1][0].repr, bytes_of(23));
    assert_eq!(kept[0].proof, Some(vec![0xa0]));
    assert_eq!(kept[1].proof, Some(vec![0xb0, 0xb1]));
    let bare = circuit.without_witnesses();
    assert!(bare.instances()[0].is_empty());
    assert_eq!(bare.as_proof(), None);
    let stripped = bare.snark_witnesses();
    assert_eq!(stripped.len(), 2);
    assert!(stripped.iter().all(|s| s.instances.is_none() && s.proof.is_none()));
}

#[test]
fn circuit_layout() {
    assert_eq!(AggregationCircuit::num_instance(), vec![12]);
    let indices = AggregationCircuit::accumulator_indices();
    assert_eq!(indices.len(), 12);
    for (k, idx) in indices.iter().enumerate() {
        assert_eq!(*idx, (0, k));
    }
}

fn params(limb_bits: usize, num_limbs: usize) -> AggregationConfigParams {
    AggregationConfigParams {
        strategy: FpStrategy::Simple,
        degree: 21,
        num_advice: 4,
        num_lookup_advice: 1,
        num_fixed: 1,
        lookup_bits: 20,
        limb_bits,
        num_limbs,
    }
}

#[test]
fn configuration_must_use_the_fixed_limbs() {
    assert_eq!(params(88, 3).check_limbs(), Ok(()));
    assert_eq!(params(90, 3).check_limbs(), Err(Error::ConfigurationMismatch));
    assert_eq!(params(88, 4).check_limbs(), Err(Error::ConfigurationMismatch));
}
