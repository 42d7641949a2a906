//! The aggregation circuit's public output: the folded accumulator's four
//! coordinates, split into limbs, and the configuration they require.
use crate::accumulation::{
    accumulate, accumulated, challenge_power, fold_points, lhs_points, rhs_points, KzgAccumulator,
};
use crate::curve::{msm, Point};
use crate::field::{fq_modulus, fr_modulus, le_value, lemma_power_adds, lemma_power_mod_step, power, Scalar};
use crate::halo2_lib::{
    coordinate_limbs, witnessed_pairs, AssignedPoint, AssignedScalar, BaseFieldEccChip, CircuitContext, FlexGateScalarChip,
};
use crate::shim::{product_sum, EccInstructions, IntegerInstructions};
use crate::limbs::{fe_to_limbs, lemma_limb_weight, limb_value, BITS, LIMBS};
use crate::Error;
use vstd::arithmetic::div_mod::{
    lemma_div_denominator, lemma_fundamental_div_mod, lemma_multiply_divide_lt, lemma_small_mod,
};
use vstd::prelude::*;

verus! {

/// Coordinate `j` of an accumulator, in the order `lhs.x, lhs.y, rhs.x, rhs.y`.
pub open spec fn coordinate(c: ((int, int), (int, int)), j: int) -> int {
    if j == 0 {
        c.0.0
    } else if j == 1 {
        c.0.1
    } else if j == 2 {
        c.1.0
    } else {
        c.1.1
    }
}

/// The public values exposing an accumulator: each coordinate split into
/// `LIMBS` limbs, the coordinates one after another.
pub open spec fn accumulator_limbs(c: ((int, int), (int, int))) -> Seq<nat> {
    Seq::new(
        (4 * LIMBS) as nat,
        |k: int| limb_value(coordinate(c, k / LIMBS as int) as nat, (k % LIMBS as int) as nat),
    )
}

/// The limbs of a coordinate add back up to it.
pub proof fn lemma_limbs_recompose(v: nat)
    requires
        v < fq_modulus(),
    ensures
        limb_value(v, 0) + power(2, BITS as nat) * limb_value(v, 1) + power(2, 2 * BITS as nat)
            * limb_value(v, 2) == v,
{
    let p = power(2, BITS as nat);
    lemma_limb_weight();
    assert(power(2, 0) == 1);
    lemma_power_adds(2, BITS as nat, BITS as nat);
    assert(power(2, 2 * BITS as nat) == p * p);
    let x = v as int;
    assert(x < (p * p) * p) by {
        assert((p * p) * p == 0x10000000000000000000000 * 0x10000000000000000000000
            * 0x10000000000000000000000);
    }
    lemma_fundamental_div_mod(x, p);
    lemma_fundamental_div_mod(x / p, p);
    lemma_div_denominator(x, p, p);
    lemma_multiply_divide_lt(x, p * p, p);
    lemma_small_mod((x / (p * p)) as nat, p as nat);
    assert(x / 1 == x);
    let (l0, l1, l2) = (x % p, (x / p) % p, x / (p * p));
    assert(l0 + p * l1 + (p * p) * l2 == x) by (nonlinear_arith)
        requires
            x == p * (x / p) + l0,
            x / p == p * ((x / p) / p) + l1,
            (x / p) / p == l2,
    ;
}

/// The public values that expose `acc`: `4 * LIMBS` limbs, those of
/// `lhs.x`, `lhs.y`, `rhs.x` and `rhs.y` in turn.
pub fn accumulator_instances(acc: &KzgAccumulator) -> (r: Vec<Scalar>)
    ensures
        r.len() == 4 * LIMBS,
        forall|k: int|
            0 <= k < 4 * LIMBS ==> (#[trigger] r[k]).wf() && r[k].value() == accumulator_limbs(
                acc.coords(),
            )[k],
{
    let parts = [
        fe_to_limbs(&acc.lhs.x),
        fe_to_limbs(&acc.lhs.y),
        fe_to_limbs(&acc.rhs.x),
        fe_to_limbs(&acc.rhs.y),
    ];
    let ghost coords = [acc.lhs.x@, acc.lhs.y@, acc.rhs.x@, acc.rhs.y@];
    let mut out: Vec<Scalar> = Vec::new();
    let mut k: usize = 0;
    while k < 4 * LIMBS
        invariant
            0 <= k <= 4 * LIMBS,
            out.len() == k,
            forall|j: int|
                0 <= j < 4 ==> (#[trigger] parts[j]).len() == LIMBS && forall|i: int|
                    0 <= i < LIMBS ==> (#[trigger] parts[j][i]).wf() && parts[j][i].value()
                        == limb_value(le_value(coords[j]), i as nat),
            forall|j: int| 0 <= j < 4 ==> le_value(#[trigger] coords[j]) as int == coordinate(acc.coords(), j),
            forall|m: int|
                0 <= m < k ==> (#[trigger] out[m]).wf() && out[m].value() == accumulator_limbs(
                    acc.coords(),
                )[m],
        decreases 4 * LIMBS - k,
    {
        let j = k / LIMBS;
        let i = k % LIMBS;
        out.push(parts[j][i]);
        proof {
            assert(le_value(coords[j as int]) as int == coordinate(acc.coords(), j as int));
        }
        k = k + 1;
    }
    out
}

/// Halo2's configuration of the aggregation circuit, as it is read from its
/// configuration file.
#[derive(Clone, Copy, Debug, PartialEq, Eq)]
pub enum FpStrategy {
    Simple,
    SimplePlus,
}

#[derive(Clone, Copy, Debug)]
pub struct AggregationConfigParams {
    pub strategy: FpStrategy,
    pub degree: u32,
    pub num_advice: usize,
    pub num_lookup_advice: usize,
    pub num_fixed: usize,
    pub lookup_bits: usize,
    pub limb_bits: usize,
    pub num_limbs: usize,
}

impl AggregationConfigParams {
    /// Accepts the configuration only when its limb layout is the fixed one
    /// that the public values use.
    pub fn check_limbs(&self) -> (r: Result<(), Error>)
        ensures
            r is Ok <==> self.limb_bits == BITS && self.num_limbs == LIMBS,
            r is Err ==> r->Err_0 == Error::ConfigurationMismatch,
    {
        if self.limb_bits == BITS && self.num_limbs == LIMBS {
            Ok(())
        } else {
            Err(Error::ConfigurationMismatch)
        }
    }
}

/// A proof to aggregate: its public instances, grouped by instance column,
/// and its proof bytes. Its protocol stays with the verifier that reads it.
pub struct Snark {
    pub instances: Vec<Vec<Scalar>>,
    pub proof: Vec<u8>,
}

/// A proof as the aggregation circuit holds it: its instances and bytes are
/// known when the circuit carries witnesses and unknown otherwise.
pub struct SnarkWitness {
    pub instances: Option<Vec<Vec<Scalar>>>,
    pub proof: Option<Vec<u8>>,
}

/// The aggregation circuit's data: the succinct verifying key, the
/// aggregated proofs in input order, the public values exposing the folded
/// accumulator, and the accumulation proof bytes, which a circuit without
/// witnesses does not know.
pub struct AggregationCircuit {
    svk: Point,
    snarks: Vec<SnarkWitness>,
    instances: Vec<Scalar>,
    as_proof: Option<Vec<u8>>,
}

impl AggregationCircuit {
    pub closed spec fn snarks(&self) -> Seq<SnarkWitness> {
        self.snarks@
    }

    pub closed spec fn svk(&self) -> Point {
        self.svk
    }

    pub closed spec fn public_values(&self) -> Seq<Scalar> {
        self.instances@
    }

    pub closed spec fn proof_bytes(&self) -> Option<Seq<u8>> {
        match self.as_proof {
            Some(v) => Some(v@),
            None => None,
        }
    }

    /// Builds the circuit from the accumulators of the natively verified
    /// proofs, the challenge they are folded with and the accumulation proof:
    /// the public values expose the accumulated result.
    pub fn new(
        svk: Point,
        snarks: Vec<Snark>,
        accumulators: &Vec<KzgAccumulator>,
        challenge: &Scalar,
        as_proof: Vec<u8>,
    ) -> (r: Self)
        requires
            snarks.len() == accumulators.len(),
            accumulators.len() > 0,
            forall|i: int| 0 <= i < accumulators.len() ==> (#[trigger] accumulators[i]).wf(),
            challenge.wf(),
        ensures
            r.svk() == svk,
            r.snarks().len() == snarks.len(),
            forall|i: int|
                0 <= i < snarks.len() ==> (#[trigger] r.snarks()[i]).instances == Some(snarks[i].instances)
                    && r.snarks()[i].proof == Some(snarks[i].proof),
            r.proof_bytes() == Some(as_proof@),
            r.public_values().len() == 4 * LIMBS,
            forall|k: int|
                0 <= k < 4 * LIMBS ==> (#[trigger] r.public_values()[k]).wf()
                    && r.public_values()[k].value() == accumulator_limbs(
                    accumulated(accumulators@, challenge.value()),
                )[k],
    {
        let acc = accumulate(accumulators, challenge);
        let instances = accumulator_instances(&acc);
        let ghost given = snarks@;
        let mut rest = snarks;
        let mut kept: Vec<SnarkWitness> = Vec::new();
        while rest.len() > 0
            invariant
                kept.len() + rest.len() == given.len(),
                rest@ == given.skip(kept.len() as int),
                forall|i: int|
                    0 <= i < kept.len() ==> (#[trigger] kept[i]).instances == Some(given[i].instances)
                        && kept[i].proof == Some(given[i].proof),
            decreases rest.len(),
        {
            let snark = rest.remove(0);
            proof {
                assert(snark == given[kept.len() as int]);
            }
            kept.push(SnarkWitness { instances: Some(snark.instances), proof: Some(snark.proof) });
            proof {
                assert(rest@ =~= given.skip(kept.len() as int));
            }
        }
        AggregationCircuit { svk, snarks: kept, instances, as_proof: Some(as_proof) }
    }

    /// The positions of the accumulator's limbs among the public values:
    /// column 0, rows `0 .. 4 * LIMBS`.
    pub fn accumulator_indices() -> (r: Vec<(usize, usize)>)
        ensures
            r.len() == 4 * LIMBS,
            forall|k: int| 0 <= k < 4 * LIMBS ==> #[trigger] r[k] == (0usize, k as usize),
    {
        let mut r: Vec<(usize, usize)> = Vec::new();
        let mut k: usize = 0;
        while k < 4 * LIMBS
            invariant
                0 <= k <= 4 * LIMBS,
                r.len() == k,
                forall|m: int| 0 <= m < k ==> #[trigger] r[m] == (0usize, m as usize),
            decreases 4 * LIMBS - k,
        {
            r.push((0, k));
            k = k + 1;
        }
        r
    }

    /// One public column holding `4 * LIMBS` values.
    pub fn num_instance() -> (r: Vec<usize>)
        ensures
            r@ == seq![(4 * LIMBS) as usize],
    {
        let mut r: Vec<usize> = Vec::new();
        r.push(4 * LIMBS);
        assert(r@ =~= seq![(4 * LIMBS) as usize]);
        r
    }

    /// The public values, as the one column they fill.
    pub fn instances(&self) -> (r: Vec<Vec<Scalar>>)
        ensures
            r.len() == 1,
            r[0]@ == self.public_values(),
    {
        let mut column: Vec<Scalar> = Vec::new();
        let mut k: usize = 0;
        while k < self.instances.len()
            invariant
                0 <= k <= self.instances.len(),
                column@ == self.instances@.take(k as int),
            decreases self.instances.len() - k,
        {
            column.push(self.instances[k]);
            assert(self.instances@.take(k + 1) =~= self.instances@.take(k as int).push(self.instances@[k as int]));
            k = k + 1;
        }
        assert(self.instances@.take(k as int) =~= self.instances@);
        let mut r: Vec<Vec<Scalar>> = Vec::new();
        r.push(column);
        r
    }

    /// The accumulation proof bytes, where they are known.
    pub fn as_proof(&self) -> (r: Option<&[u8]>)
        ensures
            r is Some <==> self.proof_bytes() is Some,
            r matches Some(s) ==> Some(s@) == self.proof_bytes(),
    {
        match &self.as_proof {
            Some(v) => Some(v.as_slice()),
            None => None,
        }
    }

    /// The same circuit with the witness-dependent data left out.
    pub fn without_witnesses(&self) -> (r: Self)
        ensures
            r.svk() == self.svk(),
            r.snarks().len() == self.snarks().len(),
            forall|i: int|
                0 <= i < r.snarks().len() ==> (#[trigger] r.snarks()[i]).instances is None
                    && r.snarks()[i].proof is None,
            r.public_values().len() == 0,
            r.proof_bytes() is None,
    {
        let mut snarks: Vec<SnarkWitness> = Vec::new();
        let mut i: usize = 0;
        while i < self.snarks.len()
            invariant
                0 <= i <= self.snarks.len(),
                snarks.len() == i,
                forall|j: int| 0 <= j < i ==> (#[trigger] snarks[j]).instances is None && snarks[j].proof is None,
            decreases self.snarks.len() - i,
        {
            snarks.push(SnarkWitness { instances: None, proof: None });
            i = i + 1;
        }
        AggregationCircuit { svk: self.svk, snarks, instances: Vec::new(), as_proof: None }
    }

    /// The aggregated proofs, in input order.
    pub fn snark_witnesses(&self) -> (r: &Vec<SnarkWitness>)
        ensures
            r@ == self.snarks(),
    {
        &self.snarks
    }
}

/// An accumulator whose two points are assigned in the circuit.
pub struct AssignedAccumulator {
    pub lhs: AssignedPoint,
    pub rhs: AssignedPoint,
}

impl AssignedAccumulator {
    /// The accumulator witnessed in the cells.
    pub open spec fn witness(&self) -> KzgAccumulator {
        KzgAccumulator { lhs: self.lhs.witness(), rhs: self.rhs.witness() }
    }
}

pub open spec fn witnessed_accumulators(accs: Seq<AssignedAccumulator>) -> Seq<KzgAccumulator> {
    accs.map_values(|a: AssignedAccumulator| a.witness())
}

/// An MSM whose scalars are the successive powers of `r` is the fold of its
/// points with challenge `r`.
pub proof fn lemma_msm_of_powers(pairs: Seq<(Scalar, Point)>, ps: Seq<Point>, r: nat)
    requires
        pairs.len() == ps.len(),
        forall|i: int|
            0 <= i < pairs.len() ==> (#[trigger] pairs[i]).0.value() == challenge_power(r, i as nat)
                && pairs[i].1 == ps[i],
    ensures
        msm(pairs) == fold_points(ps, r),
    decreases pairs.len(),
{
    if pairs.len() > 0 {
        lemma_msm_of_powers(pairs.drop_last(), ps.drop_last(), r);
        assert(pairs.last().0.value() == challenge_power(r, (pairs.len() - 1) as nat));
    }
}

/// The values of one proof's instance columns, one column after another.
pub open spec fn column_values(cols: Seq<Vec<Scalar>>) -> Seq<Scalar>
    decreases cols.len(),
{
    if cols.len() == 0 {
        Seq::empty()
    } else {
        column_values(cols.drop_last()) + cols.last()@
    }
}

/// The instance values of several proofs, one proof after another.
pub open spec fn proof_values(proofs: Seq<Vec<Vec<Scalar>>>) -> Seq<Scalar>
    decreases proofs.len(),
{
    if proofs.len() == 0 {
        Seq::empty()
    } else {
        proof_values(proofs.drop_last()) + column_values(proofs.last()@)
    }
}

pub open spec fn witnessed_scalars(cells: Seq<AssignedScalar>) -> Seq<Scalar> {
    cells.map_values(|a: AssignedScalar| a.witness())
}

/// Assigns the public instances of the aggregated proofs as witnesses,
/// proof by proof and column by column, and returns the cells in that order.
pub fn assign_instances(
    scalar_chip: &FlexGateScalarChip,
    ctx: &mut CircuitContext,
    instances: &Vec<Vec<Vec<Scalar>>>,
) -> (r: Vec<AssignedScalar>)
    requires
        forall|i: int, c: int, j: int|
            0 <= i < instances.len() && 0 <= c < instances[i].len() && 0 <= j < instances[i][c].len()
                ==> (#[trigger] instances[i][c][j]).wf(),
    ensures
        witnessed_scalars(r@) == proof_values(instances@),
{
    let mut out: Vec<AssignedScalar> = Vec::new();
    let mut i: usize = 0;
    while i < instances.len()
        invariant
            0 <= i <= instances.len(),
            forall|i: int, c: int, j: int|
                0 <= i < instances.len() && 0 <= c < instances[i].len() && 0 <= j < instances[i][c].len()
                    ==> (#[trigger] instances[i][c][j]).wf(),
            witnessed_scalars(out@) == proof_values(instances@.take(i as int)),
        decreases instances.len() - i,
    {
        let mut c: usize = 0;
        while c < instances[i].len()
            invariant
                0 <= i < instances.len(),
                0 <= c <= instances[i as int].len(),
                forall|i: int, c: int, j: int|
                    0 <= i < instances.len() && 0 <= c < instances[i].len() && 0 <= j < instances[i][c].len()
                        ==> (#[trigger] instances[i][c][j]).wf(),
                witnessed_scalars(out@) == proof_values(instances@.take(i as int)) + column_values(
                    instances[i as int]@.take(c as int),
                ),
            decreases instances[i as int].len() - c,
        {
            let mut j: usize = 0;
            while j < instances[i][c].len()
                invariant
                    0 <= i < instances.len(),
                    0 <= c < instances[i as int].len(),
                    0 <= j <= instances[i as int][c as int].len(),
                    forall|i: int, c: int, j: int|
                        0 <= i < instances.len() && 0 <= c < instances[i].len() && 0 <= j < instances[i][c].len()
                            ==> (#[trigger] instances[i][c][j]).wf(),
                    witnessed_scalars(out@) == proof_values(instances@.take(i as int)) + column_values(
                        instances[i as int]@.take(c as int),
                    ) + instances[i as int][c as int]@.take(j as int),
                decreases instances[i as int][c as int].len() - j,
            {
                let cell = scalar_chip.assign_integer(ctx, &instances[i][c][j]);
                let ghost before = out@;
                out.push(cell);
                proof {
                    assert(out@ =~= before.push(cell));
                    assert(witnessed_scalars(out@) =~= witnessed_scalars(before).push(cell.witness()));
                    assert(instances[i as int][c as int]@.take(j + 1) =~= instances[i as int][c as int]@.take(
                        j as int,
                    ).push(instances[i as int][c as int][j as int]));
                    assert(witnessed_scalars(out@) =~= proof_values(instances@.take(i as int)) + column_values(
                        instances[i as int]@.take(c as int),
                    ) + instances[i as int][c as int]@.take(j + 1));
                }
                j = j + 1;
            }
            proof {
                let cols = instances[i as int]@;
                assert(cols.take(c + 1).drop_last() =~= cols.take(c as int));
                assert(cols.take(c + 1).last() == cols[c as int]);
                assert(cols[c as int]@.take(j as int) =~= cols[c as int]@);
                assert(column_values(cols.take(c + 1)) == column_values(cols.take(c as int)) + cols[c as int]@);
                assert(witnessed_scalars(out@) =~= proof_values(instances@.take(i as int)) + column_values(
                    cols.take(c + 1),
                ));
            }
            c = c + 1;
        }
        proof {
            let ps = instances@;
            assert(ps.take(i + 1).drop_last() =~= ps.take(i as int));
            assert(ps.take(i + 1).last() == ps[i as int]);
            assert(instances[i as int]@.take(c as int) =~= instances[i as int]@);
        }
        i = i + 1;
    }
    proof {
        assert(instances@.take(i as int) =~= instances@);
    }
    out
}

/// The circuit side of aggregation: assigns the public instances of the
/// aggregated proofs, returned in input order, and combines their
/// accumulators as `accumulate_assigned` does.
pub fn aggregate(
    scalar_chip: &FlexGateScalarChip,
    ecc_chip: &mut BaseFieldEccChip,
    ctx: &mut CircuitContext,
    instances: &Vec<Vec<Vec<Scalar>>>,
    accumulators: &Vec<AssignedAccumulator>,
    challenge: &AssignedScalar,
) -> (r: (Vec<AssignedScalar>, AssignedAccumulator))
    requires
        instances.len() == accumulators.len(),
        forall|i: int, c: int, j: int|
            0 <= i < instances.len() && 0 <= c < instances[i].len() && 0 <= j < instances[i][c].len()
                ==> (#[trigger] instances[i][c][j]).wf(),
        accumulators.len() > 0,
        forall|i: int| 0 <= i < accumulators.len() ==> (#[trigger] accumulators[i]).witness().wf(),
        challenge.witness().wf(),
    ensures
        witnessed_scalars(r.0@) == proof_values(instances@),
        r.1.witness().wf(),
        r.1.witness().coords() == accumulated(
            witnessed_accumulators(accumulators@),
            challenge.witness().value(),
        ),
{
    let previous = assign_instances(scalar_chip, ctx, instances);
    let acc = accumulate_assigned(scalar_chip, ecc_chip, ctx, accumulators, challenge);
    (previous, acc)
}

/// Runs the accumulation of `accumulate` on the circuit backend: a lone
/// accumulator passes through, several are folded with the powers of the
/// assigned `challenge` by two variable-base MSMs. The witnessed result is
/// the accumulator that the native run computes on the witnessed inputs.
pub fn accumulate_assigned(
    scalar_chip: &FlexGateScalarChip,
    ecc_chip: &mut BaseFieldEccChip,
    ctx: &mut CircuitContext,
    accumulators: &Vec<AssignedAccumulator>,
    challenge: &AssignedScalar,
) -> (r: AssignedAccumulator)
    requires
        accumulators.len() > 0,
        forall|i: int| 0 <= i < accumulators.len() ==> (#[trigger] accumulators[i]).witness().wf(),
        challenge.witness().wf(),
    ensures
        r.witness().wf(),
        r.witness().coords() == accumulated(
            witnessed_accumulators(accumulators@),
            challenge.witness().value(),
        ),
{
    let ghost accs = witnessed_accumulators(accumulators@);
    let ghost rv = challenge.witness().value();
    if accumulators.len() == 1 {
        let lhs = ecc_chip.normalize(ctx, &accumulators[0].lhs);
        let rhs = ecc_chip.normalize(ctx, &accumulators[0].rhs);
        return AssignedAccumulator { lhs, rhs };
    }
    let one = Scalar::one();
    let zero = Scalar::zero();
    let mut pw = scalar_chip.assign_constant(ctx, &one);
    proof {
        assert(power(rv as int, 0) == 1);
        vstd::arithmetic::div_mod::lemma_small_mod(1, fr_modulus());
    }
    let mut lhs_pairs: Vec<(AssignedScalar, AssignedPoint)> = Vec::new();
    let mut rhs_pairs: Vec<(AssignedScalar, AssignedPoint)> = Vec::new();
    let mut i: usize = 0;
    while i < accumulators.len()
        invariant
            0 <= i <= accumulators.len(),
            accs == witnessed_accumulators(accumulators@),
            rv == challenge.witness().value(),
            challenge.witness().wf(),
            one.value() == 1,
            zero.value() == 0,
            one.wf(),
            zero.wf(),
            forall|j: int| 0 <= j < accumulators.len() ==> (#[trigger] accumulators[j]).witness().wf(),
            pw.witness().wf(),
            i < accumulators.len() ==> pw.witness().value() == challenge_power(rv, i as nat),
            lhs_pairs.len() == i,
            rhs_pairs.len() == i,
            forall|j: int|
                0 <= j < i ==> (#[trigger] lhs_pairs[j]).0.witness().wf() && lhs_pairs[j].0.witness().value()
                    == challenge_power(rv, j as nat) && lhs_pairs[j].1.witness() == accumulators[j].lhs.witness(),
            forall|j: int|
                0 <= j < i ==> (#[trigger] rhs_pairs[j]).0.witness().wf() && rhs_pairs[j].0.witness().value()
                    == challenge_power(rv, j as nat) && rhs_pairs[j].1.witness() == accumulators[j].rhs.witness(),
        decreases accumulators.len() - i,
    {
        let l = ecc_chip.normalize(ctx, &accumulators[i].lhs);
        let r = ecc_chip.normalize(ctx, &accumulators[i].rhs);
        lhs_pairs.push((pw, l));
        rhs_pairs.push((pw, r));
        if i + 1 < accumulators.len() {
            let step = vec![(one, pw, *challenge)];
            let next = scalar_chip.sum_products_with_coeff_and_const(ctx, &step, &zero);
            proof {
                let ws = step@.map_values(
                    |p: (Scalar, AssignedScalar, AssignedScalar)|
                        (p.0, FlexGateScalarChip::witness_of(&p.1), FlexGateScalarChip::witness_of(&p.2)),
                );
                assert(step@.len() == 1 && step@[0] == (one, pw, *challenge));
                assert(ws.len() == 1);
                assert(ws.drop_last() =~= Seq::<(Scalar, Scalar, Scalar)>::empty());
                assert(product_sum(ws.drop_last()) == 0);
                assert(ws.last() == (one, pw.witness(), challenge.witness()));
                let (x, y) = (pw.witness().value() as int, rv as int);
                assert(product_sum(ws) == 1 * x * y);
                assert(1 * x * y == x * y) by (nonlinear_arith);
                lemma_power_mod_step(rv as int, i as nat, fr_modulus() as int);
            }
            pw = next;
        }
        i = i + 1;
    }
    proof {
        let ls = lhs_points(accs);
        let rs = rhs_points(accs);
        lemma_msm_of_powers(witnessed_pairs(lhs_pairs@), ls, rv);
        lemma_msm_of_powers(witnessed_pairs(rhs_pairs@), rs, rv);
    }
    let lhs = ecc_chip.variable_base_msm(ctx, &lhs_pairs);
    let rhs = ecc_chip.variable_base_msm(ctx, &rhs_pairs);
    proof {
        assert(lhs_pairs@.map_values(
            |p: (AssignedScalar, AssignedPoint)|
                (BaseFieldEccChip::scalar_witness(&p.0), BaseFieldEccChip::point_witness(&p.1)),
        ) =~= witnessed_pairs(lhs_pairs@));
        assert(rhs_pairs@.map_values(
            |p: (AssignedScalar, AssignedPoint)|
                (BaseFieldEccChip::scalar_witness(&p.0), BaseFieldEccChip::point_witness(&p.1)),
        ) =~= witnessed_pairs(rhs_pairs@));
    }
    AssignedAccumulator { lhs, rhs }
}

/// The cells that expose an assigned accumulator as public values: the
/// limbs of `lhs.x`, `lhs.y`, `rhs.x` and `rhs.y` in turn. Their values are
/// those that `accumulator_instances` computes natively.
pub fn accumulator_instance_cells(acc: &AssignedAccumulator) -> (r: Vec<AssignedScalar>)
    requires
        acc.witness().wf(),
    ensures
        r.len() == 4 * LIMBS,
        forall|k: int|
            0 <= k < 4 * LIMBS ==> (#[trigger] r[k]).witness().wf() && r[k].witness().value()
                == accumulator_limbs(acc.witness().coords())[k],
{
    let lhs = coordinate_limbs(&acc.lhs);
    let rhs = coordinate_limbs(&acc.rhs);
    let mut out: Vec<AssignedScalar> = Vec::new();
    let mut k: usize = 0;
    while k < 4 * LIMBS
        invariant
            0 <= k <= 4 * LIMBS,
            out.len() == k,
            lhs.len() == 2 * LIMBS,
            rhs.len() == 2 * LIMBS,
            forall|m: int|
                0 <= m < 2 * LIMBS ==> (#[trigger] lhs[m]).witness().wf() && lhs[m].witness().value()
                    == limb_value(coordinate(acc.witness().coords(), m / LIMBS as int) as nat, (m % LIMBS as int) as nat),
            forall|m: int|
                0 <= m < 2 * LIMBS ==> (#[trigger] rhs[m]).witness().wf() && rhs[m].witness().value()
                    == limb_value(coordinate(acc.witness().coords(), 2 + m / LIMBS as int) as nat, (m % LIMBS as int) as nat),
            forall|m: int|
                0 <= m < k ==> (#[trigger] out[m]).witness().wf() && out[m].witness().value()
                    == accumulator_limbs(acc.witness().coords())[m],
        decreases 4 * LIMBS - k,
    {
        if k < 2 * LIMBS {
            out.push(lhs[k]);
        } else {
            out.push(rhs[k - 2 * LIMBS]);
        }
        k = k + 1;
    }
    out
}

/// Both contexts expose the same public values. `circuit` stands for what
/// `AggregationCircuit::new` builds natively from `native` and `challenge`;
/// `folded` for the accumulator that `aggregate` returns on the circuit side
/// from `assigned` and `assigned_challenge`, which witness the same values;
/// `cells` for what `accumulator_instance_cells` exposes of `folded`. The
/// requirements are those functions' guarantees. Then each cell witnesses the
/// public value at its position.
pub proof fn lemma_public_values_agree(
    native: Seq<KzgAccumulator>,
    challenge: Scalar,
    circuit: AggregationCircuit,
    assigned: Seq<AssignedAccumulator>,
    assigned_challenge: AssignedScalar,
    folded: AssignedAccumulator,
    cells: Seq<AssignedScalar>,
)
    requires
        witnessed_accumulators(assigned) == native,
        assigned_challenge.witness().value() == challenge.value(),
        circuit.public_values().len() == 4 * LIMBS,
        forall|k: int|
            0 <= k < 4 * LIMBS ==> (#[trigger] circuit.public_values()[k]).value() == accumulator_limbs(
                accumulated(native, challenge.value()),
            )[k],
        folded.witness().coords() == accumulated(
            witnessed_accumulators(assigned),
            assigned_challenge.witness().value(),
        ),
        cells.len() == 4 * LIMBS,
        forall|k: int|
            0 <= k < 4 * LIMBS ==> (#[trigger] cells[k]).witness().value() == accumulator_limbs(
                folded.witness().coords(),
            )[k],
    ensures
        forall|k: int|
            0 <= k < 4 * LIMBS ==> (#[trigger] cells[k]).witness().value() == circuit.public_values()[k].value(),
{
}

} // verus!
