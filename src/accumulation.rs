//! The KZG accumulation scheme on the verifier's side: accumulators are
//! folded into one by a random linear combination with the powers of a
//! folding challenge.
use crate::curve::{ec_add, ec_mul, identity, Point};
use crate::field::{fr_modulus, lemma_power_mod_step, power, Scalar};
use vstd::arithmetic::div_mod::lemma_small_mod;
use vstd::prelude::*;

verus! {

/// A deferred pairing check `e(lhs, [1]) = e(rhs, [tau])`.
#[derive(Clone, Copy, Debug)]
pub struct KzgAccumulator {
    pub lhs: Point,
    pub rhs: Point,
}

impl KzgAccumulator {
    pub open spec fn wf(&self) -> bool {
        self.lhs.wf() && self.rhs.wf()
    }

    pub open spec fn coords(&self) -> ((int, int), (int, int)) {
        (self.lhs.coords(), self.rhs.coords())
    }
}

/// `r^i` reduced into the scalar field.
pub open spec fn challenge_power(r: nat, i: nat) -> nat {
    (power(r as int, i) % (fr_modulus() as int)) as nat
}

/// `sum_i r^i * P_i`, added up from the first point to the last.
pub open spec fn fold_points(ps: Seq<Point>, r: nat) -> (int, int)
    decreases ps.len(),
{
    if ps.len() == 0 {
        identity()
    } else {
        ec_add(
            fold_points(ps.drop_last(), r),
            ec_mul(ps.last().coords(), challenge_power(r, (ps.len() - 1) as nat)),
        )
    }
}

pub open spec fn lhs_points(accs: Seq<KzgAccumulator>) -> Seq<Point> {
    accs.map_values(|a: KzgAccumulator| a.lhs)
}

pub open spec fn rhs_points(accs: Seq<KzgAccumulator>) -> Seq<Point> {
    accs.map_values(|a: KzgAccumulator| a.rhs)
}

/// The two points of the accumulator that folding `accs` with challenge `r`
/// yields.
pub open spec fn folded(accs: Seq<KzgAccumulator>, r: nat) -> ((int, int), (int, int)) {
    (fold_points(lhs_points(accs), r), fold_points(rhs_points(accs), r))
}

/// The outcome of accumulation: a lone accumulator is kept as it is, several
/// are folded.
pub open spec fn accumulated(accs: Seq<KzgAccumulator>, r: nat) -> ((int, int), (int, int)) {
    if accs.len() == 1 {
        accs[0].coords()
    } else {
        folded(accs, r)
    }
}

/// Folding a lone point with any challenge gives the point back: its weight
/// is `r^0 = 1`.
pub proof fn lemma_fold_one_point(p: Point, r: nat)
    ensures
        fold_points(seq![p], r) == p.coords(),
{
    let s = seq![p];
    assert(s.drop_last() =~= Seq::<Point>::empty());
    assert(power(r as int, 0) == 1);
    lemma_small_mod(1, fr_modulus());
    assert(challenge_power(r, 0) == 1);
    assert(ec_mul(p.coords(), 0) == identity());
    assert(ec_mul(p.coords(), 1) == ec_add(ec_mul(p.coords(), 0), p.coords()));
    assert(s.last() == p && s.len() == 1);
    assert(fold_points(s.drop_last(), r) == identity());
}

/// Aggregating a single accumulator yields that accumulator, whether it is
/// kept as it is or folded: no folding randomness reaches it.
pub proof fn lemma_single_accumulator_unchanged(acc: KzgAccumulator, r: nat)
    ensures
        accumulated(seq![acc], r) == acc.coords(),
        folded(seq![acc], r) == acc.coords(),
{
    assert(lhs_points(seq![acc]) =~= seq![acc.lhs]);
    assert(rhs_points(seq![acc]) =~= seq![acc.rhs]);
    lemma_fold_one_point(acc.lhs, r);
    lemma_fold_one_point(acc.rhs, r);
}

/// Two accumulators fold to `a + r * b`: the first keeps weight one and the
/// second is scaled by the challenge, so their order matters.
pub proof fn lemma_fold_two(a: KzgAccumulator, b: KzgAccumulator, r: nat)
    ensures
        folded(seq![a, b], r) == (
            ec_add(a.lhs.coords(), ec_mul(b.lhs.coords(), r % fr_modulus())),
            ec_add(a.rhs.coords(), ec_mul(b.rhs.coords(), r % fr_modulus())),
        ),
{
    let ls = lhs_points(seq![a, b]);
    let rs = rhs_points(seq![a, b]);
    assert(ls.drop_last() =~= seq![a.lhs]);
    assert(rs.drop_last() =~= seq![a.rhs]);
    assert(ls.last() == b.lhs);
    assert(rs.last() == b.rhs);
    lemma_fold_one_point(a.lhs, r);
    lemma_fold_one_point(b.lhs, r);
    lemma_fold_one_point(a.rhs, r);
    assert(power(r as int, 0) == 1);
    assert(power(r as int, 1) == power(r as int, 0) * r);
    assert(challenge_power(r, 1) == r % fr_modulus());
}

/// Accumulation reads nothing but its inputs: the same accumulators and a
/// challenge of the same value give the same accumulator. With the challenge
/// drawn from a transcript of the same bytes, two runs agree.
pub proof fn lemma_accumulate_deterministic(
    a: Seq<KzgAccumulator>,
    b: Seq<KzgAccumulator>,
    r: Scalar,
    s: Scalar,
)
    requires
        a == b,
        r.value() == s.value(),
    ensures
        accumulated(a, r.value()) == accumulated(b, s.value()),
{
}

/// Folds a non-empty list of accumulators into `sum_i r^i * acc_i`, side by
/// side on `lhs` and `rhs`.
pub fn fold_accumulators(accs: &Vec<KzgAccumulator>, r: &Scalar) -> (out: KzgAccumulator)
    requires
        accs.len() > 0,
        forall|i: int| 0 <= i < accs.len() ==> (#[trigger] accs[i]).wf(),
        r.wf(),
    ensures
        out.wf(),
        out.coords() == folded(accs@, r.value()),
{
    let ghost ls = lhs_points(accs@);
    let ghost rs = rhs_points(accs@);
    let mut pw = Scalar::one();
    let mut lhs = accs[0].lhs.mul(&pw);
    let mut rhs = accs[0].rhs.mul(&pw);
    proof {
        assert(ls.take(1).drop_last() =~= Seq::<Point>::empty());
        assert(rs.take(1).drop_last() =~= Seq::<Point>::empty());
        assert(ls.take(1).last() == accs@[0].lhs);
        assert(rs.take(1).last() == accs@[0].rhs);
        assert(power(r.value() as int, 0) == 1);
        lemma_small_mod(1, fr_modulus());
        assert(challenge_power(r.value(), 0) == 1);
        assert(fold_points(ls.take(1).drop_last(), r.value()) == identity());
        assert(fold_points(rs.take(1).drop_last(), r.value()) == identity());
        assert(ls.take(1).len() == 1);
    }
    let mut i: usize = 1;
    while i < accs.len()
        invariant
            1 <= i <= accs.len(),
            forall|j: int| 0 <= j < accs.len() ==> (#[trigger] accs[j]).wf(),
            r.wf(),
            ls == lhs_points(accs@),
            rs == rhs_points(accs@),
            pw.wf(),
            pw.value() == challenge_power(r.value(), (i - 1) as nat),
            lhs.wf(),
            rhs.wf(),
            lhs.coords() == fold_points(ls.take(i as int), r.value()),
            rhs.coords() == fold_points(rs.take(i as int), r.value()),
        decreases accs.len() - i,
    {
        proof {
            lemma_power_mod_step(r.value() as int, (i - 1) as nat, fr_modulus() as int);
        }
        pw = pw.mul(r);
        let tl = accs[i].lhs.mul(&pw);
        let tr = accs[i].rhs.mul(&pw);
        lhs = lhs.add(&tl);
        rhs = rhs.add(&tr);
        proof {
            assert(ls.take(i + 1).drop_last() =~= ls.take(i as int));
            assert(rs.take(i + 1).drop_last() =~= rs.take(i as int));
            assert(ls.take(i + 1).last() == accs@[i as int].lhs);
            assert(rs.take(i + 1).last() == accs@[i as int].rhs);
        }
        i = i + 1;
    }
    assert(ls.take(i as int) =~= ls);
    assert(rs.take(i as int) =~= rs);
    KzgAccumulator { lhs, rhs }
}

/// Combines the accumulators of the verified proofs into one. A lone
/// accumulator comes back unchanged and the challenge goes unused; several are
/// folded with the powers of `challenge`.
pub fn accumulate(accs: &Vec<KzgAccumulator>, challenge: &Scalar) -> (out: KzgAccumulator)
    requires
        accs.len() > 0,
        forall|i: int| 0 <= i < accs.len() ==> (#[trigger] accs[i]).wf(),
        challenge.wf(),
    ensures
        out.wf(),
        out.coords() == accumulated(accs@, challenge.value()),
        accs.len() == 1 ==> out == accs[0],
{
    if accs.len() > 1 {
        fold_accumulators(accs, challenge)
    } else {
        accs[0]
    }
}

} // verus!
