//! Points of the BN254 G1 group in affine form, held as the canonical
//! encodings of their coordinates, with the group law they obey.
use crate::field::{fq_modulus, le_value, power, Scalar};
use halo2curves::bn256::{Fq, Fr, G1Affine};
use vstd::prelude::*;

verus! {

/// The multiplicative inverse of `a` modulo the base field order.
pub open spec fn fq_inv(a: int) -> int {
    power(a, (fq_modulus() - 2) as nat) % (fq_modulus() as int)
}

/// Reduction modulo the base field order.
pub open spec fn fq(a: int) -> int {
    a % (fq_modulus() as int)
}

/// The point at infinity, which the affine form writes as `(0, 0)`.
pub open spec fn identity() -> (int, int) {
    (0, 0)
}

/// `y^2 = x^3 + 3`, or the point at infinity.
pub open spec fn on_curve(p: (int, int)) -> bool {
    p == identity() || fq(p.1 * p.1) == fq(p.0 * p.0 * p.0 + 3)
}

/// The chord-and-tangent sum of two points of the curve.
pub open spec fn ec_add(p: (int, int), q: (int, int)) -> (int, int) {
    if p == identity() {
        q
    } else if q == identity() {
        p
    } else if p.0 == q.0 && fq(p.1 + q.1) == 0 {
        identity()
    } else {
        let slope = if p.0 == q.0 {
            fq(fq(3 * p.0 * p.0) * fq_inv(fq(2 * p.1)))
        } else {
            fq(fq(q.1 - p.1) * fq_inv(fq(q.0 - p.0)))
        };
        let x = fq(slope * slope - p.0 - q.0);
        (x, fq(slope * (p.0 - x) - p.1))
    }
}

/// `p` added to itself `k` times.
pub open spec fn ec_mul(p: (int, int), k: nat) -> (int, int)
    decreases k,
{
    if k == 0 {
        identity()
    } else {
        ec_add(ec_mul(p, (k - 1) as nat), p)
    }
}

/// `sum_i s_i * P_i`, added up from the first pair to the last.
pub open spec fn msm(pairs: Seq<(Scalar, Point)>) -> (int, int)
    decreases pairs.len(),
{
    if pairs.len() == 0 {
        identity()
    } else {
        let (s, p) = pairs.last();
        ec_add(msm(pairs.drop_last()), ec_mul(p.coords(), s.value()))
    }
}

/// A point of G1 in affine form, as the canonical little-endian encodings of
/// its two coordinates; the point at infinity is `(0, 0)`.
#[derive(Clone, Copy, Debug)]
pub struct Point {
    pub x: [u8; 32],
    pub y: [u8; 32],
}

impl Point {
    pub open spec fn coords(&self) -> (int, int) {
        (le_value(self.x@) as int, le_value(self.y@) as int)
    }

    /// Both coordinates are canonical encodings of base field elements.
    pub open spec fn canonical(&self) -> bool {
        le_value(self.x@) < fq_modulus() && le_value(self.y@) < fq_modulus()
    }

    /// Both coordinates are canonical and the point lies on the curve.
    pub open spec fn wf(&self) -> bool {
        le_value(self.x@) < fq_modulus() && le_value(self.y@) < fq_modulus() && on_curve(
            self.coords(),
        )
    }

    /// Reads a point from its coordinates; `None` when a coordinate is not
    /// canonical or the point is off the curve.
    pub fn from_xy(x: [u8; 32], y: [u8; 32]) -> (r: Option<Point>)
        ensures
            r is Some <==> (Point { x, y }).wf(),
            r matches Some(p) ==> p.x == x && p.y == y,
    {
        if !fq_is_canonical(&x) || !fq_is_canonical(&y) {
            return None;
        }
        let p = Point { x, y };
        if g1_is_on_curve(&p) {
            Some(p)
        } else {
            None
        }
    }

    /// Whether the two points are the same point.
    pub fn equals(&self, other: &Point) -> (r: bool)
        ensures
            r == (self.coords() == other.coords()),
    {
        let ex = crate::field::bytes_equal(&self.x, &other.x);
        let ey = crate::field::bytes_equal(&self.y, &other.y);
        proof {
            if self.coords() == other.coords() {
                crate::field::lemma_le_value_injective(self.x@, other.x@);
                crate::field::lemma_le_value_injective(self.y@, other.y@);
            }
        }
        ex && ey
    }

    /// The group sum of two points.
    pub fn add(&self, other: &Point) -> (r: Point)
        requires
            self.wf(),
            other.wf(),
        ensures
            r.wf(),
            r.coords() == ec_add(self.coords(), other.coords()),
    {
        g1_add(self, other)
    }

    /// The point multiplied by a scalar.
    pub fn mul(&self, k: &Scalar) -> (r: Point)
        requires
            self.wf(),
            k.wf(),
        ensures
            r.wf(),
            r.coords() == ec_mul(self.coords(), k.value()),
    {
        g1_mul(self, k)
    }
}

/// Relies on `Fq::from_bytes`: it accepts exactly the little-endian encodings
/// of integers below the base field order.
#[verifier::external_body]
fn fq_is_canonical(repr: &[u8; 32]) -> (r: bool)
    ensures
        r == (le_value(repr@) < fq_modulus()),
{
    bool::from(Fq::from_bytes(repr).is_some())
}

/// Relies on `CurveAffine::is_on_curve` of `G1Affine`: `y^2 = x^3 + 3`, or
/// the point at infinity.
#[verifier::external_body]
fn g1_is_on_curve(p: &Point) -> (r: bool)
    requires
        le_value(p.x@) < fq_modulus(),
        le_value(p.y@) < fq_modulus(),
    ensures
        r == on_curve(p.coords()),
{
    let a = G1Affine { x: Fq::from_bytes(&p.x).unwrap(), y: Fq::from_bytes(&p.y).unwrap() };
    bool::from(halo2curves::CurveAffine::is_on_curve(&a))
}

/// Relies on the addition of `G1Affine` points and `Curve::to_affine`: the
/// group sum, in affine form.
#[verifier::external_body]
fn g1_add(p: &Point, q: &Point) -> (r: Point)
    requires
        p.wf(),
        q.wf(),
    ensures
        r.wf(),
        r.coords() == ec_add(p.coords(), q.coords()),
{
    let a = G1Affine { x: Fq::from_bytes(&p.x).unwrap(), y: Fq::from_bytes(&p.y).unwrap() };
    let b = G1Affine { x: Fq::from_bytes(&q.x).unwrap(), y: Fq::from_bytes(&q.y).unwrap() };
    let s = halo2curves::group::Curve::to_affine(&(a + b));
    Point { x: s.x.to_bytes(), y: s.y.to_bytes() }
}

/// Relies on the multiplication of a `G1Affine` point by an `Fr` scalar and
/// `Curve::to_affine`: the point added to itself that many times.
#[verifier::external_body]
fn g1_mul(p: &Point, k: &Scalar) -> (r: Point)
    requires
        p.wf(),
        k.wf(),
    ensures
        r.wf(),
        r.coords() == ec_mul(p.coords(), k.value()),
{
    let a = G1Affine { x: Fq::from_bytes(&p.x).unwrap(), y: Fq::from_bytes(&p.y).unwrap() };
    let s = halo2curves::group::Curve::to_affine(&(a * Fr::from_bytes(&k.repr).unwrap()));
    Point { x: s.x.to_bytes(), y: s.y.to_bytes() }
}

/// `P_0 + P_1 + ...`, added up from the first point to the last.
pub open spec fn points_sum(ps: Seq<Point>) -> (int, int)
    decreases ps.len(),
{
    if ps.len() == 0 {
        identity()
    } else {
        ec_add(points_sum(ps.drop_last()), ps.last().coords())
    }
}

/// A leading point at infinity does not change a sum.
pub proof fn lemma_points_sum_identity_prefix(o: Point, ps: Seq<Point>)
    requires
        o.coords() == identity(),
    ensures
        points_sum(seq![o] + ps) == points_sum(ps),
    decreases ps.len(),
{
    let s = seq![o] + ps;
    if ps.len() == 0 {
        assert(s.drop_last() =~= Seq::<Point>::empty());
        assert(s.last() == o);
        assert(points_sum(s.drop_last()) == identity());
        assert(points_sum(s) == ec_add(identity(), identity()));
    } else {
        lemma_points_sum_identity_prefix(o, ps.drop_last());
        assert(s.drop_last() =~= seq![o] + ps.drop_last());
        assert(s.last() == ps.last());
        assert(points_sum(s) == ec_add(points_sum(s.drop_last()), ps.last().coords()));
    }
}

} // verus!
