//! The arithmetic that a circuit-mode backend offers on scalars: each
//! operation records its constraints in the backend's context and returns an
//! assigned integer whose witnessed value is the one the native loader
//! computes on the same inputs.
use crate::curve::{msm, points_sum, Point};
use crate::field::{fr_modulus, Scalar};
use crate::Error;
use vstd::prelude::*;

verus! {

/// `sum_i c_i * v_i`.
pub open spec fn weighted_sum(values: Seq<(Scalar, Scalar)>) -> int
    decreases values.len(),
{
    if values.len() == 0 {
        0
    } else {
        weighted_sum(values.drop_last()) + values.last().0.value() * values.last().1.value()
    }
}

/// `sum_i c_i * a_i * b_i`.
pub open spec fn product_sum(values: Seq<(Scalar, Scalar, Scalar)>) -> int
    decreases values.len(),
{
    if values.len() == 0 {
        0
    } else {
        let (c, a, b) = values.last();
        product_sum(values.drop_last()) + c.value() * a.value() * b.value()
    }
}

pub trait IntegerInstructions: Sized {
    type Context;

    type AssignedInteger;

    /// The value witnessed in an assigned integer.
    spec fn witness_of(a: &Self::AssignedInteger) -> Scalar;

    /// The backend's integer for a field element.
    fn integer(&self, fe: Scalar) -> (r: Scalar)
        ensures
            r == fe,
    ;

    /// Assigns a witness, unconstrained.
    fn assign_integer(&self, ctx: &mut Self::Context, integer: &Scalar) -> (r: Self::AssignedInteger)
        requires
            integer.wf(),
        ensures
            Self::witness_of(&r) == *integer,
    ;

    /// Assigns a constant.
    fn assign_constant(&self, ctx: &mut Self::Context, integer: &Scalar) -> (r: Self::AssignedInteger)
        requires
            integer.wf(),
        ensures
            Self::witness_of(&r) == *integer,
    ;

    /// Constrains `sum_i c_i * v_i + constant`.
    fn sum_with_coeff_and_const(
        &self,
        ctx: &mut Self::Context,
        values: &Vec<(Scalar, Self::AssignedInteger)>,
        constant: &Scalar,
    ) -> (r: Self::AssignedInteger)
        requires
            constant.wf(),
            forall|i: int|
                0 <= i < values.len() ==> (#[trigger] values[i]).0.wf() && Self::witness_of(
                    &values[i].1,
                ).wf(),
        ensures
            Self::witness_of(&r).wf(),
            Self::witness_of(&r).value() == (constant.value() + weighted_sum(
                values@.map_values(|p: (Scalar, Self::AssignedInteger)| (p.0, Self::witness_of(&p.1))),
            )) % (
            fr_modulus() as int),
    ;

    /// Constrains `sum_i c_i * a_i * b_i + constant`.
    fn sum_products_with_coeff_and_const(
        &self,
        ctx: &mut Self::Context,
        values: &Vec<(Scalar, Self::AssignedInteger, Self::AssignedInteger)>,
        constant: &Scalar,
    ) -> (r: Self::AssignedInteger)
        requires
            constant.wf(),
            forall|i: int|
                0 <= i < values.len() ==> (#[trigger] values[i]).0.wf() && Self::witness_of(
                    &values[i].1,
                ).wf() && Self::witness_of(&values[i].2).wf(),
        ensures
            Self::witness_of(&r).wf(),
            Self::witness_of(&r).value() == (constant.value() + product_sum(
                values@.map_values(
                    |p: (Scalar, Self::AssignedInteger, Self::AssignedInteger)|
                        (p.0, Self::witness_of(&p.1), Self::witness_of(&p.2)),
                ),
            )) % (
            fr_modulus() as int),
    ;

    /// Constrains `a - b`.
    fn sub(&self, ctx: &mut Self::Context, a: &Self::AssignedInteger, b: &Self::AssignedInteger) -> (r:
        Self::AssignedInteger)
        requires
            Self::witness_of(a).wf(),
            Self::witness_of(b).wf(),
        ensures
            Self::witness_of(&r).wf(),
            Self::witness_of(&r).value() == (Self::witness_of(a).value() - Self::witness_of(
                b,
            ).value()) % (fr_modulus() as int),
    ;

    /// Constrains `-a`.
    fn neg(&self, ctx: &mut Self::Context, a: &Self::AssignedInteger) -> (r: Self::AssignedInteger)
        requires
            Self::witness_of(a).wf(),
        ensures
            Self::witness_of(&r).wf(),
            Self::witness_of(&r).value() == (0 - Self::witness_of(a).value()) % (fr_modulus() as int),
    ;

    /// Constrains `a` to be non-zero and returns its inverse; callers have
    /// excluded zero.
    fn invert(&self, ctx: &mut Self::Context, a: &Self::AssignedInteger) -> (r: Self::AssignedInteger)
        requires
            Self::witness_of(a).wf(),
            Self::witness_of(a).value() != 0,
        ensures
            Self::witness_of(&r).wf(),
            (Self::witness_of(a).value() * Self::witness_of(&r).value()) % fr_modulus() == 1,
    ;

    /// Constrains `a == b`, and reports at once when the witnessed values
    /// already differ.
    fn assert_equal(&self, ctx: &mut Self::Context, a: &Self::AssignedInteger, b: &Self::AssignedInteger) -> (r:
        Result<(), Error>)
        requires
            Self::witness_of(a).wf(),
            Self::witness_of(b).wf(),
        ensures
            r is Ok <==> Self::witness_of(a).value() == Self::witness_of(b).value(),
            r is Err ==> r->Err_0 is AssertionFailure,
    ;
}

pub trait EccInstructions: Sized {
    type Context;

    type AssignedScalar;

    type AssignedEcPoint;

    /// The value witnessed in an assigned scalar.
    spec fn scalar_witness(a: &Self::AssignedScalar) -> Scalar;

    /// The point witnessed in an assigned point.
    spec fn point_witness(p: &Self::AssignedEcPoint) -> Point;

    /// Assigns a constant point.
    fn assign_constant(&self, ctx: &mut Self::Context, point: &Point) -> (r: Self::AssignedEcPoint)
        requires
            point.wf(),
        ensures
            Self::point_witness(&r) == *point,
    ;

    /// Assigns a witnessed point, constrained to lie on the curve or be the
    /// point at infinity: a point off the curve is assigned as it is and
    /// leaves the circuit unsatisfiable.
    fn assign_point(&self, ctx: &mut Self::Context, point: &Point) -> (r: Self::AssignedEcPoint)
        requires
            point.canonical(),
        ensures
            Self::point_witness(&r) == *point,
    ;

    /// Constrains `constant + sum_i values_i`.
    fn sum_with_const(&self, ctx: &mut Self::Context, values: &Vec<Self::AssignedEcPoint>, constant: &Point) -> (r:
        Self::AssignedEcPoint)
        requires
            constant.wf(),
            forall|i: int| 0 <= i < values.len() ==> Self::point_witness(&(#[trigger] values[i])).wf(),
        ensures
            Self::point_witness(&r).wf(),
            Self::point_witness(&r).coords() == points_sum(
                seq![*constant] + values@.map_values(|p: Self::AssignedEcPoint| Self::point_witness(&p)),
            ),
    ;

    /// Constrains `sum_i s_i * P_i` over fixed points.
    fn fixed_base_msm(&mut self, ctx: &mut Self::Context, pairs: &Vec<(Self::AssignedScalar, Point)>) -> (r:
        Self::AssignedEcPoint)
        requires
            pairs.len() > 0,
            forall|i: int|
                0 <= i < pairs.len() ==> Self::scalar_witness(&(#[trigger] pairs[i]).0).wf() && pairs[i].1.wf(),
        ensures
            Self::point_witness(&r).wf(),
            Self::point_witness(&r).coords() == msm(
                pairs@.map_values(|p: (Self::AssignedScalar, Point)| (Self::scalar_witness(&p.0), p.1)),
            ),
    ;

    /// Constrains `sum_i s_i * P_i` over witnessed points.
    fn variable_base_msm(
        &mut self,
        ctx: &mut Self::Context,
        pairs: &Vec<(Self::AssignedScalar, Self::AssignedEcPoint)>,
    ) -> (r: Self::AssignedEcPoint)
        requires
            pairs.len() > 0,
            forall|i: int|
                0 <= i < pairs.len() ==> Self::scalar_witness(&(#[trigger] pairs[i]).0).wf()
                    && Self::point_witness(&pairs[i].1).wf(),
        ensures
            Self::point_witness(&r).wf(),
            Self::point_witness(&r).coords() == msm(
                pairs@.map_values(
                    |p: (Self::AssignedScalar, Self::AssignedEcPoint)|
                        (Self::scalar_witness(&p.0), Self::point_witness(&p.1)),
                ),
            ),
    ;

    /// The point in canonical affine form.
    fn normalize(&self, ctx: &mut Self::Context, point: &Self::AssignedEcPoint) -> (r: Self::AssignedEcPoint)
        ensures
            Self::point_witness(&r) == Self::point_witness(point),
    ;

    /// Constrains `a == b`, and reports an error when the witnessed points
    /// differ.
    fn assert_equal(&self, ctx: &mut Self::Context, a: &Self::AssignedEcPoint, b: &Self::AssignedEcPoint) -> (r:
        Result<(), Error>)
        ensures
            r is Ok <==> Self::point_witness(a).coords() == Self::point_witness(b).coords(),
            r is Err ==> r->Err_0 is AssertionFailure,
    ;
}

} // verus!
