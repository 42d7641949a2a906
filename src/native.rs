//! The native evaluation context: loaded values are plain field elements and
//! curve points, and every operation computes its result directly.
use crate::curve::{msm, Point};
use crate::field::Scalar;
use crate::Error;
use vstd::prelude::*;

verus! {

/// The native loader. It carries no state: any value of it serves.
#[derive(Clone, Copy, Debug)]
pub struct NativeLoader;

impl NativeLoader {
    /// A constant is loaded as itself.
    pub fn load_const(&self, value: &Scalar) -> (r: Scalar)
        ensures
            r == *value,
    {
        *value
    }

    /// A constant point is loaded as itself.
    pub fn ec_point_load_const(&self, value: &Point) -> (r: Point)
        ensures
            r == *value,
    {
        *value
    }

    /// Checks that two scalars are equal, failing with `annotation` when they
    /// differ.
    pub fn assert_eq(&self, annotation: &str, lhs: &Scalar, rhs: &Scalar) -> (r: Result<(), Error>)
        requires
            lhs.wf(),
            rhs.wf(),
        ensures
            r is Ok <==> lhs.value() == rhs.value(),
            r is Err ==> r->Err_0 is AssertionFailure && r->Err_0->AssertionFailure_0@ == annotation@,
    {
        if lhs.equals(rhs) {
            Ok(())
        } else {
            Err(Error::AssertionFailure(annotation.to_owned()))
        }
    }

    /// Checks that two points are equal, failing with `annotation` when they
    /// differ.
    pub fn ec_point_assert_eq(&self, annotation: &str, lhs: &Point, rhs: &Point) -> (r: Result<
        (),
        Error,
    >)
        ensures
            r is Ok <==> lhs.coords() == rhs.coords(),
            r is Err ==> r->Err_0 is AssertionFailure && r->Err_0->AssertionFailure_0@ == annotation@,
    {
        if lhs.equals(rhs) {
            Ok(())
        } else {
            Err(Error::AssertionFailure(annotation.to_owned()))
        }
    }
}

impl Scalar {
    /// `a * b + c`, where `c` is a constant; natively the same as `mul_add`.
    pub fn mul_add_constant(a: &Scalar, b: &Scalar, c: &Scalar) -> (r: Scalar)
        requires
            a.wf(),
            b.wf(),
            c.wf(),
        ensures
            r.wf(),
            r.value() == (a.value() * b.value() + c.value()) % crate::field::fr_modulus(),
    {
        Scalar::mul_add(a, b, c)
    }
}

impl Point {
    /// `sum_i s_i * P_i` over a non-empty list of pairs.
    pub fn multi_scalar_multiplication(pairs: &Vec<(Scalar, Point)>) -> (r: Point)
        requires
            pairs.len() > 0,
            forall|i: int| 0 <= i < pairs.len() ==> (#[trigger] pairs[i]).0.wf() && pairs[i].1.wf(),
        ensures
            r.wf(),
            r.coords() == msm(pairs@),
    {
        let mut acc = pairs[0].1.mul(&pairs[0].0);
        assert(pairs@.take(1).drop_last() =~= Seq::<(Scalar, Point)>::empty());
        assert(pairs@.take(1).last() == pairs@[0]);
        assert(msm(pairs@.take(1).drop_last()) == crate::curve::identity());
        let mut i: usize = 1;
        while i < pairs.len()
            invariant
                1 <= i <= pairs.len(),
                forall|j: int| 0 <= j < pairs.len() ==> (#[trigger] pairs[j]).0.wf() && pairs[j].1.wf(),
                acc.wf(),
                acc.coords() == msm(pairs@.take(i as int)),
            decreases pairs.len() - i,
        {
            let term = pairs[i].1.mul(&pairs[i].0);
            acc = acc.add(&term);
            assert(pairs@.take(i + 1).drop_last() =~= pairs@.take(i as int));
            i = i + 1;
        }
        assert(pairs@.take(i as int) =~= pairs@);
        acc
    }
}

} // verus!
