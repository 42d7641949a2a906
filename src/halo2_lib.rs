//! Circuit-mode scalar instructions on halo2-base's flex gate. Every
//! operation records its constraints in the context and returns the assigned
//! cell together with the value witnessed in it; the contracts state that
//! value, which is the one the native loader computes.
use crate::curve::{lemma_points_sum_identity_prefix, msm, points_sum, Point};
use crate::field::{fr_modulus, Scalar};
use crate::limbs::{limb_value, BITS, LIMBS};
use crate::shim::{product_sum, weighted_sum, EccInstructions, IntegerInstructions};
use crate::Error;
use halo2_base::gates::flex_gate::{GateChip, GateInstructions};
use halo2_base::gates::RangeChip;
use halo2_base::halo2_proofs::halo2curves::bn256::{Fq, Fr, G1Affine};
use halo2_base::virtual_region::lookups::LookupAnyManager;
use halo2_ecc::bigint::ProperCrtUint;
use halo2_ecc::bn254::FpChip;
use halo2_ecc::ecc::{multi_scalar_multiply, EcPoint, EccChip};
use halo2_ecc::fields::FieldChip;
use halo2_base::{AssignedValue, Context, QuantumCell};
use vstd::arithmetic::div_mod::lemma_small_mod;
use vstd::prelude::*;

verus! {

/// The circuit under construction: a halo2-base context over the BN254
/// scalar field that records constraints. Only `CircuitContext::new` makes
/// one, and cells come only from the operations below, so every cell handed
/// to a gate carries a cell reference. Verus refuses to declare halo2-base's
/// generic types, whose parameters carry halo2-base's own field traits, so it
/// is held opaque.
#[verifier::external_body]
pub struct CircuitContext {
    ctx: Context<Fr>,
}

/// A cell assigned in a `CircuitContext`, held opaque for the same reason.
#[verifier::external_body]
pub struct Cell {
    cell: AssignedValue<Fr>,
}

impl Clone for Cell {
    /// Relies on `AssignedValue` being `Copy`.
    #[verifier::external_body]
    fn clone(&self) -> (r: Self) {
        Cell { cell: self.cell }
    }
}

impl Copy for Cell {

}

/// halo2-base's flex gate over the BN254 scalar field, held opaque for the
/// same reason.
#[verifier::external_body]
pub struct FlexGateScalarChip {
    gate: GateChip<Fr>,
}

/// A cell assigned in the circuit, with the value witnessed in it.
#[derive(Clone, Copy)]
pub struct AssignedScalar {
    cell: Cell,
    value: Scalar,
}

impl AssignedScalar {
    pub closed spec fn witness(&self) -> Scalar {
        self.value
    }

    /// The value witnessed in the cell.
    pub fn value(&self) -> (r: Scalar)
        ensures
            r == self.witness(),
    {
        self.value
    }
}

/// An operand of a gate: a constant, or a cell assigned before.
#[derive(Clone, Copy)]
pub enum Operand {
    Constant(Scalar),
    Existing(AssignedScalar),
}

pub open spec fn operand_value(o: Operand) -> Scalar {
    match o {
        Operand::Constant(c) => c,
        Operand::Existing(a) => a.witness(),
    }
}

/// `sum_i a_i * b_i`.
pub open spec fn inner(a: Seq<Operand>, b: Seq<Scalar>) -> int
    decreases a.len(),
{
    if a.len() == 0 || b.len() == 0 {
        0
    } else {
        inner(a.drop_last(), b.drop_last()) + operand_value(a.last()).value() * b.last().value()
    }
}

/// The coefficients paired with the values witnessed in the cells.
pub open spec fn witnessed(values: Seq<(Scalar, AssignedScalar)>) -> Seq<(Scalar, Scalar)> {
    values.map_values(|p: (Scalar, AssignedScalar)| (p.0, p.1.witness()))
}

/// The coefficients paired with the values witnessed in both cells.
pub open spec fn witnessed_products(values: Seq<(Scalar, AssignedScalar, AssignedScalar)>) -> Seq<
    (Scalar, Scalar, Scalar),
> {
    values.map_values(
        |p: (Scalar, AssignedScalar, AssignedScalar)| (p.0, p.1.witness(), p.2.witness()),
    )
}

/// The circuit's quadratic gate and the native loader agree: a single
/// product with coefficient one, plus a constant, witnesses the value that
/// `Scalar::mul_add` computes.
pub proof fn lemma_mul_add_agrees(one: Scalar, a: AssignedScalar, b: AssignedScalar, c: Scalar)
    requires
        one.value() == 1,
    ensures
        (c.value() + product_sum(seq![(one, a.witness(), b.witness())])) % (fr_modulus() as int) == ((a.witness().value()
            * b.witness().value() + c.value()) as int) % (fr_modulus() as int),
{
    let s = seq![(one, a.witness(), b.witness())];
    assert(s.drop_last() =~= Seq::<(Scalar, Scalar, Scalar)>::empty());
    assert(s.last() == (one, a.witness(), b.witness()));
    let (x, y) = (a.witness().value() as int, b.witness().value() as int);
    assert(product_sum(s.drop_last()) == 0);
    assert(product_sum(s) == one.value() * x * y);
    assert(1 * x * y == x * y) by (nonlinear_arith);
}

impl CircuitContext {
    /// A fresh context. Every context records constraints, so every cell it
    /// assigns carries a reference to its place in the circuit, which the
    /// gates that take existing cells rely on.
    pub fn new() -> (r: Self) {
        context_new()
    }
}

impl FlexGateScalarChip {
    pub fn new() -> (r: Self) {
        gate_chip_new()
    }
}

impl IntegerInstructions for FlexGateScalarChip {
    type Context = CircuitContext;

    type AssignedInteger = AssignedScalar;

    open spec fn witness_of(a: &AssignedScalar) -> Scalar {
        a.witness()
    }

    /// Integers of this backend are the field elements themselves.
    fn integer(&self, fe: Scalar) -> (r: Scalar) {
        fe
    }

    /// Assigns a witness, unconstrained.
    fn assign_integer(&self, ctx: &mut CircuitContext, integer: &Scalar) -> (r: AssignedScalar) {
        load_witness(ctx, integer)
    }

    /// Assigns a constant.
    fn assign_constant(&self, ctx: &mut CircuitContext, integer: &Scalar) -> (r: AssignedScalar) {
        load_constant(ctx, integer)
    }

    /// Constrains `sum_i c_i * v_i + constant` in one inner product; a zero
    /// constant takes no term.
    fn sum_with_coeff_and_const(
        &self,
        ctx: &mut CircuitContext,
        values: &Vec<(Scalar, AssignedScalar)>,
        constant: &Scalar,
    ) -> (r: AssignedScalar) {
        let mut a: Vec<Operand> = Vec::new();
        let mut b: Vec<Scalar> = Vec::new();
        if !constant.equals(&Scalar::zero()) {
            let one = Scalar::one();
            a.push(Operand::Constant(one));
            b.push(*constant);
            proof {
                assert(a@.last() == Operand::Constant(one));
                assert(b@.last() == *constant);
                assert(inner(a@.drop_last(), b@.drop_last()) == 0);
                assert(a@.drop_last() =~= Seq::<Operand>::empty());
                assert(b@.drop_last() =~= Seq::<Scalar>::empty());
                assert(inner(a@, b@) == 1 * constant.value());
            }
        }
        proof {
            assert(witnessed(values@).take(0) =~= Seq::<(Scalar, Scalar)>::empty());
        }
        let mut i: usize = 0;
        while i < values.len()
            invariant
                0 <= i <= values.len(),
                a.len() == b.len(),
                constant.wf(),
                forall|j: int|
                    0 <= j < values.len() ==> (#[trigger] values[j]).0.wf() && values[j].1.witness().wf(),
                forall|j: int|
                    0 <= j < a.len() ==> operand_value(#[trigger] a[j]).wf() && b[j].wf(),
                inner(a@, b@) == constant.value() + weighted_sum(witnessed(values@).take(i as int)),
            decreases values.len() - i,
        {
            let (c, v) = values[i];
            let ghost (a0, b0) = (a@, b@);
            a.push(Operand::Existing(v));
            b.push(c);
            proof {
                assert(a@.drop_last() =~= a0);
                assert(b@.drop_last() =~= b0);
                assert(v.witness().value() * c.value() == c.value() * v.witness().value()) by (nonlinear_arith);
                assert(witnessed(values@).take(i + 1).drop_last() =~= witnessed(values@).take(i as int));
                assert(witnessed(values@).take(i + 1).last() == (c, v.witness()));
            }
            i = i + 1;
        }
        proof {
            assert(witnessed(values@).take(i as int) =~= witnessed(values@));
            assert(values@.map_values(
                |p: (Scalar, AssignedScalar)| (p.0, FlexGateScalarChip::witness_of(&p.1)),
            ) =~= witnessed(values@));
        }
        inner_product(self, ctx, &a, &b)
    }

    /// Constrains `sum_i c_i * a_i * b_i + constant`; with no products it is
    /// the constant alone.
    fn sum_products_with_coeff_and_const(
        &self,
        ctx: &mut CircuitContext,
        values: &Vec<(Scalar, AssignedScalar, AssignedScalar)>,
        constant: &Scalar,
    ) -> (r: AssignedScalar) {
        proof {
            assert(values@.map_values(
                |p: (Scalar, AssignedScalar, AssignedScalar)|
                    (p.0, FlexGateScalarChip::witness_of(&p.1), FlexGateScalarChip::witness_of(&p.2)),
            ) =~= witnessed_products(values@));
        }
        if values.len() == 0 {
            proof {
                lemma_small_mod(constant.value(), fr_modulus());
            }
            self.assign_constant(ctx, constant)
        } else {
            sum_products_with_coeff_and_var(self, ctx, values, constant)
        }
    }

    /// Constrains `a - b`.
    fn sub(&self, ctx: &mut CircuitContext, a: &AssignedScalar, b: &AssignedScalar) -> (r: AssignedScalar) {
        gate_sub(self, ctx, a, b)
    }

    /// Constrains `-a`.
    fn neg(&self, ctx: &mut CircuitContext, a: &AssignedScalar) -> (r: AssignedScalar) {
        gate_neg(self, ctx, a)
    }

    /// Constrains `a` to be non-zero and returns its inverse.
    fn invert(&self, ctx: &mut CircuitContext, a: &AssignedScalar) -> (r: AssignedScalar) {
        let is_zero = gate_is_zero(self, ctx, a);
        gate_assert_is_const(self, ctx, &is_zero, &Scalar::zero());
        let one = Operand::Constant(Scalar::one());
        let r = gate_div_unsafe(self, ctx, &one, a);
        proof {
            lemma_small_mod(1, fr_modulus());
        }
        r
    }

    /// Constrains `a == b`, and reports at once when the witnessed values
    /// already differ.
    fn assert_equal(&self, ctx: &mut CircuitContext, a: &AssignedScalar, b: &AssignedScalar) -> (r:
        Result<(), Error>) {
        constrain_equal(ctx, a, b);
        let va = a.value();
        let vb = b.value();
        if va.equals(&vb) {
            Ok(())
        } else {
            Err(Error::AssertionFailure("witnessed values differ".to_owned()))
        }
    }
}

/// Relies on `Context::new` with `witness_gen_only` false: an empty context,
/// with its own copy-constraint manager, whose cells all carry a cell
/// reference (`Context::last`, `Context::get`).
#[verifier::external_body]
fn context_new() -> (r: CircuitContext) {
    CircuitContext { ctx: Context::new(false, 0, "flex_gate", 0, Default::default()) }
}

/// Relies on `GateChip::new`.
#[verifier::external_body]
fn gate_chip_new() -> (r: FlexGateScalarChip) {
    FlexGateScalarChip { gate: GateChip::new() }
}

/// Relies on `Context::load_witness`: a new cell holding the witness.
#[verifier::external_body]
fn load_witness(ctx: &mut CircuitContext, v: &Scalar) -> (r: AssignedScalar)
    requires
        v.wf(),
    ensures
        r.witness() == *v,
{
    let cell = ctx.ctx.load_witness(Fr::from_bytes(&v.repr).unwrap());
    AssignedScalar { cell: Cell { cell }, value: Scalar { repr: cell.value().to_bytes() } }
}

/// Relies on `Context::load_constant`: a new cell fixed to the constant.
#[verifier::external_body]
fn load_constant(ctx: &mut CircuitContext, v: &Scalar) -> (r: AssignedScalar)
    requires
        v.wf(),
    ensures
        r.witness() == *v,
{
    let cell = ctx.ctx.load_constant(Fr::from_bytes(&v.repr).unwrap());
    AssignedScalar { cell: Cell { cell }, value: Scalar { repr: cell.value().to_bytes() } }
}

/// Relies on `GateInstructions::inner_product`: a cell holding
/// `sum_i a_i * b_i`, the `b_i` taken as constants.
/// The cells it takes carry the cell reference it unwraps: every context
/// records constraints (see `CircuitContext`).
#[verifier::external_body]
fn inner_product(chip: &FlexGateScalarChip, ctx: &mut CircuitContext, a: &Vec<Operand>, b: &Vec<Scalar>) -> (r: AssignedScalar)
    requires
        a.len() == b.len(),
        forall|j: int| 0 <= j < a.len() ==> operand_value(#[trigger] a[j]).wf() && b[j].wf(),
    ensures
        r.witness().wf(),
        r.witness().value() == inner(a@, b@) % (fr_modulus() as int),
{
    let a = a.iter().map(|o| match o {
        Operand::Constant(c) => QuantumCell::Constant(Fr::from_bytes(&c.repr).unwrap()),
        Operand::Existing(x) => QuantumCell::Existing(x.cell.cell),
    });
    let b = b.iter().map(|c| QuantumCell::Constant(Fr::from_bytes(&c.repr).unwrap()));
    let cell = chip.gate.inner_product(&mut ctx.ctx, a, b);
    AssignedScalar { cell: Cell { cell }, value: Scalar { repr: cell.value().to_bytes() } }
}

/// Relies on `GateInstructions::sum_products_with_coeff_and_var`: a cell
/// holding `var + sum_i c_i * a_i * b_i`, here with a constant `var`.
/// The cells it takes carry the cell reference it unwraps: every context
/// records constraints (see `CircuitContext`).
#[verifier::external_body]
fn sum_products_with_coeff_and_var(
    chip: &FlexGateScalarChip,
    ctx: &mut CircuitContext,
    values: &Vec<(Scalar, AssignedScalar, AssignedScalar)>,
    var: &Scalar,
) -> (r: AssignedScalar)
    requires
        var.wf(),
        forall|i: int|
            0 <= i < values.len() ==> (#[trigger] values[i]).0.wf() && values[i].1.witness().wf()
                && values[i].2.witness().wf(),
    ensures
        r.witness().wf(),
        r.witness().value() == (var.value() + product_sum(witnessed_products(values@))) % (fr_modulus() as int),
{
    let values = values.iter().map(|(c, a, b)| {
        (Fr::from_bytes(&c.repr).unwrap(), QuantumCell::Existing(a.cell.cell), QuantumCell::Existing(b.cell.cell))
    });
    let var = QuantumCell::Constant(Fr::from_bytes(&var.repr).unwrap());
    let cell = chip.gate.sum_products_with_coeff_and_var(&mut ctx.ctx, values, var);
    AssignedScalar { cell: Cell { cell }, value: Scalar { repr: cell.value().to_bytes() } }
}

/// Relies on `GateInstructions::sub`: a cell holding `a - b`.
/// The cells it takes carry the cell reference it unwraps: every context
/// records constraints (see `CircuitContext`).
#[verifier::external_body]
fn gate_sub(chip: &FlexGateScalarChip, ctx: &mut CircuitContext, a: &AssignedScalar, b: &AssignedScalar) -> (r: AssignedScalar)
    requires
        a.witness().wf(),
        b.witness().wf(),
    ensures
        r.witness().wf(),
        r.witness().value() == (a.witness().value() - b.witness().value()) % (fr_modulus() as int),
{
    let cell = chip.gate.sub(&mut ctx.ctx, QuantumCell::Existing(a.cell.cell), QuantumCell::Existing(b.cell.cell));
    AssignedScalar { cell: Cell { cell }, value: Scalar { repr: cell.value().to_bytes() } }
}

/// Relies on `GateInstructions::neg`: a cell holding `-a`.
/// The cells it takes carry the cell reference it unwraps: every context
/// records constraints (see `CircuitContext`).
#[verifier::external_body]
fn gate_neg(chip: &FlexGateScalarChip, ctx: &mut CircuitContext, a: &AssignedScalar) -> (r: AssignedScalar)
    requires
        a.witness().wf(),
    ensures
        r.witness().wf(),
        r.witness().value() == (0 - a.witness().value()) % (fr_modulus() as int),
{
    let cell = chip.gate.neg(&mut ctx.ctx, QuantumCell::Existing(a.cell.cell));
    AssignedScalar { cell: Cell { cell }, value: Scalar { repr: cell.value().to_bytes() } }
}

/// Relies on `GateInstructions::is_zero`: a cell holding 1 when `a` is zero
/// and 0 otherwise.
/// The cells it takes carry the cell reference it unwraps: every context
/// records constraints (see `CircuitContext`).
#[verifier::external_body]
fn gate_is_zero(chip: &FlexGateScalarChip, ctx: &mut CircuitContext, a: &AssignedScalar) -> (r: AssignedScalar)
    requires
        a.witness().wf(),
    ensures
        r.witness().wf(),
        r.witness().value() == (if a.witness().value() == 0 { 1nat } else { 0nat }),
{
    let cell = chip.gate.is_zero(&mut ctx.ctx, a.cell.cell);
    AssignedScalar { cell: Cell { cell }, value: Scalar { repr: cell.value().to_bytes() } }
}

/// Relies on `GateInstructions::assert_is_const`: constrains the cell to the
/// constant.
/// The cells it takes carry the cell reference it unwraps: every context
/// records constraints (see `CircuitContext`).
#[verifier::external_body]
fn gate_assert_is_const(chip: &FlexGateScalarChip, ctx: &mut CircuitContext, a: &AssignedScalar, c: &Scalar)
    requires
        c.wf(),
{
    chip.gate.assert_is_const(&mut ctx.ctx, &a.cell.cell, &Fr::from_bytes(&c.repr).unwrap())
}

/// Relies on `GateInstructions::div_unsafe`: a cell holding `a / b`; it
/// panics when `b` is zero.
/// The cells it takes carry the cell reference it unwraps: every context
/// records constraints (see `CircuitContext`).
#[verifier::external_body]
fn gate_div_unsafe(chip: &FlexGateScalarChip, ctx: &mut CircuitContext, a: &Operand, b: &AssignedScalar) -> (r: AssignedScalar)
    requires
        operand_value(*a).wf(),
        b.witness().wf(),
        b.witness().value() != 0,
    ensures
        r.witness().wf(),
        (b.witness().value() * r.witness().value()) % fr_modulus() == operand_value(*a).value() % fr_modulus(),
{
    let a = match a {
        Operand::Constant(c) => QuantumCell::Constant(Fr::from_bytes(&c.repr).unwrap()),
        Operand::Existing(x) => QuantumCell::Existing(x.cell.cell),
    };
    let cell = chip.gate.div_unsafe(&mut ctx.ctx, a, QuantumCell::Existing(b.cell.cell));
    AssignedScalar { cell: Cell { cell }, value: Scalar { repr: cell.value().to_bytes() } }
}

/// Relies on `Context::constrain_equal`: an equality constraint between the
/// two cells.
/// The cells it takes carry the cell reference it unwraps: every context
/// records constraints (see `CircuitContext`).
#[verifier::external_body]
fn constrain_equal(ctx: &mut CircuitContext, a: &AssignedScalar, b: &AssignedScalar) {
    ctx.ctx.constrain_equal(&a.cell.cell, &b.cell.cell)
}

/// Bits of a scalar fed to the variable-base MSM.
const SCALAR_BITS: usize = 254;

/// Window width of the variable-base MSM.
const MSM_WINDOW_BITS: usize = 4;

/// A point assigned in halo2-ecc's non-native encoding, held opaque for the
/// same reason as `Cell`.
#[verifier::external_body]
pub struct PointCell {
    point: EcPoint<Fr, ProperCrtUint<Fr>>,
}

/// A point assigned in the circuit, with the point witnessed in it.
pub struct AssignedPoint {
    cell: PointCell,
    value: Point,
}

impl AssignedPoint {
    pub closed spec fn witness(&self) -> Point {
        self.value
    }

    /// The point witnessed in the cells.
    pub fn value(&self) -> (r: Point)
        ensures
            r == self.witness(),
    {
        self.value
    }
}

/// The points witnessed in assigned points.
pub open spec fn witnessed_points(ps: Seq<AssignedPoint>) -> Seq<Point> {
    ps.map_values(|p: AssignedPoint| p.witness())
}

/// The scalars and points witnessed in MSM pairs.
pub open spec fn witnessed_pairs(pairs: Seq<(AssignedScalar, AssignedPoint)>) -> Seq<(Scalar, Point)> {
    pairs.map_values(|p: (AssignedScalar, AssignedPoint)| (p.0.witness(), p.1.witness()))
}

/// The elliptic-curve instructions of the halo2-lib backend, over halo2-ecc's
/// base-field chip for BN254 G1; it holds the range chip that the field chip
/// draws on, opaque for the same reason as `Cell`.
#[verifier::external_body]
pub struct BaseFieldEccChip {
    range: RangeChip<Fr>,
    limb_bits: usize,
    num_limbs: usize,
}

impl BaseFieldEccChip {
    /// A chip whose range checks use lookups of `lookup_bits` bits.
    pub fn new(lookup_bits: usize) -> (r: Self)
        requires
            0 < lookup_bits < 64,
    {
        ecc_chip_new(lookup_bits, BITS, LIMBS)
    }
}

impl EccInstructions for BaseFieldEccChip {
    type Context = CircuitContext;

    type AssignedScalar = AssignedScalar;

    type AssignedEcPoint = AssignedPoint;

    open spec fn scalar_witness(a: &AssignedScalar) -> Scalar {
        a.witness()
    }

    open spec fn point_witness(p: &AssignedPoint) -> Point {
        p.witness()
    }

    /// Assigns a constant point.
    fn assign_constant(&self, ctx: &mut CircuitContext, point: &Point) -> (r: AssignedPoint) {
        ecc_assign_constant(self, ctx, point)
    }

    /// Assigns a witnessed point, constrained to lie on the curve or be the
    /// point at infinity.
    fn assign_point(&self, ctx: &mut CircuitContext, point: &Point) -> (r: AssignedPoint) {
        ecc_assign_point(self, ctx, point)
    }

    /// Constrains `constant + sum_i values_i`; a constant at infinity takes no
    /// term.
    fn sum_with_const(
        &self,
        ctx: &mut CircuitContext,
        values: &Vec<AssignedPoint>,
        constant: &Point,
    ) -> (r: AssignedPoint) {
        proof {
            assert(values@.map_values(|p: AssignedPoint| BaseFieldEccChip::point_witness(&p))
                =~= witnessed_points(values@));
        }
        let infinity = Point { x: [0u8; 32], y: [0u8; 32] };
        if constant.equals(&infinity) {
            proof {
                assert(witnessed_points(Seq::<AssignedPoint>::empty()) =~= Seq::<Point>::empty());
                assert(forall|i: int| 0 <= i < 32 ==> infinity.x@[i] == 0);
                crate::field::lemma_le_value_zeros(infinity.x@);
                crate::field::lemma_le_value_zeros(infinity.y@);
                lemma_points_sum_identity_prefix(*constant, witnessed_points(values@));
                assert(Seq::<Point>::empty() + witnessed_points(values@) =~= witnessed_points(values@));
            }
            ecc_sum(self, ctx, &Vec::new(), values)
        } else {
            let c = self.assign_constant(ctx, constant);
            let mut first: Vec<AssignedPoint> = Vec::new();
            first.push(c);
            proof {
                assert(witnessed_points(first@) =~= seq![*constant]);
            }
            ecc_sum(self, ctx, &first, values)
        }
    }

    /// Constrains `sum_i s_i * P_i` over witnessed scalars and points.
    fn variable_base_msm(
        &mut self,
        ctx: &mut CircuitContext,
        pairs: &Vec<(AssignedScalar, AssignedPoint)>,
    ) -> (r: AssignedPoint) {
        proof {
            assert(pairs@.map_values(
                |p: (AssignedScalar, AssignedPoint)|
                    (BaseFieldEccChip::scalar_witness(&p.0), BaseFieldEccChip::point_witness(&p.1)),
            ) =~= witnessed_pairs(pairs@));
        }
        ecc_msm(self, ctx, pairs, SCALAR_BITS, MSM_WINDOW_BITS)
    }

    /// Constrains `sum_i s_i * P_i` over fixed points, each assigned as a
    /// constant and then run through the variable-base MSM.
    fn fixed_base_msm(
        &mut self,
        ctx: &mut CircuitContext,
        pairs: &Vec<(AssignedScalar, Point)>,
    ) -> (r: AssignedPoint) {
        let mut assigned: Vec<(AssignedScalar, AssignedPoint)> = Vec::new();
        let mut i: usize = 0;
        while i < pairs.len()
            invariant
                0 <= i <= pairs.len(),
                assigned.len() == i,
                forall|j: int| 0 <= j < pairs.len() ==> (#[trigger] pairs[j]).0.witness().wf() && pairs[j].1.wf(),
                forall|j: int|
                    0 <= j < i ==> (#[trigger] assigned[j]).0 == pairs[j].0 && assigned[j].1.witness()
                        == pairs[j].1,
            decreases pairs.len() - i,
        {
            let base = self.assign_constant(ctx, &pairs[i].1);
            assigned.push((pairs[i].0, base));
            i = i + 1;
        }
        proof {
            assert(witnessed_pairs(assigned@) =~= pairs@.map_values(
                |p: (AssignedScalar, Point)| (BaseFieldEccChip::scalar_witness(&p.0), p.1),
            ));
            assert(assigned@.map_values(
                |p: (AssignedScalar, AssignedPoint)|
                    (BaseFieldEccChip::scalar_witness(&p.0), BaseFieldEccChip::point_witness(&p.1)),
            ) =~= witnessed_pairs(assigned@));
        }
        self.variable_base_msm(ctx, &assigned)
    }

    /// The point itself: its encoding is already the canonical one.
    fn normalize(&self, ctx: &mut CircuitContext, point: &AssignedPoint) -> (r: AssignedPoint) {
        ecc_clone(point)
    }

    /// Constrains `a == b` when the witnessed points agree, and reports an
    /// error when they differ.
    fn assert_equal(&self, ctx: &mut CircuitContext, a: &AssignedPoint, b: &AssignedPoint) -> (r: Result<
        (),
        Error,
    >) {
        if a.value.equals(&b.value) {
            ecc_assert_equal(self, ctx, a, b);
            Ok(())
        } else {
            Err(Error::AssertionFailure("witnessed points differ".to_owned()))
        }
    }
}

/// Relies on `RangeChip::new`, which accepts lookups of fewer than 64 bits;
/// the limb layout is kept for `FpChip::new`, which accepts 88-bit limbs,
/// three of them.
#[verifier::external_body]
fn ecc_chip_new(lookup_bits: usize, limb_bits: usize, num_limbs: usize) -> (r: BaseFieldEccChip)
    requires
        0 < lookup_bits < 64,
        limb_bits == BITS,
        num_limbs == LIMBS,
{
    let managers = core::array::from_fn(|_| LookupAnyManager::new(false, Default::default()));
    BaseFieldEccChip { range: RangeChip::new(lookup_bits, managers), limb_bits, num_limbs }
}

/// Relies on `EccChip::assign_constant_point`: a point fixed to the
/// constant, whose coordinates read back through `FieldChip::get_assigned_value`.
#[verifier::external_body]
fn ecc_assign_constant(chip: &BaseFieldEccChip, ctx: &mut CircuitContext, p: &Point) -> (r: AssignedPoint)
    requires
        p.wf(),
    ensures
        r.witness() == *p,
{
    let fp = FpChip::<Fr>::new(&chip.range, chip.limb_bits, chip.num_limbs);
    let g = G1Affine { x: Fq::from_bytes(&p.x).unwrap(), y: Fq::from_bytes(&p.y).unwrap() };
    let point = EccChip::new(&fp).assign_constant_point(&mut ctx.ctx, g);
    AssignedPoint { cell: PointCell { point }, value: *p }
}

/// Relies on `EccChip::assign_point`: the coordinates loaded as witnesses,
/// and a constraint that the point lies on the curve or is the point at
/// infinity, which a point off the curve leaves unsatisfied.
#[verifier::external_body]
fn ecc_assign_point(chip: &BaseFieldEccChip, ctx: &mut CircuitContext, p: &Point) -> (r: AssignedPoint)
    requires
        p.canonical(),
    ensures
        r.witness() == *p,
{
    let fp = FpChip::<Fr>::new(&chip.range, chip.limb_bits, chip.num_limbs);
    let g = G1Affine { x: Fq::from_bytes(&p.x).unwrap(), y: Fq::from_bytes(&p.y).unwrap() };
    let point = EccChip::new(&fp).assign_point(&mut ctx.ctx, g);
    AssignedPoint { cell: PointCell { point }, value: *p }
}

/// Relies on `EccChip::sum` over `first` then `rest`: their group sum, read
/// back through `FieldChip::get_assigned_value`. It offsets the sum by a
/// random point, so it can fail only on a collision with that point.
/// The cells it takes carry the cell reference it unwraps: every context
/// records constraints (see `CircuitContext`).
#[verifier::external_body]
fn ecc_sum(chip: &BaseFieldEccChip, ctx: &mut CircuitContext, first: &Vec<AssignedPoint>, rest: &Vec<AssignedPoint>) -> (r:
    AssignedPoint)
    requires
        forall|i: int| 0 <= i < first.len() ==> (#[trigger] first[i]).witness().wf(),
        forall|i: int| 0 <= i < rest.len() ==> (#[trigger] rest[i]).witness().wf(),
    ensures
        r.witness().wf(),
        r.witness().coords() == points_sum(witnessed_points(first@) + witnessed_points(rest@)),
{
    let fp = FpChip::<Fr>::new(&chip.range, chip.limb_bits, chip.num_limbs);
    let points = first.iter().chain(rest.iter()).map(|p| p.cell.point.clone());
    let point = EccChip::new(&fp).sum::<G1Affine>(&mut ctx.ctx, points);
    let x = fp.get_assigned_value(&point.x.clone().into()).to_bytes();
    let y = fp.get_assigned_value(&point.y.clone().into()).to_bytes();
    AssignedPoint { cell: PointCell { point }, value: Point { x, y } }
}

/// Relies on `multi_scalar_multiply` of halo2-ecc with one chunk of
/// `max_bits` bits per scalar: `sum_i s_i * P_i`, read back through
/// `FieldChip::get_assigned_value`.
/// The cells it takes carry the cell reference it unwraps: every context
/// records constraints (see `CircuitContext`).
#[verifier::external_body]
fn ecc_msm(
    chip: &BaseFieldEccChip,
    ctx: &mut CircuitContext,
    pairs: &Vec<(AssignedScalar, AssignedPoint)>,
    max_bits: usize,
    window_bits: usize,
) -> (r: AssignedPoint)
    requires
        pairs.len() > 0,
        max_bits == 254,
        window_bits == 4,
        forall|i: int| 0 <= i < pairs.len() ==> (#[trigger] pairs[i]).0.witness().wf() && pairs[i].1.witness().wf(),
    ensures
        r.witness().wf(),
        r.witness().coords() == msm(witnessed_pairs(pairs@)),
{
    let fp = FpChip::<Fr>::new(&chip.range, chip.limb_bits, chip.num_limbs);
    let points: Vec<_> = pairs.iter().map(|(_, p)| p.cell.point.clone()).collect();
    let scalars = pairs.iter().map(|(s, _)| vec![s.cell.cell]).collect();
    let point = multi_scalar_multiply::<Fr, FpChip<Fr>, G1Affine>(&fp, &mut ctx.ctx, &points, scalars, max_bits, window_bits);
    let x = fp.get_assigned_value(&point.x.clone().into()).to_bytes();
    let y = fp.get_assigned_value(&point.y.clone().into()).to_bytes();
    AssignedPoint { cell: PointCell { point }, value: Point { x, y } }
}

/// Relies on `Clone` of halo2-ecc's `EcPoint`: the same cells.
#[verifier::external_body]
fn ecc_clone(p: &AssignedPoint) -> (r: AssignedPoint)
    ensures
        r.witness() == p.witness(),
{
    AssignedPoint { cell: PointCell { point: p.cell.point.clone() }, value: p.value }
}

/// Relies on `EccChip::assert_equal`: equality constraints between the
/// coordinates' limbs.
/// The cells it takes carry the cell reference it unwraps: every context
/// records constraints (see `CircuitContext`).
#[verifier::external_body]
fn ecc_assert_equal(chip: &BaseFieldEccChip, ctx: &mut CircuitContext, a: &AssignedPoint, b: &AssignedPoint) {
    let fp = FpChip::<Fr>::new(&chip.range, chip.limb_bits, chip.num_limbs);
    EccChip::new(&fp).assert_equal(&mut ctx.ctx, a.cell.point.clone(), b.cell.point.clone())
}

/// Relies on the limbs of halo2-ecc's `ProperCrtUint`: `LIMBS` cells per
/// coordinate, lowest first, holding the `BITS`-bit limbs of the coordinate,
/// which the field chip keeps reduced below the base field order.
#[verifier::external_body]
pub(crate) fn coordinate_limbs(p: &AssignedPoint) -> (r: Vec<AssignedScalar>)
    requires
        p.witness().wf(),
    ensures
        r.len() == 2 * LIMBS,
        forall|k: int|
            0 <= k < 2 * LIMBS ==> (#[trigger] r[k]).witness().wf() && r[k].witness().value() == limb_value(
                (if k < LIMBS { p.witness().coords().0 } else { p.witness().coords().1 }) as nat,
                (k % LIMBS as int) as nat,
            ),
{
    let limbs = p.cell.point.x.limbs().iter().chain(p.cell.point.y.limbs().iter());
    limbs.map(|c| AssignedScalar { cell: Cell { cell: *c }, value: Scalar { repr: c.value().to_bytes() } }).collect()
}

} // verus!
