//! Elements of the BN254 scalar field, held as their canonical little-endian
//! bytes, together with the arithmetic facts the rest of the library needs
//! about such byte strings.
use vstd::arithmetic::div_mod::{
    lemma_add_mod_noop, lemma_fundamental_div_mod_converse, lemma_mul_mod_noop_left, lemma_small_mod,
};
use vstd::prelude::*;

verus! {

/// `b` raised to the power `e`.
pub open spec fn power(b: int, e: nat) -> int
    decreases e,
{
    if e == 0 {
        1
    } else {
        power(b, (e - 1) as nat) * b
    }
}

/// The integer whose little-endian base-256 digits are `s`.
pub open spec fn le_value(s: Seq<u8>) -> nat
    decreases s.len(),
{
    if s.len() == 0 {
        0
    } else {
        s[0] as nat + 256 * le_value(s.drop_first())
    }
}

/// The order of the BN254 scalar field.
pub open spec fn fr_modulus() -> nat {
    0x30644e72e131a029b85045b68181585d * (0x10000000000000000 * 0x10000000000000000)
        + 0x2833e84879b9709143e1f593f0000001
}

/// The order of the BN254 base field, over which curve coordinates live.
pub open spec fn fq_modulus() -> nat {
    0x30644e72e131a029b85045b68181585d * (0x10000000000000000 * 0x10000000000000000)
        + 0x97816a916871ca8d3c208c16d87cfd47
}

pub proof fn lemma_power_positive(b: int, e: nat)
    requires
        b > 0,
    ensures
        power(b, e) > 0,
    decreases e,
{
    if e > 0 {
        lemma_power_positive(b, (e - 1) as nat);
        assert(power(b, (e - 1) as nat) * b > 0) by (nonlinear_arith)
            requires
                power(b, (e - 1) as nat) > 0,
                b > 0,
        ;
    }
}

pub proof fn lemma_power_adds(b: int, e1: nat, e2: nat)
    ensures
        power(b, e1 + e2) == power(b, e1) * power(b, e2),
    decreases e2,
{
    if e2 > 0 {
        lemma_power_adds(b, e1, (e2 - 1) as nat);
        assert(power(b, (e1 + e2) as nat) == power(b, (e1 + e2 - 1) as nat) * b);
        let x = power(b, e1);
        let y = power(b, (e2 - 1) as nat);
        assert(x * y * b == x * (y * b)) by (nonlinear_arith);
    }
}

/// Reducing a power step by step modulo `m` gives the power reduced once.
pub proof fn lemma_power_mod_step(b: int, e: nat, m: int)
    requires
        m > 0,
    ensures
        (power(b, e) % m) * b % m == power(b, e + 1) % m,
{
    assert(power(b, e + 1) == power(b, e) * b);
    lemma_mul_mod_noop_left(power(b, e), b, m);
}

/// Digits beyond a prefix scale by the weight of the prefix.
pub proof fn lemma_le_value_concat(a: Seq<u8>, b: Seq<u8>)
    ensures
        le_value(a + b) == le_value(a) + power(256, a.len()) * le_value(b),
    decreases a.len(),
{
    if a.len() > 0 {
        let rest = a.drop_first();
        assert((a + b).drop_first() =~= rest + b);
        lemma_le_value_concat(rest, b);
        assert(power(256, a.len()) == power(256, rest.len()) * 256);
        let p = power(256, rest.len());
        let x = le_value(rest) as int;
        let y = le_value(b) as int;
        assert(256 * (x + p * y) == 256 * x + (p * 256) * y) by (nonlinear_arith);
    } else {
        assert(a + b =~= b);
    }
}

/// A digit string of length `n` is worth less than `256^n`.
pub proof fn lemma_le_value_bound(s: Seq<u8>)
    ensures
        le_value(s) < power(256, s.len()),
    decreases s.len(),
{
    if s.len() > 0 {
        let rest = s.drop_first();
        lemma_le_value_bound(rest);
        let p = power(256, rest.len());
        let x = le_value(rest) as int;
        let d = s[0] as int;
        assert(d + 256 * x < p * 256) by (nonlinear_arith)
            requires
                0 <= d < 256,
                x < p,
        ;
    }
}

/// Zero digits are worth nothing.
pub proof fn lemma_le_value_zeros(s: Seq<u8>)
    requires
        forall|i: int| 0 <= i < s.len() ==> s[i] == 0,
    ensures
        le_value(s) == 0,
    decreases s.len(),
{
    if s.len() > 0 {
        lemma_le_value_zeros(s.drop_first());
    }
}

/// Equal values of equal length have equal digits.
pub proof fn lemma_le_value_injective(a: Seq<u8>, b: Seq<u8>)
    requires
        a.len() == b.len(),
        le_value(a) == le_value(b),
    ensures
        a == b,
    decreases a.len(),
{
    if a.len() > 0 {
        let (ra, rb) = (a.drop_first(), b.drop_first());
        let v = le_value(a) as int;
        lemma_fundamental_div_mod_converse(v, 256, le_value(ra) as int, a[0] as int);
        lemma_fundamental_div_mod_converse(v, 256, le_value(rb) as int, b[0] as int);
        lemma_le_value_injective(ra, rb);
        assert(a =~= seq![a[0]] + ra);
        assert(b =~= seq![b[0]] + rb);
    } else {
        assert(a =~= b);
    }
}

/// Compares two byte strings of the same length.
pub fn bytes_equal(a: &[u8; 32], b: &[u8; 32]) -> (r: bool)
    ensures
        r == (a@ == b@),
{
    let mut i: usize = 0;
    while i < 32
        invariant
            0 <= i <= 32,
            forall|j: int| 0 <= j < i ==> a@[j] == b@[j],
        decreases 32 - i,
    {
        if a[i] != b[i] {
            return false;
        }
        i = i + 1;
    }
    assert(a@ =~= b@);
    true
}

/// An element of the BN254 scalar field: the canonical little-endian
/// encoding of an integer below the field order.
#[derive(Clone, Copy, Debug)]
pub struct Scalar {
    pub repr: [u8; 32],
}

impl Scalar {
    /// The integer this element stands for.
    pub open spec fn value(&self) -> nat {
        le_value(self.repr@)
    }

    /// The encoding is canonical: its integer is below the field order.
    pub open spec fn wf(&self) -> bool {
        self.value() < fr_modulus()
    }

    /// Reads a canonical encoding; `None` when the integer is not below the
    /// field order.
    pub fn from_repr(repr: [u8; 32]) -> (r: Option<Scalar>)
        ensures
            r is Some <==> le_value(repr@) < fr_modulus(),
            r matches Some(s) ==> s.repr == repr && s.wf(),
    {
        if fr_is_canonical(&repr) {
            Some(Scalar { repr })
        } else {
            None
        }
    }

    /// The element standing for `n`.
    pub fn from_u64(n: u64) -> (r: Scalar)
        ensures
            r.wf(),
            r.value() == n,
    {
        fr_from_u64(n)
    }

    pub fn zero() -> (r: Scalar)
        ensures
            r.wf(),
            r.value() == 0,
    {
        Scalar::from_u64(0)
    }

    pub fn one() -> (r: Scalar)
        ensures
            r.wf(),
            r.value() == 1,
    {
        Scalar::from_u64(1)
    }

    /// `a * b + c` in the field.
    pub fn mul_add(a: &Scalar, b: &Scalar, c: &Scalar) -> (r: Scalar)
        requires
            a.wf(),
            b.wf(),
            c.wf(),
        ensures
            r.wf(),
            r.value() == (a.value() * b.value() + c.value()) % fr_modulus(),
    {
        let p = fr_mul(a, b);
        let r = fr_add(&p, c);
        proof {
            lemma_add_mod_noop((a.value() * b.value()) as int, c.value() as int, fr_modulus() as int);
            lemma_small_mod(c.value(), fr_modulus());
            lemma_small_mod(p.value(), fr_modulus());
        }
        r
    }

    /// `self * other` in the field.
    pub fn mul(&self, other: &Scalar) -> (r: Scalar)
        requires
            self.wf(),
            other.wf(),
        ensures
            r.wf(),
            r.value() == (self.value() * other.value()) % fr_modulus(),
    {
        fr_mul(self, other)
    }

    /// Whether the two elements are the same field element.
    pub fn equals(&self, other: &Scalar) -> (r: bool)
        requires
            self.wf(),
            other.wf(),
        ensures
            r == (self.value() == other.value()),
    {
        let r = bytes_equal(&self.repr, &other.repr);
        proof {
            if self.value() == other.value() {
                lemma_le_value_injective(self.repr@, other.repr@);
            }
        }
        r
    }

    /// The multiplicative inverse; `None` for zero, which has none.
    pub fn invert(&self) -> (r: Option<Scalar>)
        requires
            self.wf(),
        ensures
            r is None <==> self.value() == 0,
            r matches Some(x) ==> x.wf() && (self.value() * x.value()) % fr_modulus() == 1,
    {
        fr_invert(self)
    }
}

/// Relies on `Fr::from_bytes`: it accepts exactly the little-endian encodings
/// of integers below the field order.
#[verifier::external_body]
fn fr_is_canonical(repr: &[u8; 32]) -> (r: bool)
    ensures
        r == (le_value(repr@) < fr_modulus()),
{
    bool::from(halo2curves::bn256::Fr::from_bytes(repr).is_some())
}

/// Relies on `Fr::from(u64)` and `Fr::to_bytes`: the element standing for
/// `n`, encoded canonically.
#[verifier::external_body]
fn fr_from_u64(n: u64) -> (r: Scalar)
    ensures
        r.value() == n,
        r.wf(),
{
    Scalar { repr: halo2curves::bn256::Fr::from(n).to_bytes() }
}

/// Relies on multiplication of `Fr`: the product reduced by the field order.
#[verifier::external_body]
fn fr_mul(a: &Scalar, b: &Scalar) -> (r: Scalar)
    requires
        a.wf(),
        b.wf(),
    ensures
        r.value() == (a.value() * b.value()) % fr_modulus(),
        r.wf(),
{
    let x = halo2curves::bn256::Fr::from_bytes(&a.repr).unwrap();
    let y = halo2curves::bn256::Fr::from_bytes(&b.repr).unwrap();
    Scalar { repr: (x * y).to_bytes() }
}

/// Relies on addition of `Fr`: the sum reduced by the field order.
#[verifier::external_body]
fn fr_add(a: &Scalar, b: &Scalar) -> (r: Scalar)
    requires
        a.wf(),
        b.wf(),
    ensures
        r.value() == (a.value() + b.value()) % fr_modulus(),
        r.wf(),
{
    let x = halo2curves::bn256::Fr::from_bytes(&a.repr).unwrap();
    let y = halo2curves::bn256::Fr::from_bytes(&b.repr).unwrap();
    Scalar { repr: (x + y).to_bytes() }
}

/// Relies on `Field::invert` of `Fr`: no inverse for zero, the inverse
/// otherwise.
#[verifier::external_body]
fn fr_invert(a: &Scalar) -> (r: Option<Scalar>)
    requires
        a.wf(),
    ensures
        r is None <==> a.value() == 0,
        r matches Some(x) ==> x.wf() && (a.value() * x.value()) % fr_modulus() == 1,
{
    let x = halo2curves::bn256::Fr::from_bytes(&a.repr).unwrap();
    Option::from(halo2curves::ff::Field::invert(&x)).map(|i: halo2curves::bn256::Fr| Scalar { repr: i.to_bytes() })
}

} // verus!
