//! Splitting a coordinate into fixed-width limbs, the form in which the
//! aggregated accumulator is exposed as public values.
use crate::field::{
    fr_modulus, le_value, lemma_le_value_bound, lemma_le_value_concat, lemma_le_value_zeros,
    lemma_power_adds, lemma_power_positive, power, Scalar,
};
use vstd::arithmetic::div_mod::{lemma_fundamental_div_mod_converse, lemma_small_mod};
use vstd::prelude::*;

verus! {

/// Number of limbs a coordinate is split into.
pub const LIMBS: usize = 3;

/// Width of each limb in bits.
pub const BITS: usize = 88;

/// Width of each limb in bytes.
const LIMB_BYTES: usize = 11;

/// Limb `i` of `v`: bits `BITS * i` up to `BITS * (i + 1)`.
pub open spec fn limb_value(v: nat, i: nat) -> nat {
    ((v as int / power(2, BITS as nat * (i as nat))) % power(2, BITS as nat)) as nat
}

pub proof fn lemma_power_bytes(k: nat)
    ensures
        power(2, 8 * k) == power(256, k),
    decreases k,
{
    if k > 0 {
        lemma_power_bytes((k - 1) as nat);
        lemma_power_adds(2, (8 * (k - 1)) as nat, 8);
        assert(power(2, 8) == 256) by {
            reveal_with_fuel(power, 9);
        }
        assert(8 * k == 8 * (k - 1) + 8) by (nonlinear_arith)
            requires
                k > 0,
        ;
    }
}

/// The weight of one limb, `2^BITS`.
pub proof fn lemma_limb_weight()
    ensures
        power(2, BITS as nat) == 0x10000000000000000000000,
{
    lemma_power_bytes(11);
    assert(power(256, 11) == 0x10000000000000000000000) by {
        reveal_with_fuel(power, 12);
    }
}

/// The digits from `s` up to `e` of a little-endian string are the limb of
/// eleven bytes that starts at `s`, when the digits run to the end of the
/// string or fill the whole limb.
proof fn lemma_limb_digits(x: Seq<u8>, s: nat, e: nat)
    requires
        s <= e <= x.len(),
        e - s <= 11,
        e < x.len() ==> e - s == 11,
    ensures
        le_value(x.subrange(s as int, e as int)) == (le_value(x) as int / power(256, s)) % power(
            256,
            11,
        ),
{
    let pre = x.subrange(0, s as int);
    let b = x.subrange(s as int, e as int);
    let post = x.subrange(e as int, x.len() as int);
    assert(x =~= pre + (b + post));
    lemma_le_value_concat(pre, b + post);
    lemma_le_value_concat(b, post);
    lemma_le_value_bound(pre);
    lemma_le_value_bound(b);
    lemma_power_positive(256, s);
    let ps = power(256, s);
    let pw = power(256, (e - s) as nat);
    let p11 = power(256, 11);
    let q = le_value(b) + pw * le_value(post);
    assert(le_value(x) == q * ps + le_value(pre)) by (nonlinear_arith)
        requires
            le_value(x) == le_value(pre) + ps * (le_value(b) + pw * le_value(post)),
            q == le_value(b) + pw * le_value(post),
    ;
    lemma_fundamental_div_mod_converse(le_value(x) as int, ps, q, le_value(pre) as int);
    lemma_power_positive(256, (11 - (e - s)) as nat);
    lemma_power_adds(256, (e - s) as nat, (11 - (e - s)) as nat);
    assert(pw <= p11) by (nonlinear_arith)
        requires
            p11 == pw * power(256, (11 - (e - s)) as nat),
            power(256, (11 - (e - s)) as nat) > 0,
            pw > 0,
    ;
    if e < x.len() {
        assert(q == le_value(post) * p11 + le_value(b)) by (nonlinear_arith)
            requires
                q == le_value(b) + pw * le_value(post),
                pw == p11,
        ;
        lemma_fundamental_div_mod_converse(q, p11, le_value(post) as int, le_value(b) as int);
    } else {
        assert(post.len() == 0);
        assert(le_value(post) == 0);
        lemma_small_mod(le_value(b), p11 as nat);
    }
}

/// Splits the canonical little-endian encoding of a coordinate into `LIMBS`
/// limbs of `BITS` bits, lowest first, each as a scalar field element.
pub fn fe_to_limbs(x: &[u8; 32]) -> (r: Vec<Scalar>)
    ensures
        r.len() == LIMBS,
        forall|i: int| 0 <= i < LIMBS ==> (#[trigger] r[i]).wf() && r[i].value() == limb_value(le_value(x@), i as nat),
{
    proof {
        assert(power(256, 11) == 0x10000000000000000000000) by {
            reveal_with_fuel(power, 12);
        }
    }
    let mut out: Vec<Scalar> = Vec::new();
    let mut i: usize = 0;
    while i < LIMBS
        invariant
            0 <= i <= LIMBS,
            out.len() == i,
            power(256, 11) == 0x10000000000000000000000,
            forall|k: int| 0 <= k < i ==> (#[trigger] out[k]).wf() && out[k].value() == limb_value(le_value(x@), k as nat),
        decreases LIMBS - i,
    {
        let s: usize = i * LIMB_BYTES;
        let e: usize = if s + LIMB_BYTES < 32 { s + LIMB_BYTES } else { 32 };
        let mut repr = [0u8; 32];
        let mut j: usize = s;
        while j < e
            invariant
                s <= j <= e,
                e <= 32,
                e - s <= 11,
                forall|k: int| 0 <= k < j - s ==> repr@[k] == x@[s + k],
                forall|k: int| j - s <= k < 32 ==> repr@[k] == 0,
            decreases e - j,
        {
            repr[j - s] = x[j];
            j = j + 1;
        }
        proof {
            let digits = x@.subrange(s as int, e as int);
            let zeros = repr@.subrange((e - s) as int, 32);
            assert(repr@ =~= digits + zeros);
            lemma_le_value_zeros(zeros);
            lemma_le_value_concat(digits, zeros);
            lemma_limb_digits(x@, s as nat, e as nat);
            lemma_power_bytes(s as nat);
            lemma_power_bytes(11);
            assert(BITS as nat * (i as nat) == 8 * (s as nat)) by (nonlinear_arith)
                requires
                    s == i * 11,
                    BITS == 88,
            ;
            lemma_le_value_bound(digits);
            lemma_power_positive(256, (11 - (e - s)) as nat);
            lemma_power_adds(256, (e - s) as nat, (11 - (e - s)) as nat);
            assert(power(256, (e - s) as nat) <= power(256, 11)) by (nonlinear_arith)
                requires
                    power(256, 11) == power(256, (e - s) as nat) * power(256, (11 - (e - s)) as nat),
                    power(256, (11 - (e - s)) as nat) > 0,
                    power(256, (e - s) as nat) > 0,
            ;
            lemma_power_positive(256, (e - s) as nat);
            assert(power(256, digits.len()) * le_value(zeros) == 0) by (nonlinear_arith)
                requires
                    le_value(zeros) == 0,
            ;
            assert(le_value(repr@) == le_value(digits));
            assert(power(2, BITS as nat * (i as nat)) == power(256, s as nat));
            assert(power(2, BITS as nat) == power(256, 11));
            assert(le_value(repr@) == limb_value(le_value(x@), i as nat));
        }
        out.push(Scalar { repr });
        proof {
            assert(out[i as int].value() == limb_value(le_value(x@), i as nat));
        }
        i = i + 1;
    }
    out
}

} // verus!
