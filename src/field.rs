//! Elements of the Pallas base field, held as canonical little-endian bytes.
//!
//! The arithmetic itself is done by `halo2_proofs::pasta::Fp`; this module
//! states what each operation returns in terms of the integer an element
//! stands for.
use vstd::prelude::*;
use vstd::arithmetic::div_mod::lemma_small_mod;
use halo2_proofs::pasta::Fp;
use halo2_proofs::pasta::group::ff::PrimeField;

verus! {

/// The modulus p of the Pallas base field.
pub open spec fn field_modulus() -> int {
    0x40000000000000000000000000000000224698fc094cf91b992d30ed00000001int
}

/// The integer that a little-endian byte string stands for.
pub open spec fn le_value(s: Seq<u8>) -> nat
    decreases s.len(),
{
    if s.len() == 0 {
        0
    } else {
        (s[0] as nat) + 256 * le_value(s.drop_first())
    }
}

/// Two byte strings of one length stand for the same integer only if they are equal.
pub proof fn lemma_le_value_injective(s: Seq<u8>, t: Seq<u8>)
    requires
        s.len() == t.len(),
        le_value(s) == le_value(t),
    ensures
        s == t,
    decreases s.len(),
{
    if s.len() > 0 {
        let a = le_value(s.drop_first()) as int;
        let b = le_value(t.drop_first()) as int;
        assert(s[0] as int - t[0] as int == 256 * (b - a));
        assert(a == b);
        lemma_le_value_injective(s.drop_first(), t.drop_first());
        assert(s =~= t) by {
            assert forall|i: int| 0 <= i < s.len() implies s[i] == t[i] by {
                if i > 0 {
                    assert(s[i] == s.drop_first()[i - 1]);
                    assert(t[i] == t.drop_first()[i - 1]);
                }
            }
        }
    } else {
        assert(s =~= t);
    }
}

/// Field addition on canonical integers.
pub open spec fn fadd(a: int, b: int) -> int {
    (a + b) % field_modulus()
}

/// Field subtraction on canonical integers.
pub open spec fn fsub(a: int, b: int) -> int {
    (a - b) % field_modulus()
}

/// Field multiplication on canonical integers.
pub open spec fn fmul(a: int, b: int) -> int {
    (a * b) % field_modulus()
}

/// Field negation on canonical integers.
pub open spec fn fneg(a: int) -> int {
    (-a) % field_modulus()
}

/// Relies on `From<u64> for Fp` and `PrimeField::to_repr`: the canonical
/// little-endian encoding of `v` read as a field element.
#[verifier::external_body]
fn repr_from_u64(v: u64) -> (r: [u8; 32])
    ensures
        le_value(r@) == v as int,
{
    Fp::from(v).to_repr()
}

/// Relies on `PrimeField::from_repr`, `Add for Fp` and `PrimeField::to_repr`:
/// the sum modulo p, encoded canonically.
#[verifier::external_body]
fn repr_add(a: [u8; 32], b: [u8; 32]) -> (r: [u8; 32])
    requires
        le_value(a@) < field_modulus(),
        le_value(b@) < field_modulus(),
    ensures
        le_value(r@) == fadd(le_value(a@) as int, le_value(b@) as int),
{
    (Fp::from_repr(a).unwrap() + Fp::from_repr(b).unwrap()).to_repr()
}

/// Relies on `PrimeField::from_repr`, `Sub for Fp` and `PrimeField::to_repr`:
/// the difference modulo p, encoded canonically.
#[verifier::external_body]
fn repr_sub(a: [u8; 32], b: [u8; 32]) -> (r: [u8; 32])
    requires
        le_value(a@) < field_modulus(),
        le_value(b@) < field_modulus(),
    ensures
        le_value(r@) == fsub(le_value(a@) as int, le_value(b@) as int),
{
    (Fp::from_repr(a).unwrap() - Fp::from_repr(b).unwrap()).to_repr()
}

/// Relies on `PrimeField::from_repr`, `Mul for Fp` and `PrimeField::to_repr`:
/// the product modulo p, encoded canonically.
#[verifier::external_body]
fn repr_mul(a: [u8; 32], b: [u8; 32]) -> (r: [u8; 32])
    requires
        le_value(a@) < field_modulus(),
        le_value(b@) < field_modulus(),
    ensures
        le_value(r@) == fmul(le_value(a@) as int, le_value(b@) as int),
{
    (Fp::from_repr(a).unwrap() * Fp::from_repr(b).unwrap()).to_repr()
}

/// Relies on `PrimeField::from_repr`, `Neg for Fp` and `PrimeField::to_repr`:
/// the additive inverse modulo p, encoded canonically.
#[verifier::external_body]
fn repr_neg(a: [u8; 32]) -> (r: [u8; 32])
    requires
        le_value(a@) < field_modulus(),
    ensures
        le_value(r@) == fneg(le_value(a@) as int),
{
    (-Fp::from_repr(a).unwrap()).to_repr()
}

/// An element of the Pallas base field.
#[derive(Clone, Copy, Debug)]
pub struct Fe {
    repr: [u8; 32],
}

impl Fe {
    #[verifier::type_invariant]
    spec fn canonical(self) -> bool {
        le_value(self.repr@) < field_modulus()
    }

    /// The integer in `0..p` that this element stands for.
    pub closed spec fn val(self) -> int {
        le_value(self.repr@) as int % field_modulus()
    }

    /// Every element stands for an integer in `0..p`.
    pub proof fn lemma_val_range(self)
        ensures
            0 <= self.val() < field_modulus(),
    {
    }

    pub fn from_u64(v: u64) -> (r: Fe)
        ensures
            r.val() == v as int,
    {
        let repr = repr_from_u64(v);
        assert(v < field_modulus());
        Fe { repr }
    }

    pub fn zero() -> (r: Fe)
        ensures
            r.val() == 0,
    {
        Fe::from_u64(0)
    }

    pub fn one() -> (r: Fe)
        ensures
            r.val() == 1,
    {
        Fe::from_u64(1)
    }

    pub fn add(&self, o: &Fe) -> (r: Fe)
        ensures
            r.val() == fadd(self.val(), o.val()),
    {
        proof {
            use_type_invariant(self);
            use_type_invariant(o);
        }
        let repr = repr_add(self.repr, o.repr);
        Fe { repr }
    }

    pub fn sub(&self, o: &Fe) -> (r: Fe)
        ensures
            r.val() == fsub(self.val(), o.val()),
    {
        proof {
            use_type_invariant(self);
            use_type_invariant(o);
        }
        let repr = repr_sub(self.repr, o.repr);
        Fe { repr }
    }

    pub fn mul(&self, o: &Fe) -> (r: Fe)
        ensures
            r.val() == fmul(self.val(), o.val()),
    {
        proof {
            use_type_invariant(self);
            use_type_invariant(o);
        }
        let repr = repr_mul(self.repr, o.repr);
        Fe { repr }
    }

    pub fn neg(&self) -> (r: Fe)
        ensures
            r.val() == fneg(self.val()),
    {
        proof {
            use_type_invariant(self);
        }
        let repr = repr_neg(self.repr);
        Fe { repr }
    }

    /// Whether two elements are the same field element.
    pub fn equals(&self, o: &Fe) -> (r: bool)
        ensures
            r == (self.val() == o.val()),
    {
        let mut i: usize = 0;
        while i < 32
            invariant
                0 <= i <= 32,
                forall|j: int| 0 <= j < i ==> self.repr@[j] == o.repr@[j],
            decreases 32 - i,
        {
            if self.repr[i] != o.repr[i] {
                assert(self.repr@ != o.repr@);
                proof {
                    use_type_invariant(self);
                    use_type_invariant(o);
                    lemma_small_mod(le_value(self.repr@), field_modulus() as nat);
                    lemma_small_mod(le_value(o.repr@), field_modulus() as nat);
                    if self.val() == o.val() {
                        lemma_le_value_injective(self.repr@, o.repr@);
                    }
                }
                return false;
            }
            i = i + 1;
        }
        assert(self.repr@ =~= o.repr@);
        true
    }

    pub fn is_zero(&self) -> (r: bool)
        ensures
            r == (self.val() == 0),
    {
        let z = Fe::zero();
        self.equals(&z)
    }
}

} // verus!
