//! Capability traits for matrix elements.
//!
//! Construction and structural operations on a matrix need nothing of the
//! element type beyond `Copy`.  Arithmetic needs an algebraic structure,
//! captured by [`Ring`]; comparison needs an executable equality test,
//! captured by [`EqElem`].

use vstd::prelude::*;
use vstd::arithmetic::div_mod::lemma_add_mod_noop;
use vstd::arithmetic::div_mod::lemma_mod_sub_multiples_vanish;
use vstd::arithmetic::div_mod::lemma_mul_mod_noop_left;
use vstd::arithmetic::div_mod::lemma_mul_mod_noop_right;
use vstd::arithmetic::div_mod::lemma_small_mod;
use vstd::arithmetic::mul::lemma_mul_is_associative;
use vstd::arithmetic::mul::lemma_mul_is_distributive_add;
use vstd::arithmetic::mul::lemma_mul_is_distributive_add_other_way;

verus! {

/// An element type with the algebraic structure that matrix arithmetic
/// needs: addition forms a commutative group with identity
/// `zero_spec` and inverse `neg_spec`, multiplication is associative with
/// unit `one_spec`, and multiplication distributes over addition.
///
/// The executable operations are total.  A bounded representation is
/// therefore expected to wrap: the `u64` implementation below computes
/// modulo 2^64, which satisfies every law exactly.
pub trait Ring: Copy + Sized {
    /// The additive identity, as a mathematical value.
    spec fn zero_spec() -> Self;

    /// The multiplicative identity, as a mathematical value.
    spec fn one_spec() -> Self;

    /// What addition returns, as a mathematical function.
    spec fn add_spec(self, other: Self) -> Self;

    /// What negation returns, as a mathematical function.
    spec fn neg_spec(self) -> Self;

    /// What multiplication returns, as a mathematical function.
    spec fn mul_spec(self, other: Self) -> Self;

    /// The additive identity.
    fn zero() -> (r: Self)
        ensures
            r == Self::zero_spec(),
    ;

    /// The multiplicative identity.
    fn one() -> (r: Self)
        ensures
            r == Self::one_spec(),
    ;

    /// Addition.
    fn plus(self, other: Self) -> (r: Self)
        ensures
            r == self.add_spec(other),
    ;

    /// Additive inverse.
    fn negate(self) -> (r: Self)
        ensures
            r == self.neg_spec(),
    ;

    /// Multiplication.
    fn times(self, other: Self) -> (r: Self)
        ensures
            r == self.mul_spec(other),
    ;

    /// Addition is commutative.
    proof fn law_add_comm(a: Self, b: Self)
        ensures
            a.add_spec(b) == b.add_spec(a),
    ;

    /// Addition is associative.
    proof fn law_add_assoc(a: Self, b: Self, c: Self)
        ensures
            a.add_spec(b).add_spec(c) == a.add_spec(b.add_spec(c)),
    ;

    /// Zero is the additive identity.
    proof fn law_add_zero(a: Self)
        ensures
            a.add_spec(Self::zero_spec()) == a,
    ;

    /// Negation gives the additive inverse.
    proof fn law_add_neg(a: Self)
        ensures
            a.add_spec(a.neg_spec()) == Self::zero_spec(),
    ;

    /// Multiplication is associative.
    proof fn law_mul_assoc(a: Self, b: Self, c: Self)
        ensures
            a.mul_spec(b).mul_spec(c) == a.mul_spec(b.mul_spec(c)),
    ;

    /// One is a two-sided multiplicative identity.
    proof fn law_mul_one(a: Self)
        ensures
            Self::one_spec().mul_spec(a) == a,
            a.mul_spec(Self::one_spec()) == a,
    ;

    /// Zero annihilates under multiplication, on either side.
    proof fn law_mul_zero(a: Self)
        ensures
            Self::zero_spec().mul_spec(a) == Self::zero_spec(),
            a.mul_spec(Self::zero_spec()) == Self::zero_spec(),
    ;

    /// Multiplication distributes over addition, on either side.
    proof fn law_mul_distrib(a: Self, b: Self, c: Self)
        ensures
            a.mul_spec(b.add_spec(c)) == a.mul_spec(b).add_spec(a.mul_spec(c)),
            b.add_spec(c).mul_spec(a) == b.mul_spec(a).add_spec(c.mul_spec(a)),
    ;
}

/// An element type with an executable equality test that agrees with
/// logical equality.
pub trait EqElem: Sized {
    /// Equality test.
    fn eq_elem(&self, other: &Self) -> (r: bool)
        ensures
            r == (self == other),
    ;
}

/// `u64` addition wrapped modulo 2^64, as `add_spec` computes it, is
/// ordinary addition followed by one reduction modulo 2^64.
proof fn lemma_u64_add_spec_is_mod(x: u64, y: u64)
    ensures
        Ring::add_spec(x, y) == ((x + y) % 0x1_0000_0000_0000_0000) as u64,
{
    let m = 0x1_0000_0000_0000_0000 as int;
    if x + y > u64::MAX {
        lemma_mod_sub_multiples_vanish(x + y, m);
        lemma_small_mod((x + y - m) as nat, m as nat);
    } else {
        lemma_small_mod((x + y) as nat, m as nat);
    }
}

/// Arithmetic modulo 2^64: every ring law holds exactly of the
/// wrapping operations.
impl Ring for u64 {
    open spec fn zero_spec() -> u64 {
        0
    }

    open spec fn one_spec() -> u64 {
        1
    }

    open spec fn add_spec(self, other: u64) -> u64 {
        if self + other > u64::MAX {
            (self + other - 0x1_0000_0000_0000_0000) as u64
        } else {
            (self + other) as u64
        }
    }

    open spec fn neg_spec(self) -> u64 {
        if self == 0 {
            0
        } else {
            (0x1_0000_0000_0000_0000 - self) as u64
        }
    }

    open spec fn mul_spec(self, other: u64) -> u64 {
        ((self * other) % 0x1_0000_0000_0000_0000) as u64
    }

    fn zero() -> (r: u64) {
        0
    }

    fn one() -> (r: u64) {
        1
    }

    fn plus(self, other: u64) -> (r: u64) {
        self.wrapping_add(other)
    }

    fn negate(self) -> (r: u64) {
        0u64.wrapping_sub(self)
    }

    fn times(self, other: u64) -> (r: u64) {
        self.wrapping_mul(other)
    }

    proof fn law_add_comm(a: u64, b: u64) {
    }

    proof fn law_add_assoc(a: u64, b: u64, c: u64) {
    }

    proof fn law_add_zero(a: u64) {
    }

    proof fn law_add_neg(a: u64) {
    }

    proof fn law_mul_assoc(a: u64, b: u64, c: u64) {
        let m = 0x1_0000_0000_0000_0000 as int;
        lemma_mul_mod_noop_left(a * b, c as int, m);
        lemma_mul_mod_noop_right(a as int, b * c, m);
        lemma_mul_is_associative(a as int, b as int, c as int);
    }

    proof fn law_mul_one(a: u64) {
        lemma_small_mod(a as nat, 0x1_0000_0000_0000_0000 as nat);
    }

    proof fn law_mul_zero(a: u64) {
        lemma_small_mod(0, 0x1_0000_0000_0000_0000 as nat);
    }

    proof fn law_mul_distrib(a: u64, b: u64, c: u64) {
        let m = 0x1_0000_0000_0000_0000 as int;
        lemma_u64_add_spec_is_mod(b, c);
        lemma_mul_mod_noop_right(a as int, b + c, m);
        lemma_mul_mod_noop_left(b + c, a as int, m);
        lemma_mul_is_distributive_add(a as int, b as int, c as int);
        lemma_mul_is_distributive_add_other_way(a as int, b as int, c as int);
        lemma_add_mod_noop(a * b, a * c, m);
        lemma_add_mod_noop(b * a, c * a, m);
        lemma_u64_add_spec_is_mod(Ring::mul_spec(a, b), Ring::mul_spec(a, c));
        lemma_u64_add_spec_is_mod(Ring::mul_spec(b, a), Ring::mul_spec(c, a));
    }
}

impl EqElem for u64 {
    fn eq_elem(&self, other: &u64) -> (r: bool) {
        *self == *other
    }
}

/// The two-element ring: exclusive-or as addition, conjunction as
/// multiplication; every element is its own additive inverse.
impl Ring for bool {
    open spec fn zero_spec() -> bool {
        false
    }

    open spec fn one_spec() -> bool {
        true
    }

    open spec fn add_spec(self, other: bool) -> bool {
        self != other
    }

    open spec fn neg_spec(self) -> bool {
        self
    }

    open spec fn mul_spec(self, other: bool) -> bool {
        self && other
    }

    fn zero() -> (r: bool) {
        false
    }

    fn one() -> (r: bool) {
        true
    }

    fn plus(self, other: bool) -> (r: bool) {
        self != other
    }

    fn negate(self) -> (r: bool) {
        self
    }

    fn times(self, other: bool) -> (r: bool) {
        self && other
    }

    proof fn law_add_comm(a: bool, b: bool) {
    }

    proof fn law_add_assoc(a: bool, b: bool, c: bool) {
    }

    proof fn law_add_zero(a: bool) {
    }

    proof fn law_add_neg(a: bool) {
    }

    proof fn law_mul_assoc(a: bool, b: bool, c: bool) {
    }

    proof fn law_mul_one(a: bool) {
    }

    proof fn law_mul_zero(a: bool) {
    }

    proof fn law_mul_distrib(a: bool, b: bool, c: bool) {
    }
}

impl EqElem for bool {
    fn eq_elem(&self, other: &bool) -> (r: bool) {
        *self == *other
    }
}

} // verus!
