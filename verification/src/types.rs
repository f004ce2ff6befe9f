//! The bit-packed type algebra.
//!
//! A `Type` is one 64-bit word: bit 63 is the bound flag, bits 56..=62 hold
//! a 7-bit sort id, and bits 0..=55 are the low bits.  For a bound variable
//! the low bits are a one-hot digit identifying its ordinal among the
//! declaration's bound variables; for anything else they form a dependency
//! set over those ordinals.

use vstd::prelude::*;

verus! {

/// Sort modifier flag: pure.
pub const SORT_PURE: u8 = 1;
/// Sort modifier flag: strict (its variables may not be bound).
pub const SORT_STRICT: u8 = 2;
/// Sort modifier flag: provable (its expressions may stand as hypotheses).
pub const SORT_PROVABLE: u8 = 4;
/// Sort modifier flag: free.
pub const SORT_FREE: u8 = 8;

/// Mask of the bound flag (bit 63).
pub const TYPE_BOUND_MASK: u64 = 1u64 << 63;
/// Mask of the low 56 bits: the one-hot bound digit or the dependency set.
pub const TYPE_DEPS_MASK: u64 = 0x00ff_ffff_ffff_ffff;

/// Index of a sort in the MMB file.
pub type SortId = u8;
/// Index of a term or definition in the MMB file.
pub type TermId = u32;
/// Index of an axiom or theorem in the MMB file.
pub type ThmId = u32;

/// A bit-packed sorted type: bound flag, sort id, and low bits.
#[derive(Debug, Clone, Copy, PartialEq, Eq, Structural, Hash)]
pub struct Type {
    pub raw: u64,
}

impl Type {
    /// Zero-cost construction from the raw 64-bit word.
    pub fn new(raw: u64) -> (t: Type)
        ensures
            t.raw == raw,
    {
        Type { raw }
    }

    /// The raw 64-bit word.
    pub fn into_inner(self) -> (r: u64)
        ensures
            r == self.raw,
    {
        self.raw
    }

    /// A type of sort `s` with the bound flag clear and no dependencies.
    pub open spec fn spec_new_of_sort(s: u8) -> Type {
        Type { raw: (s as u64) << 56 }
    }

    /// Construction "of sort s": sort field set, all other bits zero.
    pub fn new_of_sort(s: u8) -> (t: Type)
        ensures
            t == Self::spec_new_of_sort(s),
    {
        Type { raw: (s as u64) << 56 }
    }

    /// Whether the bound flag is set.
    pub open spec fn spec_bound(self) -> bool {
        self.raw & TYPE_BOUND_MASK != 0
    }

    /// Whether the bound flag is set.
    pub fn bound(self) -> (b: bool)
        ensures
            b == self.spec_bound(),
    {
        self.raw & TYPE_BOUND_MASK != 0
    }

    /// The 7-bit sort id.
    pub open spec fn spec_sort(self) -> u8 {
        ((self.raw >> 56) & 0x7f) as u8
    }

    /// The 7-bit sort id.
    pub fn sort(self) -> (s: u8)
        ensures
            s == self.spec_sort(),
    {
        proof {
            let r = self.raw;
            assert((r >> 56) & 0x7f <= 0x7f) by (bit_vector);
        }
        ((self.raw >> 56) & 0x7f) as u8
    }

    /// The low 56 bits.
    pub open spec fn spec_low_bits(self) -> u64 {
        self.raw & TYPE_DEPS_MASK
    }

    /// The dependency set, present only when the type is not bound.
    pub open spec fn spec_deps(self) -> Option<u64> {
        if self.spec_bound() {
            None
        } else {
            Some(self.spec_low_bits())
        }
    }

    /// The dependency set, present only when the type is not bound.
    pub fn deps(self) -> (d: Option<u64>)
        ensures
            d == self.spec_deps(),
    {
        if self.bound() {
            None
        } else {
            Some(self.raw & TYPE_DEPS_MASK)
        }
    }

    /// The one-hot bound digit, present only when the type is bound.
    pub open spec fn spec_bound_digit(self) -> Option<u64> {
        if self.spec_bound() {
            Some(self.spec_low_bits())
        } else {
            None
        }
    }

    /// The one-hot bound digit, present only when the type is bound.
    pub fn bound_digit(self) -> (d: Option<u64>)
        ensures
            d == self.spec_bound_digit(),
    {
        if self.bound() {
            Some(self.raw & TYPE_DEPS_MASK)
        } else {
            None
        }
    }

    /// Whether the type is not bound and its dependency set is non-empty.
    pub open spec fn spec_has_deps(self) -> bool {
        !self.spec_bound() && self.spec_low_bits() != 0
    }

    /// Whether the type is not bound and its dependency set is non-empty.
    pub fn has_deps(self) -> (b: bool)
        ensures
            b == self.spec_has_deps(),
    {
        !self.bound() && self.raw & TYPE_DEPS_MASK != 0
    }

    /// Whether bound ordinal `i` is in the low bits.
    pub open spec fn spec_depends_on(self, i: u64) -> bool {
        i < 56 && self.raw & (1u64 << i) != 0
    }

    /// Whether bound ordinal `i` is in the low bits.
    pub fn depends_on(self, i: u64) -> (b: bool)
        ensures
            b == self.spec_depends_on(i),
    {
        i < 56 && self.raw & (1u64 << i) != 0
    }

    /// Whether the low bits of the two types share no member.
    pub open spec fn spec_disjoint(self, other: Type) -> bool {
        self.raw & other.raw & TYPE_DEPS_MASK == 0
    }

    /// Whether the low bits of the two types share no member.
    pub fn disjoint(self, other: Type) -> (b: bool)
        ensures
            b == self.spec_disjoint(other),
    {
        self.raw & other.raw & TYPE_DEPS_MASK == 0
    }

    /// Bit-wise union.
    pub open spec fn spec_union(self, other: Type) -> Type {
        Type { raw: self.raw | other.raw }
    }

    /// Bit-wise union.
    pub fn union(self, other: Type) -> (t: Type)
        ensures
            t == self.spec_union(other),
    {
        Type { raw: self.raw | other.raw }
    }

    /// Bit-wise difference: the bits of `self` outside `other`.
    pub open spec fn spec_without(self, other: Type) -> Type {
        Type { raw: self.raw & !other.raw }
    }

    /// Bit-wise difference: the bits of `self` outside `other`.
    pub fn without(self, other: Type) -> (t: Type)
        ensures
            t == self.spec_without(other),
    {
        Type { raw: self.raw & !other.raw }
    }

    /// Bit-wise intersection.
    pub open spec fn spec_intersect(self, other: Type) -> Type {
        Type { raw: self.raw & other.raw }
    }

    /// Bit-wise intersection.
    pub fn intersect(self, other: Type) -> (t: Type)
        ensures
            t == self.spec_intersect(other),
    {
        Type { raw: self.raw & other.raw }
    }
}

/// A value of type `from` can be cast to a value of type `to` iff their
/// sorts agree and either only dependency bits differ, or additionally only
/// the bound flag differs and `from` is itself bound.
pub open spec fn spec_sorts_compatible(from: Type, to: Type) -> bool {
    let diff = from.raw ^ to.raw;
    let c1 = diff & !TYPE_DEPS_MASK == 0;
    let c2 = diff & !TYPE_BOUND_MASK & !TYPE_DEPS_MASK == 0;
    let c3 = from.raw & TYPE_BOUND_MASK != 0;
    c1 || (c2 && c3)
}

/// Returns true if a value with type `from` can be cast to a value of type
/// `to`.  This requires that the sorts be the same, and additionally if `to`
/// is a bound variable then so is `from`.
pub fn sorts_compatible(from: Type, to: Type) -> (b: bool)
    ensures
        b == spec_sorts_compatible(from, to),
{
    let diff = from.raw ^ to.raw;
    let c1 = diff & !TYPE_DEPS_MASK == 0;
    let c2 = diff & !TYPE_BOUND_MASK & !TYPE_DEPS_MASK == 0;
    let c3 = from.raw & TYPE_BOUND_MASK != 0;
    c1 || (c2 && c3)
}

/// Law: sort compatibility is reflexive; every type can be cast to itself.
pub proof fn lemma_sorts_compatible_refl(t: Type)
    ensures
        spec_sorts_compatible(t, t),
{
    let r = t.raw;
    assert((r ^ r) & !TYPE_DEPS_MASK == 0) by (bit_vector);
}

/// Law: of two types with the same sort that differ exactly in the bound
/// flag, the bound one casts to the unbound one and never the other way.
pub proof fn lemma_sorts_compatible_bound_asym(t1: Type, t2: Type)
    requires
        t1.spec_bound(),
        !t2.spec_bound(),
        t2.raw == t1.raw ^ TYPE_BOUND_MASK,
    ensures
        spec_sorts_compatible(t1, t2),
        !spec_sorts_compatible(t2, t1),
{
    let a = t1.raw;
    let b = t2.raw;
    assert(b == a ^ TYPE_BOUND_MASK && a & TYPE_BOUND_MASK != 0 ==> (a ^ b)
        & !TYPE_BOUND_MASK & !TYPE_DEPS_MASK == 0 && !((a ^ b) & !TYPE_DEPS_MASK == 0) && b
        & TYPE_BOUND_MASK == 0 && !((b ^ a) & !TYPE_DEPS_MASK == 0)) by (bit_vector);
}

} // verus!
