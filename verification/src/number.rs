//! Numbers: a view of an encoded numeric cell, or a floating value that was
//! made up and has no cell.
//!
//! A number is of one of three kinds, signed, unsigned or floating, and the
//! kind is read off the tag of its cell. Two numbers are equal only within a
//! kind: both are decoded and their magnitudes compared. Numbers of different
//! kinds are never equal, whatever they hold, and neither is a number equal
//! to anything when its own kind does not decode.
//!
//! Floating values are carried as their IEEE 754 binary64 bit pattern.

use crate::tag;
use crate::value::FbValue;
use vstd::prelude::*;
use vstd::std_specs::cmp::PartialEqSpec;

verus! {

/// All bits of a binary64 pattern but the sign.
pub const MAGNITUDE_MASK: u64 = 0x7fff_ffff_ffff_ffff;

/// The pattern of positive infinity: every pattern whose magnitude is
/// greater is not a number.
pub const INFINITY_BITS: u64 = 0x7ff0_0000_0000_0000;

/// Whether the pattern is not a number.
pub open spec fn is_nan(bits: u64) -> bool {
    bits & MAGNITUDE_MASK > INFINITY_BITS
}

/// Whether the pattern is a zero, of either sign.
pub open spec fn is_zero(bits: u64) -> bool {
    bits & MAGNITUDE_MASK == 0
}

/// Equality of two floating values, given by their bit patterns: what is not
/// a number equals nothing, the two zeros equal each other, and every other
/// value equals only its own pattern.
pub open spec fn float_equal(a: u64, b: u64) -> bool {
    !is_nan(a) && !is_nan(b) && (a == b || (is_zero(a) && is_zero(b)))
}

/// Compares two floating values by their bit patterns.
pub fn float_bits_equal(a: u64, b: u64) -> (same: bool)
    ensures
        same == float_equal(a, b),
{
    let a_nan = a & MAGNITUDE_MASK > INFINITY_BITS;
    let b_nan = b & MAGNITUDE_MASK > INFINITY_BITS;
    !a_nan && !b_nan && (a == b || (a & MAGNITUDE_MASK == 0 && b & MAGNITUDE_MASK == 0))
}

/// A number.
#[derive(Debug)]
pub enum Number<'de> {
    /// A view of an encoded numeric cell.
    Reader(FbValue<'de>),
    /// The bit pattern of a floating value with no cell behind it.
    F64(u64),
}

impl<'de> Number<'de> {
    /// Whether the number is of the signed kind.
    pub open spec fn signed_kind(self) -> bool {
        match self {
            Number::Reader(v) => tag::is_signed(v.tag()),
            Number::F64(_) => false,
        }
    }

    /// Whether the number is of the unsigned kind.
    pub open spec fn unsigned_kind(self) -> bool {
        match self {
            Number::Reader(v) => tag::is_unsigned(v.tag()),
            Number::F64(_) => false,
        }
    }

    /// Whether the number is of the floating kind. A floating value without a
    /// cell has no tag, and so no kind.
    pub open spec fn floating_kind(self) -> bool {
        match self {
            Number::Reader(v) => tag::is_floating(v.tag()),
            Number::F64(_) => false,
        }
    }

    /// The number as a signed integer, where it decodes as one.
    pub open spec fn signed_value(self) -> Option<i64> {
        match self {
            Number::Reader(v) => v.int_value(),
            Number::F64(_) => None,
        }
    }

    /// The number as an unsigned integer, where it decodes as one.
    pub open spec fn unsigned_value(self) -> Option<u64> {
        match self {
            Number::Reader(v) => v.uint_value(),
            Number::F64(_) => None,
        }
    }

    /// The bit pattern of the number as a floating value, where it decodes as
    /// one.
    pub open spec fn floating_bits(self) -> Option<u64> {
        match self {
            Number::Reader(v) => v.float_bits(),
            Number::F64(bits) => Some(bits),
        }
    }

    /// What `==` means on numbers.
    pub open spec fn same_as(self, other: Number<'de>) -> bool {
        if self.signed_kind() && other.signed_kind() {
            match (self.signed_value(), other.signed_value()) {
                (Some(a), Some(b)) => a == b,
                _ => false,
            }
        } else if self.unsigned_kind() && other.unsigned_kind() {
            match (self.unsigned_value(), other.unsigned_value()) {
                (Some(a), Some(b)) => a == b,
                _ => false,
            }
        } else if self.floating_kind() && other.floating_kind() {
            match (self.floating_bits(), other.floating_bits()) {
                (Some(a), Some(b)) => float_equal(a, b),
                _ => false,
            }
        } else {
            false
        }
    }

    pub fn is_i64(&self) -> (b: bool)
        ensures
            b == self.signed_kind(),
    {
        match self {
            Number::Reader(v) => tag::signed(v.type_tag()),
            Number::F64(_) => false,
        }
    }

    pub fn is_u64(&self) -> (b: bool)
        ensures
            b == self.unsigned_kind(),
    {
        match self {
            Number::Reader(v) => tag::unsigned(v.type_tag()),
            Number::F64(_) => false,
        }
    }

    pub fn is_f64(&self) -> (b: bool)
        ensures
            b == self.floating_kind(),
    {
        match self {
            Number::Reader(v) => tag::floating(v.type_tag()),
            Number::F64(_) => false,
        }
    }

    pub fn as_i64(&self) -> (out: Option<i64>)
        ensures
            out == self.signed_value(),
    {
        match self {
            Number::Reader(v) => v.read_int(),
            Number::F64(_) => None,
        }
    }

    pub fn as_u64(&self) -> (out: Option<u64>)
        ensures
            out == self.unsigned_value(),
    {
        match self {
            Number::Reader(v) => v.read_uint(),
            Number::F64(_) => None,
        }
    }

    /// The bit pattern of the number as a floating value.
    pub fn as_f64(&self) -> (out: Option<u64>)
        ensures
            out == self.floating_bits(),
    {
        match self {
            Number::Reader(v) => v.read_float_bits(),
            Number::F64(bits) => Some(*bits),
        }
    }

    /// A floating value with no cell behind it, from its bit pattern.
    pub fn from_f64(bits: u64) -> (out: Option<Number<'de>>)
        ensures
            out == Some(Number::F64(bits)),
    {
        Some(Number::F64(bits))
    }
}

impl<'de> Clone for Number<'de> {
    fn clone(&self) -> (out: Self)
        ensures
            out == *self,
    {
        match self {
            Number::Reader(v) => Number::Reader(v.clone()),
            Number::F64(bits) => Number::F64(*bits),
        }
    }
}

impl<'de> PartialEq for Number<'de> {
    fn eq(&self, other: &Number<'de>) -> (same: bool) {
        if self.is_i64() && other.is_i64() {
            return match (self.as_i64(), other.as_i64()) {
                (Some(a), Some(b)) => a == b,
                _ => false,
            };
        }
        if self.is_u64() && other.is_u64() {
            return match (self.as_u64(), other.as_u64()) {
                (Some(a), Some(b)) => a == b,
                _ => false,
            };
        }
        if self.is_f64() && other.is_f64() {
            return match (self.as_f64(), other.as_f64()) {
                (Some(a), Some(b)) => float_bits_equal(a, b),
                _ => false,
            };
        }
        false
    }
}

impl<'de> vstd::std_specs::cmp::PartialEqSpecImpl for Number<'de> {
    open spec fn obeys_eq_spec() -> bool {
        true
    }

    open spec fn eq_spec(&self, other: &Number<'de>) -> bool {
        self.same_as(*other)
    }
}

/// Numbers of different kinds are never equal: a signed or unsigned integer
/// and a floating number compare unequal whatever their magnitudes, and so do
/// a signed and an unsigned integer.
pub proof fn lemma_kinds_do_not_mix(a: Number, b: Number)
    requires
        (a.signed_kind() && !b.signed_kind()) || (a.unsigned_kind() && !b.unsigned_kind()) || (
        a.floating_kind() && !b.floating_kind()),
    ensures
        !a.eq_spec(&b),
        !b.eq_spec(&a),
{
}

/// The three kinds exclude each other.
pub proof fn lemma_kinds_exclusive(a: Number)
    ensures
        !(a.signed_kind() && a.unsigned_kind()),
        !(a.signed_kind() && a.floating_kind()),
        !(a.unsigned_kind() && a.floating_kind()),
{
}

/// A number whose own kind does not decode equals nothing, itself included.
pub proof fn lemma_undecoded_equals_nothing(a: Number, b: Number)
    requires
        a.signed_kind() ==> a.signed_value() is None,
        a.unsigned_kind() ==> a.unsigned_value() is None,
        a.floating_kind() ==> a.floating_bits() is None,
    ensures
        !a.eq_spec(&b),
        !b.eq_spec(&a),
{
}

} // verus!
