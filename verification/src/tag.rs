//! The type tags of the FlexBuffers format and the variant each one decodes to.
//!
//! Every cell of an encoding carries one of these tags. All the vector-shaped
//! tags (heterogeneous, typed, and fixed-length typed vectors) decode to the
//! one `Array` variant; the table below names each of them, so that a tag the
//! table does not list is reported as unsupported rather than guessed at.

use vstd::prelude::*;

verus! {

pub const NULL: u8 = 0;

pub const INT: u8 = 1;

pub const UINT: u8 = 2;

pub const FLOAT: u8 = 3;

pub const KEY: u8 = 4;

pub const STRING: u8 = 5;

pub const INDIRECT_INT: u8 = 6;

pub const INDIRECT_UINT: u8 = 7;

pub const INDIRECT_FLOAT: u8 = 8;

pub const MAP: u8 = 9;

pub const VECTOR: u8 = 10;

pub const VECTOR_INT: u8 = 11;

pub const VECTOR_UINT: u8 = 12;

pub const VECTOR_FLOAT: u8 = 13;

pub const VECTOR_KEY: u8 = 14;

pub const VECTOR_STRING: u8 = 15;

pub const VECTOR_INT2: u8 = 16;

pub const VECTOR_UINT2: u8 = 17;

pub const VECTOR_FLOAT2: u8 = 18;

pub const VECTOR_INT3: u8 = 19;

pub const VECTOR_UINT3: u8 = 20;

pub const VECTOR_FLOAT3: u8 = 21;

pub const VECTOR_INT4: u8 = 22;

pub const VECTOR_UINT4: u8 = 23;

pub const VECTOR_FLOAT4: u8 = 24;

pub const BLOB: u8 = 25;

pub const BOOL: u8 = 26;

pub const VECTOR_BOOL: u8 = 36;

/// The variant a tag decodes to.
#[derive(Clone, Copy, Debug, PartialEq, Eq, Structural)]
pub enum Kind {
    Null,
    Bool,
    Number,
    String,
    Array,
    Object,
}

/// Tags of signed integer cells, inline or stored by offset.
pub open spec fn is_signed(tag: u8) -> bool {
    tag == INT || tag == INDIRECT_INT
}

/// Tags of unsigned integer cells, inline or stored by offset.
pub open spec fn is_unsigned(tag: u8) -> bool {
    tag == UINT || tag == INDIRECT_UINT
}

/// Tags of floating-point cells, inline or stored by offset.
pub open spec fn is_floating(tag: u8) -> bool {
    tag == FLOAT || tag == INDIRECT_FLOAT
}

/// Tags of text cells: strings, and the keys of maps.
pub open spec fn is_text(tag: u8) -> bool {
    tag == STRING || tag == KEY
}

/// Every vector-shaped tag of the format.
pub open spec fn is_vector(tag: u8) -> bool {
    ||| tag == VECTOR
    ||| tag == VECTOR_INT
    ||| tag == VECTOR_UINT
    ||| tag == VECTOR_FLOAT
    ||| tag == VECTOR_KEY
    ||| tag == VECTOR_STRING
    ||| tag == VECTOR_BOOL
    ||| tag == VECTOR_INT2
    ||| tag == VECTOR_UINT2
    ||| tag == VECTOR_FLOAT2
    ||| tag == VECTOR_INT3
    ||| tag == VECTOR_UINT3
    ||| tag == VECTOR_FLOAT3
    ||| tag == VECTOR_INT4
    ||| tag == VECTOR_UINT4
    ||| tag == VECTOR_FLOAT4
}

/// The variant that `tag` decodes to; `None` for a tag this library does not
/// model (a blob, or a number that the format does not define).
pub open spec fn kind_of(tag: u8) -> Option<Kind> {
    if tag == NULL {
        Some(Kind::Null)
    } else if tag == BOOL {
        Some(Kind::Bool)
    } else if is_signed(tag) || is_unsigned(tag) || is_floating(tag) {
        Some(Kind::Number)
    } else if is_text(tag) {
        Some(Kind::String)
    } else if is_vector(tag) {
        Some(Kind::Array)
    } else if tag == MAP {
        Some(Kind::Object)
    } else {
        None
    }
}

pub fn signed(tag: u8) -> (b: bool)
    ensures
        b == is_signed(tag),
{
    tag == INT || tag == INDIRECT_INT
}

pub fn unsigned(tag: u8) -> (b: bool)
    ensures
        b == is_unsigned(tag),
{
    tag == UINT || tag == INDIRECT_UINT
}

pub fn floating(tag: u8) -> (b: bool)
    ensures
        b == is_floating(tag),
{
    tag == FLOAT || tag == INDIRECT_FLOAT
}

pub fn vector(tag: u8) -> (b: bool)
    ensures
        b == is_vector(tag),
{
    tag == VECTOR || tag == VECTOR_INT || tag == VECTOR_UINT || tag == VECTOR_FLOAT || tag
        == VECTOR_KEY || tag == VECTOR_STRING || tag == VECTOR_BOOL || tag == VECTOR_INT2 || tag
        == VECTOR_UINT2 || tag == VECTOR_FLOAT2 || tag == VECTOR_INT3 || tag == VECTOR_UINT3 || tag
        == VECTOR_FLOAT3 || tag == VECTOR_INT4 || tag == VECTOR_UINT4 || tag == VECTOR_FLOAT4
}

/// Looks `tag` up in the table.
pub fn classify(tag: u8) -> (kind: Option<Kind>)
    ensures
        kind == kind_of(tag),
{
    if tag == NULL {
        Some(Kind::Null)
    } else if tag == BOOL {
        Some(Kind::Bool)
    } else if signed(tag) || unsigned(tag) || floating(tag) {
        Some(Kind::Number)
    } else if tag == STRING || tag == KEY {
        Some(Kind::String)
    } else if vector(tag) {
        Some(Kind::Array)
    } else if tag == MAP {
        Some(Kind::Object)
    } else {
        None
    }
}

/// The table by numbers: the vector-shaped tags are 10 to 24 and 36, the
/// number tags are 1 to 3 and 6 to 8, and the tags without a variant are 25
/// and, but for 36, everything from 27 on.
pub proof fn lemma_table_shape(tag: u8)
    ensures
        is_vector(tag) <==> (10 <= tag <= 24 || tag == 36),
        kind_of(tag) is None <==> (tag == BLOB || (27 <= tag && tag != 36)),
        kind_of(tag) == Some(Kind::Number) <==> (tag == 1 || tag == 2 || tag == 3 || tag == 6
            || tag == 7 || tag == 8),
{
}

} // verus!
