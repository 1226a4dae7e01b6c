//! The boundary to the `flexbuffers` crate.
//!
//! Everything this library knows of an encoding it learns through a
//! `flexbuffers::Reader`. Verus does not look inside a reader, so each thing a
//! reader can be asked has a name here, and each call into the crate is one
//! small function whose contract ties its result to that name. Nothing in this
//! file is proved; the rest of the library is proved from it.
//!
//! `flexbuffers` follows the offsets and lengths it finds in the buffer and, in
//! places, indexes the buffer without a check. The reading functions below are
//! therefore only for readers that are *intact*: see [`reader_intact`].

use flexbuffers::{MapReader, Reader};
use vstd::prelude::*;

verus! {

#[verifier::external_type_specification]
#[verifier::external_body]
pub struct ExReader<'de>(flexbuffers::Reader<'de>);

#[verifier::external_type_specification]
#[verifier::external_body]
pub struct ExMapReader<'de>(flexbuffers::MapReader<'de>);

/// Whether the reader stands on a well-formed encoding: every offset and
/// length that `flexbuffers` follows from the reader's cell, and from every
/// cell it reaches from there, stays inside the buffer. On an intact reader no
/// accessor of the crate indexes out of bounds or overflows, and every reader
/// or map reader that an accessor hands out is intact in turn.
pub uninterp spec fn reader_intact(r: Reader) -> bool;

/// The same of a map reader, for the keys and values it reaches.
pub uninterp spec fn map_intact(m: MapReader) -> bool;

/// The type tag of the reader's cell: `Reader::flexbuffer_type` as a number.
pub uninterp spec fn reader_tag(r: Reader) -> u8;

/// The bytes of the reader's `Debug` rendering.
pub uninterp spec fn reader_rendering(r: Reader) -> Seq<u8>;

/// What `Reader::as_bool` returns.
pub uninterp spec fn reader_bool(r: Reader) -> bool;

/// What `Reader::get_i64` returns, `None` standing for its errors.
pub uninterp spec fn reader_i64(r: Reader) -> Option<i64>;

/// What `Reader::get_u64` returns, `None` standing for its errors.
pub uninterp spec fn reader_u64(r: Reader) -> Option<u64>;

/// The bit pattern of what `Reader::get_f64` returns, `None` standing for its
/// errors.
pub uninterp spec fn reader_f64_bits(r: Reader) -> Option<u64>;

/// What `Reader::as_str` returns.
pub uninterp spec fn reader_text(r: Reader) -> Seq<char>;

/// The readers that iterating `Reader::as_vector` yields, in order.
pub uninterp spec fn reader_items(r: Reader) -> Seq<Reader>;

/// What `Reader::as_map` returns.
pub uninterp spec fn reader_map(r: Reader) -> MapReader;

/// What `MapReader::index_key` returns for a key.
pub uninterp spec fn map_key_index(m: MapReader, key: Seq<char>) -> Option<usize>;

/// What `MapReader::index` returns for a key, `None` standing for its errors.
pub uninterp spec fn map_lookup(m: MapReader, key: Seq<char>) -> Option<Reader>;

/// The pairs that `MapReader::iter_keys` and `MapReader::iter_values` yield
/// side by side, in the order of the encoding.
pub uninterp spec fn map_entries(m: MapReader) -> Seq<(Seq<char>, Reader)>;

/// `Reader::default`: a reader of a null cell on an empty buffer. It has
/// nothing to follow, so it is intact.
#[verifier::external_body]
pub(crate) fn null_reader<'de>() -> (out: Reader<'de>)
    ensures
        reader_intact(out),
        reader_tag(out) == crate::tag::NULL,
{
    Reader::default()
}

/// `Reader::clone`: the copy has the same fields, and so answers every
/// question alike.
#[verifier::external_body]
pub(crate) fn copy_reader<'de>(r: &Reader<'de>) -> (out: Reader<'de>)
    ensures
        out == *r,
{
    r.clone()
}

/// `MapReader::clone`: the copy has the same fields.
#[verifier::external_body]
pub(crate) fn copy_map_reader<'de>(m: &MapReader<'de>) -> (out: MapReader<'de>)
    ensures
        out == *m,
{
    m.clone()
}

/// `Reader::flexbuffer_type`, converted to the number that the format gives
/// the tag.
#[verifier::external_body]
pub(crate) fn tag_of(r: &Reader) -> (t: u8)
    ensures
        t == reader_tag(*r),
{
    r.flexbuffer_type() as u8
}

/// The reader's `Debug` rendering. It is made of the reader's tag, width and
/// offset and reads nothing from the buffer.
#[verifier::external_body]
pub(crate) fn rendering_of(r: &Reader) -> (out: Vec<u8>)
    ensures
        out@ == reader_rendering(*r),
{
    format!("{:?}", r).into_bytes()
}

/// `usize::hash`: feeds an offset to a hasher. Nothing is said of the hasher
/// afterwards.
#[verifier::external_body]
pub(crate) fn feed_position<H: std::hash::Hasher>(state: &mut H, at: usize) {
    std::hash::Hash::hash(&at, state)
}

/// `Reader::as_bool` on a boolean cell.
#[verifier::external_body]
pub(crate) fn read_bool(r: &Reader) -> (b: bool)
    requires
        reader_intact(*r),
        reader_tag(*r) == crate::tag::BOOL,
    ensures
        b == reader_bool(*r),
{
    r.as_bool()
}

/// `Reader::get_i64`. It fails on every cell whose tag is not `Int`.
#[verifier::external_body]
pub(crate) fn read_i64(r: &Reader) -> (out: Option<i64>)
    requires
        reader_intact(*r),
    ensures
        out == reader_i64(*r),
        out is Some ==> reader_tag(*r) == crate::tag::INT,
{
    r.get_i64().ok()
}

/// `Reader::get_u64`. It fails on every cell whose tag is not `UInt`.
#[verifier::external_body]
pub(crate) fn read_u64(r: &Reader) -> (out: Option<u64>)
    requires
        reader_intact(*r),
    ensures
        out == reader_u64(*r),
        out is Some ==> reader_tag(*r) == crate::tag::UINT,
{
    r.get_u64().ok()
}

/// `Reader::get_f64`, the value handed on as its bit pattern. It fails on
/// every cell whose tag is not `Float`.
#[verifier::external_body]
pub(crate) fn read_f64_bits(r: &Reader) -> (out: Option<u64>)
    requires
        reader_intact(*r),
    ensures
        out == reader_f64_bits(*r),
        out is Some ==> reader_tag(*r) == crate::tag::FLOAT,
{
    match r.get_f64() {
        Ok(x) => Some(x.to_bits()),
        Err(_) => None,
    }
}

/// `Reader::as_str` on a string or key cell, copied into a `String`.
#[verifier::external_body]
pub(crate) fn read_text(r: &Reader) -> (out: String)
    requires
        reader_intact(*r),
        crate::tag::is_text(reader_tag(*r)),
    ensures
        out@ == reader_text(*r),
{
    r.as_str().to_string()
}

/// `Reader::as_vector` on a vector-shaped cell, and the readers that its
/// iterator yields.
#[verifier::external_body]
pub(crate) fn read_items<'de>(r: &Reader<'de>) -> (out: Vec<Reader<'de>>)
    requires
        reader_intact(*r),
        crate::tag::is_vector(reader_tag(*r)),
    ensures
        out@ == reader_items(*r),
        forall|i: int| 0 <= i < out@.len() ==> reader_intact(#[trigger] out@[i]),
{
    r.as_vector().iter().collect()
}

/// `Reader::as_map` on a map cell.
#[verifier::external_body]
pub(crate) fn read_map<'de>(r: &Reader<'de>) -> (out: MapReader<'de>)
    requires
        reader_intact(*r),
        reader_tag(*r) == crate::tag::MAP,
    ensures
        out == reader_map(*r),
        map_intact(out),
{
    r.as_map()
}

/// `MapReader::index_key`.
#[verifier::external_body]
pub(crate) fn key_index(m: &MapReader, key: &str) -> (out: Option<usize>)
    requires
        map_intact(*m),
    ensures
        out == map_key_index(*m, key@),
{
    m.index_key(key)
}

/// `MapReader::index` with a key. It looks the key up with `index_key` and
/// fails where that finds nothing.
#[verifier::external_body]
pub(crate) fn lookup<'de>(m: &MapReader<'de>, key: &str) -> (out: Option<Reader<'de>>)
    requires
        map_intact(*m),
    ensures
        out == map_lookup(*m, key@),
        out is Some ==> map_key_index(*m, key@) is Some,
        out is Some ==> reader_intact(out->0),
{
    m.index(key).ok()
}

/// `MapReader::iter_keys` beside `MapReader::iter_values`.
#[verifier::external_body]
pub(crate) fn entries_of<'de>(m: &MapReader<'de>) -> (out: Vec<(&'de str, Reader<'de>)>)
    requires
        map_intact(*m),
    ensures
        out@.len() == map_entries(*m).len(),
        forall|i: int|
            0 <= i < out@.len() ==> {
                &&& (#[trigger] out@[i]).0@ == map_entries(*m)[i].0
                &&& out@[i].1 == map_entries(*m)[i].1
                &&& reader_intact(out@[i].1)
            },
{
    m.iter_keys().zip(m.iter_values()).collect()
}

} // verus!
