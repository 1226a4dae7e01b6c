//! Views into an encoding, and the variant a view decodes to.
//!
//! A [`FbValue`] is a handle on one cell of an encoded buffer. It decodes
//! nothing until asked, and what it decodes is one level deep: the elements
//! of an array and the values of an object come back as views in turn.
//!
//! Two views are the same view exactly when they point at the same offset of
//! the buffer. This is identity, not likeness: two cells that hold the same
//! data at different offsets are different views, and `==` says so.

use crate::decoder::{
    copy_map_reader, copy_reader, entries_of, feed_position, key_index, lookup, map_entries,
    map_intact, map_key_index, map_lookup, null_reader, read_bool, read_f64_bits, read_i64,
    read_items, read_map, read_text, read_u64, reader_bool, reader_f64_bits, reader_i64,
    reader_intact, reader_items, reader_map, reader_rendering, reader_tag, reader_text,
    reader_u64, rendering_of, tag_of,
};
use crate::number::Number;
use crate::position::{address_in, parse_address};
use crate::tag::{self, kind_of, Kind};
use flexbuffers::{MapReader, Reader};
use vstd::prelude::*;
use vstd::std_specs::cmp::PartialEqSpec;

verus! {

/// Why a cell could not be decoded.
#[derive(Clone, Copy, Debug, PartialEq, Eq, Structural)]
pub enum DecodeError {
    /// The cell carries a tag that this library does not model.
    UnsupportedTag(u8),
}

/// A view of one cell of an encoded buffer.
#[derive(Debug)]
pub struct FbValue<'de> {
    reader: Reader<'de>,
}

/// A view of one encoded map: its keys, in the order of the encoding, each
/// with the view of its value.
#[derive(Debug)]
pub struct FbMap<'de> {
    reader: MapReader<'de>,
}

/// What a view decodes to.
#[derive(Debug)]
pub enum Value<'de> {
    Null,
    Bool(bool),
    Number(Number<'de>),
    String(String),
    Array(Vec<FbValue<'de>>),
    Object(FbMap<'de>),
}

/// The mathematical form of a [`Value`].
pub enum Shape<'de> {
    Null,
    Bool(bool),
    Number(Number<'de>),
    String(Seq<char>),
    Array(Seq<FbValue<'de>>),
    Object(FbMap<'de>),
}

impl<'de> View for Value<'de> {
    type V = Shape<'de>;

    open spec fn view(&self) -> Shape<'de> {
        match *self {
            Value::Null => Shape::Null,
            Value::Bool(b) => Shape::Bool(b),
            Value::Number(n) => Shape::Number(n),
            Value::String(s) => Shape::String(s@),
            Value::Array(items) => Shape::Array(items@),
            Value::Object(map) => Shape::Object(map),
        }
    }
}

impl<'de> FbValue<'de> {
    /// Every view stands on an intact reader: that is asked once, where the
    /// view is made, and holds of every view that the library hands out.
    #[verifier::type_invariant]
    spec fn intact(self) -> bool {
        reader_intact(self.reader)
    }

    /// The reader this view was made from.
    pub closed spec fn source(self) -> Reader<'de> {
        self.reader
    }

    /// The type tag of the cell.
    pub closed spec fn tag(self) -> u8 {
        reader_tag(self.reader)
    }

    /// The offset of the cell in its buffer: the view's identity.
    pub closed spec fn position(self) -> usize {
        address_in(reader_rendering(self.reader))
    }

    /// The truth value of a boolean cell.
    pub closed spec fn truth(self) -> bool {
        reader_bool(self.reader)
    }

    /// The number in a signed integer cell; `None` for every other cell, and
    /// where the number cannot be read.
    pub closed spec fn int_value(self) -> Option<i64> {
        if reader_tag(self.reader) == tag::INT {
            reader_i64(self.reader)
        } else {
            None
        }
    }

    /// The number in an unsigned integer cell; `None` for every other cell,
    /// and where the number cannot be read.
    pub closed spec fn uint_value(self) -> Option<u64> {
        if reader_tag(self.reader) == tag::UINT {
            reader_u64(self.reader)
        } else {
            None
        }
    }

    /// The bit pattern of the number in a floating-point cell; `None` for
    /// every other cell, and where the number cannot be read.
    pub closed spec fn float_bits(self) -> Option<u64> {
        if reader_tag(self.reader) == tag::FLOAT {
            reader_f64_bits(self.reader)
        } else {
            None
        }
    }

    /// The text of a string or key cell.
    pub closed spec fn text(self) -> Seq<char> {
        reader_text(self.reader)
    }

    /// The views of the elements of a vector-shaped cell, in order.
    pub closed spec fn elements(self) -> Seq<FbValue<'de>> {
        Seq::new(
            reader_items(self.reader).len(),
            |i: int| FbValue { reader: reader_items(self.reader)[i] },
        )
    }

    /// The map view of a map cell.
    pub closed spec fn object(self) -> FbMap<'de> {
        FbMap { reader: reader_map(self.reader) }
    }

    /// What the view decodes to, by the tag of its cell.
    pub open spec fn decoded(self) -> Result<Shape<'de>, DecodeError> {
        match kind_of(self.tag()) {
            Some(Kind::Null) => Ok(Shape::Null),
            Some(Kind::Bool) => Ok(Shape::Bool(self.truth())),
            Some(Kind::Number) => Ok(Shape::Number(Number::Reader(self))),
            Some(Kind::String) => Ok(Shape::String(self.text())),
            Some(Kind::Array) => Ok(Shape::Array(self.elements())),
            Some(Kind::Object) => Ok(Shape::Object(self.object())),
            None => Err(DecodeError::UnsupportedTag(self.tag())),
        }
    }

    /// A view through `reader`. The caller answers for the encoding that the
    /// reader stands on.
    pub fn new(reader: Reader<'de>) -> (out: Self)
        requires
            reader_intact(reader),
        ensures
            out.source() == reader,
    {
        FbValue { reader }
    }

    /// A copy of the reader behind the view.
    pub fn reader(&self) -> (out: Reader<'de>)
        ensures
            out == self.source(),
    {
        copy_reader(&self.reader)
    }

    /// The offset of the cell in its buffer.
    pub fn address(&self) -> (at: usize)
        ensures
            at == self.position(),
    {
        let text = rendering_of(&self.reader);
        parse_address(text.as_slice())
    }

    /// The tag of the cell, as the format numbers it.
    pub fn type_tag(&self) -> (t: u8)
        ensures
            t == self.tag(),
    {
        tag_of(&self.reader)
    }

    /// Whether the cell is vector-shaped, whatever the kind of vector.
    pub fn is_array(&self) -> (b: bool)
        ensures
            b == tag::is_vector(self.tag()),
            b == (self.decoded() matches Ok(Shape::Array(_))),
    {
        tag::vector(tag_of(&self.reader))
    }

    /// The number in a signed integer cell.
    pub fn read_int(&self) -> (out: Option<i64>)
        ensures
            out == self.int_value(),
    {
        proof {
            use_type_invariant(self);
        }
        if tag_of(&self.reader) == tag::INT {
            read_i64(&self.reader)
        } else {
            None
        }
    }

    /// The number in an unsigned integer cell.
    pub fn read_uint(&self) -> (out: Option<u64>)
        ensures
            out == self.uint_value(),
    {
        proof {
            use_type_invariant(self);
        }
        if tag_of(&self.reader) == tag::UINT {
            read_u64(&self.reader)
        } else {
            None
        }
    }

    /// The bit pattern of the number in a floating-point cell.
    pub fn read_float_bits(&self) -> (out: Option<u64>)
        ensures
            out == self.float_bits(),
    {
        proof {
            use_type_invariant(self);
        }
        if tag_of(&self.reader) == tag::FLOAT {
            read_f64_bits(&self.reader)
        } else {
            None
        }
    }

    /// The views of the elements of a vector-shaped cell.
    fn items(&self) -> (out: Vec<FbValue<'de>>)
        requires
            tag::is_vector(self.tag()),
        ensures
            out@ == self.elements(),
    {
        proof {
            use_type_invariant(self);
        }
        let readers = read_items(&self.reader);
        let mut out: Vec<FbValue<'de>> = Vec::with_capacity(readers.len());
        let mut i: usize = 0;
        while i < readers.len()
            invariant
                i <= readers@.len(),
                readers@ == reader_items(self.reader),
                forall|j: int| 0 <= j < readers@.len() ==> reader_intact(#[trigger] readers@[j]),
                out@.len() == i,
                forall|j: int| 0 <= j < i ==> out@[j] == self.elements()[j],
            decreases readers@.len() - i,
        {
            out.push(FbValue { reader: copy_reader(&readers[i]) });
            i += 1;
        }
        assert(out@ =~= self.elements());
        out
    }

    /// Decodes the cell, one level deep.
    pub fn classify(&self) -> (out: Result<Value<'de>, DecodeError>)
        ensures
            match out {
                Ok(value) => self.decoded() == Ok::<Shape<'de>, DecodeError>(value@),
                Err(e) => self.decoded() == Err::<Shape<'de>, DecodeError>(e),
            },
    {
        proof {
            use_type_invariant(self);
        }
        let t = tag_of(&self.reader);
        match tag::classify(t) {
            Some(Kind::Null) => Ok(Value::Null),
            Some(Kind::Bool) => Ok(Value::Bool(read_bool(&self.reader))),
            Some(Kind::Number) => Ok(Value::Number(Number::Reader(self.clone()))),
            Some(Kind::String) => Ok(Value::String(read_text(&self.reader))),
            Some(Kind::Array) => Ok(Value::Array(self.items())),
            Some(Kind::Object) => Ok(Value::Object(FbMap { reader: read_map(&self.reader) })),
            None => Err(DecodeError::UnsupportedTag(t)),
        }
    }
}

impl<'de> Clone for FbValue<'de> {
    fn clone(&self) -> (out: Self)
        ensures
            out == *self,
    {
        proof {
            use_type_invariant(self);
        }
        FbValue { reader: copy_reader(&self.reader) }
    }
}

impl<'de> Clone for FbMap<'de> {
    fn clone(&self) -> (out: Self)
        ensures
            out == *self,
    {
        proof {
            use_type_invariant(self);
        }
        FbMap { reader: copy_map_reader(&self.reader) }
    }
}

impl<'de> Clone for Value<'de> {
    fn clone(&self) -> (out: Self)
        ensures
            out@ == self@,
    {
        match self {
            Value::Null => Value::Null,
            Value::Bool(b) => Value::Bool(*b),
            Value::Number(n) => Value::Number(n.clone()),
            Value::String(s) => Value::String(s.clone()),
            Value::Array(items) => {
                let mut copy: Vec<FbValue<'de>> = Vec::with_capacity(items.len());
                let mut i: usize = 0;
                while i < items.len()
                    invariant
                        i <= items@.len(),
                        copy@ == items@.take(i as int),
                    decreases items@.len() - i,
                {
                    copy.push(items[i].clone());
                    assert(items@.take(i + 1) =~= items@.take(i as int).push(items@[i as int]));
                    i += 1;
                }
                assert(items@.take(i as int) =~= items@);
                Value::Array(copy)
            },
            Value::Object(map) => Value::Object(map.clone()),
        }
    }
}

impl<'de> Default for FbValue<'de> {
    /// A view of a null cell.
    fn default() -> (out: Self)
        ensures
            out.tag() == tag::NULL,
    {
        FbValue { reader: null_reader() }
    }
}

impl<'de> PartialEq for FbValue<'de> {
    fn eq(&self, other: &FbValue<'de>) -> (same: bool) {
        self.address() == other.address()
    }
}

impl<'de> vstd::std_specs::cmp::PartialEqSpecImpl for FbValue<'de> {
    open spec fn obeys_eq_spec() -> bool {
        true
    }

    open spec fn eq_spec(&self, other: &FbValue<'de>) -> bool {
        self.position() == other.position()
    }
}

impl<'de> Eq for FbValue<'de> {

}

impl<'de> std::hash::Hash for FbValue<'de> {
    /// Hashes the offset and nothing else, so that equal views hash alike.
    fn hash<H: std::hash::Hasher>(&self, state: &mut H) {
        feed_position(state, self.address())
    }
}

/// Two views are equal exactly when they point at the same offset, whatever
/// they decode to. So every view equals itself, equality does not depend on
/// the side a view stands on, and views at different offsets are unequal.
pub proof fn lemma_identity_is_position(a: FbValue, b: FbValue)
    ensures
        a.eq_spec(&b) <==> a.position() == b.position(),
        a.eq_spec(&a),
        a.eq_spec(&b) ==> b.eq_spec(&a),
        a.position() != b.position() ==> !a.eq_spec(&b),
{
}

impl<'de> FbMap<'de> {
    /// Every map view stands on an intact map reader.
    #[verifier::type_invariant]
    spec fn intact(self) -> bool {
        map_intact(self.reader)
    }

    /// The map reader this view was made from.
    pub closed spec fn source(self) -> MapReader<'de> {
        self.reader
    }

    /// Whether the map's key search finds `key`.
    pub closed spec fn has_key(self, key: Seq<char>) -> bool {
        map_key_index(self.reader, key) is Some
    }

    /// The view of the value that the map holds under `key`; `None` where the
    /// key search finds nothing, and where the value cannot be reached.
    pub closed spec fn lookup(self, key: Seq<char>) -> Option<FbValue<'de>> {
        if map_key_index(self.reader, key) is Some {
            match map_lookup(self.reader, key) {
                Some(r) => Some(FbValue { reader: r }),
                None => None,
            }
        } else {
            None
        }
    }

    /// The keys of the map, in the order of the encoding, each with the view
    /// of its value.
    pub closed spec fn entries(self) -> Seq<(Seq<char>, FbValue<'de>)> {
        Seq::new(
            map_entries(self.reader).len(),
            |i: int| (map_entries(self.reader)[i].0, FbValue { reader: map_entries(self.reader)[i].1 }),
        )
    }

    /// The views of the map's values, in the order of the encoding.
    pub open spec fn values(self) -> Seq<FbValue<'de>> {
        Seq::new(self.entries().len(), |i: int| self.entries()[i].1)
    }

    /// A key that the map maps to a value is a key that the map holds.
    pub proof fn lemma_lookup_needs_key(self, key: Seq<char>)
        ensures
            self.lookup(key) is Some ==> self.has_key(key),
    {
    }

    /// A map view through `from`. The caller answers for the encoding that
    /// the map reader stands on.
    pub fn new(from: MapReader<'de>) -> (out: FbMap<'de>)
        requires
            map_intact(from),
        ensures
            out.source() == from,
    {
        FbMap { reader: from }
    }

    /// Whether the map holds `key`. No value is decoded.
    pub fn contains_key(&self, key: &str) -> (found: bool)
        ensures
            found == self.has_key(key@),
    {
        proof {
            use_type_invariant(self);
        }
        key_index(&self.reader, key).is_some()
    }

    /// The view of the value under `key`.
    pub fn get(&self, key: &str) -> (out: Option<FbValue<'de>>)
        ensures
            out == self.lookup(key@),
    {
        proof {
            use_type_invariant(self);
        }
        match lookup(&self.reader, key) {
            Some(reader) => Some(FbValue { reader }),
            None => None,
        }
    }

    /// Every key with the view of its value, each pair once, in the order of
    /// the encoding.
    pub fn pairs(&self) -> (out: Vec<(&'de str, FbValue<'de>)>)
        ensures
            out@.len() == self.entries().len(),
            forall|i: int|
                0 <= i < out@.len() ==> (#[trigger] out@[i]).0@ == self.entries()[i].0 && out@[i].1
                    == self.entries()[i].1,
    {
        proof {
            use_type_invariant(self);
        }
        let found = entries_of(&self.reader);
        let mut out: Vec<(&'de str, FbValue<'de>)> = Vec::with_capacity(found.len());
        let mut i: usize = 0;
        while i < found.len()
            invariant
                i <= found@.len(),
                found@.len() == map_entries(self.reader).len(),
                forall|j: int|
                    0 <= j < found@.len() ==> {
                        &&& (#[trigger] found@[j]).0@ == map_entries(self.reader)[j].0
                        &&& found@[j].1 == map_entries(self.reader)[j].1
                        &&& reader_intact(found@[j].1)
                    },
                out@.len() == i,
                forall|j: int|
                    0 <= j < i ==> (#[trigger] out@[j]).0@ == self.entries()[j].0 && out@[j].1
                        == self.entries()[j].1,
            decreases found@.len() - i,
        {
            let key: &'de str = found[i].0;
            out.push((key, FbValue { reader: copy_reader(&found[i].1) }));
            i += 1;
        }
        out
    }
}

} // verus!
