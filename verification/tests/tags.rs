use flexbuffers::FlexBufferType;
use selectfb::tag;
use selectfb::tag::Kind;

#[test]
fn tag_constants_are_those_of_the_format() {
    assert_eq!(tag::NULL, FlexBufferType::Null as u8);
    assert_eq!(tag::INT, FlexBufferType::Int as u8);
    assert_eq!(tag::UINT, FlexBufferType::UInt as u8);
    assert_eq!(tag::FLOAT, FlexBufferType::Float as u8);
    assert_eq!(tag::KEY, FlexBufferType::Key as u8);
    assert_eq!(tag::STRING, FlexBufferType::String as u8);
    assert_eq!(tag::INDIRECT_INT, FlexBufferType::IndirectInt as u8);
    assert_eq!(tag::INDIRECT_UINT, FlexBufferType::IndirectUInt as u8);
    assert_eq!(tag::INDIRECT_FLOAT, FlexBufferType::IndirectFloat as u8);
    assert_eq!(tag::MAP, FlexBufferType::Map as u8);
    assert_eq!(tag::VECTOR, FlexBufferType::Vector as u8);
    assert_eq!(tag::VECTOR_INT, FlexBufferType::VectorInt as u8);
    assert_eq!(tag::VECTOR_UINT, FlexBufferType::VectorUInt as u8);
    assert_eq!(tag::VECTOR_FLOAT, FlexBufferType::VectorFloat as u8);
    assert_eq!(tag::VECTOR_KEY, FlexBufferType::VectorKey as u8);
    assert_eq!(tag::VECTOR_INT2, FlexBufferType::VectorInt2 as u8);
    assert_eq!(tag::VECTOR_UINT2, FlexBufferType::VectorUInt2 as u8);
    assert_eq!(tag::VECTOR_FLOAT2, FlexBufferType::VectorFloat2 as u8);
    assert_eq!(tag::VECTOR_INT3, FlexBufferType::VectorInt3 as u8);
    assert_eq!(tag::VECTOR_UINT3, FlexBufferType::VectorUInt3 as u8);
    assert_eq!(tag::VECTOR_FLOAT3, FlexBufferType::VectorFloat3 as u8);
    assert_eq!(tag::VECTOR_INT4, FlexBufferType::VectorInt4 as u8);
    assert_eq!(tag::VECTOR_UINT4, FlexBufferType::VectorUInt4 as u8);
    assert_eq!(tag::VECTOR_FLOAT4, FlexBufferType::VectorFloat4 as u8);
    assert_eq!(tag::BLOB, FlexBufferType::Blob as u8);
    assert_eq!(tag::BOOL, FlexBufferType::Bool as u8);
    assert_eq!(tag::VECTOR_BOOL, FlexBufferType::VectorBool as u8);
    assert_eq!(tag::VECTOR_STRING, 15);
}

#[test]
fn table_gives_each_scalar_its_variant() {
    assert_eq!(tag::classify(0), Some(Kind::Null));
    assert_eq!(tag::classify(26), Some(Kind::Bool));
    for t in [1, 2, 3, 6, 7, 8] {
        assert_eq!(tag::classify(t), Some(Kind::Number), "{}", t);
    }
    assert_eq!(tag::classify(4), Some(Kind::String));
    assert_eq!(tag::classify(5), Some(Kind::String));
    assert_eq!(tag::classify(9), Some(Kind::Object));
}

#[test]
fn table_gives_every_vector_the_array_variant() {
    for t in (10..=24).chain([36]) {
        assert!(tag::vector(t), "{}", t);
        assert_eq!(tag::classify(t), Some(Kind::Array), "{}", t);
    }
}

#[test]
fn table_agrees_with_the_format_on_what_is_a_vector() {
    let all = [
        FlexBufferType::Null,
        FlexBufferType::Int,
        FlexBufferType::UInt,
        FlexBufferType::Float,
        FlexBufferType::Bool,
        FlexBufferType::Key,
        FlexBufferType::String,
        FlexBufferType::IndirectInt,
        FlexBufferType::IndirectUInt,
        FlexBufferType::IndirectFloat,
        FlexBufferType::Map,
        FlexBufferType::Vector,
        FlexBufferType::VectorInt,
        FlexBufferType::VectorUInt,
        FlexBufferType::VectorFloat,
        FlexBufferType::VectorKey,
        FlexBufferType::VectorBool,
        FlexBufferType::VectorInt2,
        FlexBufferType::VectorUInt2,
        FlexBufferType::VectorFloat2,
        FlexBufferType::VectorInt3,
        FlexBufferType::VectorUInt3,
        FlexBufferType::VectorFloat3,
        FlexBufferType::VectorInt4,
        FlexBufferType::VectorUInt4,
        FlexBufferType::VectorFloat4,
        FlexBufferType::Blob,
    ];
    for ty in all {
        // The format counts a map among its vectors; here it is an object.
        let expected = ty.is_vector() && ty != FlexBufferType::Map;
        assert_eq!(tag::vector(ty as u8), expected, "{:?}", ty);
    }
}

#[test]
fn table_knows_no_other_tag() {
    assert_eq!(tag::classify(25), None);
    for t in (27..=35).chain(37..=255) {
        assert_eq!(tag::classify(t), None, "{}", t);
        assert!(!tag::vector(t));
    }
}

#[test]
fn number_kinds_exclude_each_other() {
    for t in 0..=255u8 {
        let kinds = [tag::signed(t), tag::unsigned(t), tag::floating(t)];
        let count = kinds.iter().filter(|k| **k).count();
        assert_eq!(count == 1, tag::classify(t) == Some(Kind::Number), "{}", t);
        assert!(count <= 1);
    }
    assert!(tag::signed(1) && tag::signed(6));
    assert!(tag::unsigned(2) && tag::unsigned(7));
    assert!(tag::floating(3) && tag::floating(8));
}
