//! Live projection behaviour: tag resolution, field access, staleness,
//! and the bit-for-bit reinterpretation of primitive leaves.

use contour::descriptor::{Contour, Primitive, StructField, TagRule, TupleField, Variant,
    VariantFields};
use contour::prims::{HasContour, TYPE_ID_BOOL, TYPE_ID_CHAR, TYPE_ID_F64, TYPE_ID_I16,
    TYPE_ID_U32, TYPE_ID_U64, primitive_contour};
use contour::projection::{FieldKey, Value};
use contour::registry::{ContourError, PythonManager};

const STRING_ID: u64 = 1000;
const STRUCT_TEST_ID: u64 = 1001;
const ENUM_TEST_ID: u64 = 1004;
const SECOND_ENUM_ID: u64 = 1005;

fn struct_test_contour() -> Contour {
    Contour::Struct {
        name: "StructTest".to_string(),
        size: 24,
        type_id: STRUCT_TEST_ID,
        fields: vec![
            StructField { name: "a".to_string(), type_id: TYPE_ID_U32, offset: 0 },
            StructField { name: "b".to_string(), type_id: TYPE_ID_U64, offset: 8 },
            StructField { name: "c".to_string(), type_id: TYPE_ID_F64, offset: 16 },
        ],
    }
}

fn string_contour() -> Contour {
    Contour::Struct {
        name: "String".to_string(),
        size: 24,
        type_id: STRING_ID,
        fields: vec![],
    }
}

fn enum_test_contour() -> Contour {
    Contour::Enum {
        name: "EnumTest".to_string(),
        size: 24,
        type_id: ENUM_TEST_ID,
        variants: vec![
            Variant { name: "A".to_string(), fields: VariantFields::Unit },
            Variant {
                name: "B".to_string(),
                fields: VariantFields::Tuple(vec![
                    TupleField { ix: 0, type_id: TYPE_ID_U32, offset: 4 },
                    TupleField { ix: 1, type_id: TYPE_ID_U64, offset: 8 },
                ]),
            },
            Variant {
                name: "C".to_string(),
                fields: VariantFields::Struct(vec![
                    StructField { name: "c1".to_string(), type_id: STRING_ID, offset: 8 },
                    StructField { name: "c2".to_string(), type_id: TYPE_ID_F64, offset: 16 },
                ]),
            },
        ],
        tag: TagRule { offset: 0, size: 1, values: vec![0, 1, 2] },
    }
}

fn second_enum_contour() -> Contour {
    Contour::Enum {
        name: "SecondEnum".to_string(),
        size: 1,
        type_id: SECOND_ENUM_ID,
        variants: vec![
            Variant { name: "Really".to_string(), fields: VariantFields::Unit },
            Variant { name: "Now".to_string(), fields: VariantFields::Unit },
            Variant { name: "Question".to_string(), fields: VariantFields::Unit },
            Variant { name: "Mark".to_string(), fields: VariantFields::Unit },
        ],
        tag: TagRule { offset: 0, size: 1, values: vec![0, 1, 2, 3] },
    }
}

fn enum_manager() -> PythonManager {
    let mut mgr = PythonManager::new();
    let catalog = vec![
        enum_test_contour(),
        second_enum_contour(),
        string_contour(),
        u32::contour(),
        u64::contour(),
        primitive_contour(Primitive::F64),
    ];
    mgr.chart(ENUM_TEST_ID, &catalog).unwrap();
    mgr.chart(SECOND_ENUM_ID, &catalog).unwrap();
    mgr
}

/// The bytes of a live `EnumTest::B(0, 1)` under the declared layout.
fn enum_b_bytes() -> Vec<u8> {
    let mut mem = vec![0u8; 24];
    mem[0] = 1; // the tag spells variant B
    mem[4..8].copy_from_slice(&0u32.to_le_bytes());
    mem[8..16].copy_from_slice(&1u64.to_le_bytes());
    mem
}

#[test]
fn test_tag() {
    let mgr = enum_manager();
    let (e1v, _) = match enum_test_contour() {
        Contour::Enum { variants, tag, .. } => (variants, tag),
        _ => panic!("Wrong variant!"),
    };

    let mem = enum_b_bytes();
    let proj = mgr.superanalyze(ENUM_TEST_ID, 0).unwrap();
    assert_eq!(proj.resolve_tag(&mgr, &mem).unwrap(), 1);
    let fields = match e1v[1].fields {
        VariantFields::Tuple(ref v) => v.clone(),
        _ => panic!("Really wrong variant!"),
    };
    let (ix, values) = proj.variant_fields(&mgr, &mem).unwrap();
    assert_eq!(ix, 1);
    assert_eq!(fields.len(), values.len());
    assert_eq!(values[0], (FieldKey::Index(0), Value::Unsigned(0)));
    assert_eq!(values[1], (FieldKey::Index(1), Value::Unsigned(1)));

    let proj2 = mgr.superanalyze(SECOND_ENUM_ID, 0).unwrap();
    assert_eq!(proj2.resolve_tag(&mgr, &[0u8]).unwrap(), 0);
    assert_eq!(proj2.resolve_tag(&mgr, &[1u8]).unwrap(), 1);
    assert_eq!(proj2.resolve_tag(&mgr, &[2u8]).unwrap(), 2);
    assert_eq!(proj2.resolve_tag(&mgr, &[3u8]).unwrap(), 3);
}

fn struct_manager() -> PythonManager {
    let mut mgr = PythonManager::new();
    let catalog = vec![
        struct_test_contour(),
        u32::contour(),
        u64::contour(),
        primitive_contour(Primitive::F64),
    ];
    mgr.chart(STRUCT_TEST_ID, &catalog).unwrap();
    mgr
}

/// The bytes of a live `StructTest { a: 7, b: 9, c: 1.5 }`.
fn struct_test_bytes() -> Vec<u8> {
    let mut mem = vec![0u8; 24];
    mem[0..4].copy_from_slice(&7u32.to_le_bytes());
    mem[8..16].copy_from_slice(&9u64.to_le_bytes());
    mem[16..24].copy_from_slice(&1.5f64.to_le_bytes());
    mem
}

#[test]
fn struct_projection_round_trip() {
    let mgr = struct_manager();
    let proj = mgr.superanalyze(STRUCT_TEST_ID, 0).unwrap();
    let fields = proj.fields(&mgr, &struct_test_bytes()).unwrap();
    assert_eq!(fields.len(), 3);
    assert_eq!(fields[0].0, FieldKey::Name("a".to_string()));
    assert_eq!(fields[0].1, Value::Unsigned(7));
    assert_eq!(fields[1].0, FieldKey::Name("b".to_string()));
    assert_eq!(fields[1].1, Value::Unsigned(9));
    assert_eq!(fields[2].0, FieldKey::Name("c".to_string()));
    match fields[2].1 {
        Value::F64Bits(bits) => assert_eq!(f64::from_bits(bits), 1.5),
        ref other => panic!("not a float leaf: {:?}", other),
    }
}

#[test]
fn staleness_guards_every_access() {
    let mut mgr = struct_manager();
    let proj = mgr.superanalyze(STRUCT_TEST_ID, 0).unwrap();
    mgr.increment_generation();
    // The old projection refuses to read anything.
    assert_eq!(
        proj.fields(&mgr, &struct_test_bytes()).unwrap_err(),
        ContourError::StaleGeneration
    );
    // And an old generation cannot even be captured anew.
    assert_eq!(
        mgr.analyze(STRUCT_TEST_ID, 0, 0).unwrap_err(),
        ContourError::StaleGeneration
    );
    // A fresh projection at the new generation works.
    let fresh = mgr.superanalyze(STRUCT_TEST_ID, 0).unwrap();
    assert!(fresh.fields(&mgr, &struct_test_bytes()).is_ok());
}

#[test]
fn unknown_types_are_refused() {
    let mgr = struct_manager();
    assert_eq!(mgr.superanalyze(9999, 0).unwrap_err(), ContourError::UnknownType);
}

#[test]
fn flat_fields_need_a_flat_shape() {
    let mgr = enum_manager();
    let proj = mgr.superanalyze(ENUM_TEST_ID, 0).unwrap();
    assert_eq!(
        proj.fields(&mgr, &enum_b_bytes()).unwrap_err(),
        ContourError::UnsupportedShape
    );
    // And tag resolution demands an enum in turn.
    let mgr2 = struct_manager();
    let proj2 = mgr2.superanalyze(STRUCT_TEST_ID, 0).unwrap();
    assert_eq!(
        proj2.resolve_tag(&mgr2, &struct_test_bytes()).unwrap_err(),
        ContourError::UnsupportedShape
    );
}

#[test]
fn short_buffers_are_refused() {
    let mgr = struct_manager();
    let proj = mgr.superanalyze(STRUCT_TEST_ID, 0).unwrap();
    assert_eq!(proj.fields(&mgr, &[0u8; 8]).unwrap_err(), ContourError::SizeMismatch);
}

#[test]
fn unmatched_tag_is_invalid() {
    let mgr = enum_manager();
    let proj = mgr.superanalyze(SECOND_ENUM_ID, 0).unwrap();
    assert_eq!(proj.resolve_tag(&mgr, &[9u8]).unwrap_err(), ContourError::InvalidValue);
}

#[test]
fn nested_fields_become_projections() {
    // A struct holding a composite field projects it lazily: the nested
    // projection points at base + offset and keeps the generation.
    const OUTER_ID: u64 = 5001;
    let outer = Contour::Struct {
        name: "Outer".to_string(),
        size: 32,
        type_id: OUTER_ID,
        fields: vec![
            StructField { name: "head".to_string(), type_id: TYPE_ID_U64, offset: 0 },
            StructField { name: "body".to_string(), type_id: STRUCT_TEST_ID, offset: 8 },
        ],
    };
    let mut mgr = PythonManager::new();
    let catalog = vec![
        outer,
        struct_test_contour(),
        u32::contour(),
        u64::contour(),
        primitive_contour(Primitive::F64),
    ];
    mgr.chart(OUTER_ID, &catalog).unwrap();
    let proj = mgr.superanalyze(OUTER_ID, 100).unwrap();
    let fields = proj.fields(&mgr, &[0u8; 32]).unwrap();
    match fields[1].1 {
        Value::Nested(inner) => {
            assert_eq!(inner.type_id, STRUCT_TEST_ID);
            assert_eq!(inner.addr, 108);
            assert_eq!(inner.generation, mgr.generation());
            assert_eq!(inner.name(&mgr), Some("StructTest"));
        },
        ref other => panic!("not a nested projection: {:?}", other),
    }
}

#[test]
fn field_addresses_stay_in_the_address_space() {
    const FAR_ID: u64 = 5002;
    let far = Contour::Struct {
        name: "Far".to_string(),
        size: 32,
        type_id: FAR_ID,
        fields: vec![StructField { name: "body".to_string(), type_id: STRUCT_TEST_ID, offset: 8 }],
    };
    let mut mgr = PythonManager::new();
    let catalog = vec![
        far,
        struct_test_contour(),
        u32::contour(),
        u64::contour(),
        primitive_contour(Primitive::F64),
    ];
    mgr.chart(FAR_ID, &catalog).unwrap();
    let proj = mgr.superanalyze(FAR_ID, usize::MAX).unwrap();
    assert_eq!(proj.fields(&mgr, &[0u8; 32]).unwrap_err(), ContourError::AddressOverflow);
}

#[test]
fn scalar_leaves_decode_bit_for_bit() {
    const SCALARS_ID: u64 = 5003;
    let scalars = Contour::Struct {
        name: "Scalars".to_string(),
        size: 16,
        type_id: SCALARS_ID,
        fields: vec![
            StructField { name: "flag".to_string(), type_id: TYPE_ID_BOOL, offset: 0 },
            StructField { name: "small".to_string(), type_id: TYPE_ID_I16, offset: 2 },
            StructField { name: "letter".to_string(), type_id: TYPE_ID_CHAR, offset: 4 },
        ],
    };
    let mut mgr = PythonManager::new();
    let catalog = vec![
        scalars,
        bool::contour(),
        i16::contour(),
        char::contour(),
    ];
    mgr.chart(SCALARS_ID, &catalog).unwrap();
    let mut mem = vec![0u8; 16];
    mem[0] = 1;
    mem[2..4].copy_from_slice(&(-2i16).to_le_bytes());
    mem[4..8].copy_from_slice(&('ß' as u32).to_le_bytes());
    let proj = mgr.superanalyze(SCALARS_ID, 0).unwrap();
    let fields = proj.fields(&mgr, &mem).unwrap();
    assert_eq!(fields[0].1, Value::Bool(true));
    assert_eq!(fields[1].1, Value::Signed(-2));
    assert_eq!(fields[2].1, Value::Char('ß'));

    // A surrogate code point is bytes no char can have.
    mem[4..8].copy_from_slice(&0xD800u32.to_le_bytes());
    assert_eq!(proj.fields(&mgr, &mem).unwrap_err(), ContourError::InvalidValue);
}

#[test]
fn every_primitive_width_decodes() {
    const WIDE_ID: u64 = 5004;
    let kinds = [
        ("a", Primitive::U8, 0usize),
        ("b", Primitive::U16, 2),
        ("c", Primitive::U32, 4),
        ("d", Primitive::U64, 8),
        ("e", Primitive::Usize, 16),
        ("f", Primitive::I8, 24),
        ("g", Primitive::I32, 28),
        ("h", Primitive::I64, 32),
        ("i", Primitive::Isize, 40),
        ("j", Primitive::F32, 48),
    ];
    let mut fields = Vec::new();
    let mut catalog = Vec::new();
    for (name, kind, offset) in kinds.iter() {
        let c = primitive_contour(*kind);
        fields.push(StructField {
            name: name.to_string(),
            type_id: c.type_id(),
            offset: *offset,
        });
        catalog.push(c);
    }
    catalog.push(Contour::Struct {
        name: "Wide".to_string(),
        size: 52,
        type_id: WIDE_ID,
        fields,
    });
    let mut mgr = PythonManager::new();
    mgr.chart(WIDE_ID, &catalog).unwrap();

    let mut mem = vec![0u8; 52];
    mem[0] = 200; // u8
    mem[2..4].copy_from_slice(&40_000u16.to_le_bytes());
    mem[4..8].copy_from_slice(&3_000_000_000u32.to_le_bytes());
    mem[8..16].copy_from_slice(&u64::MAX.to_le_bytes());
    mem[16..24].copy_from_slice(&(usize::MAX - 1).to_le_bytes());
    mem[24] = (-100i8).to_le_bytes()[0];
    mem[28..32].copy_from_slice(&i32::MIN.to_le_bytes());
    mem[32..40].copy_from_slice(&i64::MIN.to_le_bytes());
    mem[40..48].copy_from_slice(&(-5isize).to_le_bytes());
    mem[48..52].copy_from_slice(&2.5f32.to_le_bytes());

    let proj = mgr.superanalyze(WIDE_ID, 0).unwrap();
    let values = proj.fields(&mgr, &mem).unwrap();
    assert_eq!(values[0].1, Value::Unsigned(200));
    assert_eq!(values[1].1, Value::Unsigned(40_000));
    assert_eq!(values[2].1, Value::Unsigned(3_000_000_000));
    assert_eq!(values[3].1, Value::Unsigned(u64::MAX));
    assert_eq!(values[4].1, Value::Unsigned((usize::MAX - 1) as u64));
    assert_eq!(values[5].1, Value::Signed(-100));
    assert_eq!(values[6].1, Value::Signed(i32::MIN as i64));
    assert_eq!(values[7].1, Value::Signed(i64::MIN));
    assert_eq!(values[8].1, Value::Signed(-5));
    match values[9].1 {
        Value::F32Bits(bits) => assert_eq!(f32::from_bits(bits), 2.5),
        ref other => panic!("not a float leaf: {:?}", other),
    }
}

#[test]
fn struct_variant_projects_like_a_struct() {
    let mgr = enum_manager();
    // A live `EnumTest::C { c1, c2: 0.25 }` under the declared layout.
    let mut mem = vec![0u8; 24];
    mem[0] = 2;
    mem[16..24].copy_from_slice(&0.25f64.to_le_bytes());
    let proj = mgr.superanalyze(ENUM_TEST_ID, 64).unwrap();
    let (ix, values) = proj.variant_fields(&mgr, &mem).unwrap();
    assert_eq!(ix, 2);
    assert_eq!(values.len(), 2);
    assert_eq!(values[0].0, FieldKey::Name("c1".to_string()));
    match values[0].1 {
        Value::Nested(inner) => {
            assert_eq!(inner.type_id, STRING_ID);
            assert_eq!(inner.addr, 64 + 8);
        },
        ref other => panic!("not a nested projection: {:?}", other),
    }
    assert_eq!(values[1].0, FieldKey::Name("c2".to_string()));
    match values[1].1 {
        Value::F64Bits(bits) => assert_eq!(f64::from_bits(bits), 0.25),
        ref other => panic!("not a float leaf: {:?}", other),
    }
}

#[test]
fn wide_tags_read_little_endian() {
    const WIDE_ENUM_ID: u64 = 5005;
    let e = Contour::Enum {
        name: "WideTag".to_string(),
        size: 8,
        type_id: WIDE_ENUM_ID,
        variants: vec![
            Variant { name: "Low".to_string(), fields: VariantFields::Unit },
            Variant { name: "High".to_string(), fields: VariantFields::Unit },
        ],
        tag: TagRule { offset: 0, size: 4, values: vec![7, 0x01020304] },
    };
    let mut mgr = PythonManager::new();
    mgr.chart(WIDE_ENUM_ID, &vec![e]).unwrap();
    let proj = mgr.superanalyze(WIDE_ENUM_ID, 0).unwrap();
    let mut mem = vec![0u8; 8];
    mem[0..4].copy_from_slice(&0x01020304u32.to_le_bytes());
    assert_eq!(proj.resolve_tag(&mgr, &mem).unwrap(), 1);
    mem[0..4].copy_from_slice(&7u32.to_le_bytes());
    assert_eq!(proj.resolve_tag(&mgr, &mem).unwrap(), 0);
}

#[test]
fn top_level_primitives_project_as_leaves() {
    let mut mgr = PythonManager::new();
    mgr.chart(TYPE_ID_U32, &vec![u32::contour()]).unwrap();
    let proj = mgr.superanalyze(TYPE_ID_U32, 0).unwrap();
    assert_eq!(proj.leaf(&mgr, &7u32.to_le_bytes()).unwrap(), Value::Unsigned(7));
    // The buffer must be exactly the scalar's width...
    assert_eq!(proj.leaf(&mgr, &[1u8, 0]).unwrap_err(), ContourError::SizeMismatch);
    // ...and only primitive shapes read this way.
    let mgr2 = struct_manager();
    let proj2 = mgr2.superanalyze(STRUCT_TEST_ID, 0).unwrap();
    assert_eq!(
        proj2.leaf(&mgr2, &struct_test_bytes()).unwrap_err(),
        ContourError::UnsupportedShape
    );
}
