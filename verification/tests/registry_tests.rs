//! Registration and charting behaviour, driven through the public API.

use contour::descriptor::{Contour, StructField, TagRule, TupleField, Variant, VariantFields};
use contour::prims::{HasContour, TYPE_ID_F64, TYPE_ID_U32, TYPE_ID_U64};
use contour::registry::{ContourError, ContourMap, PythonManager};

const STRING_ID: u64 = 1000;
const STRUCT_TEST_ID: u64 = 1001;
const TUPLE_TEST_ID: u64 = 1002;
const UNIT_TEST_ID: u64 = 1003;
const ENUM_TEST_ID: u64 = 1004;
const SECOND_ENUM_ID: u64 = 1005;
const GENERIC_TEST_ID: u64 = 1006;

fn f64_contour() -> Contour {
    contour::prims::primitive_contour(contour::descriptor::Primitive::F64)
}

fn struct_test_contour() -> Contour {
    Contour::Struct {
        name: "StructTest".to_string(),
        size: 24,
        type_id: STRUCT_TEST_ID,
        fields: vec![
            StructField { name: "a".to_string(), type_id: TYPE_ID_U32, offset: 0 },
            StructField { name: "b".to_string(), type_id: TYPE_ID_U64, offset: 8 },
            StructField { name: "c".to_string(), type_id: TYPE_ID_F64, offset: 16 },
        ],
    }
}

fn tuple_test_contour() -> Contour {
    Contour::Tuple {
        name: "TupleTest".to_string(),
        size: 40,
        type_id: TUPLE_TEST_ID,
        fields: vec![
            TupleField { ix: 0, type_id: TYPE_ID_U64, offset: 0 },
            TupleField { ix: 1, type_id: STRING_ID, offset: 8 },
            TupleField { ix: 2, type_id: TYPE_ID_F64, offset: 32 },
        ],
    }
}

fn unit_test_contour() -> Contour {
    Contour::Unit { name: "UnitTest".to_string(), type_id: UNIT_TEST_ID }
}

fn enum_test_contour() -> Contour {
    Contour::Enum {
        name: "EnumTest".to_string(),
        size: 24,
        type_id: ENUM_TEST_ID,
        variants: vec![
            Variant { name: "A".to_string(), fields: VariantFields::Unit },
            Variant {
                name: "B".to_string(),
                fields: VariantFields::Tuple(vec![
                    TupleField { ix: 0, type_id: TYPE_ID_U32, offset: 4 },
                    TupleField { ix: 1, type_id: TYPE_ID_U64, offset: 8 },
                ]),
            },
            Variant {
                name: "C".to_string(),
                fields: VariantFields::Struct(vec![
                    StructField { name: "c1".to_string(), type_id: STRING_ID, offset: 8 },
                    StructField { name: "c2".to_string(), type_id: TYPE_ID_F64, offset: 16 },
                ]),
            },
        ],
        tag: TagRule { offset: 0, size: 1, values: vec![0, 1, 2] },
    }
}

fn generic_test_u64_contour() -> Contour {
    Contour::Struct {
        name: "GenericTest".to_string(),
        size: 16,
        type_id: GENERIC_TEST_ID,
        fields: vec![
            StructField { name: "a".to_string(), type_id: TYPE_ID_U64, offset: 0 },
            StructField { name: "b".to_string(), type_id: TYPE_ID_U32, offset: 8 },
        ],
    }
}

#[test]
fn test_simple() {
    println!("{:#?}", struct_test_contour());
    println!("{:#?}", tuple_test_contour());
    println!("{:#?}", unit_test_contour());
    println!("{:#?}", enum_test_contour());
}

#[test]
fn test_generic() {
    println!("{:#?}", generic_test_u64_contour());
}

#[test]
fn test_chart() {
    let mut sm = PythonManager::new();
    let catalog = vec![struct_test_contour(), u32::contour(), u64::contour(), f64_contour()];
    sm.chart(STRUCT_TEST_ID, &catalog).unwrap();
    assert_eq!(sm.len(), 4);

    // A graph where two siblings share a type: A -> {B, C}, B -> C,
    // C -> {u32, u64}.  Each reachable type gets exactly one entry.
    const A_ID: u64 = 2001;
    const B_ID: u64 = 2002;
    const C_ID: u64 = 2003;
    let a = Contour::Struct {
        name: "A".to_string(),
        size: 24,
        type_id: A_ID,
        fields: vec![
            StructField { name: "b".to_string(), type_id: B_ID, offset: 0 },
            StructField { name: "c".to_string(), type_id: C_ID, offset: 12 },
        ],
    };
    let b = Contour::Struct {
        name: "B".to_string(),
        size: 12,
        type_id: B_ID,
        fields: vec![StructField { name: "c".to_string(), type_id: C_ID, offset: 0 }],
    };
    let c = Contour::Struct {
        name: "C".to_string(),
        size: 12,
        type_id: C_ID,
        fields: vec![
            StructField { name: "d".to_string(), type_id: TYPE_ID_U32, offset: 0 },
            StructField { name: "e".to_string(), type_id: TYPE_ID_U64, offset: 4 },
        ],
    };
    let mut sm = PythonManager::new();
    let catalog = vec![a, b, c, u32::contour(), u64::contour()];
    sm.chart(A_ID, &catalog).unwrap();
    assert_eq!(sm.len(), 5);
}

#[test]
fn chart_tolerates_cycles() {
    const LEFT_ID: u64 = 3001;
    const RIGHT_ID: u64 = 3002;
    let left = Contour::Struct {
        name: "Left".to_string(),
        size: 8,
        type_id: LEFT_ID,
        fields: vec![StructField { name: "other".to_string(), type_id: RIGHT_ID, offset: 0 }],
    };
    let right = Contour::Struct {
        name: "Right".to_string(),
        size: 8,
        type_id: RIGHT_ID,
        fields: vec![StructField { name: "other".to_string(), type_id: LEFT_ID, offset: 0 }],
    };
    let mut mgr = PythonManager::new();
    mgr.chart(LEFT_ID, &vec![left, right]).unwrap();
    assert_eq!(mgr.len(), 2);
}

#[test]
fn chart_missing_descriptor_is_unknown_type() {
    let mut mgr = PythonManager::new();
    // The struct's field types are not in the catalogue.
    let catalog = vec![struct_test_contour()];
    assert_eq!(mgr.chart(STRUCT_TEST_ID, &catalog), Err(ContourError::UnknownType));
    assert_eq!(mgr.len(), 0);
}

#[test]
fn chart_drift_at_boundary_fails() {
    let mut mgr = PythonManager::new();
    // u32 is registered with its canonical descriptor...
    assert_eq!(mgr.register(u32::contour()), Ok(false));
    // ...and the catalogue disagrees about it.
    let mut bad_u32 = u32::contour();
    if let Contour::Primitive { ref mut size, .. } = bad_u32 {
        *size = 2;
    }
    let catalog = vec![struct_test_contour(), bad_u32, u64::contour(), f64_contour()];
    assert_eq!(mgr.chart(STRUCT_TEST_ID, &catalog), Err(ContourError::ContourMismatch));
    // Nothing was half-registered.
    assert_eq!(mgr.len(), 1);
}

#[test]
fn register_is_idempotent() {
    let mut mgr = PythonManager::new();
    assert_eq!(mgr.register(struct_test_contour()), Ok(false));
    assert_eq!(mgr.register(struct_test_contour()), Ok(true));
    assert_eq!(mgr.register(struct_test_contour()), Ok(true));
    assert_eq!(mgr.len(), 1);
    assert_eq!(mgr.get(STRUCT_TEST_ID), Some(&struct_test_contour()));
}

#[test]
fn register_refuses_structural_drift() {
    let mut mgr = PythonManager::new();
    assert_eq!(mgr.register(struct_test_contour()), Ok(false));
    let mut drifted = struct_test_contour();
    if let Contour::Struct { ref mut size, .. } = drifted {
        *size = 32;
    }
    assert_eq!(mgr.register(drifted), Err(ContourError::ContourMismatch));
    // The originally stored descriptor is still the retrievable one.
    assert_eq!(mgr.get(STRUCT_TEST_ID), Some(&struct_test_contour()));
}

#[test]
fn generation_counts_upward() {
    let mut mgr = PythonManager::new();
    assert_eq!(mgr.generation(), 0);
    mgr.increment_generation();
    mgr.increment_generation();
    assert_eq!(mgr.generation(), 2);
}

#[test]
fn validate_layouts_accepts_proper_offsets() {
    let mut mgr = PythonManager::new();
    let catalog = vec![struct_test_contour(), u32::contour(), u64::contour(), f64_contour()];
    mgr.chart(STRUCT_TEST_ID, &catalog).unwrap();
    assert!(mgr.validate_layouts());
}

#[test]
fn validate_layouts_rejects_overlap() {
    const BAD_ID: u64 = 4001;
    let bad = Contour::Struct {
        name: "Bad".to_string(),
        size: 8,
        type_id: BAD_ID,
        fields: vec![
            StructField { name: "x".to_string(), type_id: TYPE_ID_U64, offset: 0 },
            StructField { name: "y".to_string(), type_id: TYPE_ID_U32, offset: 4 },
        ],
    };
    let mut mgr = PythonManager::new();
    mgr.chart(BAD_ID, &vec![bad, u32::contour(), u64::contour()]).unwrap();
    assert!(!mgr.validate_layouts());
}

#[test]
fn validate_layouts_rejects_offset_outside_size() {
    const BAD_ID: u64 = 4002;
    let bad = Contour::Struct {
        name: "Bad".to_string(),
        size: 4,
        type_id: BAD_ID,
        fields: vec![StructField { name: "x".to_string(), type_id: TYPE_ID_U32, offset: 4 }],
    };
    let mut mgr = PythonManager::new();
    mgr.chart(BAD_ID, &vec![bad, u32::contour()]).unwrap();
    assert!(!mgr.validate_layouts());
}

#[test]
fn contour_accessors() {
    let c = struct_test_contour();
    assert_eq!(c.name(), "StructTest");
    assert_eq!(c.type_id(), STRUCT_TEST_ID);
    assert_eq!(c.size(), 24);
    assert_eq!(unit_test_contour().size(), 0);
}
