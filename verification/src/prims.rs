//! Canonical descriptors for the primitive leaf types, and the traits a
//! type implements to describe and register its own layout.
//!
//! Each primitive kind has a fixed, well-known type identity, so that
//! descriptors written at different registration sites agree.

use vstd::prelude::*;
use crate::descriptor::{Contour, ContourV, Primitive};
use crate::projection::width_of;
use crate::registry::{ContourError, ContourMap};

verus! {

pub const TYPE_ID_U8: u64 = 1;

pub const TYPE_ID_U16: u64 = 2;

pub const TYPE_ID_U32: u64 = 3;

pub const TYPE_ID_U64: u64 = 4;

pub const TYPE_ID_USIZE: u64 = 5;

pub const TYPE_ID_I8: u64 = 6;

pub const TYPE_ID_I16: u64 = 7;

pub const TYPE_ID_I32: u64 = 8;

pub const TYPE_ID_I64: u64 = 9;

pub const TYPE_ID_ISIZE: u64 = 10;

pub const TYPE_ID_F32: u64 = 11;

pub const TYPE_ID_F64: u64 = 12;

pub const TYPE_ID_BOOL: u64 = 13;

pub const TYPE_ID_CHAR: u64 = 14;

/// The well-known type identity of a primitive kind.
pub open spec fn primitive_type_id(kind: Primitive) -> u64 {
    match kind {
        Primitive::U8 => TYPE_ID_U8,
        Primitive::U16 => TYPE_ID_U16,
        Primitive::U32 => TYPE_ID_U32,
        Primitive::U64 => TYPE_ID_U64,
        Primitive::Usize => TYPE_ID_USIZE,
        Primitive::I8 => TYPE_ID_I8,
        Primitive::I16 => TYPE_ID_I16,
        Primitive::I32 => TYPE_ID_I32,
        Primitive::I64 => TYPE_ID_I64,
        Primitive::Isize => TYPE_ID_ISIZE,
        Primitive::F32 => TYPE_ID_F32,
        Primitive::F64 => TYPE_ID_F64,
        Primitive::Bool => TYPE_ID_BOOL,
        Primitive::Char => TYPE_ID_CHAR,
    }
}

/// The declared name of a primitive kind.
pub open spec fn primitive_name(kind: Primitive) -> Seq<char> {
    match kind {
        Primitive::U8 => "u8"@,
        Primitive::U16 => "u16"@,
        Primitive::U32 => "u32"@,
        Primitive::U64 => "u64"@,
        Primitive::Usize => "usize"@,
        Primitive::I8 => "i8"@,
        Primitive::I16 => "i16"@,
        Primitive::I32 => "i32"@,
        Primitive::I64 => "i64"@,
        Primitive::Isize => "isize"@,
        Primitive::F32 => "f32"@,
        Primitive::F64 => "f64"@,
        Primitive::Bool => "bool"@,
        Primitive::Char => "char"@,
    }
}

/// The canonical descriptor of a primitive kind: its name, its
/// well-known identity, and its width.
pub open spec fn primitive_contour_spec(kind: Primitive) -> ContourV {
    ContourV::Primitive {
        name: primitive_name(kind),
        type_id: primitive_type_id(kind),
        size: width_of(kind),
        variant: kind,
    }
}

/// Builds the canonical descriptor of a primitive kind.
pub fn primitive_contour(kind: Primitive) -> (r: Contour)
    ensures
        r@ == primitive_contour_spec(kind),
{
    let name: String = match kind {
        Primitive::U8 => "u8".to_owned(),
        Primitive::U16 => "u16".to_owned(),
        Primitive::U32 => "u32".to_owned(),
        Primitive::U64 => "u64".to_owned(),
        Primitive::Usize => "usize".to_owned(),
        Primitive::I8 => "i8".to_owned(),
        Primitive::I16 => "i16".to_owned(),
        Primitive::I32 => "i32".to_owned(),
        Primitive::I64 => "i64".to_owned(),
        Primitive::Isize => "isize".to_owned(),
        Primitive::F32 => "f32".to_owned(),
        Primitive::F64 => "f64".to_owned(),
        Primitive::Bool => "bool".to_owned(),
        Primitive::Char => "char".to_owned(),
    };
    let type_id: u64 = match kind {
        Primitive::U8 => TYPE_ID_U8,
        Primitive::U16 => TYPE_ID_U16,
        Primitive::U32 => TYPE_ID_U32,
        Primitive::U64 => TYPE_ID_U64,
        Primitive::Usize => TYPE_ID_USIZE,
        Primitive::I8 => TYPE_ID_I8,
        Primitive::I16 => TYPE_ID_I16,
        Primitive::I32 => TYPE_ID_I32,
        Primitive::I64 => TYPE_ID_I64,
        Primitive::Isize => TYPE_ID_ISIZE,
        Primitive::F32 => TYPE_ID_F32,
        Primitive::F64 => TYPE_ID_F64,
        Primitive::Bool => TYPE_ID_BOOL,
        Primitive::Char => TYPE_ID_CHAR,
    };
    let size = crate::projection::width(kind);
    Contour::Primitive { name, type_id, size, variant: kind }
}

/// A type that can state its own layout descriptor.
pub trait HasContour {
    /// The descriptor the type describes itself with.
    spec fn contour_spec() -> ContourV;

    /// Builds the type's descriptor.
    fn contour() -> (r: Contour)
        ensures
            r@ == Self::contour_spec(),
    ;
}

/// A type that can register its own descriptor, and those of the types
/// its fields reference, with a descriptor store.
pub trait Chartable: HasContour {
    /// Registers this type's descriptor; after success it is present in
    /// the store.  The type is responsible for charting its descendants
    /// and for not recursing when it is already charted.
    fn chart<CM: ContourMap>(map: &mut CM) -> (r: Result<(), ContourError>)
        requires
            old(map).map_inv(),
        ensures
            final(map).map_inv(),
            r is Ok ==> final(map).registry().contains_key(Self::contour_spec().type_id())
                && final(map).registry()[Self::contour_spec().type_id()]
                == Self::contour_spec(),
    ;
}

impl HasContour for u8 {
    open spec fn contour_spec() -> ContourV {
        primitive_contour_spec(Primitive::U8)
    }

    fn contour() -> (r: Contour) {
        primitive_contour(Primitive::U8)
    }
}

impl Chartable for u8 {
    fn chart<CM: ContourMap>(map: &mut CM) -> (r: Result<(), ContourError>) {
        match map.register(Self::contour()) {
            Ok(_) => Ok(()),
            Err(e) => Err(e),
        }
    }
}

impl HasContour for u16 {
    open spec fn contour_spec() -> ContourV {
        primitive_contour_spec(Primitive::U16)
    }

    fn contour() -> (r: Contour) {
        primitive_contour(Primitive::U16)
    }
}

impl Chartable for u16 {
    fn chart<CM: ContourMap>(map: &mut CM) -> (r: Result<(), ContourError>) {
        match map.register(Self::contour()) {
            Ok(_) => Ok(()),
            Err(e) => Err(e),
        }
    }
}

impl HasContour for u32 {
    open spec fn contour_spec() -> ContourV {
        primitive_contour_spec(Primitive::U32)
    }

    fn contour() -> (r: Contour) {
        primitive_contour(Primitive::U32)
    }
}

impl Chartable for u32 {
    fn chart<CM: ContourMap>(map: &mut CM) -> (r: Result<(), ContourError>) {
        match map.register(Self::contour()) {
            Ok(_) => Ok(()),
            Err(e) => Err(e),
        }
    }
}

impl HasContour for u64 {
    open spec fn contour_spec() -> ContourV {
        primitive_contour_spec(Primitive::U64)
    }

    fn contour() -> (r: Contour) {
        primitive_contour(Primitive::U64)
    }
}

impl Chartable for u64 {
    fn chart<CM: ContourMap>(map: &mut CM) -> (r: Result<(), ContourError>) {
        match map.register(Self::contour()) {
            Ok(_) => Ok(()),
            Err(e) => Err(e),
        }
    }
}

impl HasContour for usize {
    open spec fn contour_spec() -> ContourV {
        primitive_contour_spec(Primitive::Usize)
    }

    fn contour() -> (r: Contour) {
        primitive_contour(Primitive::Usize)
    }
}

impl Chartable for usize {
    fn chart<CM: ContourMap>(map: &mut CM) -> (r: Result<(), ContourError>) {
        match map.register(Self::contour()) {
            Ok(_) => Ok(()),
            Err(e) => Err(e),
        }
    }
}

impl HasContour for i8 {
    open spec fn contour_spec() -> ContourV {
        primitive_contour_spec(Primitive::I8)
    }

    fn contour() -> (r: Contour) {
        primitive_contour(Primitive::I8)
    }
}

impl Chartable for i8 {
    fn chart<CM: ContourMap>(map: &mut CM) -> (r: Result<(), ContourError>) {
        match map.register(Self::contour()) {
            Ok(_) => Ok(()),
            Err(e) => Err(e),
        }
    }
}

impl HasContour for i16 {
    open spec fn contour_spec() -> ContourV {
        primitive_contour_spec(Primitive::I16)
    }

    fn contour() -> (r: Contour) {
        primitive_contour(Primitive::I16)
    }
}

impl Chartable for i16 {
    fn chart<CM: ContourMap>(map: &mut CM) -> (r: Result<(), ContourError>) {
        match map.register(Self::contour()) {
            Ok(_) => Ok(()),
            Err(e) => Err(e),
        }
    }
}

impl HasContour for i32 {
    open spec fn contour_spec() -> ContourV {
        primitive_contour_spec(Primitive::I32)
    }

    fn contour() -> (r: Contour) {
        primitive_contour(Primitive::I32)
    }
}

impl Chartable for i32 {
    fn chart<CM: ContourMap>(map: &mut CM) -> (r: Result<(), ContourError>) {
        match map.register(Self::contour()) {
            Ok(_) => Ok(()),
            Err(e) => Err(e),
        }
    }
}

impl HasContour for i64 {
    open spec fn contour_spec() -> ContourV {
        primitive_contour_spec(Primitive::I64)
    }

    fn contour() -> (r: Contour) {
        primitive_contour(Primitive::I64)
    }
}

impl Chartable for i64 {
    fn chart<CM: ContourMap>(map: &mut CM) -> (r: Result<(), ContourError>) {
        match map.register(Self::contour()) {
            Ok(_) => Ok(()),
            Err(e) => Err(e),
        }
    }
}

impl HasContour for isize {
    open spec fn contour_spec() -> ContourV {
        primitive_contour_spec(Primitive::Isize)
    }

    fn contour() -> (r: Contour) {
        primitive_contour(Primitive::Isize)
    }
}

impl Chartable for isize {
    fn chart<CM: ContourMap>(map: &mut CM) -> (r: Result<(), ContourError>) {
        match map.register(Self::contour()) {
            Ok(_) => Ok(()),
            Err(e) => Err(e),
        }
    }
}

impl HasContour for bool {
    open spec fn contour_spec() -> ContourV {
        primitive_contour_spec(Primitive::Bool)
    }

    fn contour() -> (r: Contour) {
        primitive_contour(Primitive::Bool)
    }
}

impl Chartable for bool {
    fn chart<CM: ContourMap>(map: &mut CM) -> (r: Result<(), ContourError>) {
        match map.register(Self::contour()) {
            Ok(_) => Ok(()),
            Err(e) => Err(e),
        }
    }
}

impl HasContour for char {
    open spec fn contour_spec() -> ContourV {
        primitive_contour_spec(Primitive::Char)
    }

    fn contour() -> (r: Contour) {
        primitive_contour(Primitive::Char)
    }
}

impl Chartable for char {
    fn chart<CM: ContourMap>(map: &mut CM) -> (r: Result<(), ContourError>) {
        match map.register(Self::contour()) {
            Ok(_) => Ok(()),
            Err(e) => Err(e),
        }
    }
}

} // verus!
