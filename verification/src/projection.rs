//! The live projector: a generation-checked, lazily walked view over the
//! memory of one value, guided by its registered descriptor.
//!
//! A projection holds only a type identity, a base address and the
//! generation captured at creation — never the memory itself.  The bytes
//! of the value are handed in by the caller at each access; every access
//! first checks that the captured generation is still the current one.
//! Scalar leaves are reinterpreted bit for bit; composite fields become
//! nested projections carrying the same captured generation.

use vstd::prelude::*;
use crate::bytes::{le_value, lemma_le_value_bound, read_le_i64, read_le_u64,
    twos_complement};
use crate::descriptor::{Contour, ContourV, Primitive, StructField, StructFieldV, TupleField,
    TupleFieldV, VariantFields, VariantFieldsV};
use crate::registry::{ContourError, PythonManager};

verus! {

/// How one projected field is keyed: by name for struct shapes, by
/// position for tuple shapes.
#[derive(Clone, Debug, PartialEq, Eq)]
pub enum FieldKey {
    Name(String),
    Index(usize),
}

/// Ghost mirror of [`FieldKey`].
pub enum FieldKeyV {
    Name(Seq<char>),
    Index(nat),
}

impl View for FieldKey {
    type V = FieldKeyV;

    open spec fn view(&self) -> FieldKeyV {
        match self {
            FieldKey::Name(s) => FieldKeyV::Name(s@),
            FieldKey::Index(i) => FieldKeyV::Index(*i as nat),
        }
    }
}

/// A non-owning view over one live value: the value's type identity, its
/// base address, and the generation current when the projection was made.
/// Nothing is dereferenced at creation; the caller supplies the value's
/// bytes at each access.
#[derive(Clone, Copy, Debug, PartialEq, Eq, Structural)]
pub struct Projection {
    pub type_id: u64,
    pub addr: usize,
    pub generation: usize,
}

/// A value a projection yields: a scalar leaf converted bit for bit, or
/// a nested projection for a composite field.  Floating-point leaves
/// carry their raw bit patterns, to be reinterpreted by the consumer.
#[derive(Clone, Copy, Debug, PartialEq, Eq, Structural)]
pub enum Value {
    Unsigned(u64),
    Signed(i64),
    F32Bits(u32),
    F64Bits(u64),
    Bool(bool),
    Char(char),
    Nested(Projection),
}

/// The width in bytes of each primitive kind.  The library describes
/// 64-bit layouts: the pointer-sized kinds are eight bytes.
pub open spec fn width_of(k: Primitive) -> nat {
    match k {
        Primitive::U8 => 1,
        Primitive::U16 => 2,
        Primitive::U32 => 4,
        Primitive::U64 => 8,
        Primitive::Usize => 8,
        Primitive::I8 => 1,
        Primitive::I16 => 2,
        Primitive::I32 => 4,
        Primitive::I64 => 8,
        Primitive::Isize => 8,
        Primitive::F32 => 4,
        Primitive::F64 => 8,
        Primitive::Bool => 1,
        Primitive::Char => 4,
    }
}

/// The width in bytes of a primitive kind.
pub fn width(k: Primitive) -> (r: usize)
    ensures
        r as nat == width_of(k),
{
    match k {
        Primitive::U8 => 1,
        Primitive::U16 => 2,
        Primitive::U32 => 4,
        Primitive::U64 => 8,
        Primitive::Usize => 8,
        Primitive::I8 => 1,
        Primitive::I16 => 2,
        Primitive::I32 => 4,
        Primitive::I64 => 8,
        Primitive::Isize => 8,
        Primitive::F32 => 4,
        Primitive::F64 => 8,
        Primitive::Bool => 1,
        Primitive::Char => 4,
    }
}

/// The scalar a primitive kind reads out of its little-endian bytes:
/// unsigned and signed integers by width, float bit patterns, a single
/// byte tested against zero for booleans, and a character code — `None`
/// when the code falls outside the valid range.
pub open spec fn decode_primitive(k: Primitive, bytes: Seq<u8>) -> Option<Value> {
    match k {
        Primitive::U8 | Primitive::U16 | Primitive::U32 | Primitive::U64 | Primitive::Usize => Some(
            Value::Unsigned(le_value(bytes) as u64),
        ),
        Primitive::I8 | Primitive::I16 | Primitive::I32 | Primitive::I64 | Primitive::Isize => Some(
            Value::Signed(twos_complement(bytes) as i64),
        ),
        Primitive::F32 => Some(Value::F32Bits(le_value(bytes) as u32)),
        Primitive::F64 => Some(Value::F64Bits(le_value(bytes) as u64)),
        Primitive::Bool => Some(Value::Bool(bytes[0] != 0)),
        Primitive::Char => {
            let u = le_value(bytes);
            if u < 0xD800 || (0xDFFF < u && u <= 0x10FFFF) {
                Some(Value::Char(u as char))
            } else {
                None
            }
        },
    }
}

/// Relies on char::from_u32: the standard library documents that it
/// returns `Some` exactly for code points outside the surrogate range
/// `0xD800..=0xDFFF` and at most `0x10FFFF`, and that the returned
/// character is the one with that code point.
pub assume_specification[ char::from_u32 ](u: u32) -> (r: Option<char>)
    ensures
        r is Some <==> (u < 0xD800 || (0xDFFF < u && u <= 0x10FFFF)),
        r is Some ==> r == Some(u as char),
;

/// Reinterprets bytes of a primitive kind's exact width, as
/// [`decode_primitive`] describes; bytes no value of the kind can have
/// are refused.
fn decode_value(k: Primitive, bytes: &[u8]) -> (r: Result<Value, ContourError>)
    requires
        bytes@.len() == width_of(k),
    ensures
        match decode_primitive(k, bytes@) {
            Some(v) => r == Ok::<Value, ContourError>(v),
            None => r == Err::<Value, ContourError>(ContourError::InvalidValue),
        },
{
    proof {
        lemma_le_value_bound(bytes@);
        crate::bytes::lemma_pow256_le_u64(bytes@.len());
        crate::bytes::lemma_pow256_widths();
    }
    match k {
        Primitive::U8 | Primitive::U16 | Primitive::U32 | Primitive::U64 | Primitive::Usize => {
            let u = read_le_u64(bytes);
            proof {
                assert(u == le_value(bytes@) as u64);
            }
            Ok(Value::Unsigned(u))
        },
        Primitive::I8 | Primitive::I16 | Primitive::I32 | Primitive::I64 | Primitive::Isize => {
            let i = read_le_i64(bytes);
            proof {
                assert(i == twos_complement(bytes@) as i64);
            }
            Ok(Value::Signed(i))
        },
        Primitive::F32 => {
            let u = read_le_u64(bytes);
            proof {
                assert(u as u32 == le_value(bytes@) as u32);
            }
            Ok(Value::F32Bits(u as u32))
        },
        Primitive::F64 => {
            let u = read_le_u64(bytes);
            proof {
                assert(u == le_value(bytes@) as u64);
            }
            Ok(Value::F64Bits(u))
        },
        Primitive::Bool => Ok(Value::Bool(bytes[0] != 0)),
        Primitive::Char => {
            let w = read_le_u64(bytes);
            let u = w as u32;
            proof {
                assert(u as nat == le_value(bytes@));
            }
            match char::from_u32(u) {
                Some(c) => {
                    proof {
                        assert(c == le_value(bytes@) as char);
                    }
                    Ok(Value::Char(c))
                },
                None => Err(ContourError::InvalidValue),
            }
        },
    }
}

/// What projecting one field yields: a descriptor for the field's type
/// must be registered; a primitive field is decoded from its bytes; a
/// composite field becomes a nested projection at the field's address,
/// carrying the same captured generation.
pub open spec fn project_field_spec(
    reg: Map<u64, ContourV>,
    mem: Seq<u8>,
    addr: usize,
    generation: usize,
    off: nat,
    tid: u64,
) -> Result<Value, ContourError> {
    if !reg.contains_key(tid) {
        Err(ContourError::UnknownType)
    } else {
        match reg[tid] {
            ContourV::Primitive { variant: k, .. } => {
                if off + width_of(k) > mem.len() {
                    Err(ContourError::SizeMismatch)
                } else {
                    match decode_primitive(k, mem.subrange(off as int, (off + width_of(k)) as int)) {
                        Some(v) => Ok(v),
                        None => Err(ContourError::InvalidValue),
                    }
                }
            },
            _ => {
                if addr + off > usize::MAX {
                    Err(ContourError::AddressOverflow)
                } else {
                    Ok(
                        Value::Nested(
                            Projection {
                                type_id: tid,
                                addr: (addr + off) as usize,
                                generation,
                            },
                        ),
                    )
                }
            },
        }
    }
}

/// Projects a list of `(key, type, offset)` entries in order; the first
/// field that fails decides the error.
pub open spec fn project_entries_spec(
    reg: Map<u64, ContourV>,
    mem: Seq<u8>,
    addr: usize,
    generation: usize,
    entries: Seq<(FieldKeyV, u64, nat)>,
) -> Result<Seq<(FieldKeyV, Value)>, ContourError>
    decreases entries.len(),
{
    if entries.len() == 0 {
        Ok(Seq::empty())
    } else {
        let e = entries[0];
        match project_field_spec(reg, mem, addr, generation, e.2, e.1) {
            Err(err) => Err(err),
            Ok(v) => match project_entries_spec(reg, mem, addr, generation, entries.drop_first()) {
                Err(err) => Err(err),
                Ok(tail) => Ok(seq![(e.0, v)] + tail),
            },
        }
    }
}

/// The `(key, type, offset)` entries of a struct- or tuple-shaped
/// descriptor, in declaration order; other shapes expose none this way.
pub open spec fn field_entry_specs(c: ContourV) -> Seq<(FieldKeyV, u64, nat)> {
    match c {
        ContourV::Struct { fields, .. } => fields.map_values(
            |f: StructFieldV| (FieldKeyV::Name(f.name), f.type_id, f.offset),
        ),
        ContourV::Tuple { fields, .. } => fields.map_values(
            |f: TupleFieldV| (FieldKeyV::Index(f.ix), f.type_id, f.offset),
        ),
        _ => Seq::empty(),
    }
}

/// The `(key, type, offset)` entries of one enum variant's field list.
pub open spec fn variant_entry_specs(fs: VariantFieldsV) -> Seq<(FieldKeyV, u64, nat)> {
    match fs {
        VariantFieldsV::Struct(fields) => fields.map_values(
            |f: StructFieldV| (FieldKeyV::Name(f.name), f.type_id, f.offset),
        ),
        VariantFieldsV::Tuple(fields) => fields.map_values(
            |f: TupleFieldV| (FieldKeyV::Index(f.ix), f.type_id, f.offset),
        ),
        VariantFieldsV::Unit => Seq::empty(),
    }
}

/// The ghost mirror of an exec field-entry list.
pub open spec fn entry_triples_view(v: Seq<(FieldKey, u64, usize)>) -> Seq<(FieldKeyV, u64, nat)> {
    v.map_values(|e: (FieldKey, u64, usize)| (e.0@, e.1, e.2 as nat))
}

/// The ghost mirror of an exec key/value list.
pub open spec fn entries_view(v: Seq<(FieldKey, Value)>) -> Seq<(FieldKeyV, Value)> {
    v.map_values(|p: (FieldKey, Value)| (p.0@, p.1))
}

/// The complete outcome of a [`Projection::fields`] call: the staleness
/// check, the registry lookup, the shape and size checks, then the
/// projection of every field in order.
pub open spec fn fields_spec(
    reg: Map<u64, ContourV>,
    current: nat,
    p: Projection,
    mem: Seq<u8>,
) -> Result<Seq<(FieldKeyV, Value)>, ContourError> {
    if p.generation as nat != current {
        Err(ContourError::StaleGeneration)
    } else if !reg.contains_key(p.type_id) {
        Err(ContourError::UnknownType)
    } else {
        let c = reg[p.type_id];
        if !(c is Struct || c is Tuple) {
            Err(ContourError::UnsupportedShape)
        } else if mem.len() != c.size() {
            Err(ContourError::SizeMismatch)
        } else {
            project_entries_spec(reg, mem, p.addr, p.generation, field_entry_specs(c))
        }
    }
}

/// A projection captured in an earlier generation fails every field
/// access and every tag resolution with the staleness error, whatever
/// bytes it is shown — no memory is interpreted past that check.
pub proof fn lemma_stale_projection_fails(
    reg: Map<u64, ContourV>,
    current: nat,
    p: Projection,
    mem: Seq<u8>,
)
    requires
        p.generation as nat != current,
    ensures
        fields_spec(reg, current, p, mem) == Err::<Seq<(FieldKeyV, Value)>, ContourError>(
            ContourError::StaleGeneration,
        ),
        resolve_tag_spec(reg, current, p, mem) == Err::<nat, ContourError>(
            ContourError::StaleGeneration,
        ),
{
}

/// The complete outcome of a [`Projection::leaf`] call: the staleness
/// check, the registry lookup, the shape and size checks, then the
/// bit-for-bit conversion of the whole buffer as one scalar.
pub open spec fn leaf_spec(
    reg: Map<u64, ContourV>,
    current: nat,
    p: Projection,
    mem: Seq<u8>,
) -> Result<Value, ContourError> {
    if p.generation as nat != current {
        Err(ContourError::StaleGeneration)
    } else if !reg.contains_key(p.type_id) {
        Err(ContourError::UnknownType)
    } else {
        match reg[p.type_id] {
            ContourV::Primitive { variant: k, .. } => {
                if mem.len() != width_of(k) {
                    Err(ContourError::SizeMismatch)
                } else {
                    match decode_primitive(k, mem) {
                        Some(v) => Ok(v),
                        None => Err(ContourError::InvalidValue),
                    }
                }
            },
            _ => Err(ContourError::UnsupportedShape),
        }
    }
}

/// The position of the first occurrence of `v` in `values`.
pub open spec fn first_match(values: Seq<u64>, v: u64) -> Option<nat>
    decreases values.len(),
{
    if values.len() == 0 {
        None
    } else if values[0] == v {
        Some(0)
    } else {
        match first_match(values.drop_first(), v) {
            None => None,
            Some(i) => Some(i + 1),
        }
    }
}

/// With distinct tag values, a tag spelling variant `i`'s value resolves
/// to `i` exactly — resolution respects declaration order.
pub proof fn lemma_first_match_exact(values: Seq<u64>, i: int)
    requires
        0 <= i < values.len(),
        forall|a: int, b: int| 0 <= a < b < values.len() ==> values[a] != values[b],
    ensures
        first_match(values, values[i]) == Some(i as nat),
    decreases values.len(),
{
    if i == 0 {
    } else {
        assert(values[0] != values[i]);
        let rest = values.drop_first();
        assert forall|a: int, b: int| 0 <= a < b < rest.len() implies rest[a] != rest[b] by {
            assert(rest[a] == values[a + 1]);
            assert(rest[b] == values[b + 1]);
        }
        assert(rest[i - 1] == values[i]);
        lemma_first_match_exact(rest, i - 1);
    }
}

/// The complete outcome of a [`Projection::resolve_tag`] call: the
/// staleness check, the registry lookup, the shape and size checks, then
/// the tag bytes read little-endian and looked up among the declared tag
/// values.
pub open spec fn resolve_tag_spec(
    reg: Map<u64, ContourV>,
    current: nat,
    p: Projection,
    mem: Seq<u8>,
) -> Result<nat, ContourError> {
    if p.generation as nat != current {
        Err(ContourError::StaleGeneration)
    } else if !reg.contains_key(p.type_id) {
        Err(ContourError::UnknownType)
    } else {
        match reg[p.type_id] {
            ContourV::Enum { size, variants, tag, .. } => {
                if mem.len() != size {
                    Err(ContourError::SizeMismatch)
                } else if tag.size > 8 || tag.offset + tag.size > mem.len() {
                    Err(ContourError::SizeMismatch)
                } else {
                    let tv = le_value(mem.subrange(tag.offset as int, (tag.offset + tag.size) as int));
                    match first_match(tag.values, tv as u64) {
                        Some(ix) => if ix < variants.len() {
                            Ok(ix)
                        } else {
                            Err(ContourError::InvalidValue)
                        },
                        None => Err(ContourError::InvalidValue),
                    }
                }
            },
            _ => Err(ContourError::UnsupportedShape),
        }
    }
}

/// A copy of a field key with the same mirror.
fn field_key_copy(k: &FieldKey) -> (r: FieldKey)
    ensures
        r@ == k@,
{
    match k {
        FieldKey::Name(s) => FieldKey::Name(s.clone()),
        FieldKey::Index(i) => FieldKey::Index(*i),
    }
}

/// The `(key, type, offset)` entries of a struct-field list, keyed by
/// field name.
fn entry_list_struct(fs: &Vec<StructField>) -> (r: Vec<(FieldKey, u64, usize)>)
    ensures
        entry_triples_view(r@) == fs@.map_values(|f: StructField| f@).map_values(
            |f: StructFieldV| (FieldKeyV::Name(f.name), f.type_id, f.offset),
        ),
{
    let mut r: Vec<(FieldKey, u64, usize)> = Vec::new();
    let mut i: usize = 0;
    while i < fs.len()
        invariant
            i <= fs.len(),
            r@.len() == i,
            forall|j: int|
                0 <= j < i ==> (#[trigger] r@[j]).0@ == FieldKeyV::Name(fs@[j]@.name) && r@[j].1
                    == fs@[j]@.type_id && r@[j].2 as nat == fs@[j]@.offset,
        decreases fs@.len() - i,
    {
        let f = &fs[i];
        r.push((FieldKey::Name(f.name.clone()), f.type_id, f.offset));
        i += 1;
    }
    proof {
        assert(entry_triples_view(r@) =~= fs@.map_values(|f: StructField| f@).map_values(
            |f: StructFieldV| (FieldKeyV::Name(f.name), f.type_id, f.offset),
        ));
    }
    r
}

/// The `(key, type, offset)` entries of a tuple-field list, keyed by
/// position.
fn entry_list_tuple(fs: &Vec<TupleField>) -> (r: Vec<(FieldKey, u64, usize)>)
    ensures
        entry_triples_view(r@) == fs@.map_values(|f: TupleField| f@).map_values(
            |f: TupleFieldV| (FieldKeyV::Index(f.ix), f.type_id, f.offset),
        ),
{
    let mut r: Vec<(FieldKey, u64, usize)> = Vec::new();
    let mut i: usize = 0;
    while i < fs.len()
        invariant
            i <= fs.len(),
            r@.len() == i,
            forall|j: int|
                0 <= j < i ==> (#[trigger] r@[j]).0@ == FieldKeyV::Index(fs@[j]@.ix) && r@[j].1
                    == fs@[j]@.type_id && r@[j].2 as nat == fs@[j]@.offset,
        decreases fs@.len() - i,
    {
        let f = &fs[i];
        r.push((FieldKey::Index(f.ix), f.type_id, f.offset));
        i += 1;
    }
    proof {
        assert(entry_triples_view(r@) =~= fs@.map_values(|f: TupleField| f@).map_values(
            |f: TupleFieldV| (FieldKeyV::Index(f.ix), f.type_id, f.offset),
        ));
    }
    r
}

/// Projects one field, exactly as [`project_field_spec`] lays it out.
fn project_one(
    manager: &PythonManager,
    mem: &[u8],
    addr: usize,
    generation: usize,
    tid: u64,
    off: usize,
) -> (r: Result<Value, ContourError>)
    requires
        manager.inv(),
    ensures
        ({
            let spec = project_field_spec(
                manager.contours(),
                mem@,
                addr,
                generation,
                off as nat,
                tid,
            );
            match r {
                Ok(v) => spec == Ok::<Value, ContourError>(v),
                Err(e) => spec == Err::<Value, ContourError>(e),
            }
        }),
{
    match manager.get(tid) {
        None => Err(ContourError::UnknownType),
        Some(c) => match c {
            Contour::Primitive { variant, .. } => {
                let w = width(*variant);
                if off > mem.len() || w > mem.len() - off {
                    Err(ContourError::SizeMismatch)
                } else {
                    let sub = &mem[off..off + w];
                    proof {
                        assert(sub@ =~= mem@.subrange(
                            off as int,
                            (off as nat + width_of(*variant)) as int,
                        ));
                    }
                    decode_value(*variant, sub)
                }
            },
            _ => {
                if off > usize::MAX - addr {
                    Err(ContourError::AddressOverflow)
                } else {
                    Ok(
                        Value::Nested(
                            Projection { type_id: tid, addr: addr + off, generation },
                        ),
                    )
                }
            },
        },
    }
}

/// Projects each entry in order against the registered descriptors, the
/// first failure deciding the error.
fn project_entry_list(
    manager: &PythonManager,
    mem: &[u8],
    addr: usize,
    generation: usize,
    entries: &Vec<(FieldKey, u64, usize)>,
) -> (r: Result<Vec<(FieldKey, Value)>, ContourError>)
    requires
        manager.inv(),
    ensures
        ({
            let spec = project_entries_spec(
                manager.contours(),
                mem@,
                addr,
                generation,
                entry_triples_view(entries@),
            );
            match r {
                Ok(v) => spec == Ok::<Seq<(FieldKeyV, Value)>, ContourError>(entries_view(v@)),
                Err(e) => spec == Err::<Seq<(FieldKeyV, Value)>, ContourError>(e),
            }
        }),
{
    let ghost es = entry_triples_view(entries@);
    let ghost full = project_entries_spec(manager.contours(), mem@, addr, generation, es);
    let mut out: Vec<(FieldKey, Value)> = Vec::new();
    let mut i: usize = 0;
    proof {
        assert(es.skip(0) =~= es);
        match full {
            Ok(t) => {
                assert(entries_view(out@) + t =~= t);
            },
            Err(_) => {},
        }
    }
    while i < entries.len()
        invariant
            manager.inv(),
            i <= entries@.len(),
            es == entry_triples_view(entries@),
            full == project_entries_spec(manager.contours(), mem@, addr, generation, es),
            full == (match project_entries_spec(
                manager.contours(),
                mem@,
                addr,
                generation,
                es.skip(i as int),
            ) {
                Ok(tail) => Ok::<Seq<(FieldKeyV, Value)>, ContourError>(entries_view(out@) + tail),
                Err(e) => Err::<Seq<(FieldKeyV, Value)>, ContourError>(e),
            }),
        decreases entries@.len() - i,
    {
        let ghost out_pre = out@;
        proof {
            assert(es.skip(i as int)[0] == es[i as int]);
            assert(es.skip(i as int).drop_first() =~= es.skip(i + 1));
        }
        let e = &entries[i];
        match project_one(manager, mem, addr, generation, e.1, e.2) {
            Err(err) => {
                return Err(err);
            },
            Ok(v) => {
                out.push((field_key_copy(&e.0), v));
                proof {
                    assert(entries_view(out@) =~= entries_view(out_pre).push((es[i as int].0, v)));
                    match project_entries_spec(
                        manager.contours(),
                        mem@,
                        addr,
                        generation,
                        es.skip(i + 1),
                    ) {
                        Ok(tail2) => {
                            assert(entries_view(out_pre) + (seq![(es[i as int].0, v)] + tail2)
                                =~= entries_view(out@) + tail2);
                        },
                        Err(_) => {},
                    }
                }
            },
        }
        i += 1;
    }
    proof {
        assert(es.skip(entries@.len() as int) =~= Seq::<(FieldKeyV, u64, nat)>::empty());
        assert(entries_view(out@) + Seq::<(FieldKeyV, Value)>::empty() =~= entries_view(out@));
    }
    Ok(out)
}

impl Projection {
    /// The declared name of the projected type, read from the descriptor
    /// alone: identity accessors are generation-independent.
    pub fn name<'a>(&self, manager: &'a PythonManager) -> (r: Option<&'a str>)
        requires
            manager.inv(),
        ensures
            match r {
                Some(s) => manager.contours().contains_key(self.type_id) && s@
                    == manager.contours()[self.type_id].name(),
                None => !manager.contours().contains_key(self.type_id),
            },
    {
        match manager.get(self.type_id) {
            Some(c) => Some(c.name()),
            None => None,
        }
    }

    /// The fields of a struct- or tuple-shaped value as an ordered
    /// key-to-value mapping, exactly as [`fields_spec`] lays it out: the
    /// call refuses to interpret `mem` when the captured generation is no
    /// longer the manager's current one, when the type was never charted,
    /// when the shape has no flat field list, or when `mem` is not
    /// exactly the descriptor's size.
    pub fn fields(&self, manager: &PythonManager, mem: &[u8]) -> (r: Result<
        Vec<(FieldKey, Value)>,
        ContourError,
    >)
        requires
            manager.inv(),
        ensures
            ({
                let spec = fields_spec(manager.contours(), manager.epoch(), *self, mem@);
                match r {
                    Ok(v) => spec == Ok::<Seq<(FieldKeyV, Value)>, ContourError>(
                        entries_view(v@),
                    ),
                    Err(e) => spec == Err::<Seq<(FieldKeyV, Value)>, ContourError>(e),
                }
            }),
    {
        if self.generation != manager.generation() {
            return Err(ContourError::StaleGeneration);
        }
        let c = match manager.get(self.type_id) {
            None => {
                return Err(ContourError::UnknownType);
            },
            Some(c) => c,
        };
        let entries: Vec<(FieldKey, u64, usize)> = match c {
            Contour::Struct { size, fields, .. } => {
                if mem.len() != *size {
                    return Err(ContourError::SizeMismatch);
                }
                entry_list_struct(fields)
            },
            Contour::Tuple { size, fields, .. } => {
                if mem.len() != *size {
                    return Err(ContourError::SizeMismatch);
                }
                entry_list_tuple(fields)
            },
            _ => {
                return Err(ContourError::UnsupportedShape);
            },
        };
        proof {
            assert(entry_triples_view(entries@) =~= field_entry_specs(
                manager.contours()[self.type_id],
            ));
        }
        project_entry_list(manager, mem, self.addr, self.generation, &entries)
    }

    /// The scalar a primitive-shaped value holds, converted bit for bit
    /// from its bytes, exactly as [`leaf_spec`] lays it out — behind the
    /// same generation check as any field access.
    pub fn leaf(&self, manager: &PythonManager, mem: &[u8]) -> (r: Result<Value, ContourError>)
        requires
            manager.inv(),
        ensures
            ({
                let spec = leaf_spec(manager.contours(), manager.epoch(), *self, mem@);
                match r {
                    Ok(v) => spec == Ok::<Value, ContourError>(v),
                    Err(e) => spec == Err::<Value, ContourError>(e),
                }
            }),
    {
        if self.generation != manager.generation() {
            return Err(ContourError::StaleGeneration);
        }
        let c = match manager.get(self.type_id) {
            None => {
                return Err(ContourError::UnknownType);
            },
            Some(c) => c,
        };
        match c {
            Contour::Primitive { variant, .. } => {
                let w = width(*variant);
                if mem.len() != w {
                    return Err(ContourError::SizeMismatch);
                }
                decode_value(*variant, mem)
            },
            _ => Err(ContourError::UnsupportedShape),
        }
    }

    /// The index of the active variant of an enum-shaped value, found by
    /// reading the descriptor's tag bytes and looking the number up among
    /// the declared tag values — exactly as [`resolve_tag_spec`] lays it
    /// out, behind the same generation check as any field access.
    pub fn resolve_tag(&self, manager: &PythonManager, mem: &[u8]) -> (r: Result<
        usize,
        ContourError,
    >)
        requires
            manager.inv(),
        ensures
            ({
                let spec = resolve_tag_spec(manager.contours(), manager.epoch(), *self, mem@);
                match r {
                    Ok(ix) => spec == Ok::<nat, ContourError>(ix as nat),
                    Err(e) => spec == Err::<nat, ContourError>(e),
                }
            }),
    {
        if self.generation != manager.generation() {
            return Err(ContourError::StaleGeneration);
        }
        let c = match manager.get(self.type_id) {
            None => {
                return Err(ContourError::UnknownType);
            },
            Some(c) => c,
        };
        match c {
            Contour::Enum { size, variants, tag, .. } => {
                if mem.len() != *size {
                    return Err(ContourError::SizeMismatch);
                }
                if tag.size > 8 || tag.offset > mem.len() || tag.size > mem.len() - tag.offset {
                    return Err(ContourError::SizeMismatch);
                }
                let sub = &mem[tag.offset..tag.offset + tag.size];
                proof {
                    assert(sub@ =~= mem@.subrange(
                        tag.offset as int,
                        (tag.offset as nat + tag.size as nat) as int,
                    ));
                    lemma_le_value_bound(sub@);
                    crate::bytes::lemma_pow256_le_u64(sub@.len());
                }
                let tv = read_le_u64(sub);
                let ghost values = tag@.values;
                let ghost found = first_match(values, tv);
                let ghost nvar = variants@.len();
                let ghost spec_result = resolve_tag_spec(
                    manager.contours(),
                    manager.epoch(),
                    *self,
                    mem@,
                );
                proof {
                    assert(values.skip(0) =~= values);
                    assert(spec_result == (match found {
                        Some(ix) => if ix < nvar {
                            Ok::<nat, ContourError>(ix)
                        } else {
                            Err::<nat, ContourError>(ContourError::InvalidValue)
                        },
                        None => Err::<nat, ContourError>(ContourError::InvalidValue),
                    }));
                }
                let mut i: usize = 0;
                while i < tag.values.len()
                    invariant
                        i <= values.len(),
                        values == tag.values@,
                        nvar == variants@.len(),
                        found == first_match(values, tv),
                        spec_result == resolve_tag_spec(
                            manager.contours(),
                            manager.epoch(),
                            *self,
                            mem@,
                        ),
                        spec_result == (match found {
                            Some(ix) => if ix < nvar {
                                Ok::<nat, ContourError>(ix)
                            } else {
                                Err::<nat, ContourError>(ContourError::InvalidValue)
                            },
                            None => Err::<nat, ContourError>(ContourError::InvalidValue),
                        }),
                        found == (match first_match(values.skip(i as int), tv) {
                            None => None::<nat>,
                            Some(j) => Some((j + i) as nat),
                        }),
                    decreases values.len() - i,
                {
                    proof {
                        assert(values.skip(i as int)[0] == values[i as int]);
                        assert(values.skip(i as int).drop_first() =~= values.skip(i + 1));
                    }
                    if tag.values[i] == tv {
                        proof {
                            assert(first_match(values.skip(i as int), tv) == Some(0nat));
                            assert(found == Some(i as nat));
                        }
                        if i < variants.len() {
                            return Ok(i);
                        } else {
                            return Err(ContourError::InvalidValue);
                        }
                    }
                    i += 1;
                }
                proof {
                    assert(values.skip(values.len() as int) =~= Seq::<u64>::empty());
                    assert(found is None);
                }
                Err(ContourError::InvalidValue)
            },
            _ => Err(ContourError::UnsupportedShape),
        }
    }

    /// The active variant's index together with that variant's fields,
    /// projected like a struct's with offsets taken from the start of
    /// the enum value — exactly as [`variant_fields_spec`] lays it out.
    pub fn variant_fields(&self, manager: &PythonManager, mem: &[u8]) -> (r: Result<
        (usize, Vec<(FieldKey, Value)>),
        ContourError,
    >)
        requires
            manager.inv(),
        ensures
            ({
                let spec = variant_fields_spec(manager.contours(), manager.epoch(), *self, mem@);
                match r {
                    Ok(p) => spec == Ok::<(nat, Seq<(FieldKeyV, Value)>), ContourError>(
                        (p.0 as nat, entries_view(p.1@)),
                    ),
                    Err(e) => spec == Err::<(nat, Seq<(FieldKeyV, Value)>), ContourError>(e),
                }
            }),
    {
        let ix = match self.resolve_tag(manager, mem) {
            Err(e) => {
                return Err(e);
            },
            Ok(ix) => ix,
        };
        let c = match manager.get(self.type_id) {
            None => {
                proof {
                    assert(false);
                }
                return Err(ContourError::UnknownType);
            },
            Some(c) => c,
        };
        let entries: Vec<(FieldKey, u64, usize)> = match c {
            Contour::Enum { variants, .. } => {
                let v = &variants[ix];
                match &v.fields {
                    VariantFields::Struct(fs) => entry_list_struct(fs),
                    VariantFields::Tuple(fs) => entry_list_tuple(fs),
                    VariantFields::Unit => Vec::new(),
                }
            },
            _ => {
                proof {
                    assert(false);
                }
                Vec::new()
            },
        };
        proof {
            match manager.contours()[self.type_id] {
                ContourV::Enum { variants, .. } => {
                    assert(entry_triples_view(entries@) =~= variant_entry_specs(
                        variants[ix as int].fields,
                    ));
                },
                _ => {
                    assert(false);
                },
            }
        }
        match project_entry_list(manager, mem, self.addr, self.generation, &entries) {
            Ok(vs) => Ok((ix, vs)),
            Err(e) => Err(e),
        }
    }
}

impl PythonManager {
    /// A projection of the value of type `type_id` living at `addr`,
    /// captured at generation `generation`: the type must have been
    /// charted and the generation must be the current one.  Nothing is
    /// dereferenced.
    pub fn analyze(&self, type_id: u64, addr: usize, generation: usize) -> (r: Result<
        Projection,
        ContourError,
    >)
        requires
            self.inv(),
        ensures
            generation as nat != self.epoch() ==> r == Err::<Projection, ContourError>(
                ContourError::StaleGeneration,
            ),
            generation as nat == self.epoch() && !self.contours().contains_key(type_id) ==> r
                == Err::<Projection, ContourError>(ContourError::UnknownType),
            generation as nat == self.epoch() && self.contours().contains_key(type_id) ==> r
                == Ok::<Projection, ContourError>(Projection { type_id, addr, generation }),
    {
        if generation != self.generation() {
            return Err(ContourError::StaleGeneration);
        }
        match self.get(type_id) {
            None => Err(ContourError::UnknownType),
            Some(_) => Ok(Projection { type_id, addr, generation }),
        }
    }

    /// A projection of the value at `addr` captured at the current
    /// generation.
    pub fn superanalyze(&self, type_id: u64, addr: usize) -> (r: Result<Projection, ContourError>)
        requires
            self.inv(),
        ensures
            !self.contours().contains_key(type_id) ==> r == Err::<Projection, ContourError>(
                ContourError::UnknownType,
            ),
            self.contours().contains_key(type_id) ==> (match r {
                Ok(p) => p.type_id == type_id && p.addr == addr && p.generation as nat
                    == self.epoch(),
                Err(_) => false,
            }),
    {
        let generation = self.generation();
        self.analyze(type_id, addr, generation)
    }
}

/// Resolver correctness: when an enum's tag values are distinct and a
/// live value's tag bytes spell variant `i`'s tag value, resolution
/// returns exactly `i` — the index the variant holds in declaration
/// order.
pub proof fn lemma_resolver_returns_declared_index(
    reg: Map<u64, ContourV>,
    current: nat,
    p: Projection,
    mem: Seq<u8>,
    i: int,
)
    requires
        p.generation as nat == current,
        reg.contains_key(p.type_id),
        ({
            match reg[p.type_id] {
                ContourV::Enum { size, variants, tag, .. } => {
                    &&& mem.len() == size
                    &&& tag.size <= 8
                    &&& tag.offset + tag.size <= mem.len()
                    &&& forall|a: int, b: int|
                        0 <= a < b < tag.values.len() ==> tag.values[a] != tag.values[b]
                    &&& tag.values.len() == variants.len()
                    &&& 0 <= i < variants.len()
                    &&& le_value(
                        mem.subrange(tag.offset as int, (tag.offset + tag.size) as int),
                    ) == tag.values[i]
                },
                _ => false,
            }
        }),
    ensures
        resolve_tag_spec(reg, current, p, mem) == Ok::<nat, ContourError>(i as nat),
{
    match reg[p.type_id] {
        ContourV::Enum { size, variants, tag, .. } => {
            let tv = le_value(mem.subrange(tag.offset as int, (tag.offset + tag.size) as int));
            assert(tv as u64 == tag.values[i]);
            lemma_first_match_exact(tag.values, i);
        },
        _ => {},
    }
}

/// The complete outcome of a [`Projection::variant_fields`] call: the
/// resolved variant index together with that variant's fields projected
/// like a struct's, offsets taken from the start of the enum value.
pub open spec fn variant_fields_spec(
    reg: Map<u64, ContourV>,
    current: nat,
    p: Projection,
    mem: Seq<u8>,
) -> Result<(nat, Seq<(FieldKeyV, Value)>), ContourError> {
    match resolve_tag_spec(reg, current, p, mem) {
        Err(e) => Err(e),
        Ok(ix) => match reg[p.type_id] {
            ContourV::Enum { variants, .. } => match project_entries_spec(
                reg,
                mem,
                p.addr,
                p.generation,
                variant_entry_specs(variants[ix as int].fields),
            ) {
                Err(e) => Err(e),
                Ok(vs) => Ok((ix, vs)),
            },
            _ => Err(ContourError::UnsupportedShape),
        },
    }
}

} // verus!
