//! The descriptor model: the shape of a type, its fields and their byte
//! offsets, and — for sum types — the rule that resolves the active variant.
//!
//! A descriptor never holds a value of the type it describes; it records
//! only static layout facts, keyed by a numeric type identity that the
//! registering code chooses.  Each exec type has a ghost mirror (`…V`)
//! over `Seq`/`nat`, which is what every contract speaks of.

use vstd::prelude::*;

verus! {

/// The scalar shapes a leaf descriptor can take.
#[derive(Clone, Copy, Debug, PartialEq, Eq, Structural)]
pub enum Primitive {
    U8,
    U16,
    U32,
    U64,
    Usize,
    I8,
    I16,
    I32,
    I64,
    Isize,
    F32,
    F64,
    Bool,
    Char,
}

/// A named field of a struct-shaped type: where it starts and what type
/// lives there.
#[derive(Clone, Debug, PartialEq, Eq)]
pub struct StructField {
    pub name: String,
    pub type_id: u64,
    pub offset: usize,
}

/// Ghost mirror of [`StructField`].
pub struct StructFieldV {
    pub name: Seq<char>,
    pub type_id: u64,
    pub offset: nat,
}

impl View for StructField {
    type V = StructFieldV;

    open spec fn view(&self) -> StructFieldV {
        StructFieldV { name: self.name@, type_id: self.type_id, offset: self.offset as nat }
    }
}

/// A positional field of a tuple-shaped type.
#[derive(Clone, Debug, PartialEq, Eq)]
pub struct TupleField {
    pub ix: usize,
    pub type_id: u64,
    pub offset: usize,
}

/// Ghost mirror of [`TupleField`].
pub struct TupleFieldV {
    pub ix: nat,
    pub type_id: u64,
    pub offset: nat,
}

impl View for TupleField {
    type V = TupleFieldV;

    open spec fn view(&self) -> TupleFieldV {
        TupleFieldV { ix: self.ix as nat, type_id: self.type_id, offset: self.offset as nat }
    }
}

/// The field list of one enum variant, in the shape that variant was
/// declared with.
#[derive(Clone, Debug, PartialEq, Eq)]
pub enum VariantFields {
    Struct(Vec<StructField>),
    Tuple(Vec<TupleField>),
    Unit,
}

/// Ghost mirror of [`VariantFields`].
pub enum VariantFieldsV {
    Struct(Seq<StructFieldV>),
    Tuple(Seq<TupleFieldV>),
    Unit,
}

impl View for VariantFields {
    type V = VariantFieldsV;

    open spec fn view(&self) -> VariantFieldsV {
        match self {
            VariantFields::Struct(fs) => VariantFieldsV::Struct(
                fs@.map_values(|f: StructField| f@),
            ),
            VariantFields::Tuple(fs) => VariantFieldsV::Tuple(fs@.map_values(|f: TupleField| f@)),
            VariantFields::Unit => VariantFieldsV::Unit,
        }
    }
}

/// One variant of an enum-shaped type.
#[derive(Clone, Debug, PartialEq, Eq)]
pub struct Variant {
    pub name: String,
    pub fields: VariantFields,
}

/// Ghost mirror of [`Variant`].
pub struct VariantV {
    pub name: Seq<char>,
    pub fields: VariantFieldsV,
}

impl View for Variant {
    type V = VariantV;

    open spec fn view(&self) -> VariantV {
        VariantV { name: self.name@, fields: self.fields@ }
    }
}

/// The data-driven variant resolver of an enum descriptor: the active
/// variant is found by reading `size` bytes at `offset` from the start of
/// a live value, taken as a little-endian unsigned integer, and looking
/// that number up in `values`, whose order follows the declaration order
/// of the variants.
#[derive(Clone, Debug, PartialEq, Eq)]
pub struct TagRule {
    pub offset: usize,
    pub size: usize,
    pub values: Vec<u64>,
}

/// Ghost mirror of [`TagRule`].
pub struct TagRuleV {
    pub offset: nat,
    pub size: nat,
    pub values: Seq<u64>,
}

impl View for TagRule {
    type V = TagRuleV;

    open spec fn view(&self) -> TagRuleV {
        TagRuleV {
            offset: self.offset as nat,
            size: self.size as nat,
            values: self.values@,
        }
    }
}

/// The layout descriptor of one concrete type: one variant per shape.
#[derive(Clone, Debug, PartialEq, Eq)]
pub enum Contour {
    Struct { name: String, size: usize, type_id: u64, fields: Vec<StructField> },
    Tuple { name: String, size: usize, type_id: u64, fields: Vec<TupleField> },
    Unit { name: String, type_id: u64 },
    Enum { name: String, size: usize, type_id: u64, variants: Vec<Variant>, tag: TagRule },
    Primitive { name: String, type_id: u64, size: usize, variant: Primitive },
}

/// Ghost mirror of [`Contour`].
pub enum ContourV {
    Struct { name: Seq<char>, size: nat, type_id: u64, fields: Seq<StructFieldV> },
    Tuple { name: Seq<char>, size: nat, type_id: u64, fields: Seq<TupleFieldV> },
    Unit { name: Seq<char>, type_id: u64 },
    Enum { name: Seq<char>, size: nat, type_id: u64, variants: Seq<VariantV>, tag: TagRuleV },
    Primitive { name: Seq<char>, type_id: u64, size: nat, variant: Primitive },
}

impl View for Contour {
    type V = ContourV;

    open spec fn view(&self) -> ContourV {
        match self {
            Contour::Struct { name, size, type_id, fields } => ContourV::Struct {
                name: name@,
                size: *size as nat,
                type_id: *type_id,
                fields: fields@.map_values(|f: StructField| f@),
            },
            Contour::Tuple { name, size, type_id, fields } => ContourV::Tuple {
                name: name@,
                size: *size as nat,
                type_id: *type_id,
                fields: fields@.map_values(|f: TupleField| f@),
            },
            Contour::Unit { name, type_id } => ContourV::Unit {
                name: name@,
                type_id: *type_id,
            },
            Contour::Enum { name, size, type_id, variants, tag } => ContourV::Enum {
                name: name@,
                size: *size as nat,
                type_id: *type_id,
                variants: variants@.map_values(|v: Variant| v@),
                tag: tag@,
            },
            Contour::Primitive { name, type_id, size, variant } => ContourV::Primitive {
                name: name@,
                type_id: *type_id,
                size: *size as nat,
                variant: *variant,
            },
        }
    }
}

impl ContourV {
    /// The type identity the descriptor is keyed by, whatever its shape.
    pub open spec fn type_id(self) -> u64 {
        match self {
            ContourV::Struct { type_id, .. } => type_id,
            ContourV::Tuple { type_id, .. } => type_id,
            ContourV::Unit { type_id, .. } => type_id,
            ContourV::Enum { type_id, .. } => type_id,
            ContourV::Primitive { type_id, .. } => type_id,
        }
    }

    /// The declared name, whatever the shape.
    pub open spec fn name(self) -> Seq<char> {
        match self {
            ContourV::Struct { name, .. } => name,
            ContourV::Tuple { name, .. } => name,
            ContourV::Unit { name, .. } => name,
            ContourV::Enum { name, .. } => name,
            ContourV::Primitive { name, .. } => name,
        }
    }

    /// The size in bytes of a value of the described type; a unit type
    /// occupies no storage of its own.
    pub open spec fn size(self) -> nat {
        match self {
            ContourV::Struct { size, .. } => size,
            ContourV::Tuple { size, .. } => size,
            ContourV::Unit { .. } => 0,
            ContourV::Enum { size, .. } => size,
            ContourV::Primitive { size, .. } => size,
        }
    }
}

/// Structural equality of two struct-field lists, decided element by
/// element over their ghost mirrors.
fn struct_fields_eq(a: &Vec<StructField>, b: &Vec<StructField>) -> (r: bool)
    ensures
        r == (a@.map_values(|f: StructField| f@) == b@.map_values(|f: StructField| f@)),
{
    let ghost av = a@.map_values(|f: StructField| f@);
    let ghost bv = b@.map_values(|f: StructField| f@);
    if a.len() != b.len() {
        assert(av.len() != bv.len());
        return false;
    }
    let mut i: usize = 0;
    while i < a.len()
        invariant
            i <= a.len(),
            a@.len() == b@.len(),
            av == a@.map_values(|f: StructField| f@),
            bv == b@.map_values(|f: StructField| f@),
            forall|j: int| 0 <= j < i ==> av[j] == bv[j],
        decreases a@.len() - i,
    {
        let fa = &a[i];
        let fb = &b[i];
        if !(fa.name.eq(&fb.name) && fa.type_id == fb.type_id && fa.offset == fb.offset) {
            assert(av[i as int] != bv[i as int]);
            return false;
        }
        assert(av[i as int] == bv[i as int]);
        i += 1;
    }
    assert(av =~= bv);
    true
}

/// Structural equality of two tuple-field lists.
fn tuple_fields_eq(a: &Vec<TupleField>, b: &Vec<TupleField>) -> (r: bool)
    ensures
        r == (a@.map_values(|f: TupleField| f@) == b@.map_values(|f: TupleField| f@)),
{
    let ghost av = a@.map_values(|f: TupleField| f@);
    let ghost bv = b@.map_values(|f: TupleField| f@);
    if a.len() != b.len() {
        assert(av.len() != bv.len());
        return false;
    }
    let mut i: usize = 0;
    while i < a.len()
        invariant
            i <= a.len(),
            a@.len() == b@.len(),
            av == a@.map_values(|f: TupleField| f@),
            bv == b@.map_values(|f: TupleField| f@),
            forall|j: int| 0 <= j < i ==> av[j] == bv[j],
        decreases a@.len() - i,
    {
        let fa = &a[i];
        let fb = &b[i];
        if !(fa.ix == fb.ix && fa.type_id == fb.type_id && fa.offset == fb.offset) {
            assert(av[i as int] != bv[i as int]);
            return false;
        }
        assert(av[i as int] == bv[i as int]);
        i += 1;
    }
    assert(av =~= bv);
    true
}

/// Structural equality of two tag-value lists.
fn tag_values_eq(a: &Vec<u64>, b: &Vec<u64>) -> (r: bool)
    ensures
        r == (a@ == b@),
{
    if a.len() != b.len() {
        return false;
    }
    let mut i: usize = 0;
    while i < a.len()
        invariant
            i <= a.len(),
            a@.len() == b@.len(),
            forall|j: int| 0 <= j < i ==> a@[j] == b@[j],
        decreases a@.len() - i,
    {
        if a[i] != b[i] {
            return false;
        }
        i += 1;
    }
    assert(a@ =~= b@);
    true
}

/// Structural equality of two variant lists, shape and fields included.
fn variants_eq(a: &Vec<Variant>, b: &Vec<Variant>) -> (r: bool)
    ensures
        r == (a@.map_values(|v: Variant| v@) == b@.map_values(|v: Variant| v@)),
{
    let ghost av = a@.map_values(|v: Variant| v@);
    let ghost bv = b@.map_values(|v: Variant| v@);
    if a.len() != b.len() {
        assert(av.len() != bv.len());
        return false;
    }
    let mut i: usize = 0;
    while i < a.len()
        invariant
            i <= a.len(),
            a@.len() == b@.len(),
            av == a@.map_values(|v: Variant| v@),
            bv == b@.map_values(|v: Variant| v@),
            forall|j: int| 0 <= j < i ==> av[j] == bv[j],
        decreases a@.len() - i,
    {
        let va = &a[i];
        let vb = &b[i];
        if !va.name.eq(&vb.name) {
            assert(av[i as int] != bv[i as int]);
            return false;
        }
        let fields_equal: bool = match (&va.fields, &vb.fields) {
            (VariantFields::Struct(fa), VariantFields::Struct(fb)) => struct_fields_eq(fa, fb),
            (VariantFields::Tuple(fa), VariantFields::Tuple(fb)) => tuple_fields_eq(fa, fb),
            (VariantFields::Unit, VariantFields::Unit) => true,
            _ => false,
        };
        if !fields_equal {
            assert(av[i as int] != bv[i as int]);
            return false;
        }
        assert(av[i as int] == bv[i as int]);
        i += 1;
    }
    assert(av =~= bv);
    true
}

/// The type identities one variant's fields reference, in field order.
pub open spec fn variant_child_ids(v: VariantV) -> Seq<u64> {
    match v.fields {
        VariantFieldsV::Struct(fs) => fs.map_values(|f: StructFieldV| f.type_id),
        VariantFieldsV::Tuple(fs) => fs.map_values(|f: TupleFieldV| f.type_id),
        VariantFieldsV::Unit => Seq::empty(),
    }
}

/// The type identities a variant list references, in declaration order.
pub open spec fn variants_child_ids(vs: Seq<VariantV>) -> Seq<u64>
    decreases vs.len(),
{
    if vs.len() == 0 {
        Seq::empty()
    } else {
        variants_child_ids(vs.drop_last()) + variant_child_ids(vs.last())
    }
}

/// Every type identity a descriptor's fields or variant fields reference:
/// the types charting must visit below this one.
pub open spec fn child_ids(c: ContourV) -> Seq<u64> {
    match c {
        ContourV::Struct { fields, .. } => fields.map_values(|f: StructFieldV| f.type_id),
        ContourV::Tuple { fields, .. } => fields.map_values(|f: TupleFieldV| f.type_id),
        ContourV::Unit { .. } => Seq::empty(),
        ContourV::Enum { variants, .. } => variants_child_ids(variants),
        ContourV::Primitive { .. } => Seq::empty(),
    }
}

/// Collects the type identities of one struct-field list.
fn push_struct_field_ids(ids: &mut Vec<u64>, fs: &Vec<StructField>)
    ensures
        final(ids)@ == old(ids)@ + fs@.map_values(|f: StructField| f@).map_values(
            |f: StructFieldV| f.type_id,
        ),
{
    let ghost base = ids@;
    let mut i: usize = 0;
    while i < fs.len()
        invariant
            i <= fs.len(),
            ids@.len() == base.len() + i,
            forall|j: int| 0 <= j < base.len() ==> ids@[j] == base[j],
            forall|j: int| 0 <= j < i ==> ids@[base.len() + j] == fs@[j]@.type_id,
        decreases fs@.len() - i,
    {
        ids.push(fs[i].type_id);
        i += 1;
    }
    proof {
        assert(ids@ =~= base + fs@.map_values(|f: StructField| f@).map_values(
            |f: StructFieldV| f.type_id,
        ));
    }
}

/// Collects the type identities of one tuple-field list.
fn push_tuple_field_ids(ids: &mut Vec<u64>, fs: &Vec<TupleField>)
    ensures
        final(ids)@ == old(ids)@ + fs@.map_values(|f: TupleField| f@).map_values(
            |f: TupleFieldV| f.type_id,
        ),
{
    let ghost base = ids@;
    let mut i: usize = 0;
    while i < fs.len()
        invariant
            i <= fs.len(),
            ids@.len() == base.len() + i,
            forall|j: int| 0 <= j < base.len() ==> ids@[j] == base[j],
            forall|j: int| 0 <= j < i ==> ids@[base.len() + j] == fs@[j]@.type_id,
        decreases fs@.len() - i,
    {
        ids.push(fs[i].type_id);
        i += 1;
    }
    proof {
        assert(ids@ =~= base + fs@.map_values(|f: TupleField| f@).map_values(
            |f: TupleFieldV| f.type_id,
        ));
    }
}

/// The type identities a descriptor's fields and variant fields reference,
/// exactly as [`child_ids`] lists them.
pub fn child_id_list(c: &Contour) -> (r: Vec<u64>)
    ensures
        r@ == child_ids(c@),
{
    let mut ids: Vec<u64> = Vec::new();
    match c {
        Contour::Struct { fields, .. } => {
            push_struct_field_ids(&mut ids, fields);
        },
        Contour::Tuple { fields, .. } => {
            push_tuple_field_ids(&mut ids, fields);
        },
        Contour::Unit { .. } => {},
        Contour::Enum { variants, .. } => {
            let ghost vs = variants@.map_values(|v: Variant| v@);
            let mut i: usize = 0;
            while i < variants.len()
                invariant
                    i <= variants.len(),
                    vs == variants@.map_values(|v: Variant| v@),
                    ids@ == variants_child_ids(vs.take(i as int)),
                decreases variants@.len() - i,
            {
                let v = &variants[i];
                match &v.fields {
                    VariantFields::Struct(fs) => {
                        push_struct_field_ids(&mut ids, fs);
                    },
                    VariantFields::Tuple(fs) => {
                        push_tuple_field_ids(&mut ids, fs);
                    },
                    VariantFields::Unit => {},
                }
                proof {
                    assert(vs.take(i + 1).drop_last() =~= vs.take(i as int));
                    assert(vs.take(i + 1).last() == vs[i as int]);
                    assert(variants_child_ids(vs.take(i + 1)) == variants_child_ids(
                        vs.take(i as int),
                    ) + variant_child_ids(vs[i as int]));
                    assert(ids@ =~= variants_child_ids(vs.take(i + 1)));
                }
                i += 1;
            }
            proof {
                assert(vs.take(variants@.len() as int) =~= vs);
            }
        },
        Contour::Primitive { .. } => {},
    }
    ids
}

/// A deep copy of a struct-field list, equal to the original mirror for
/// mirror.
fn struct_fields_copy(a: &Vec<StructField>) -> (r: Vec<StructField>)
    ensures
        r@.map_values(|f: StructField| f@) == a@.map_values(|f: StructField| f@),
{
    let mut r: Vec<StructField> = Vec::new();
    let mut i: usize = 0;
    while i < a.len()
        invariant
            i <= a.len(),
            r@.len() == i,
            forall|j: int| 0 <= j < i ==> (#[trigger] r@[j])@ == a@[j]@,
        decreases a@.len() - i,
    {
        let f = &a[i];
        r.push(StructField { name: f.name.clone(), type_id: f.type_id, offset: f.offset });
        i += 1;
    }
    proof {
        assert(r@.map_values(|f: StructField| f@) =~= a@.map_values(|f: StructField| f@));
    }
    r
}

/// A deep copy of a tuple-field list.
fn tuple_fields_copy(a: &Vec<TupleField>) -> (r: Vec<TupleField>)
    ensures
        r@.map_values(|f: TupleField| f@) == a@.map_values(|f: TupleField| f@),
{
    let mut r: Vec<TupleField> = Vec::new();
    let mut i: usize = 0;
    while i < a.len()
        invariant
            i <= a.len(),
            r@.len() == i,
            forall|j: int| 0 <= j < i ==> (#[trigger] r@[j])@ == a@[j]@,
        decreases a@.len() - i,
    {
        let f = &a[i];
        r.push(TupleField { ix: f.ix, type_id: f.type_id, offset: f.offset });
        i += 1;
    }
    proof {
        assert(r@.map_values(|f: TupleField| f@) =~= a@.map_values(|f: TupleField| f@));
    }
    r
}

/// A deep copy of a variant list.
fn variants_copy(a: &Vec<Variant>) -> (r: Vec<Variant>)
    ensures
        r@.map_values(|v: Variant| v@) == a@.map_values(|v: Variant| v@),
{
    let mut r: Vec<Variant> = Vec::new();
    let mut i: usize = 0;
    while i < a.len()
        invariant
            i <= a.len(),
            r@.len() == i,
            forall|j: int| 0 <= j < i ==> (#[trigger] r@[j])@ == a@[j]@,
        decreases a@.len() - i,
    {
        let v = &a[i];
        let fields: VariantFields = match &v.fields {
            VariantFields::Struct(fs) => VariantFields::Struct(struct_fields_copy(fs)),
            VariantFields::Tuple(fs) => VariantFields::Tuple(tuple_fields_copy(fs)),
            VariantFields::Unit => VariantFields::Unit,
        };
        r.push(Variant { name: v.name.clone(), fields });
        i += 1;
    }
    proof {
        assert(r@.map_values(|v: Variant| v@) =~= a@.map_values(|v: Variant| v@));
    }
    r
}

/// A deep copy of a tag-value list.
fn tag_values_copy(a: &Vec<u64>) -> (r: Vec<u64>)
    ensures
        r@ == a@,
{
    let mut r: Vec<u64> = Vec::new();
    let mut i: usize = 0;
    while i < a.len()
        invariant
            i <= a.len(),
            r@.len() == i,
            forall|j: int| 0 <= j < i ==> r@[j] == a@[j],
        decreases a@.len() - i,
    {
        r.push(a[i]);
        i += 1;
    }
    proof {
        assert(r@ =~= a@);
    }
    r
}

/// A deep copy of a descriptor whose ghost mirror is exactly the
/// original's.
pub fn contour_copy(c: &Contour) -> (r: Contour)
    ensures
        r@ == c@,
{
    match c {
        Contour::Struct { name, size, type_id, fields } => Contour::Struct {
            name: name.clone(),
            size: *size,
            type_id: *type_id,
            fields: struct_fields_copy(fields),
        },
        Contour::Tuple { name, size, type_id, fields } => Contour::Tuple {
            name: name.clone(),
            size: *size,
            type_id: *type_id,
            fields: tuple_fields_copy(fields),
        },
        Contour::Unit { name, type_id } => Contour::Unit {
            name: name.clone(),
            type_id: *type_id,
        },
        Contour::Enum { name, size, type_id, variants, tag } => Contour::Enum {
            name: name.clone(),
            size: *size,
            type_id: *type_id,
            variants: variants_copy(variants),
            tag: TagRule {
                offset: tag.offset,
                size: tag.size,
                values: tag_values_copy(&tag.values),
            },
        },
        Contour::Primitive { name, type_id, size, variant } => Contour::Primitive {
            name: name.clone(),
            type_id: *type_id,
            size: *size,
            variant: *variant,
        },
    }
}

/// Structural equality of two descriptors: `true` exactly when their ghost
/// mirrors are one value.  This is the comparison the registry's drift
/// detection rests on.
pub fn contour_eq(a: &Contour, b: &Contour) -> (r: bool)
    ensures
        r == (a@ == b@),
{
    match (a, b) {
        (
            Contour::Struct { name: n1, size: s1, type_id: t1, fields: f1 },
            Contour::Struct { name: n2, size: s2, type_id: t2, fields: f2 },
        ) => n1.eq(n2) && *s1 == *s2 && *t1 == *t2 && struct_fields_eq(f1, f2),
        (
            Contour::Tuple { name: n1, size: s1, type_id: t1, fields: f1 },
            Contour::Tuple { name: n2, size: s2, type_id: t2, fields: f2 },
        ) => n1.eq(n2) && *s1 == *s2 && *t1 == *t2 && tuple_fields_eq(f1, f2),
        (
            Contour::Unit { name: n1, type_id: t1 },
            Contour::Unit { name: n2, type_id: t2 },
        ) => n1.eq(n2) && *t1 == *t2,
        (
            Contour::Enum { name: n1, size: s1, type_id: t1, variants: v1, tag: g1 },
            Contour::Enum { name: n2, size: s2, type_id: t2, variants: v2, tag: g2 },
        ) => n1.eq(n2) && *s1 == *s2 && *t1 == *t2 && variants_eq(v1, v2) && g1.offset
            == g2.offset && g1.size == g2.size && tag_values_eq(&g1.values, &g2.values),
        (
            Contour::Primitive { name: n1, type_id: t1, size: s1, variant: v1 },
            Contour::Primitive { name: n2, type_id: t2, size: s2, variant: v2 },
        ) => n1.eq(n2) && *t1 == *t2 && *s1 == *s2 && *v1 == *v2,
        _ => false,
    }
}

impl Contour {
    /// The declared name of the described type.
    pub fn name(&self) -> (r: &str)
        ensures
            r@ == self@.name(),
    {
        match self {
            Contour::Struct { name, .. } => name.as_str(),
            Contour::Tuple { name, .. } => name.as_str(),
            Contour::Unit { name, .. } => name.as_str(),
            Contour::Enum { name, .. } => name.as_str(),
            Contour::Primitive { name, .. } => name.as_str(),
        }
    }

    /// The size in bytes of a value of the described type; a unit type
    /// occupies no storage of its own.
    pub fn size(&self) -> (r: usize)
        ensures
            r as nat == self@.size(),
    {
        match self {
            Contour::Struct { size, .. } => *size,
            Contour::Tuple { size, .. } => *size,
            Contour::Unit { .. } => 0,
            Contour::Enum { size, .. } => *size,
            Contour::Primitive { size, .. } => *size,
        }
    }

    /// The type identity the descriptor is keyed by.
    pub fn type_id(&self) -> (r: u64)
        ensures
            r == self@.type_id(),
    {
        match self {
            Contour::Struct { type_id, .. } => *type_id,
            Contour::Tuple { type_id, .. } => *type_id,
            Contour::Unit { type_id, .. } => *type_id,
            Contour::Enum { type_id, .. } => *type_id,
            Contour::Primitive { type_id, .. } => *type_id,
        }
    }
}

} // verus!
