//! The descriptor registry and the generation guard.
//!
//! One process-wide manager owns the single canonical descriptor per type
//! identity and the monotonic generation counter that marks epochs of
//! assumed memory validity.  Registration is idempotent; a second
//! registration that disagrees structurally is refused and leaves the
//! stored descriptor untouched.

use vstd::prelude::*;
use crate::descriptor::{Contour, ContourV, StructFieldV, TupleFieldV, child_id_list, child_ids,
    contour_copy, contour_eq};

verus! {

/// Everything that can go wrong while registering, charting or projecting.
#[derive(Clone, Copy, Debug, PartialEq, Eq, Structural)]
pub enum ContourError {
    /// A type identity was referenced that was never charted.
    UnknownType,
    /// Two registrations for one type identity disagree structurally.
    ContourMismatch,
    /// A projection was dereferenced after the generation moved on.
    StaleGeneration,
    /// An accessor was invoked on a descriptor shape it does not handle.
    UnsupportedShape,
    /// A supplied byte buffer does not cover the range a descriptor needs.
    SizeMismatch,
    /// A field address would not fit in the machine's address space.
    AddressOverflow,
    /// Bytes that no value of the expected primitive kind can have.
    InvalidValue,
}

/// Whether no two descriptors of the sequence share a type identity.
pub open spec fn ids_unique(s: Seq<Contour>) -> bool {
    forall|i: int, j: int| 0 <= i < j < s.len() ==> s[i]@.type_id() != s[j]@.type_id()
}

/// The map a sequence of descriptors stands for, keyed by type identity;
/// with duplicate identities the later entry wins.
pub open spec fn to_map(s: Seq<Contour>) -> Map<u64, ContourV>
    decreases s.len(),
{
    if s.len() == 0 {
        Map::empty()
    } else {
        to_map(s.drop_last()).insert(s.last()@.type_id(), s.last()@)
    }
}

/// How a sequence of descriptors and the map it stands for relate: which
/// keys exist, which entry a key names under unique identities, and that
/// the key set is finite and no larger than the sequence.
pub proof fn lemma_to_map(s: Seq<Contour>)
    ensures
        forall|id: u64|
            to_map(s).contains_key(id) <==> exists|i: int|
                0 <= i < s.len() && (#[trigger] s[i])@.type_id() == id,
        ids_unique(s) ==> forall|i: int|
            0 <= i < s.len() ==> to_map(s).contains_key((#[trigger] s[i])@.type_id())
                && to_map(s)[s[i]@.type_id()] == s[i]@,
        to_map(s).dom().finite(),
        to_map(s).dom().len() <= s.len(),
        ids_unique(s) ==> to_map(s).dom().len() == s.len(),
    decreases s.len(),
{
    broadcast use vstd::set::group_set_axioms;

    if s.len() == 0 {
    } else {
        let s0 = s.drop_last();
        lemma_to_map(s0);
        let last_id = s.last()@.type_id();
        assert forall|id: u64| to_map(s).contains_key(id) implies exists|i: int|
            0 <= i < s.len() && (#[trigger] s[i])@.type_id() == id by {
            if id == last_id {
                assert(s[s.len() - 1]@.type_id() == id);
            } else {
                let i = choose|i: int| 0 <= i < s0.len() && (#[trigger] s0[i])@.type_id() == id;
                assert(s[i]@.type_id() == id);
            }
        }
        assert forall|id: u64|
            (exists|i: int| 0 <= i < s.len() && (#[trigger] s[i])@.type_id() == id) implies to_map(
            s,
        ).contains_key(id) by {
            let i = choose|i: int| 0 <= i < s.len() && (#[trigger] s[i])@.type_id() == id;
            if i < s.len() - 1 {
                assert(s0[i]@.type_id() == id);
            }
        }
        if ids_unique(s) {
            assert(ids_unique(s0));
            assert forall|i: int| 0 <= i < s.len() implies to_map(s).contains_key(
                (#[trigger] s[i])@.type_id(),
            ) && to_map(s)[s[i]@.type_id()] == s[i]@ by {
                if i < s.len() - 1 {
                    assert(s0[i] == s[i]);
                    assert(s[i]@.type_id() != last_id);
                }
            }
            assert(!to_map(s0).contains_key(last_id)) by {
                if to_map(s0).contains_key(last_id) {
                    let i = choose|i: int|
                        0 <= i < s0.len() && (#[trigger] s0[i])@.type_id() == last_id;
                    assert(s[i]@.type_id() == s[s.len() - 1]@.type_id());
                }
            }
        }
    }
}

/// What one registration does to the canonical map: the result it reports
/// and the map it leaves behind.  An absent identity is inserted and
/// reported new (`Ok(false)`); a present, structurally equal one is left
/// alone and reported already known (`Ok(true)`); a present, different
/// one is refused and the map is untouched.
pub open spec fn register_spec(m: Map<u64, ContourV>, c: ContourV) -> (Result<
    bool,
    ContourError,
>, Map<u64, ContourV>) {
    if m.contains_key(c.type_id()) {
        if m[c.type_id()] == c {
            (Ok(true), m)
        } else {
            (Err(ContourError::ContourMismatch), m)
        }
    } else {
        (Ok(false), m.insert(c.type_id(), c))
    }
}

/// Registering a descriptor that went in without drift is idempotent: a
/// repeated registration of the same descriptor reports it already known
/// and leaves the stored map exactly as it was, so any further repetition
/// answers the same way.
pub proof fn lemma_register_idempotent(m: Map<u64, ContourV>, c: ContourV)
    requires
        !(register_spec(m, c).0 is Err),
    ensures
        register_spec(register_spec(m, c).1, c).0 == Ok::<bool, ContourError>(true),
        register_spec(register_spec(m, c).1, c).1 == register_spec(m, c).1,
        register_spec(register_spec(register_spec(m, c).1, c).1, c).0 == Ok::<bool, ContourError>(
            true,
        ),
        register_spec(register_spec(register_spec(m, c).1, c).1, c).1 == register_spec(m, c).1,
{
}

/// A registration that drifts structurally fails and changes nothing: the
/// originally stored descriptor for that identity remains in place.
pub proof fn lemma_register_drift_keeps_original(m: Map<u64, ContourV>, c: ContourV)
    requires
        m.contains_key(c.type_id()),
        m[c.type_id()] != c,
    ensures
        register_spec(m, c).0 == Err::<bool, ContourError>(ContourError::ContourMismatch),
        register_spec(m, c).1 == m,
        register_spec(m, c).1[c.type_id()] == m[c.type_id()],
{
}

/// Whether `p` walks from `root` through the descriptors of `cat` — each
/// step moving to a type the current descriptor's fields reference —
/// touching no type that stands in `blocked`.
pub open spec fn is_fresh_path(
    cat: Map<u64, ContourV>,
    blocked: Set<u64>,
    root: u64,
    p: Seq<u64>,
) -> bool {
    &&& p.len() > 0
    &&& p[0] == root
    &&& forall|i: int| 0 <= i < p.len() ==> !blocked.contains(#[trigger] p[i])
    &&& forall|i: int|
        0 <= i < p.len() - 1 ==> cat.contains_key(#[trigger] p[i]) && child_ids(cat[p[i]]).contains(
            p[i + 1],
        )
}

/// The set of types a charting pass from `root` registers anew: every
/// type the descriptors reach without passing through one that stands in
/// `blocked` (the identities registered before the pass).
pub open spec fn fresh_set(cat: Map<u64, ContourV>, blocked: Set<u64>, root: u64) -> Set<u64> {
    Set::new(
        |t: u64| exists|p: Seq<u64>| #[trigger] is_fresh_path(cat, blocked, root, p) && p.last() == t,
    )
}

/// The one-step path shows the root itself fresh whenever it is not
/// blocked.
proof fn lemma_fresh_root(cat: Map<u64, ContourV>, blocked: Set<u64>, root: u64)
    requires
        !blocked.contains(root),
    ensures
        fresh_set(cat, blocked, root).contains(root),
{
    broadcast use vstd::set::group_set_axioms;

    let p: Seq<u64> = seq![root];
    assert(is_fresh_path(cat, blocked, root, p));
    assert(p.last() == root);
}

/// Whether the catalogue supplies a descriptor for every type the
/// charting pass must register.
pub open spec fn all_supplied(cat: Map<u64, ContourV>, blocked: Set<u64>, root: u64) -> bool {
    forall|t: u64| #[trigger] fresh_set(cat, blocked, root).contains(t) ==> cat.contains_key(t)
}

/// Whether `t` is a type where charting from `root` stops at an existing
/// registration: the root itself, or a child of a newly registered type.
pub open spec fn is_boundary(
    cat: Map<u64, ContourV>,
    m0: Map<u64, ContourV>,
    root: u64,
    t: u64,
) -> bool {
    m0.contains_key(t) && (t == root || exists|s: u64|
        #[trigger] fresh_set(cat, m0.dom(), root).contains(s) && cat.contains_key(s)
            && child_ids(cat[s]).contains(t))
}

/// Whether the catalogue agrees with the registry on every type where the
/// charting pass stops at an existing registration.
pub open spec fn drift_free(cat: Map<u64, ContourV>, m0: Map<u64, ContourV>, root: u64) -> bool {
    forall|t: u64|
        #[trigger] is_boundary(cat, m0, root, t) && cat.contains_key(t) ==> cat[t] == m0[t]
}

/// One expansion step stays inside the fresh set: a child of a fresh type
/// is itself fresh unless it was registered before the pass.
proof fn lemma_fresh_step(cat: Map<u64, ContourV>, blocked: Set<u64>, root: u64, s: u64, t: u64)
    requires
        fresh_set(cat, blocked, root).contains(s),
        cat.contains_key(s),
        child_ids(cat[s]).contains(t),
        !blocked.contains(t),
    ensures
        fresh_set(cat, blocked, root).contains(t),
{
    broadcast use vstd::set::group_set_axioms;

    let p = choose|p: Seq<u64>|
        #[trigger] is_fresh_path(cat, blocked, root, p) && p.last() == s;
    let q = p.push(t);
    assert(q[0] == root);
    assert forall|i: int| 0 <= i < q.len() implies !blocked.contains(#[trigger] q[i]) by {
        if i < p.len() {
            assert(q[i] == p[i]);
        } else {
            assert(q[i] == t);
        }
    }
    assert forall|i: int| 0 <= i < q.len() - 1 implies cat.contains_key(#[trigger] q[i])
        && child_ids(cat[q[i]]).contains(q[i + 1]) by {
        if i < p.len() - 1 {
            assert(q[i] == p[i]);
            assert(q[i + 1] == p[i + 1]);
        } else {
            assert(q[i] == p.last());
            assert(q[i + 1] == t);
        }
    }
    assert(is_fresh_path(cat, blocked, root, q) && q.last() == t);
}

/// A fresh type is never one that was registered before the pass.
proof fn lemma_fresh_not_blocked(cat: Map<u64, ContourV>, blocked: Set<u64>, root: u64, t: u64)
    requires
        fresh_set(cat, blocked, root).contains(t),
    ensures
        !blocked.contains(t),
{
    broadcast use vstd::set::group_set_axioms;

    let p = choose|p: Seq<u64>|
        #[trigger] is_fresh_path(cat, blocked, root, p) && p.last() == t;
    assert(p[p.len() - 1] == t);
}

/// A set that holds the root (unless blocked) and is closed under the
/// children of its members holds the whole fresh set.
proof fn lemma_fresh_complete(
    cat: Map<u64, ContourV>,
    blocked: Set<u64>,
    root: u64,
    done: Set<u64>,
    p: Seq<u64>,
)
    requires
        is_fresh_path(cat, blocked, root, p),
        !blocked.contains(root) ==> done.contains(root),
        forall|s: u64, c: u64|
            #![trigger done.contains(s), child_ids(cat[s]).contains(c)]
            done.contains(s) && cat.contains_key(s) && child_ids(cat[s]).contains(c)
                ==> blocked.contains(c) || done.contains(c),
    ensures
        done.contains(p.last()),
    decreases p.len(),
{
    if p.len() == 1 {
        assert(p.last() == root);
        assert(!blocked.contains(p[0]));
    } else {
        let q = p.drop_last();
        assert forall|i: int| 0 <= i < q.len() implies !blocked.contains(#[trigger] q[i]) by {
            assert(q[i] == p[i]);
        }
        assert forall|i: int| 0 <= i < q.len() - 1 implies cat.contains_key(#[trigger] q[i])
            && child_ids(cat[q[i]]).contains(q[i + 1]) by {
            assert(q[i] == p[i]);
            assert(q[i + 1] == p[i + 1]);
        }
        assert(is_fresh_path(cat, blocked, root, q));
        lemma_fresh_complete(cat, blocked, root, done, q);
        let k = p.len() - 2;
        assert(q.last() == p[k]);
        assert(cat.contains_key(p[k]) && child_ids(cat[p[k]]).contains(p[k + 1]));
        assert(!blocked.contains(p[k + 1]));
        assert(p.last() == p[k + 1]);
    }
}

/// The `(type, offset)` pairs of the fields a descriptor lays out flat:
/// those of a struct or tuple shape.
pub open spec fn layout_entries(c: ContourV) -> Seq<(u64, nat)> {
    match c {
        ContourV::Struct { fields, .. } => fields.map_values(
            |f: StructFieldV| (f.type_id, f.offset),
        ),
        ContourV::Tuple { fields, .. } => fields.map_values(
            |f: TupleFieldV| (f.type_id, f.offset),
        ),
        _ => Seq::empty(),
    }
}

/// Whether a field list lies well within a value of `size` bytes, the
/// fields' own sizes taken from the registry: every field's type is
/// registered, every offset lies in `[0, size)`, and the byte ranges of
/// distinct fields do not overlap.
pub open spec fn entries_layout_wf(
    reg: Map<u64, ContourV>,
    entries: Seq<(u64, nat)>,
    size: nat,
) -> bool {
    &&& forall|i: int| 0 <= i < entries.len() ==> reg.contains_key((#[trigger] entries[i]).0)
    &&& forall|i: int| 0 <= i < entries.len() ==> (#[trigger] entries[i]).1 < size
    &&& forall|i: int, j: int|
        #![trigger entries[i], entries[j]]
        0 <= i < entries.len() && 0 <= j < entries.len() && i != j ==> entries[i].1
            + reg[entries[i].0].size() <= entries[j].1 || entries[j].1 + reg[entries[j].0].size()
            <= entries[i].1
}

/// Whether every registered struct- and tuple-shaped descriptor lays its
/// fields out inside its own size, each field's offset in `[0, size)`
/// and no two fields' `(offset, subtype-size)` ranges overlapping.
pub open spec fn layout_wf(reg: Map<u64, ContourV>) -> bool {
    forall|tid: u64|
        #[trigger] reg.contains_key(tid) && (reg[tid] is Struct || reg[tid] is Tuple)
            ==> entries_layout_wf(reg, layout_entries(reg[tid]), reg[tid].size())
}

/// Whether `[a, a + sa)` and `[b, b + sb)` share no position.
fn ranges_disjoint(a: usize, sa: usize, b: usize, sb: usize) -> (r: bool)
    ensures
        r == (a + sa <= b || b + sb <= a),
{
    (a <= b && b - a >= sa) || (b <= a && a - b >= sb)
}

/// Charting into an empty registry registers exactly the reachable
/// types: the map [`PythonManager::chart`] then leaves behind is keyed by
/// precisely the fresh set of the root — one entry per distinct reachable
/// type, however many duplicate or cyclic edges the type graph has.
pub proof fn lemma_chart_fills_exactly(cat: Map<u64, ContourV>, root: u64)
    requires
        all_supplied(cat, Set::<u64>::empty(), root),
    ensures
        Map::<u64, ContourV>::empty().union_prefer_right(
            cat.restrict(fresh_set(cat, Set::<u64>::empty(), root)),
        ).dom() == fresh_set(cat, Set::<u64>::empty(), root),
{
    broadcast use vstd::set::group_set_axioms;
    broadcast use vstd::map::group_map_axioms;

    let fres = fresh_set(cat, Set::<u64>::empty(), root);
    let result = Map::<u64, ContourV>::empty().union_prefer_right(cat.restrict(fres));
    assert forall|t: u64| #![auto] result.dom().contains(t) <==> fres.contains(t) by {
        if fres.contains(t) {
            assert(cat.contains_key(t));
        }
    }
    assert(result.dom() =~= fres);
}

/// Looks a type identity up in a descriptor list with unique identities.
fn find_contour<'a>(v: &'a Vec<Contour>, id: u64) -> (r: Option<&'a Contour>)
    requires
        ids_unique(v@),
    ensures
        match r {
            Some(c) => to_map(v@).contains_key(id) && c@ == to_map(v@)[id] && c@.type_id() == id,
            None => !to_map(v@).contains_key(id),
        },
{
    proof {
        lemma_to_map(v@);
    }
    let n = v.len();
    let mut i: usize = 0;
    while i < n
        invariant
            n == v@.len(),
            i <= n,
            ids_unique(v@),
            forall|j: int| 0 <= j < i ==> (#[trigger] v@[j])@.type_id() != id,
        decreases n - i,
    {
        if v[i].type_id() == id {
            proof {
                lemma_to_map(v@);
            }
            return Some(&v[i]);
        }
        i += 1;
    }
    proof {
        lemma_to_map(v@);
    }
    None
}

/// The flat `(type, offset)` entries of a descriptor, as exec values.
fn layout_entry_list(c: &Contour) -> (r: Vec<(u64, usize)>)
    ensures
        r@.map_values(|e: (u64, usize)| (e.0, e.1 as nat)) == layout_entries(c@),
{
    let mut r: Vec<(u64, usize)> = Vec::new();
    match c {
        Contour::Struct { fields, .. } => {
            let mut i: usize = 0;
            while i < fields.len()
                invariant
                    i <= fields.len(),
                    r@.len() == i,
                    forall|j: int|
                        0 <= j < i ==> (#[trigger] r@[j]).0 == fields@[j]@.type_id && r@[j].1
                            as nat == fields@[j]@.offset,
                decreases fields@.len() - i,
            {
                let f = &fields[i];
                r.push((f.type_id, f.offset));
                i += 1;
            }
        },
        Contour::Tuple { fields, .. } => {
            let mut i: usize = 0;
            while i < fields.len()
                invariant
                    i <= fields.len(),
                    r@.len() == i,
                    forall|j: int|
                        0 <= j < i ==> (#[trigger] r@[j]).0 == fields@[j]@.type_id && r@[j].1
                            as nat == fields@[j]@.offset,
                decreases fields@.len() - i,
            {
                let f = &fields[i];
                r.push((f.type_id, f.offset));
                i += 1;
            }
        },
        _ => {},
    }
    proof {
        assert(r@.map_values(|e: (u64, usize)| (e.0, e.1 as nat)) =~= layout_entries(c@));
    }
    r
}

/// A store of canonical descriptors keyed by type identity.
pub trait ContourMap: Sized {
    /// The canonical map the store currently holds.
    spec fn registry(&self) -> Map<u64, ContourV>;

    /// The store's own well-formedness.
    spec fn map_inv(&self) -> bool;

    /// Puts a descriptor in the store, or reports how it already stands
    /// there: `Ok(true)` when a structurally equal descriptor is present,
    /// `Ok(false)` when the identity was new, and a mismatch error — with
    /// the store untouched — when the present descriptor disagrees.
    fn register(&mut self, contour: Contour) -> (r: Result<bool, ContourError>)
        requires
            old(self).map_inv(),
        ensures
            final(self).map_inv(),
            r == register_spec(old(self).registry(), contour@).0,
            final(self).registry() == register_spec(old(self).registry(), contour@).1,
    ;
}

/// The process-wide manager: the descriptor registry together with the
/// generation counter that guards live projections.
pub struct PythonManager {
    entries: Vec<Contour>,
    generation: usize,
}

impl PythonManager {
    /// The canonical descriptor map.
    pub closed spec fn contours(&self) -> Map<u64, ContourV> {
        to_map(self.entries@)
    }

    /// Well-formedness: no two stored descriptors share a type identity.
    pub closed spec fn inv(&self) -> bool {
        ids_unique(self.entries@)
    }

    /// The current generation.
    pub closed spec fn epoch(&self) -> nat {
        self.generation as nat
    }

    /// A fresh manager: no descriptors, generation zero.
    pub fn new() -> (r: Self)
        ensures
            r.inv(),
            r.contours() == Map::<u64, ContourV>::empty(),
            r.epoch() == 0,
    {
        PythonManager { entries: Vec::new(), generation: 0 }
    }

    /// Reads the generation counter.
    pub fn generation(&self) -> (r: usize)
        ensures
            r as nat == self.epoch(),
    {
        self.generation
    }

    /// Advances the generation by one: projections captured before this
    /// call are treated as stale from here on.  The registry is untouched.
    pub fn increment_generation(&mut self)
        requires
            old(self).epoch() < usize::MAX as nat,
        ensures
            final(self).inv() == old(self).inv(),
            final(self).epoch() == old(self).epoch() + 1,
            final(self).contours() == old(self).contours(),
    {
        self.generation = self.generation + 1;
    }

    /// Puts a descriptor in the registry, or reports how it already
    /// stands there, exactly as [`register_spec`] lays it out: `Ok(true)`
    /// when a structurally equal descriptor is present, `Ok(false)` when
    /// the identity was new, and a mismatch error — with the registry
    /// untouched — when the present descriptor disagrees.  The generation
    /// counter is unaffected.
    pub fn register(&mut self, contour: Contour) -> (r: Result<bool, ContourError>)
        requires
            old(self).inv(),
        ensures
            final(self).inv(),
            final(self).epoch() == old(self).epoch(),
            r == register_spec(old(self).contours(), contour@).0,
            final(self).contours() == register_spec(old(self).contours(), contour@).1,
    {
        proof {
            lemma_to_map(self.entries@);
        }
        let id = contour.type_id();
        let n = self.entries.len();
        let mut i: usize = 0;
        while i < n
            invariant
                *self == *old(self),
                n == self.entries@.len(),
                i <= n,
                id == contour@.type_id(),
                ids_unique(self.entries@),
                forall|j: int| 0 <= j < i ==> (#[trigger] self.entries@[j])@.type_id() != id,
            decreases n - i,
        {
            if self.entries[i].type_id() == id {
                proof {
                    lemma_to_map(self.entries@);
                    assert(self.entries@[i as int]@.type_id() == id);
                    assert(to_map(self.entries@).contains_key(id));
                    assert(to_map(self.entries@)[id] == self.entries@[i as int]@);
                }
                if contour_eq(&self.entries[i], &contour) {
                    return Ok(true);
                } else {
                    proof {
                        assert(old(self).contours().contains_key(id));
                        assert(old(self).contours()[id] != contour@);
                    }
                    return Err(ContourError::ContourMismatch);
                }
            }
            i += 1;
        }
        proof {
            lemma_to_map(self.entries@);
        }
        let ghost pre = self.entries@;
        self.entries.push(contour);
        proof {
            assert(self.entries@.drop_last() =~= pre);
            assert(ids_unique(self.entries@)) by {
                assert(forall|j: int|
                    0 <= j < pre.len() ==> (#[trigger] pre[j])@.type_id() != id);
            }
        }
        Ok(false)
    }

    /// The number of registered descriptors: one per type identity.
    pub fn len(&self) -> (r: usize)
        requires
            self.inv(),
        ensures
            r as nat == self.contours().dom().len(),
    {
        proof {
            lemma_to_map(self.entries@);
        }
        self.entries.len()
    }

    /// Looks a type identity up: the stored descriptor, or `None` when the
    /// identity was never registered.
    pub fn get(&self, type_id: u64) -> (r: Option<&Contour>)
        requires
            self.inv(),
        ensures
            match r {
                Some(c) => self.contours().contains_key(type_id) && c@ == self.contours()[type_id]
                    && c@.type_id() == type_id,
                None => !self.contours().contains_key(type_id),
            },
    {
        find_contour(&self.entries, type_id)
    }

    /// Charts `root`: registers, out of the `supplied` catalogue, a
    /// descriptor for the root type and for every type reachable from it
    /// through fields that was not registered before the call — each
    /// exactly once, however many duplicate or cyclic edges the type
    /// graph has.  Charting stops where it meets an already-registered
    /// type; at every such stopping point a supplied descriptor must
    /// agree structurally with the stored one.  On an error the registry
    /// is left exactly as it was: a missing descriptor is reported as an
    /// unknown type, a disagreeing one as a mismatch.
    pub fn chart(&mut self, root: u64, supplied: &Vec<Contour>) -> (r: Result<(), ContourError>)
        requires
            old(self).inv(),
            ids_unique(supplied@),
        ensures
            final(self).inv(),
            final(self).epoch() == old(self).epoch(),
            ({
                let cat = to_map(supplied@);
                let m0 = old(self).contours();
                match r {
                    Ok(_) => {
                        &&& all_supplied(cat, m0.dom(), root)
                        &&& drift_free(cat, m0, root)
                        &&& final(self).contours() == m0.union_prefer_right(
                            cat.restrict(fresh_set(cat, m0.dom(), root)),
                        )
                    },
                    Err(e) => {
                        &&& *final(self) == *old(self)
                        &&& (e == ContourError::UnknownType || e
                            == ContourError::ContourMismatch)
                        &&& (e == ContourError::UnknownType <==> !all_supplied(
                            cat,
                            m0.dom(),
                            root,
                        ))
                        &&& (e == ContourError::ContourMismatch ==> !drift_free(cat, m0, root))
                    },
                }
            }),
    {
        broadcast use vstd::set::group_set_axioms;

        let ghost cat = to_map(supplied@);
        let ghost m0 = old(self).contours();
        let ghost blocked = m0.dom();
        let ghost fres = fresh_set(cat, blocked, root);
        proof {
            lemma_to_map(supplied@);
            lemma_to_map(Seq::<Contour>::empty());
        }

        let mut fresh: Vec<Contour> = Vec::new();
        let mut pending: Vec<u64> = Vec::new();
        pending.push(root);
        proof {
            if !blocked.contains(root) {
                lemma_fresh_root(cat, blocked, root);
            }
            assert(pending@[0] == root);
            assert(pending@.contains(root));
        }

        while pending.len() > 0
            invariant
                *self == *old(self),
                self.inv(),
                ids_unique(supplied@),
                cat == to_map(supplied@),
                m0 == old(self).contours(),
                blocked == m0.dom(),
                fres == fresh_set(cat, blocked, root),
                cat.dom().finite(),
                ids_unique(fresh@),
                fresh@.len() == to_map(fresh@).dom().len(),
                to_map(fresh@).dom().subset_of(cat.dom()),
                fresh@.len() <= cat.dom().len(),
                forall|ix: int|
                    0 <= ix < fresh@.len() ==> {
                        let c = (#[trigger] fresh@[ix])@;
                        cat.contains_key(c.type_id()) && cat[c.type_id()] == c
                            && !blocked.contains(c.type_id()) && fres.contains(c.type_id())
                    },
                forall|j: int|
                    0 <= j < pending@.len() ==> blocked.contains(#[trigger] pending@[j])
                        || fres.contains(pending@[j]),
                forall|s: u64, c: u64|
                    #![trigger to_map(fresh@).dom().contains(s), child_ids(cat[s]).contains(c)]
                    to_map(fresh@).dom().contains(s) && cat.contains_key(s) && child_ids(
                        cat[s],
                    ).contains(c) ==> blocked.contains(c) || to_map(fresh@).dom().contains(c)
                        || pending@.contains(c),
                pending@.contains(root) || blocked.contains(root) || to_map(
                    fresh@,
                ).dom().contains(root),
            decreases cat.dom().len() - fresh@.len(), pending@.len(),
        {
            let ghost pending_pre = pending@;
            let t = pending.pop().unwrap();
            proof {
                assert(pending@ =~= pending_pre.drop_last());
                assert(t == pending_pre.last());
            }
            if self.get(t).is_some() {
                proof {
                    assert(blocked.contains(t));
                    assert forall|s: u64, c: u64|
                        #![trigger to_map(fresh@).dom().contains(s), child_ids(cat[s]).contains(c)]
                        to_map(fresh@).dom().contains(s) && cat.contains_key(s) && child_ids(
                            cat[s],
                        ).contains(c) implies blocked.contains(c) || to_map(
                        fresh@,
                    ).dom().contains(c) || pending@.contains(c) by {
                        if !blocked.contains(c) && !to_map(fresh@).dom().contains(c) {
                            assert(pending_pre.contains(c));
                            if c != t {
                                let j = choose|j: int|
                                    0 <= j < pending_pre.len() && pending_pre[j] == c;
                                assert(pending@[j] == c);
                            }
                        }
                    }
                    if !blocked.contains(root) && !to_map(fresh@).dom().contains(root) {
                        if root != t {
                            let j = choose|j: int|
                                0 <= j < pending_pre.len() && pending_pre[j] == root;
                            assert(pending@[j] == root);
                        }
                    }
                }
            } else if find_contour(&fresh, t).is_some() {
                proof {
                    assert(to_map(fresh@).dom().contains(t));
                    assert forall|s: u64, c: u64|
                        #![trigger to_map(fresh@).dom().contains(s), child_ids(cat[s]).contains(c)]
                        to_map(fresh@).dom().contains(s) && cat.contains_key(s) && child_ids(
                            cat[s],
                        ).contains(c) implies blocked.contains(c) || to_map(
                        fresh@,
                    ).dom().contains(c) || pending@.contains(c) by {
                        if !blocked.contains(c) && !to_map(fresh@).dom().contains(c) {
                            assert(pending_pre.contains(c));
                            if c != t {
                                let j = choose|j: int|
                                    0 <= j < pending_pre.len() && pending_pre[j] == c;
                                assert(pending@[j] == c);
                            }
                        }
                    }
                    if !blocked.contains(root) && !to_map(fresh@).dom().contains(root) {
                        if root != t {
                            let j = choose|j: int|
                                0 <= j < pending_pre.len() && pending_pre[j] == root;
                            assert(pending@[j] == root);
                        }
                    }
                }
            } else {
                proof {
                    assert(!blocked.contains(t));
                    assert(fres.contains(t));
                }
                match find_contour(supplied, t) {
                    None => {
                        proof {
                            assert(!cat.contains_key(t));
                            assert(!all_supplied(cat, blocked, root));
                        }
                        return Err(ContourError::UnknownType);
                    },
                    Some(c) => {
                        let copy = contour_copy(c);
                        let ghost fresh_pre = fresh@;
                        fresh.push(copy);
                        let kids = child_id_list(c);
                        proof {
                            assert(fresh@.drop_last() =~= fresh_pre);
                            assert(to_map(fresh@) == to_map(fresh_pre).insert(t, c@));
                            assert(!to_map(fresh_pre).contains_key(t));
                            lemma_to_map(fresh_pre);
                            lemma_to_map(fresh@);
                            assert(ids_unique(fresh@)) by {
                                assert(forall|j: int|
                                    0 <= j < fresh_pre.len() ==> (#[trigger] fresh_pre[j])@.type_id()
                                        != t);
                            }
                            assert(to_map(fresh@).dom() =~= to_map(fresh_pre).dom().insert(t));
                            vstd::set_lib::lemma_len_subset(to_map(fresh@).dom(), cat.dom());
                            assert(kids@ == child_ids(cat[t]));
                        }
                        let ghost pend0 = pending@;
                        let mut ki: usize = 0;
                        while ki < kids.len()
                            invariant
                                ki <= kids.len(),
                                pending@ == pend0 + kids@.take(ki as int),
                            decreases kids@.len() - ki,
                        {
                            pending.push(kids[ki]);
                            proof {
                                assert(pending@ =~= pend0 + kids@.take(ki + 1));
                            }
                            ki += 1;
                        }
                        proof {
                            assert(pending@ == pend0 + kids@) by {
                                assert(kids@.take(kids@.len() as int) =~= kids@);
                            }
                            assert forall|j: int|
                                0 <= j < pending@.len() implies blocked.contains(
                                #[trigger] pending@[j],
                            ) || fres.contains(pending@[j]) by {
                                if j < pend0.len() {
                                    assert(pending@[j] == pend0[j]);
                                    assert(pend0[j] == pending_pre[j]);
                                } else {
                                    let k = pending@[j];
                                    assert(k == kids@[j - pend0.len()]);
                                    assert(child_ids(cat[t]).contains(k));
                                    if !blocked.contains(k) {
                                        lemma_fresh_step(cat, blocked, root, t, k);
                                    }
                                }
                            }
                            assert forall|s: u64, c: u64|
                                #![trigger to_map(fresh@).dom().contains(s), child_ids(cat[s]).contains(c)]
                                to_map(fresh@).dom().contains(s) && cat.contains_key(s)
                                    && child_ids(cat[s]).contains(c) implies blocked.contains(c)
                                || to_map(fresh@).dom().contains(c) || pending@.contains(c) by {
                                if !blocked.contains(c) && !to_map(fresh@).dom().contains(c) {
                                    if s == t {
                                        let j = child_ids(cat[t]).index_of(c);
                                        assert(pending@[pend0.len() + j] == c);
                                    } else {
                                        assert(to_map(fresh_pre).dom().contains(s));
                                        assert(pending_pre.contains(c));
                                        if c != t {
                                            let j = choose|j: int|
                                                0 <= j < pending_pre.len() && pending_pre[j] == c;
                                            assert(pend0[j] == c);
                                            assert(pending@[j] == c);
                                        }
                                    }
                                }
                            }
                            if !blocked.contains(root) && !to_map(fresh@).dom().contains(root) {
                                if root != t {
                                    let j = choose|j: int|
                                        0 <= j < pending_pre.len() && pending_pre[j] == root;
                                    assert(pend0[j] == root);
                                    assert(pending@[j] == root);
                                }
                            }
                        }
                    },
                }
            }
        }
        // Every fresh type is collected now, and everything collected came
        // from the catalogue.
        proof {
            lemma_to_map(fresh@);
            assert forall|t: u64| fres.contains(t) implies to_map(fresh@).dom().contains(t) by {
                let p = choose|p: Seq<u64>|
                    #[trigger] is_fresh_path(cat, blocked, root, p) && p.last() == t;
                lemma_fresh_complete(cat, blocked, root, to_map(fresh@).dom(), p);
            }
            assert(all_supplied(cat, blocked, root));
        }

        // Boundary checks: where charting stopped at an existing
        // registration, a supplied descriptor must agree with it.
        if let Some(rc) = self.get(root) {
            if let Some(sc) = find_contour(supplied, root) {
                if !contour_eq(sc, rc) {
                    proof {
                        assert(is_boundary(cat, m0, root, root));
                        assert(!drift_free(cat, m0, root));
                    }
                    return Err(ContourError::ContourMismatch);
                }
            }
        }
        proof {
            assert(m0.contains_key(root) && cat.contains_key(root) ==> cat[root] == m0[root]);
        }
        let mut bi: usize = 0;
        while bi < fresh.len()
            invariant
                *self == *old(self),
                self.inv(),
                ids_unique(supplied@),
                cat == to_map(supplied@),
                m0 == old(self).contours(),
                blocked == m0.dom(),
                fres == fresh_set(cat, blocked, root),
                all_supplied(cat, blocked, root),
                bi <= fresh@.len(),
                m0.contains_key(root) && cat.contains_key(root) ==> cat[root] == m0[root],
                forall|ix: int|
                    0 <= ix < fresh@.len() ==> {
                        let c = (#[trigger] fresh@[ix])@;
                        cat.contains_key(c.type_id()) && cat[c.type_id()] == c
                            && !blocked.contains(c.type_id()) && fres.contains(c.type_id())
                    },
                forall|ix: int, c: u64|
                    #![trigger child_ids((fresh@[ix])@).contains(c)]
                    0 <= ix < bi && child_ids((fresh@[ix])@).contains(c) && m0.contains_key(c)
                        && cat.contains_key(c) ==> cat[c] == m0[c],
            decreases fresh@.len() - bi,
        {
            let kids = child_id_list(&fresh[bi]);
            let mut kj: usize = 0;
            while kj < kids.len()
                invariant
                    *self == *old(self),
                    self.inv(),
                    ids_unique(supplied@),
                    cat == to_map(supplied@),
                    m0 == old(self).contours(),
                    blocked == m0.dom(),
                    fres == fresh_set(cat, blocked, root),
                    all_supplied(cat, blocked, root),
                    bi < fresh@.len(),
                    kj <= kids@.len(),
                    kids@ == child_ids((fresh@[bi as int])@),
                    forall|ix: int|
                        0 <= ix < fresh@.len() ==> {
                            let c = (#[trigger] fresh@[ix])@;
                            cat.contains_key(c.type_id()) && cat[c.type_id()] == c
                                && !blocked.contains(c.type_id()) && fres.contains(c.type_id())
                        },
                    forall|j: int|
                        0 <= j < kj && m0.contains_key(#[trigger] kids@[j]) && cat.contains_key(
                            kids@[j],
                        ) ==> cat[kids@[j]] == m0[kids@[j]],
                decreases kids@.len() - kj,
            {
                let k = kids[kj];
                if let Some(rc) = self.get(k) {
                    if let Some(sc) = find_contour(supplied, k) {
                        if !contour_eq(sc, rc) {
                            proof {
                                let ghost s = (fresh@[bi as int])@.type_id();
                                assert(fres.contains(s));
                                assert(cat.contains_key(s));
                                assert(cat[s] == (fresh@[bi as int])@);
                                assert(child_ids(cat[s]).contains(k));
                                assert(is_boundary(cat, m0, root, k));
                                assert(!drift_free(cat, m0, root));
                            }
                            return Err(ContourError::ContourMismatch);
                        }
                    }
                }
                kj += 1;
            }
            bi += 1;
        }
        proof {
            lemma_to_map(fresh@);
            assert forall|t: u64|
                is_boundary(cat, m0, root, t) && cat.contains_key(t) implies cat[t] == m0[t] by {
                if t != root {
                    let s = choose|s: u64|
                        #[trigger] fresh_set(cat, m0.dom(), root).contains(s) && cat.contains_key(
                            s,
                        ) && child_ids(cat[s]).contains(t);
                    assert(to_map(fresh@).dom().contains(s));
                    let ix = choose|ix: int|
                        0 <= ix < fresh@.len() && (#[trigger] fresh@[ix])@.type_id() == s;
                    assert(cat[s] == (fresh@[ix])@);
                    assert(child_ids((fresh@[ix])@).contains(t));
                }
            }
            assert(drift_free(cat, m0, root));
        }

        // Commit: append every collected descriptor to the registry.
        let ghost entries_pre = self.entries@;
        proof {
            lemma_to_map(entries_pre);
        }
        let mut ci: usize = 0;
        while ci < fresh.len()
            invariant
                self.generation == old(self).generation,
                ids_unique(supplied@),
                cat == to_map(supplied@),
                m0 == old(self).contours(),
                blocked == m0.dom(),
                fres == fresh_set(cat, blocked, root),
                entries_pre == old(self).entries@,
                m0 == to_map(entries_pre),
                ci <= fresh@.len(),
                ids_unique(fresh@),
                self.entries@.len() == entries_pre.len() + ci,
                forall|j: int| 0 <= j < entries_pre.len() ==> self.entries@[j] == entries_pre[j],
                forall|j: int|
                    0 <= j < ci ==> (#[trigger] self.entries@[entries_pre.len() + j])@ == (
                    fresh@[j])@,
                ids_unique(self.entries@),
                forall|ix: int|
                    0 <= ix < fresh@.len() ==> {
                        let c = (#[trigger] fresh@[ix])@;
                        cat.contains_key(c.type_id()) && cat[c.type_id()] == c
                            && !blocked.contains(c.type_id()) && fres.contains(c.type_id())
                    },
                forall|t: u64|
                    #[trigger] fres.contains(t) ==> to_map(fresh@).dom().contains(t),
            decreases fresh@.len() - ci,
        {
            let copy = contour_copy(&fresh[ci]);
            let ghost before = self.entries@;
            self.entries.push(copy);
            proof {
                lemma_to_map(entries_pre);
                lemma_to_map(fresh@);
                assert(ids_unique(self.entries@)) by {
                    assert forall|a: int, b: int|
                        0 <= a < b < self.entries@.len() implies (#[trigger] self.entries@[a])@.type_id()
                        != (#[trigger] self.entries@[b])@.type_id() by {
                        if b == self.entries@.len() - 1 {
                            assert(self.entries@[b]@ == (fresh@[ci as int])@);
                            let tid = (fresh@[ci as int])@.type_id();
                            if a < entries_pre.len() {
                                assert(self.entries@[a] == entries_pre[a]);
                                assert(to_map(entries_pre).dom().contains(
                                    entries_pre[a]@.type_id(),
                                ));
                                assert(!blocked.contains(tid));
                            } else {
                                let j = a - entries_pre.len();
                                assert(before[a] == self.entries@[a]);
                                assert(before[entries_pre.len() + j]@ == (fresh@[j])@);
                                assert(self.entries@[a]@ == (fresh@[j])@);
                            }
                        } else {
                            assert(before[a] == self.entries@[a]);
                            assert(before[b] == self.entries@[b]);
                        }
                    }
                }
            }
            ci += 1;
        }
        proof {
            lemma_to_map(self.entries@);
            lemma_to_map(entries_pre);
            lemma_to_map(fresh@);
            let mfin = to_map(self.entries@);
            let want = m0.union_prefer_right(cat.restrict(fres));
            assert forall|t: u64| #![auto] mfin.contains_key(t) <==> want.contains_key(t) by {
                if mfin.contains_key(t) {
                    let ix = choose|ix: int|
                        0 <= ix < self.entries@.len() && (#[trigger] self.entries@[ix])@.type_id()
                            == t;
                    if ix < entries_pre.len() {
                        assert(entries_pre[ix]@.type_id() == t);
                        assert(m0.contains_key(t));
                    } else {
                        let j = ix - entries_pre.len();
                        assert(self.entries@[entries_pre.len() + j]@ == (fresh@[j])@);
                        assert(self.entries@[ix]@ == (fresh@[j])@);
                        assert(fres.contains(t));
                        assert(cat.contains_key(t));
                    }
                }
                if want.contains_key(t) {
                    if m0.contains_key(t) {
                        let ix = choose|ix: int|
                            0 <= ix < entries_pre.len() && (#[trigger] entries_pre[ix])@.type_id()
                                == t;
                        assert(self.entries@[ix]@.type_id() == t);
                    } else {
                        assert(fres.contains(t));
                        assert(to_map(fresh@).dom().contains(t));
                        let j = choose|j: int|
                            0 <= j < fresh@.len() && (#[trigger] fresh@[j])@.type_id() == t;
                        assert(self.entries@[entries_pre.len() + j]@.type_id() == t);
                    }
                }
            }
            assert forall|t: u64| #![auto] mfin.contains_key(t) implies mfin[t] == want[t] by {
                if m0.contains_key(t) {
                    let ix = choose|ix: int|
                        0 <= ix < entries_pre.len() && (#[trigger] entries_pre[ix])@.type_id() == t;
                    assert(self.entries@[ix]@.type_id() == t);
                    assert(mfin[t] == self.entries@[ix]@);
                    assert(to_map(entries_pre)[t] == entries_pre[ix]@);
                    if fres.contains(t) {
                        lemma_fresh_not_blocked(cat, blocked, root, t);
                    }
                    assert(!fres.contains(t));
                } else {
                    assert(fres.contains(t));
                    let j = choose|j: int|
                        0 <= j < fresh@.len() && (#[trigger] fresh@[j])@.type_id() == t;
                    assert(self.entries@[entries_pre.len() + j]@.type_id() == t);
                    assert(mfin[t] == self.entries@[entries_pre.len() + j]@);
                    assert(mfin[t] == (fresh@[j])@);
                    assert(cat[t] == (fresh@[j])@);
                }
            }
            assert(mfin =~= want);
        }
        Ok(())
    }

    /// Checks one field list against the registry, exactly deciding
    /// [`entries_layout_wf`].
    fn check_entries(&self, entries: &Vec<(u64, usize)>, size: usize) -> (r: bool)
        requires
            self.inv(),
        ensures
            r == entries_layout_wf(
                self.contours(),
                entries@.map_values(|e: (u64, usize)| (e.0, e.1 as nat)),
                size as nat,
            ),
    {
        let ghost ev = entries@.map_values(|e: (u64, usize)| (e.0, e.1 as nat));
        let n = entries.len();
        let mut sizes: Vec<usize> = Vec::new();
        let mut i: usize = 0;
        while i < n
            invariant
                self.inv(),
                n == entries@.len(),
                ev == entries@.map_values(|e: (u64, usize)| (e.0, e.1 as nat)),
                i <= n,
                sizes@.len() == i,
                forall|j: int|
                    0 <= j < i ==> self.contours().contains_key((#[trigger] ev[j]).0)
                        && sizes@[j] as nat == self.contours()[ev[j].0].size() && ev[j].1 < size
                        as nat,
            decreases n - i,
        {
            let e = entries[i];
            match self.get(e.0) {
                None => {
                    proof {
                        assert(ev[i as int].0 == e.0);
                        assert(!entries_layout_wf(self.contours(), ev, size as nat));
                    }
                    return false;
                },
                Some(c) => {
                    if e.1 >= size {
                        proof {
                            assert(ev[i as int].1 == e.1 as nat);
                            assert(!entries_layout_wf(self.contours(), ev, size as nat));
                        }
                        return false;
                    }
                    sizes.push(c.size());
                },
            }
            i += 1;
        }
        let mut a: usize = 0;
        while a < n
            invariant
                self.inv(),
                n == entries@.len(),
                ev == entries@.map_values(|e: (u64, usize)| (e.0, e.1 as nat)),
                sizes@.len() == n,
                a <= n,
                forall|j: int|
                    0 <= j < n ==> self.contours().contains_key((#[trigger] ev[j]).0)
                        && sizes@[j] as nat == self.contours()[ev[j].0].size() && ev[j].1 < size
                        as nat,
                forall|x: int, y: int|
                    #![trigger ev[x], ev[y]]
                    0 <= x < a && x < y < n ==> ev[x].1 + self.contours()[ev[x].0].size()
                        <= ev[y].1 || ev[y].1 + self.contours()[ev[y].0].size() <= ev[x].1,
            decreases n - a,
        {
            let mut b: usize = a + 1;
            while b < n
                invariant
                    self.inv(),
                    n == entries@.len(),
                    ev == entries@.map_values(|e: (u64, usize)| (e.0, e.1 as nat)),
                    sizes@.len() == n,
                    a < n,
                    a + 1 <= b <= n,
                    forall|j: int|
                        0 <= j < n ==> self.contours().contains_key((#[trigger] ev[j]).0)
                            && sizes@[j] as nat == self.contours()[ev[j].0].size() && ev[j].1
                            < size as nat,
                    forall|y: int|
                        a < y < b ==> ev[a as int].1 + self.contours()[ev[a as int].0].size()
                            <= (#[trigger] ev[y]).1 || ev[y].1 + self.contours()[ev[y].0].size()
                            <= ev[a as int].1,
                decreases n - b,
            {
                if !ranges_disjoint(entries[a].1, sizes[a], entries[b].1, sizes[b]) {
                    proof {
                        assert(ev[a as int].1 == entries@[a as int].1 as nat);
                        assert(ev[b as int].1 == entries@[b as int].1 as nat);
                        assert(!entries_layout_wf(self.contours(), ev, size as nat));
                    }
                    return false;
                }
                b += 1;
            }
            a += 1;
        }
        proof {
            assert forall|x: int, y: int|
                #![trigger ev[x], ev[y]]
                0 <= x < n && 0 <= y < n && x != y implies ev[x].1
                + self.contours()[ev[x].0].size() <= ev[y].1 || ev[y].1
                + self.contours()[ev[y].0].size() <= ev[x].1 by {
                if x < y {
                    assert(ev[x].1 + self.contours()[ev[x].0].size() <= ev[y].1 || ev[y].1
                        + self.contours()[ev[y].0].size() <= ev[x].1);
                }
            }
            assert(entries_layout_wf(self.contours(), ev, size as nat));
        }
        true
    }

    /// Decides whether every registered struct- and tuple-shaped
    /// descriptor lays its fields out as the data model demands — each
    /// offset inside `[0, size)` and no two fields' `(offset,
    /// subtype-size)` byte ranges overlapping — exactly as [`layout_wf`]
    /// states it.
    pub fn validate_layouts(&self) -> (r: bool)
        requires
            self.inv(),
        ensures
            r == layout_wf(self.contours()),
    {
        proof {
            lemma_to_map(self.entries@);
        }
        let n = self.entries.len();
        let mut i: usize = 0;
        while i < n
            invariant
                self.inv(),
                n == self.entries@.len(),
                i <= n,
                forall|j: int|
                    0 <= j < i ==> {
                        let c = (#[trigger] self.entries@[j])@;
                        (c is Struct || c is Tuple) ==> entries_layout_wf(
                            self.contours(),
                            layout_entries(c),
                            c.size(),
                        )
                    },
            decreases n - i,
        {
            let c = &self.entries[i];
            let is_flat = match c {
                Contour::Struct { .. } => true,
                Contour::Tuple { .. } => true,
                _ => false,
            };
            if is_flat {
                let flat = layout_entry_list(c);
                let size = c.size();
                if !self.check_entries(&flat, size) {
                    proof {
                        lemma_to_map(self.entries@);
                        let tid = self.entries@[i as int]@.type_id();
                        assert(self.contours().contains_key(tid));
                        assert(self.contours()[tid] == self.entries@[i as int]@);
                        assert(!layout_wf(self.contours()));
                    }
                    return false;
                }
            }
            i += 1;
        }
        proof {
            lemma_to_map(self.entries@);
            assert forall|tid: u64|
                self.contours().contains_key(tid) && (self.contours()[tid] is Struct
                    || self.contours()[tid] is Tuple) implies entries_layout_wf(
                self.contours(),
                layout_entries(self.contours()[tid]),
                self.contours()[tid].size(),
            ) by {
                let j = choose|j: int|
                    0 <= j < self.entries@.len() && (#[trigger] self.entries@[j])@.type_id()
                        == tid;
                assert(self.contours()[tid] == self.entries@[j]@);
            }
        }
        true
    }
}

impl ContourMap for PythonManager {
    open spec fn registry(&self) -> Map<u64, ContourV> {
        self.contours()
    }

    open spec fn map_inv(&self) -> bool {
        self.inv()
    }

    fn register(&mut self, contour: Contour) -> (r: Result<bool, ContourError>) {
        PythonManager::register(self, contour)
    }
}

} // verus!
