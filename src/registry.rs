//! The mod registry: mods indexed by mesh signature, a name index for parent
//! lookup, parent resolution, and the arbitration that picks which mod of a
//! bucket (if any) stands in for a draw.

use vstd::prelude::*;
use fnv::FnvHashMap;
use crate::names::names_equal;

verus! {

/// Managed-side mod type codes.
pub const MOD_TYPE_CPU_ADDITIVE: i32 = 1;
pub const MOD_TYPE_CPU_REPLACEMENT: i32 = 2;
pub const MOD_TYPE_GPU_ADDITIVE: i32 = 3;
pub const MOD_TYPE_GPU_REPLACEMENT: i32 = 4;
pub const MOD_TYPE_DELETION: i32 = 7;

/// The kinds of mod the registry can hold.
#[derive(Clone, Copy, Debug, PartialEq, Eq, Structural)]
pub enum ModKind {
    GpuReplacement,
    Deletion,
    CpuAdditive,
    GpuAdditive,
}

/// Kinds that the loader accepts: only replacements and deletions alter drawing.
pub open spec fn spec_loadable_kind(code: i32) -> Option<ModKind> {
    if code == MOD_TYPE_GPU_REPLACEMENT {
        Some(ModKind::GpuReplacement)
    } else if code == MOD_TYPE_DELETION {
        Some(ModKind::Deletion)
    } else {
        None
    }
}

/// Maps a managed mod type code to a kind the loader accepts, or `None` for
/// a kind that is not supported.
pub fn loadable_kind(code: i32) -> (r: Option<ModKind>)
    ensures
        r == spec_loadable_kind(code),
{
    if code == MOD_TYPE_GPU_REPLACEMENT {
        Some(ModKind::GpuReplacement)
    } else if code == MOD_TYPE_DELETION {
        Some(ModKind::Deletion)
    } else {
        None
    }
}

/// The lookup key of a mesh signature.
pub open spec fn spec_mod_key(verts: u32, prims: u32) -> u32 {
    ((verts << 16u32) ^ prims) as u32
}

/// Folds a mesh signature (reference vertex count, reference primitive count)
/// into a table key. Different signatures may share a key; a chosen mod is
/// checked against the draw's signature before it is used.
pub fn mod_key(verts: u32, prims: u32) -> (k: u32)
    ensures
        k == spec_mod_key(verts, prims),
{
    (verts << 16u32) ^ prims
}

/// Calling `mod_key` twice on the same signature gives the same key: the key
/// depends on the two counts alone.
pub proof fn lemma_mod_key_deterministic(a: u32, b: u32, k1: u32, k2: u32)
    requires
        k1 == spec_mod_key(a, b),
        k2 == spec_mod_key(a, b),
    ensures
        k1 == k2,
{
}

/// How far a mod's GPU resources are made. The newer API generation makes
/// them on first use, once the input layout in use for the mod's draws has
/// been seen (and is held).
#[derive(Clone, Copy, Debug, PartialEq, Eq, Structural)]
pub enum D3dState {
    Unloaded,
    Partial(u64),
    Loaded,
}

/// One replacement or deletion directive, with the GPU handles it owns
/// (zero where absent).
pub struct NativeMod {
    pub name: String,
    pub parent_name: String,
    pub kind: ModKind,
    pub ref_prims: u32,
    pub ref_verts: u32,
    pub prim_count: u32,
    pub vert_count: u32,
    pub vert_size_bytes: u32,
    pub vb: u64,
    pub decl: u64,
    pub textures: [u64; 4],
    pub is_parent: bool,
    pub last_frame_rendered: Option<u64>,
    pub d3d_state: D3dState,
}

pub ghost struct ModView {
    pub name: Seq<char>,
    pub parent_name: Seq<char>,
    pub kind: ModKind,
    pub ref_prims: u32,
    pub ref_verts: u32,
    pub prim_count: u32,
    pub vert_count: u32,
    pub vert_size_bytes: u32,
    pub vb: u64,
    pub decl: u64,
    pub textures: Seq<u64>,
    pub is_parent: bool,
    pub last_frame_rendered: Option<u64>,
    pub d3d_state: D3dState,
}

impl View for NativeMod {
    type V = ModView;

    open spec fn view(&self) -> ModView {
        ModView {
            name: self.name@,
            parent_name: self.parent_name@,
            kind: self.kind,
            ref_prims: self.ref_prims,
            ref_verts: self.ref_verts,
            prim_count: self.prim_count,
            vert_count: self.vert_count,
            vert_size_bytes: self.vert_size_bytes,
            vb: self.vb,
            decl: self.decl,
            textures: self.textures@,
            is_parent: self.is_parent,
            last_frame_rendered: self.last_frame_rendered,
            d3d_state: self.d3d_state,
        }
    }
}

/// The GPU handles a mod owns, in release order: vertex buffer, declaration,
/// then each texture; absent (zero) handles are left out.
pub open spec fn handles_of(m: ModView) -> Seq<u64> {
    nonzero(seq![m.vb, m.decl].add(m.textures))
}

/// The non-zero entries of `s`, in order.
pub open spec fn nonzero(s: Seq<u64>) -> Seq<u64>
    decreases s.len(),
{
    if s.len() == 0 {
        Seq::empty()
    } else if s.last() != 0 {
        nonzero(s.drop_last()).push(s.last())
    } else {
        nonzero(s.drop_last())
    }
}

impl NativeMod {
    /// The handles this mod owns, as `handles_of` lists them.
    pub fn handles(&self) -> (r: Vec<u64>)
        ensures
            r@ == handles_of(self@),
    {
        let all: [u64; 6] = [
            self.vb,
            self.decl,
            self.textures[0],
            self.textures[1],
            self.textures[2],
            self.textures[3],
        ];
        let ghost whole = seq![self.vb, self.decl].add(self.textures@);
        assert(all@ =~= whole);
        let mut r: Vec<u64> = Vec::new();
        let mut i: usize = 0;
        while i < 6
            invariant
                i <= 6,
                all@ == whole,
                r@ == nonzero(whole.subrange(0, i as int)),
            decreases 6 - i,
        {
            let h = all[i];
            proof {
                let next = whole.subrange(0, i + 1);
                assert(next.drop_last() =~= whole.subrange(0, i as int));
                assert(next.last() == h);
            }
            if h != 0 {
                r.push(h);
            }
            i = i + 1;
        }
        assert(whole.subrange(0, 6) =~= whole);
        r
    }
}

/// The mods of a bucket, as views.
pub open spec fn views_of(v: Seq<NativeMod>) -> Seq<ModView> {
    v.map_values(|m: NativeMod| m@)
}

/// The table from key to bucket. Its entries live in an `FnvHashMap`.
#[verifier::external_body]
pub struct ModTable {
    map: FnvHashMap<u32, Vec<NativeMod>>,
}

/// What a `ModTable` holds: each key's bucket of mods.
pub uninterp spec fn buckets_of(t: ModTable) -> Map<u32, Seq<ModView>>;

impl ModTable {
    /// Relies on `FnvHashMap::default`: a new map is empty.
    #[verifier::external_body]
    pub(crate) fn new() -> (r: ModTable)
        ensures
            buckets_of(r).dom() == Set::<u32>::empty(),
    {
        ModTable { map: FnvHashMap::default() }
    }

    /// Relies on `HashMap::get` (on the fnv-hashed map): the bucket stored
    /// under `key`, if there is one.
    #[verifier::external_body]
    pub(crate) fn get(&self, key: u32) -> (r: Option<&Vec<NativeMod>>)
        ensures
            match r {
                Some(v) => buckets_of(*self).contains_key(key) && buckets_of(*self)[key]
                    == views_of(v@),
                None => !buckets_of(*self).contains_key(key),
            },
    {
        self.map.get(&key)
    }

    /// Relies on `HashMap::remove`: takes the bucket under `key` out of the map.
    #[verifier::external_body]
    pub(crate) fn take(&mut self, key: u32) -> (r: Option<Vec<NativeMod>>)
        ensures
            buckets_of(*final(self)) == buckets_of(*old(self)).remove(key),
            match r {
                Some(v) => buckets_of(*old(self)).contains_key(key) && buckets_of(*old(self))[key]
                    == views_of(v@),
                None => !buckets_of(*old(self)).contains_key(key),
            },
    {
        self.map.remove(&key)
    }

    /// Relies on `HashMap::insert`: stores `v` under `key`, replacing any bucket
    /// that was there.
    #[verifier::external_body]
    pub(crate) fn put(&mut self, key: u32, v: Vec<NativeMod>)
        ensures
            buckets_of(*final(self)) == buckets_of(*old(self)).insert(key, views_of(v@)),
    {
        self.map.insert(key, v);
    }

    /// Relies on `HashMap::keys`: every key once, in the map's own order.
    #[verifier::external_body]
    pub(crate) fn keys(&self) -> (r: Vec<u32>)
        ensures
            r@.no_duplicates(),
            forall|k: u32| r@.contains(k) <==> buckets_of(*self).contains_key(k),
    {
        self.map.keys().copied().collect()
    }
}

/// The name index: lower-cased mod name to the key of the mod's bucket.
#[verifier::external_body]
pub struct NameTable {
    map: FnvHashMap<String, u32>,
}

/// What a `NameTable` holds.
pub uninterp spec fn names_of(t: NameTable) -> Map<Seq<char>, u32>;

impl NameTable {
    /// Relies on `FnvHashMap::default`: a new map is empty.
    #[verifier::external_body]
    pub(crate) fn new() -> (r: NameTable)
        ensures
            names_of(r).dom() == Set::<Seq<char>>::empty(),
    {
        NameTable { map: FnvHashMap::default() }
    }

    /// Relies on `HashMap::get` with `String` keys, which compare by content.
    #[verifier::external_body]
    pub(crate) fn get(&self, name: &str) -> (r: Option<u32>)
        ensures
            match r {
                Some(k) => names_of(*self).contains_key(name@) && names_of(*self)[name@] == k,
                None => !names_of(*self).contains_key(name@),
            },
    {
        self.map.get(name).copied()
    }

    /// Relies on `HashMap::insert` with `String` keys.
    #[verifier::external_body]
    pub(crate) fn insert(&mut self, name: String, key: u32)
        ensures
            names_of(*final(self)) == names_of(*old(self)).insert(name@, key),
    {
        self.map.insert(name, key);
    }
}

/// The (bucket, position) pairs of a table: their number is the sum of the
/// bucket sizes.
pub open spec fn mod_slots(b: Map<u32, Seq<ModView>>) -> Set<(u32, int)> {
    Set::new(|p: (u32, int)| b.contains_key(p.0) && 0 <= p.1 < b[p.0].len())
}

/// The sum of the bucket sizes of a table.
pub open spec fn mod_total(b: Map<u32, Seq<ModView>>) -> nat {
    mod_slots(b).len()
}

/// Whether some mod of the table names `n` as its parent.
pub open spec fn referenced_as_parent(b: Map<u32, Seq<ModView>>, n: Seq<char>) -> bool {
    exists|k: u32, j: int|
        #![trigger b[k][j]]
        b.contains_key(k) && 0 <= j < b[k].len() && b[k][j].parent_name == n
}

pub struct ModRegistry {
    pub by_key: ModTable,
    pub by_name: NameTable,
    /// Every GPU handle the registry owns, in the order it was taken over.
    pub owned: Vec<u64>,
}

impl ModRegistry {
    pub open spec fn buckets(&self) -> Map<u32, Seq<ModView>> {
        buckets_of(self.by_key)
    }

    pub open spec fn names(&self) -> Map<Seq<char>, u32> {
        names_of(self.by_name)
    }

    /// The registry's invariant.
    pub open spec fn wf(&self) -> bool {
        let b = self.buckets();
        let n = self.names();
        &&& b.dom().finite()
        &&& n.dom().finite()
        &&& mod_slots(b).finite()
        &&& n.len() <= mod_total(b)
        &&& !n.contains_key(Seq::<char>::empty())
        // each name points at a bucket holding a mod of that name
        &&& forall|nm: Seq<char>|
            #![trigger n[nm]]
            n.contains_key(nm) ==> b.contains_key(n[nm]) && exists|i: int|
                #![trigger b[n[nm]][i]]
                0 <= i < b[n[nm]].len() && b[n[nm]][i].name == nm
        // buckets are non-empty and hold only mods of their key
        &&& forall|k: u32|
            #![trigger b[k]]
            b.contains_key(k) ==> b[k].len() > 0
        &&& forall|k: u32, i: int|
            #![trigger b[k][i]]
            b.contains_key(k) && 0 <= i < b[k].len() ==> spec_mod_key(
                b[k][i].ref_verts,
                b[k][i].ref_prims,
            ) == k && b[k][i].textures.len() == 4
                && (b[k][i].name.len() == 0 ==> !b[k][i].is_parent)
                && (b[k][i].last_frame_rendered.is_some() ==> b[k][i].is_parent)
    }

    /// An empty registry.
    pub fn new() -> (r: ModRegistry)
        ensures
            r.wf(),
            r.buckets() == Map::<u32, Seq<ModView>>::empty(),
            r.names() == Map::<Seq<char>, u32>::empty(),
            r.owned@ == Seq::<u64>::empty(),
    {
        let r = ModRegistry { by_key: ModTable::new(), by_name: NameTable::new(), owned: Vec::new() };
        proof {
            assert(mod_slots(r.buckets()) =~= Set::<(u32, int)>::empty());
        }
        r
    }
}

impl ModRegistry {
    /// The bucket stored under `key`, if any.
    pub fn bucket(&self, key: u32) -> (r: Option<&Vec<NativeMod>>)
        ensures
            match r {
                Some(v) => self.buckets().contains_key(key) && self.buckets()[key] == views_of(v@),
                None => !self.buckets().contains_key(key),
            },
    {
        self.by_key.get(key)
    }

    /// The key the name index holds for `name`, if any.
    pub fn key_of_name(&self, name: &str) -> (r: Option<u32>)
        ensures
            match r {
                Some(k) => self.names().contains_key(name@) && self.names()[name@] == k,
                None => !self.names().contains_key(name@),
            },
    {
        self.by_name.get(name)
    }

    /// The keys of all buckets, each once.
    pub fn keys(&self) -> (r: Vec<u32>)
        ensures
            r@.no_duplicates(),
            forall|k: u32| r@.contains(k) <==> self.buckets().contains_key(k),
    {
        self.by_key.keys()
    }
}

/// The bucket `k` holds after `m` is added to it.
pub open spec fn bucket_with(b: Map<u32, Seq<ModView>>, k: u32, m: ModView) -> Seq<ModView> {
    if b.contains_key(k) {
        b[k].push(m)
    } else {
        seq![m]
    }
}

/// Whether adding `m` enters its name in the name index: a replacement with a
/// non-empty name that is not taken yet.
pub open spec fn registers_name(n: Map<Seq<char>, u32>, m: ModView) -> bool {
    m.kind != ModKind::Deletion && m.name.len() > 0 && !n.contains_key(m.name)
}

/// Adding one mod to a bucket adds one slot.
proof fn lemma_slots_grow(b: Map<u32, Seq<ModView>>, k: u32, m: ModView)
    requires
        mod_slots(b).finite(),
    ensures
        ({
            let len = if b.contains_key(k) { b[k].len() as int } else { 0 };
            &&& mod_slots(b.insert(k, bucket_with(b, k, m))) == mod_slots(b).insert((k, len))
            &&& !mod_slots(b).contains((k, len))
            &&& mod_slots(b.insert(k, bucket_with(b, k, m))).finite()
            &&& mod_total(b.insert(k, bucket_with(b, k, m))) == mod_total(b) + 1
        }),
{
    let len = if b.contains_key(k) { b[k].len() as int } else { 0 };
    let b2 = b.insert(k, bucket_with(b, k, m));
    assert(mod_slots(b2) =~= mod_slots(b).insert((k, len)));
}

impl ModRegistry {
    /// Adds a mod to the bucket of its signature, enters its name in the name
    /// index when `registers_name` holds, and takes over its handles.
    pub fn insert_mod(&mut self, m: NativeMod)
        requires
            old(self).wf(),
            !m.is_parent,
            m.last_frame_rendered.is_none(),
        ensures
            final(self).wf(),
            final(self).buckets() == old(self).buckets().insert(
                spec_mod_key(m.ref_verts, m.ref_prims),
                bucket_with(old(self).buckets(), spec_mod_key(m.ref_verts, m.ref_prims), m@),
            ),
            final(self).names() == (if registers_name(old(self).names(), m@) {
                old(self).names().insert(m@.name, spec_mod_key(m.ref_verts, m.ref_prims))
            } else {
                old(self).names()
            }),
            final(self).owned@ == old(self).owned@ + handles_of(m@),
    {
        let ghost b0 = self.buckets();
        let ghost n0 = self.names();
        let ghost mv = m@;
        let k = mod_key(m.ref_verts, m.ref_prims);
        let register = m.kind != ModKind::Deletion && !m.name.as_str().is_empty()
            && self.by_name.get(m.name.as_str()).is_none();
        let name_copy = m.name.clone();
        let hs = m.handles();
        let mut i: usize = 0;
        let ghost owned0 = self.owned@;
        while i < hs.len()
            invariant
                i <= hs@.len(),
                self.owned@ == owned0 + hs@.subrange(0, i as int),
                self.buckets() == b0,
                self.names() == n0,
            decreases hs@.len() - i,
        {
            self.owned.push(hs[i]);
            proof {
                assert(hs@.subrange(0, i + 1) =~= hs@.subrange(0, i as int).push(hs@[i as int]));
            }
            i = i + 1;
        }
        assert(hs@.subrange(0, hs@.len() as int) =~= hs@);
        let mut bucket = match self.by_key.take(k) {
            Some(v) => v,
            None => Vec::new(),
        };
        bucket.push(m);
        proof {
            assert(views_of(bucket@) =~= bucket_with(b0, k, mv));
            assert(b0.remove(k).insert(k, bucket_with(b0, k, mv)) =~= b0.insert(k, bucket_with(b0, k, mv)));
        }
        self.by_key.put(k, bucket);
        if register {
            self.by_name.insert(name_copy, k);
        }
        proof {
            let b1 = self.buckets();
            let n1 = self.names();
            lemma_slots_grow(b0, k, mv);
            let len = if b0.contains_key(k) { b0[k].len() as int } else { 0 };
            assert(b1[k][len] == mv);
            assert forall|nm: Seq<char>| #[trigger] n1.contains_key(nm) implies b1.contains_key(n1[nm])
                && exists|i: int| #![trigger b1[n1[nm]][i]] 0 <= i < b1[n1[nm]].len() && b1[n1[nm]][i].name == nm by {
                if register && nm == mv.name {
                    assert(b1[n1[nm]][len].name == nm);
                } else {
                    assert(n0.contains_key(nm));
                    let k2 = n0[nm];
                    let i2 = choose|i: int| #![trigger b0[k2][i]] 0 <= i < b0[k2].len() && b0[k2][i].name == nm;
                    assert(b1[k2][i2] == b0[k2][i2]);
                }
            }
            assert forall|k2: u32, i2: int| #![trigger b1[k2][i2]] b1.contains_key(k2) && 0 <= i2 < b1[k2].len()
                implies spec_mod_key(b1[k2][i2].ref_verts, b1[k2][i2].ref_prims) == k2
                    && b1[k2][i2].textures.len() == 4
                    && (b1[k2][i2].name.len() == 0 ==> !b1[k2][i2].is_parent)
                    && (b1[k2][i2].last_frame_rendered.is_some() ==> b1[k2][i2].is_parent) by {
                if k2 == k && i2 == len {
                } else {
                    assert(b1[k2][i2] == b0[k2][i2]);
                }
            }
            assert forall|k2: u32| #[trigger] b1.contains_key(k2) implies b1[k2].len() > 0 by {
                if k2 != k {
                    assert(b1[k2] == b0[k2]);
                }
            }
        }
    }
}


/// Whether the mod named `nm` in bucket `k` is resolved as a parent: the name
/// index sends `nm` to that bucket and some mod names `nm` as its parent.
pub open spec fn parent_marked(
    b: Map<u32, Seq<ModView>>,
    n: Map<Seq<char>, u32>,
    k: u32,
    nm: Seq<char>,
) -> bool {
    n.contains_key(nm) && n[nm] == k && referenced_as_parent(b, nm)
}

/// A mod after parent resolution.
pub open spec fn resolved(
    b: Map<u32, Seq<ModView>>,
    n: Map<Seq<char>, u32>,
    k: u32,
    m: ModView,
) -> ModView {
    ModView { is_parent: m.is_parent || parent_marked(b, n, k, m.name), ..m }
}

/// A bucket after parent resolution.
pub open spec fn resolved_bucket(
    b: Map<u32, Seq<ModView>>,
    n: Map<Seq<char>, u32>,
    k: u32,
    s: Seq<ModView>,
) -> Seq<ModView> {
    s.map_values(|m: ModView| resolved(b, n, k, m))
}

/// The registry after `clear`: both tables and the handle list are empty, and
/// the handles released are those it owned.
pub open spec fn clear_post(before: ModRegistry, after: ModRegistry, released: Seq<u64>) -> bool {
    &&& after.wf()
    &&& after.buckets().dom() == Set::<u32>::empty()
    &&& after.names().dom() == Set::<Seq<char>>::empty()
    &&& after.owned@ == Seq::<u64>::empty()
    &&& released == before.owned@
}

/// Whether some entry of `list` reads `s`.
fn contains_name(list: &Vec<String>, s: &String) -> (r: bool)
    ensures
        r == exists|t: int| 0 <= t < list@.len() && (#[trigger] list@[t])@ == s@,
{
    let mut i: usize = 0;
    while i < list.len()
        invariant
            i <= list@.len(),
            forall|t: int| 0 <= t < i ==> (#[trigger] list@[t])@ != s@,
        decreases list@.len() - i,
    {
        if names_equal(&list[i], s) {
            return true;
        }
        i = i + 1;
    }
    false
}

impl ModRegistry {
    /// Empties the registry and returns every handle it owned, so that each
    /// can be released once.
    pub fn clear(&mut self) -> (released: Vec<u64>)
        requires
            old(self).wf(),
        ensures
            clear_post(*old(self), *final(self), released@),
    {
        let mut fresh = ModRegistry::new();
        core::mem::swap(self, &mut fresh);
        fresh.owned
    }

    /// The parent names that mods of the table declare: the non-empty ones,
    /// each once.
    fn declared_parents(&self) -> (r: Vec<String>)
        requires
            self.wf(),
        ensures
            forall|t: int|
                0 <= t < r@.len() ==> (#[trigger] r@[t])@.len() > 0 && referenced_as_parent(
                    self.buckets(),
                    r@[t]@,
                ),
            forall|nm: Seq<char>|
                nm.len() > 0 && referenced_as_parent(self.buckets(), nm) ==> exists|t: int|
                    0 <= t < r@.len() && (#[trigger] r@[t])@ == nm,
            forall|t1: int, t2: int| 0 <= t1 < t2 < r@.len() ==> (#[trigger] r@[t1])@ != (#[trigger] r@[t2])@,
    {
        let ghost b = self.buckets();
        let keys = self.by_key.keys();
        assert forall|x: int| 0 <= x < keys@.len() implies b.contains_key(#[trigger] keys@[x]) by {
            assert(keys@.contains(keys@[x]));
        }
        let mut r: Vec<String> = Vec::new();
        let mut ki: usize = 0;
        while ki < keys.len()
            invariant
                ki <= keys@.len(),
                b == self.buckets(),
                self.wf(),
                forall|t1: int, t2: int| 0 <= t1 < t2 < r@.len() ==> (#[trigger] r@[t1])@ != (#[trigger] r@[t2])@,
                forall|k: u32| keys@.contains(k) <==> b.contains_key(k),
                forall|x: int| 0 <= x < keys@.len() ==> b.contains_key(#[trigger] keys@[x]),
                forall|t: int|
                    0 <= t < r@.len() ==> (#[trigger] r@[t])@.len() > 0 && referenced_as_parent(
                        b,
                        r@[t]@,
                    ),
                forall|x: int, j: int|
                    #![trigger b[keys@[x]][j]]
                    0 <= x < ki && 0 <= j < b[keys@[x]].len() && b[keys@[x]][j].parent_name.len()
                        > 0 ==> exists|t: int|
                        0 <= t < r@.len() && (#[trigger] r@[t])@ == b[keys@[x]][j].parent_name,
            decreases keys@.len() - ki,
        {
            let k = keys[ki];
            assert(keys@.contains(k));
            match self.by_key.get(k) {
                Some(bucket) => {
                    let mut j: usize = 0;
                    while j < bucket.len()
                        invariant
                            ki < keys@.len(),
                            k == keys@[ki as int],
                            forall|x: int| 0 <= x < keys@.len() ==> b.contains_key(#[trigger] keys@[x]),
                            b.contains_key(k),
                            b[k] == views_of(bucket@),
                            j <= bucket@.len(),
                            forall|t1: int, t2: int| 0 <= t1 < t2 < r@.len() ==> (#[trigger] r@[t1])@ != (#[trigger] r@[t2])@,
                            forall|t: int|
                                0 <= t < r@.len() ==> (#[trigger] r@[t])@.len() > 0
                                    && referenced_as_parent(b, r@[t]@),
                            forall|x: int, j2: int|
                                #![trigger b[keys@[x]][j2]]
                                0 <= x < ki && 0 <= j2 < b[keys@[x]].len()
                                    && b[keys@[x]][j2].parent_name.len() > 0 ==> exists|t: int|
                                    0 <= t < r@.len() && (#[trigger] r@[t])@
                                        == b[keys@[x]][j2].parent_name,
                            forall|j2: int|
                                #![trigger b[k][j2]]
                                0 <= j2 < j && b[k][j2].parent_name.len() > 0 ==> exists|t: int|
                                    0 <= t < r@.len() && (#[trigger] r@[t])@ == b[k][j2].parent_name,
                        decreases bucket@.len() - j,
                    {
                        let md = &bucket[j];
                        assert(b[k][j as int] == md@);
                        if !md.parent_name.as_str().is_empty() {
                            proof {
                                assert(referenced_as_parent(b, md.parent_name@)) by {
                                    assert(b[k][j as int].parent_name == md.parent_name@);
                                }
                            }
                            if !contains_name(&r, &md.parent_name) {
                                let ghost r_old = r@;
                                r.push(md.parent_name.clone());
                                proof {
                                    assert forall|t1: int, t2: int|
                                        0 <= t1 < t2 < r@.len() implies (#[trigger] r@[t1])@ != (#[trigger] r@[t2])@ by {
                                        if t2 == r@.len() - 1 {
                                            assert(r@[t1] == r_old[t1]);
                                        } else {
                                            assert(r@[t1] == r_old[t1]);
                                            assert(r@[t2] == r_old[t2]);
                                        }
                                    }
                                }
                                proof {
                                    assert(r@[r@.len() - 1]@ == b[k][j as int].parent_name);
                                    assert forall|x: int, j2: int|
                                        #![trigger b[keys@[x]][j2]]
                                        0 <= x < ki && 0 <= j2 < b[keys@[x]].len()
                                            && b[keys@[x]][j2].parent_name.len() > 0 implies exists|t: int|
                                            0 <= t < r@.len() && (#[trigger] r@[t])@
                                                == b[keys@[x]][j2].parent_name by {
                                        let t = choose|t: int|
                                            0 <= t < r_old.len() && (#[trigger] r_old[t])@
                                                == b[keys@[x]][j2].parent_name;
                                        assert(r@[t] == r_old[t]);
                                    }
                                    assert forall|j2: int|
                                        #![trigger b[k][j2]]
                                        0 <= j2 < j + 1 && b[k][j2].parent_name.len() > 0 implies exists|t: int|
                                            0 <= t < r@.len() && (#[trigger] r@[t])@ == b[k][j2].parent_name by {
                                        if j2 < j {
                                            let t = choose|t: int|
                                                0 <= t < r_old.len() && (#[trigger] r_old[t])@ == b[k][j2].parent_name;
                                            assert(r@[t] == r_old[t]);
                                        } else {
                                            assert(r@[r@.len() - 1]@ == b[k][j2].parent_name);
                                        }
                                    }
                                }
                            } else {
                                proof {
                                    let t0 = choose|t: int| 0 <= t < r@.len() && (#[trigger] r@[t])@ == md.parent_name@;
                                    assert(r@[t0]@ == b[k][j as int].parent_name);
                                }
                            }
                        }
                        j = j + 1;
                    }
                },
                None => {},
            }
            ki = ki + 1;
        }
        proof {
            assert forall|nm: Seq<char>|
                nm.len() > 0 && referenced_as_parent(b, nm) implies exists|t: int|
                    0 <= t < r@.len() && (#[trigger] r@[t])@ == nm by {
                let (k, j) = choose|k: u32, j: int|
                    #![trigger b[k][j]]
                    b.contains_key(k) && 0 <= j < b[k].len() && b[k][j].parent_name == nm;
                assert(keys@.contains(k));
                let x = choose|x: int| 0 <= x < keys@.len() && keys@[x] == k;
                assert(b[keys@[x]][j].parent_name == nm);
            }
        }
        r
    }
}

impl ModRegistry {
    /// Marks as parent each mod that some mod names as its parent, where the
    /// name index sends that name to the mod's own bucket. Parent names that do
    /// not resolve mark nothing.
    pub fn resolve_parents(&mut self)
        requires
            old(self).wf(),
        ensures
            final(self).wf(),
            final(self).names() == old(self).names(),
            final(self).owned@ == old(self).owned@,
            final(self).buckets().dom() == old(self).buckets().dom(),
            forall|k: u32|
                #[trigger] old(self).buckets().contains_key(k) ==> final(self).buckets()[k]
                    == resolved_bucket(old(self).buckets(), old(self).names(), k, old(self).buckets()[k]),
    {
        let ghost b0 = self.buckets();
        let ghost n0 = self.names();
        let parents = self.declared_parents();
        let keys = self.by_key.keys();
        assert forall|x: int| 0 <= x < keys@.len() implies b0.contains_key(#[trigger] keys@[x]) by {
            assert(keys@.contains(keys@[x]));
        }
        let mut ki: usize = 0;
        while ki < keys.len()
            invariant
                ki <= keys@.len(),
                keys@.no_duplicates(),
                forall|k: u32| keys@.contains(k) <==> b0.contains_key(k),
                forall|x: int| 0 <= x < keys@.len() ==> b0.contains_key(#[trigger] keys@[x]),
                self.names() == n0,
                old(self).wf(),
                b0 == old(self).buckets(),
                n0 == old(self).names(),
                self.owned@ == old(self).owned@,
                self.buckets().dom() == b0.dom(),
                forall|t: int|
                    0 <= t < parents@.len() ==> (#[trigger] parents@[t])@.len() > 0
                        && referenced_as_parent(b0, parents@[t]@),
                forall|nm: Seq<char>|
                    nm.len() > 0 && referenced_as_parent(b0, nm) ==> exists|t: int|
                        0 <= t < parents@.len() && (#[trigger] parents@[t])@ == nm,
                forall|k: u32|
                    #[trigger] b0.contains_key(k) ==> self.buckets()[k] == (if keys@.subrange(
                        0,
                        ki as int,
                    ).contains(k) {
                        resolved_bucket(b0, n0, k, b0[k])
                    } else {
                        b0[k]
                    }),
            decreases keys@.len() - ki,
        {
            let k = keys[ki];
            let ghost done = keys@.subrange(0, ki as int);
            assert(!done.contains(k)) by {
                if done.contains(k) {
                    let x = choose|x: int| 0 <= x < ki && keys@[x] == k;
                    assert(keys@[x] == keys@[ki as int]);
                }
            }
            assert(b0.contains_key(k));
            let ghost before = self.buckets();
            match self.by_key.take(k) {
                Some(bucket) => {
                    let ghost src0 = bucket@;
                    assert(views_of(src0) == b0[k]);
                    let mut src = bucket;
                    let mut out: Vec<NativeMod> = Vec::new();
                    let ghost total = src0.len();
                    while src.len() > 0
                        invariant
                            b0.contains_key(k),
                            total == b0[k].len(),
                            out@.len() + src@.len() == total,
                            views_of(src@) == b0[k].subrange(out@.len() as int, total as int),
                            views_of(out@) == resolved_bucket(b0, n0, k, b0[k].subrange(0, out@.len() as int)),
                            self.names() == n0,
                            !n0.contains_key(Seq::<char>::empty()),
                            forall|t: int|
                                0 <= t < parents@.len() ==> (#[trigger] parents@[t])@.len() > 0
                                    && referenced_as_parent(b0, parents@[t]@),
                            forall|nm: Seq<char>|
                                nm.len() > 0 && referenced_as_parent(b0, nm) ==> exists|t: int|
                                    0 <= t < parents@.len() && (#[trigger] parents@[t])@ == nm,
                        decreases src@.len(),
                    {
                        let ghost idx = out@.len() as int;
                        let ghost src_before = src@;
                        let mut md = src.remove(0);
                        let ghost m0 = md@;
                        proof {
                            assert(views_of(src_before)[0] == b0[k][idx]);
                            assert(md@ == b0[k][idx]);
                            assert(views_of(src@) =~= views_of(src_before).subrange(1, src_before.len() as int));
                            assert(views_of(src@) =~= b0[k].subrange(idx + 1, total as int));
                        }
                        let mut mark = false;
                        if !md.is_parent && !md.name.as_str().is_empty() {
                            match self.by_name.get(md.name.as_str()) {
                                Some(nk) => {
                                    if nk == k && contains_name(&parents, &md.name) {
                                        mark = true;
                                    }
                                },
                                None => {},
                            }
                        }
                        if mark {
                            md.is_parent = true;
                        }
                        proof {
                            if m0.name.len() == 0 {
                                assert(m0.name =~= Seq::<char>::empty());
                            }
                            if !m0.is_parent && parent_marked(b0, n0, k, m0.name) {
                                assert(m0.name.len() > 0);
                                assert(referenced_as_parent(b0, m0.name));
                            }
                        }
                        assert(md@ == resolved(b0, n0, k, b0[k][idx]));
                        let ghost out_before = out@;
                        out.push(md);
                        proof {
                            assert(views_of(out@) =~= views_of(out_before).push(md@));
                            assert(resolved_bucket(b0, n0, k, b0[k].subrange(0, idx + 1)) =~= resolved_bucket(b0, n0, k, b0[k].subrange(0, idx)).push(resolved(b0, n0, k, b0[k][idx])));
                        }
                    }
                    assert(b0[k].subrange(0, total as int) =~= b0[k]);
                    assert(views_of(out@) == resolved_bucket(b0, n0, k, b0[k]));
                    self.by_key.put(k, out);
                    proof {
                        let b1 = self.buckets();
                        assert(keys@.subrange(0, ki + 1) =~= done.push(k));
                        assert forall|k2: u32| #[trigger] b0.contains_key(k2) implies b1[k2] == (
                        if keys@.subrange(0, ki + 1).contains(k2) {
                            resolved_bucket(b0, n0, k2, b0[k2])
                        } else {
                            b0[k2]
                        }) by {
                            if k2 != k {
                                assert(keys@.subrange(0, ki + 1).contains(k2) == done.contains(k2));
                                assert(b1[k2] == before[k2]);
                            } else {
                                assert(keys@.subrange(0, ki + 1)[ki as int] == k);
                            }
                        }
                        assert(b1.dom() =~= b0.dom());
                    }
                },
                None => {
                    assert(false);
                },
            }
            ki = ki + 1;
        }
        proof {
            let b1 = self.buckets();
            assert(keys@.subrange(0, keys@.len() as int) =~= keys@);
            assert forall|k: u32| #[trigger] b0.contains_key(k) implies b1[k] == resolved_bucket(b0, n0, k, b0[k]) by {
                assert(keys@.contains(k));
            }
            assert(mod_slots(b1) =~= mod_slots(b0));
            assert forall|nm: Seq<char>|
                #![trigger n0[nm]]
                n0.contains_key(nm) implies b1.contains_key(n0[nm]) && exists|i: int|
                    #![trigger b1[n0[nm]][i]]
                    0 <= i < b1[n0[nm]].len() && b1[n0[nm]][i].name == nm by {
                let i = choose|i: int|
                    #![trigger b0[n0[nm]][i]]
                    0 <= i < b0[n0[nm]].len() && b0[n0[nm]][i].name == nm;
                assert(b1[n0[nm]][i].name == nm);
            }
            assert forall|k: u32| #[trigger] b1.contains_key(k) implies b1[k].len() > 0 by {
                assert(b0.contains_key(k));
            }
            assert forall|k: u32, i: int|
                #![trigger b1[k][i]]
                b1.contains_key(k) && 0 <= i < b1[k].len() implies spec_mod_key(
                    b1[k][i].ref_verts,
                    b1[k][i].ref_prims,
                ) == k && b1[k][i].textures.len() == 4 && (b1[k][i].name.len() == 0
                    ==> !b1[k][i].is_parent) && (b1[k][i].last_frame_rendered.is_some()
                    ==> b1[k][i].is_parent) by {
                assert(b0.contains_key(k));
                assert(b1[k] == resolved_bucket(b0, n0, k, b0[k]));
                assert(b1[k][i] == resolved(b0, n0, k, b0[k][i]));
                if b1[k][i].name.len() == 0 {
                    assert(b1[k][i].name =~= Seq::<char>::empty());
                }
            }
        }
    }
}

/// The tables built by adding the mods of `ms` in order to an empty registry.
pub open spec fn filled(ms: Seq<ModView>) -> (Map<u32, Seq<ModView>>, Map<Seq<char>, u32>)
    decreases ms.len(),
{
    if ms.len() == 0 {
        (Map::empty(), Map::empty())
    } else {
        let (b, n) = filled(ms.drop_last());
        let m = ms.last();
        let k = spec_mod_key(m.ref_verts, m.ref_prims);
        (
            b.insert(k, bucket_with(b, k, m)),
            if registers_name(n, m) {
                n.insert(m.name, k)
            } else {
                n
            },
        )
    }
}

/// The handles of the mods of `ms`, mod after mod.
pub open spec fn all_handles(ms: Seq<ModView>) -> Seq<u64>
    decreases ms.len(),
{
    if ms.len() == 0 {
        Seq::empty()
    } else {
        all_handles(ms.drop_last()) + handles_of(ms.last())
    }
}

/// The registry that `load` builds from the mods `ms`: every mod in the bucket
/// of its signature, in order; names entered first come first; parents
/// resolved; and every handle of the mods owned.
pub open spec fn load_post(ms: Seq<ModView>, r: ModRegistry) -> bool {
    let (b, n) = filled(ms);
    &&& r.wf()
    &&& r.names() == n
    &&& r.buckets().dom() == b.dom()
    &&& forall|k: u32| #[trigger] b.contains_key(k) ==> r.buckets()[k] == resolved_bucket(b, n, k, b[k])
    &&& r.owned@ == all_handles(ms)
}

/// A mod as it comes out of the loader: not yet a parent, never drawn.
pub open spec fn fresh(m: ModView) -> bool {
    !m.is_parent && m.last_frame_rendered is None
}

impl ModRegistry {
    /// Builds a registry from freshly loaded mods: each is added in order (see
    /// `insert_mod`), then parents are resolved. The registry is built apart
    /// and handed over whole.
    pub fn load(records: Vec<NativeMod>) -> (r: ModRegistry)
        requires
            forall|i: int| 0 <= i < records@.len() ==> fresh(#[trigger] records@[i]@),
        ensures
            load_post(views_of(records@), r),
    {
        let ghost ms = views_of(records@);
        let mut src = records;
        let mut r = ModRegistry::new();
        let count = src.len();
        let ghost total = ms.len();
        let mut done: usize = 0;
        while src.len() > 0
            invariant
                total == ms.len(),
                total == records@.len(),
                total == count,
                done + src@.len() == total,
                views_of(src@) == ms.subrange(done as int, total as int),
                forall|i: int| 0 <= i < src@.len() ==> fresh(#[trigger] src@[i]@),
                r.wf(),
                r.buckets() == filled(ms.subrange(0, done as int)).0,
                r.names() == filled(ms.subrange(0, done as int)).1,
                r.owned@ == all_handles(ms.subrange(0, done as int)),
            decreases src@.len(),
        {
            let ghost before = src@;
            let m = src.remove(0);
            proof {
                assert(views_of(before)[0] == m@);
                assert(fresh(before[0]@));
                assert(views_of(src@) =~= views_of(before).subrange(1, before.len() as int));
                assert(views_of(src@) =~= ms.subrange(done + 1, total as int));
                assert forall|i: int| 0 <= i < src@.len() implies fresh(#[trigger] src@[i]@) by {
                    assert(src@[i] == before[i + 1]);
                }
                let next = ms.subrange(0, done + 1);
                assert(next.drop_last() =~= ms.subrange(0, done as int));
                assert(next.last() == m@);
            }
            r.insert_mod(m);
            done = done + 1;
        }
        assert(ms.subrange(0, total as int) =~= ms);
        r.resolve_parents();
        r
    }
}

/// The name index never outgrows the mods, and each name in it leads to a
/// bucket holding a mod of that name.
pub proof fn lemma_name_index_sound(reg: ModRegistry, nm: Seq<char>)
    requires
        reg.wf(),
    ensures
        reg.names().len() <= mod_total(reg.buckets()),
        reg.names().contains_key(nm) ==> reg.buckets().contains_key(reg.names()[nm])
            && exists|i: int|
            #![trigger reg.buckets()[reg.names()[nm]][i]]
            0 <= i < reg.buckets()[reg.names()[nm]].len() && reg.buckets()[reg.names()[nm]][i].name
                == nm,
{
}

/// Clearing twice does what clearing once does: the second clear finds the
/// registry empty, leaves it so, and releases nothing.
pub proof fn lemma_clear_twice(
    start: ModRegistry,
    once: ModRegistry,
    released_once: Seq<u64>,
    twice: ModRegistry,
    released_twice: Seq<u64>,
)
    requires
        start.wf(),
        clear_post(start, once, released_once),
        clear_post(once, twice, released_twice),
    ensures
        twice.buckets() == once.buckets(),
        twice.names() == once.names(),
        twice.owned@ == once.owned@,
        released_twice.len() == 0,
{
    assert(twice.buckets() =~= once.buckets());
    assert(twice.names() =~= once.names());
}

/// A load followed by a clear releases exactly the handles the load took
/// over: one release for each.
pub proof fn lemma_load_then_clear_releases_all(
    ms: Seq<ModView>,
    loaded: ModRegistry,
    cleared: ModRegistry,
    released: Seq<u64>,
)
    requires
        load_post(ms, loaded),
        clear_post(loaded, cleared, released),
    ensures
        released == all_handles(ms),
        released.len() == all_handles(ms).len(),
        cleared.owned@.len() == 0,
{
}

/// `m2` may stand in `m1`'s place without touching the registry's indexes:
/// it keeps the name, parent, signature, parent mark and last frame.
pub open spec fn same_identity(m1: ModView, m2: ModView) -> bool {
    &&& m2.name == m1.name
    &&& m2.parent_name == m1.parent_name
    &&& m2.ref_verts == m1.ref_verts
    &&& m2.ref_prims == m1.ref_prims
    &&& m2.is_parent == m1.is_parent
    &&& m2.last_frame_rendered == m1.last_frame_rendered
    &&& m2.textures.len() == 4
}

/// The mod after its GPU resources are made: its declaration is the input
/// layout it held while partial.
pub open spec fn completed(m: ModView, layout: u64, vb: u64, textures: Seq<u64>) -> ModView {
    ModView { vb, decl: layout, textures, d3d_state: D3dState::Loaded, ..m }
}

impl ModRegistry {
    /// Replaces the mod at `index` of bucket `key` by one of the same identity.
    fn set_mod(&mut self, key: u32, index: usize, m: NativeMod)
        requires
            old(self).wf(),
            old(self).buckets().contains_key(key),
            index < old(self).buckets()[key].len(),
            same_identity(old(self).buckets()[key][index as int], m@),
        ensures
            final(self).wf(),
            final(self).buckets() == old(self).buckets().insert(
                key,
                old(self).buckets()[key].update(index as int, m@),
            ),
            final(self).names() == old(self).names(),
            final(self).owned@ == old(self).owned@,
    {
        let ghost b0 = self.buckets();
        let ghost n0 = self.names();
        let ghost mv = m@;
        let mut bucket = match self.by_key.take(key) {
            Some(v) => v,
            None => {
                assert(false);
                Vec::new()
            },
        };
        let _ = bucket.remove(index);
        bucket.insert(index, m);
        proof {
            assert(views_of(bucket@) =~= b0[key].update(index as int, mv));
            assert(b0.remove(key).insert(key, b0[key].update(index as int, mv)) =~= b0.insert(
                key,
                b0[key].update(index as int, mv),
            ));
        }
        self.by_key.put(key, bucket);
        proof {
            let b1 = self.buckets();
            assert(b1.dom() =~= b0.dom());
            assert(mod_slots(b1) =~= mod_slots(b0));
            assert forall|nm: Seq<char>|
                #![trigger n0[nm]]
                n0.contains_key(nm) implies b1.contains_key(n0[nm]) && exists|j: int|
                    #![trigger b1[n0[nm]][j]]
                    0 <= j < b1[n0[nm]].len() && b1[n0[nm]][j].name == nm by {
                let j = choose|j: int|
                    #![trigger b0[n0[nm]][j]]
                    0 <= j < b0[n0[nm]].len() && b0[n0[nm]][j].name == nm;
                assert(b1[n0[nm]][j].name == nm);
            }
            assert forall|k2: u32| #[trigger] b1.contains_key(k2) implies b1[k2].len() > 0 by {
                assert(b0.contains_key(k2));
            }
            assert forall|k2: u32, j: int|
                #![trigger b1[k2][j]]
                b1.contains_key(k2) && 0 <= j < b1[k2].len() implies spec_mod_key(
                    b1[k2][j].ref_verts,
                    b1[k2][j].ref_prims,
                ) == k2 && b1[k2][j].textures.len() == 4 && (b1[k2][j].name.len() == 0
                    ==> !b1[k2][j].is_parent) && (b1[k2][j].last_frame_rendered.is_some()
                    ==> b1[k2][j].is_parent) by {
                assert(b0.contains_key(k2));
            }
        }
    }

    /// Notes that the mod at `index` of bucket `key`, not yet made, was chosen
    /// while `layout` was the input layout in use: the mod becomes partial and
    /// the registry takes over a reference to the layout.
    pub fn request_load(&mut self, key: u32, index: usize, layout: u64)
        requires
            old(self).wf(),
            old(self).buckets().contains_key(key),
            index < old(self).buckets()[key].len(),
            old(self).buckets()[key][index as int].d3d_state == D3dState::Unloaded,
            layout != 0,
        ensures
            final(self).wf(),
            final(self).buckets() == old(self).buckets().insert(
                key,
                old(self).buckets()[key].update(
                    index as int,
                    ModView { d3d_state: D3dState::Partial(layout), ..old(self).buckets()[key][index as int] },
                ),
            ),
            final(self).names() == old(self).names(),
            final(self).owned@ == old(self).owned@.push(layout),
    {
        let m = match self.by_key.get(key) {
            Some(b) => {
                assert(b@[index as int]@ == self.buckets()[key][index as int]);
                let cur = &b[index];
                NativeMod {
                    name: cur.name.clone(),
                    parent_name: cur.parent_name.clone(),
                    kind: cur.kind,
                    ref_prims: cur.ref_prims,
                    ref_verts: cur.ref_verts,
                    prim_count: cur.prim_count,
                    vert_count: cur.vert_count,
                    vert_size_bytes: cur.vert_size_bytes,
                    vb: cur.vb,
                    decl: cur.decl,
                    textures: cur.textures,
                    is_parent: cur.is_parent,
                    last_frame_rendered: cur.last_frame_rendered,
                    d3d_state: D3dState::Partial(layout),
                }
            },
            None => {
                assert(false);
                return;
            },
        };
        assert(m@ == ModView { d3d_state: D3dState::Partial(layout), ..self.buckets()[key][index as int] });
        self.set_mod(key, index, m);
        self.owned.push(layout);
    }

    /// Records the GPU resources made for a partial mod: its vertex buffer and
    /// textures (zero where absent); its declaration is the layout it holds.
    /// The registry takes over the new handles.
    pub fn complete_load(&mut self, key: u32, index: usize, vb: u64, textures: [u64; 4])
        requires
            old(self).wf(),
            old(self).buckets().contains_key(key),
            index < old(self).buckets()[key].len(),
            old(self).buckets()[key][index as int].d3d_state is Partial,
        ensures
            final(self).wf(),
            final(self).buckets() == old(self).buckets().insert(
                key,
                old(self).buckets()[key].update(
                    index as int,
                    completed(
                        old(self).buckets()[key][index as int],
                        old(self).buckets()[key][index as int].d3d_state->Partial_0,
                        vb,
                        textures@,
                    ),
                ),
            ),
            final(self).names() == old(self).names(),
            final(self).owned@ == old(self).owned@ + nonzero(seq![vb].add(textures@)),
    {
        let ghost b0 = self.buckets();
        let m = match self.by_key.get(key) {
            Some(b) => {
                assert(b@[index as int]@ == b0[key][index as int]);
                let cur = &b[index];
                let layout = match cur.d3d_state {
                    D3dState::Partial(l) => l,
                    _ => {
                        assert(false);
                        0
                    },
                };
                NativeMod {
                    name: cur.name.clone(),
                    parent_name: cur.parent_name.clone(),
                    kind: cur.kind,
                    ref_prims: cur.ref_prims,
                    ref_verts: cur.ref_verts,
                    prim_count: cur.prim_count,
                    vert_count: cur.vert_count,
                    vert_size_bytes: cur.vert_size_bytes,
                    vb,
                    decl: layout,
                    textures,
                    is_parent: cur.is_parent,
                    last_frame_rendered: cur.last_frame_rendered,
                    d3d_state: D3dState::Loaded,
                }
            },
            None => {
                assert(false);
                return;
            },
        };
        assert(m@ == completed(b0[key][index as int], b0[key][index as int].d3d_state->Partial_0, vb, textures@));
        self.set_mod(key, index, m);
        let all: [u64; 5] = [vb, textures[0], textures[1], textures[2], textures[3]];
        let ghost whole = seq![vb].add(textures@);
        assert(all@ =~= whole);
        let ghost owned0 = self.owned@;
        let mut i: usize = 0;
        while i < 5
            invariant
                i <= 5,
                all@ == whole,
                self.owned@ == owned0 + nonzero(whole.subrange(0, i as int)),
                self.wf(),
                self.buckets() == old(self).buckets().insert(
                    key,
                    old(self).buckets()[key].update(
                        index as int,
                        completed(
                            old(self).buckets()[key][index as int],
                            old(self).buckets()[key][index as int].d3d_state->Partial_0,
                            vb,
                            textures@,
                        ),
                    ),
                ),
                self.names() == old(self).names(),
            decreases 5 - i,
        {
            let h = all[i];
            proof {
                let next = whole.subrange(0, i + 1);
                assert(next.drop_last() =~= whole.subrange(0, i as int));
                assert(next.last() == h);
            }
            if h != 0 {
                self.owned.push(h);
                proof {
                    assert(self.owned@ =~= owned0 + nonzero(whole.subrange(0, i + 1)));
                }
            }
            i = i + 1;
        }
        assert(whole.subrange(0, 5) =~= whole);
    }
}

} // verus!
