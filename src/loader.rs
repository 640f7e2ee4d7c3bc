//! Turning managed mod descriptions into registry records, and the checks made
//! on a freshly built registry.

use vstd::prelude::*;
use crate::names::{names_equal, normalize_name, normalized};
use crate::registry::{
    spec_loadable_kind, loadable_kind, views_of, D3dState, ModKind, ModRegistry, ModView, NativeMod,
};

verus! {

/// The numbers the managed side reports for one mod.
#[derive(Clone, Copy, Debug)]
pub struct ModNumbers {
    pub mod_type: i32,
    pub prim_count: i32,
    pub vert_count: i32,
    pub ref_prim_count: i32,
    pub ref_vert_count: i32,
    pub vert_size_bytes: i32,
    pub decl_size_bytes: i32,
    pub prim_type: i32,
}

/// What the loader does with one description.
#[derive(Clone, Copy, Debug, PartialEq, Eq, Structural)]
pub enum LoadStep {
    /// An unsupported kind: left out.
    Skip,
    /// A deletion: a bare record, no GPU resources.
    Deletion,
    /// A replacement: GPU resources are made, then the record is added.
    Replacement,
}

pub open spec fn spec_load_step(code: i32) -> LoadStep {
    match spec_loadable_kind(code) {
        Some(ModKind::Deletion) => LoadStep::Deletion,
        Some(_) => LoadStep::Replacement,
        None => LoadStep::Skip,
    }
}

/// Decides how a description is loaded from its type code.
pub fn load_step(nums: &ModNumbers) -> (r: LoadStep)
    ensures
        r == spec_load_step(nums.mod_type),
{
    match loadable_kind(nums.mod_type) {
        Some(ModKind::Deletion) => LoadStep::Deletion,
        Some(_) => LoadStep::Replacement,
        None => LoadStep::Skip,
    }
}

/// The byte size of a replacement's vertex buffer: three vertices of
/// `vert_size_bytes` for each primitive.
pub open spec fn spec_vertex_buffer_size(nums: ModNumbers) -> Option<u32> {
    let size = nums.prim_count * 3 * nums.vert_size_bytes;
    if 0 <= nums.prim_count && 0 <= nums.vert_size_bytes && size <= u32::MAX {
        Some(size as u32)
    } else {
        None
    }
}

/// The byte size of a replacement's vertex buffer, or `None` when a count is
/// negative or the size does not fit in 32 bits.
pub fn vertex_buffer_size(nums: &ModNumbers) -> (r: Option<u32>)
    ensures
        r == spec_vertex_buffer_size(*nums),
{
    if nums.prim_count < 0 || nums.vert_size_bytes < 0 {
        return None;
    }
    let p = nums.prim_count as u64;
    let v = nums.vert_size_bytes as u64;
    assert(p * 3 * v <= 0x7fff_ffffu64 * 3 * 0x7fff_ffffu64) by (nonlinear_arith)
        requires
            p <= 0x7fff_ffff,
            v <= 0x7fff_ffff,
    ;
    let size = p * 3 * v;
    if size > 0xffff_ffffu64 {
        None
    } else {
        Some(size as u32)
    }
}

/// The record of a deletion: keyed by its reference signature, owning nothing.
pub open spec fn deletion_view(name: Seq<char>, nums: ModNumbers) -> ModView {
    ModView {
        name: normalized(name),
        parent_name: Seq::empty(),
        kind: ModKind::Deletion,
        ref_prims: nums.ref_prim_count as u32,
        ref_verts: nums.ref_vert_count as u32,
        prim_count: nums.prim_count as u32,
        vert_count: nums.vert_count as u32,
        vert_size_bytes: nums.vert_size_bytes as u32,
        vb: 0,
        decl: 0,
        textures: seq![0u64, 0u64, 0u64, 0u64],
        is_parent: false,
        last_frame_rendered: None,
        d3d_state: D3dState::Loaded,
    }
}

/// The record of a replacement that owns the given GPU handles.
pub open spec fn replacement_view(
    name: Seq<char>,
    parent: Seq<char>,
    nums: ModNumbers,
    vb: u64,
    decl: u64,
    textures: Seq<u64>,
) -> ModView {
    ModView {
        name: normalized(name),
        parent_name: normalized(parent),
        kind: ModKind::GpuReplacement,
        ref_prims: nums.ref_prim_count as u32,
        ref_verts: nums.ref_vert_count as u32,
        prim_count: nums.prim_count as u32,
        vert_count: nums.vert_count as u32,
        vert_size_bytes: nums.vert_size_bytes as u32,
        vb,
        decl,
        textures,
        is_parent: false,
        last_frame_rendered: None,
        d3d_state: D3dState::Loaded,
    }
}

/// Makes the record of a deletion from its raw name and numbers.
pub fn deletion_mod(name: &str, nums: &ModNumbers) -> (r: NativeMod)
    ensures
        r@ == deletion_view(name@, *nums),
        name@.len() == 0 ==> r@.name.len() == 0,
{
    let r = NativeMod {
        name: normalize_name(name),
        parent_name: String::new(),
        kind: ModKind::Deletion,
        ref_prims: nums.ref_prim_count as u32,
        ref_verts: nums.ref_vert_count as u32,
        prim_count: nums.prim_count as u32,
        vert_count: nums.vert_count as u32,
        vert_size_bytes: nums.vert_size_bytes as u32,
        vb: 0,
        decl: 0,
        textures: [0u64; 4],
        is_parent: false,
        last_frame_rendered: None,
        d3d_state: D3dState::Loaded,
    };
    assert(r.textures@ =~= seq![0u64, 0u64, 0u64, 0u64]);
    r
}

/// Makes the record of a replacement from its raw names, numbers and the GPU
/// handles made for it (zero where a texture is absent).
pub fn replacement_mod(
    name: &str,
    parent: &str,
    nums: &ModNumbers,
    vb: u64,
    decl: u64,
    textures: [u64; 4],
) -> (r: NativeMod)
    ensures
        r@ == replacement_view(name@, parent@, *nums, vb, decl, textures@),
        name@.len() == 0 ==> r@.name.len() == 0,
        parent@.len() == 0 ==> r@.parent_name.len() == 0,
{
    NativeMod {
        name: normalize_name(name),
        parent_name: normalize_name(parent),
        kind: ModKind::GpuReplacement,
        ref_prims: nums.ref_prim_count as u32,
        ref_verts: nums.ref_vert_count as u32,
        prim_count: nums.prim_count as u32,
        vert_count: nums.vert_count as u32,
        vert_size_bytes: nums.vert_size_bytes as u32,
        vb,
        decl,
        textures,
        is_parent: false,
        last_frame_rendered: None,
        d3d_state: D3dState::Loaded,
    }
}

/// The record of a replacement whose GPU resources are made on first use.
pub open spec fn deferred_view(name: Seq<char>, parent: Seq<char>, nums: ModNumbers) -> ModView {
    ModView {
        vb: 0,
        decl: 0,
        textures: seq![0u64, 0u64, 0u64, 0u64],
        d3d_state: D3dState::Unloaded,
        ..replacement_view(name, parent, nums, 0, 0, seq![0u64, 0u64, 0u64, 0u64])
    }
}

/// Makes the record of a replacement whose GPU resources are made when it is
/// first chosen for a draw (newer API generation).
pub fn deferred_mod(name: &str, parent: &str, nums: &ModNumbers) -> (r: NativeMod)
    ensures
        r@ == deferred_view(name@, parent@, *nums),
        name@.len() == 0 ==> r@.name.len() == 0,
        parent@.len() == 0 ==> r@.parent_name.len() == 0,
{
    let r = replacement_mod(name, parent, nums, 0, 0, [0u64; 4]);
    let r = NativeMod { d3d_state: D3dState::Unloaded, ..r };
    assert(r.textures@ =~= seq![0u64, 0u64, 0u64, 0u64]);
    r
}

/// A bucket whose mods cannot be told apart: several mods, and one of them
/// has no parent or two name the same parent.
pub open spec fn bucket_ambiguous(s: Seq<ModView>) -> bool {
    s.len() > 1 && ((exists|i: int| 0 <= i < s.len() && (#[trigger] s[i]).parent_name.len() == 0)
        || (exists|i: int, j: int|
        0 <= i < j < s.len() && (#[trigger] s[i]).parent_name == (#[trigger] s[j]).parent_name))
}

/// Whether the mods of a bucket cannot be told apart by their parents.
pub fn is_ambiguous(v: &Vec<NativeMod>) -> (r: bool)
    ensures
        r == bucket_ambiguous(views_of(v@)),
{
    let ghost s = views_of(v@);
    if v.len() <= 1 {
        return false;
    }
    let mut i: usize = 0;
    while i < v.len()
        invariant
            s == views_of(v@),
            v@.len() > 1,
            i <= v@.len(),
            forall|a: int| 0 <= a < i ==> (#[trigger] s[a]).parent_name.len() != 0,
            forall|a: int, c: int|
                0 <= a < c < s.len() && a < i ==> (#[trigger] s[a]).parent_name != (
                #[trigger] s[c]).parent_name,
        decreases v@.len() - i,
    {
        assert(s[i as int] == v@[i as int]@);
        if v[i].parent_name.as_str().is_empty() {
            assert(s[i as int].parent_name.len() == 0);
            return true;
        }
        let mut j: usize = i + 1;
        while j < v.len()
            invariant
                s == views_of(v@),
                i < j <= v@.len(),
                forall|c: int| i < c < j ==> s[i as int].parent_name != (#[trigger] s[c]).parent_name,
            decreases v@.len() - j,
        {
            assert(s[j as int] == v@[j as int]@);
            if names_equal(&v[i].parent_name, &v[j].parent_name) {
                assert(s[i as int].parent_name == s[j as int].parent_name);
                return true;
            }
            j = j + 1;
        }
        i = i + 1;
    }
    false
}

impl ModRegistry {
    /// The keys of the buckets whose mods cannot be told apart by their
    /// parents. They stay loaded; the host reports them.
    pub fn ambiguous_keys(&self) -> (r: Vec<u32>)
        ensures
            r@.no_duplicates(),
            forall|k: u32|
                r@.contains(k) <==> self.buckets().contains_key(k) && bucket_ambiguous(
                    self.buckets()[k],
                ),
    {
        let ghost b = self.buckets();
        let keys = self.by_key.keys();
        let mut r: Vec<u32> = Vec::new();
        let mut ki: usize = 0;
        while ki < keys.len()
            invariant
                ki <= keys@.len(),
                keys@.no_duplicates(),
                forall|k: u32| keys@.contains(k) <==> b.contains_key(k),
                b == self.buckets(),
                r@.no_duplicates(),
                forall|k: u32|
                    r@.contains(k) <==> keys@.subrange(0, ki as int).contains(k) && b.contains_key(k)
                        && bucket_ambiguous(b[k]),
            decreases keys@.len() - ki,
        {
            let k = keys[ki];
            let ghost done = keys@.subrange(0, ki as int);
            assert(keys@.subrange(0, ki + 1) =~= done.push(k));
            assert(!done.contains(k)) by {
                if done.contains(k) {
                    let x = choose|x: int| 0 <= x < ki && keys@[x] == k;
                    assert(keys@[x] == keys@[ki as int]);
                }
            }
            let ghost r_old = r@;
            assert(b.contains_key(k)) by {
                assert(keys@.contains(k));
            }
            let amb = match self.by_key.get(k) {
                Some(v) => is_ambiguous(v),
                None => false,
            };
            assert(amb == bucket_ambiguous(b[k]));
            if amb {
                assert(!r_old.contains(k));
                r.push(k);
                assert(r@ == r_old.push(k));
            }
            assert forall|k2: u32|
                r@.contains(k2) <==> keys@.subrange(0, ki + 1).contains(k2) && b.contains_key(k2)
                    && bucket_ambiguous(b[k2]) by {
                if k2 != k {
                    if amb {
                        if r@.contains(k2) {
                            let idx = choose|idx: int| 0 <= idx < r@.len() && r@[idx] == k2;
                            assert(r_old[idx] == k2);
                        }
                        if r_old.contains(k2) {
                            let idx = choose|idx: int| 0 <= idx < r_old.len() && r_old[idx] == k2;
                            assert(r@[idx] == k2);
                        }
                    }
                    let sub = keys@.subrange(0, ki + 1);
                    if sub.contains(k2) {
                        let idx = choose|idx: int| 0 <= idx < sub.len() && sub[idx] == k2;
                        assert(done[idx] == k2);
                    }
                    if done.contains(k2) {
                        let idx = choose|idx: int| 0 <= idx < done.len() && done[idx] == k2;
                        assert(sub[idx] == k2);
                    }
                } else {
                    assert(keys@.subrange(0, ki + 1)[ki as int] == k);
                    if amb {
                        assert(r@[r@.len() - 1] == k);
                    } else {
                        assert(!r_old.contains(k));
                    }
                }
            }
            ki = ki + 1;
        }
        assert(keys@.subrange(0, keys@.len() as int) =~= keys@);
        r
    }
}

} // verus!
