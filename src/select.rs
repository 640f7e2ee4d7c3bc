//! Parent arbitration: which mod of a bucket stands in for a draw.

use vstd::prelude::*;
use crate::names::names_equal;
use crate::registry::{D3dState, mod_key, mod_slots, spec_mod_key, views_of, ModKind, ModRegistry, ModView, NativeMod};

verus! {

/// How many frames back a parent's last draw still counts as recent.
pub const RECENT_FRAMES: u64 = 1;

/// A mod drawn in frame `now` or in the frame before it.
pub open spec fn recently_rendered(m: ModView, now: u64) -> bool {
    match m.last_frame_rendered {
        Some(f) => f <= now && now - f <= RECENT_FRAMES,
        None => false,
    }
}

/// The number of recently rendered mods in `s`.
pub open spec fn recent_count(s: Seq<ModView>, now: u64) -> nat
    decreases s.len(),
{
    if s.len() == 0 {
        0
    } else {
        recent_count(s.drop_last(), now) + if recently_rendered(s.last(), now) {
            1nat
        } else {
            0nat
        }
    }
}

/// Whether a parent name leads, through the name index, to a bucket.
pub open spec fn parent_resolves(
    b: Map<u32, Seq<ModView>>,
    n: Map<Seq<char>, u32>,
    p: Seq<char>,
) -> bool {
    p.len() > 0 && n.contains_key(p) && b.contains_key(n[p])
}

/// The recently rendered mods in the bucket of `m`'s parent.
pub open spec fn active_parents(
    b: Map<u32, Seq<ModView>>,
    n: Map<Seq<char>, u32>,
    m: ModView,
    now: u64,
) -> nat {
    if parent_resolves(b, n, m.parent_name) {
        recent_count(b[n[m.parent_name]], now)
    } else {
        0
    }
}

/// The active parents summed over the mods of `s`.
pub open spec fn active_total(
    b: Map<u32, Seq<ModView>>,
    n: Map<Seq<char>, u32>,
    s: Seq<ModView>,
    now: u64,
) -> nat
    decreases s.len(),
{
    if s.len() == 0 {
        0
    } else {
        active_total(b, n, s.drop_last(), now) + active_parents(b, n, s.last(), now)
    }
}

/// Whether `m`'s own parent (a mod of that name in the parent's bucket) was
/// recently rendered.
pub open spec fn parent_matched(
    b: Map<u32, Seq<ModView>>,
    n: Map<Seq<char>, u32>,
    m: ModView,
    now: u64,
) -> bool {
    parent_resolves(b, n, m.parent_name) && exists|j: int|
        0 <= j < b[n[m.parent_name]].len() && recently_rendered(
            #[trigger] b[n[m.parent_name]][j],
            now,
        ) && b[n[m.parent_name]][j].name == m.parent_name
}

/// The last position in `s` whose parent was recently rendered.
pub open spec fn last_matched(
    b: Map<u32, Seq<ModView>>,
    n: Map<Seq<char>, u32>,
    s: Seq<ModView>,
    now: u64,
) -> Option<int>
    decreases s.len(),
{
    if s.len() == 0 {
        None
    } else if parent_matched(b, n, s.last(), now) {
        Some(s.len() - 1)
    } else {
        last_matched(b, n, s.drop_last(), now)
    }
}

/// The arbitration over one bucket. A lone mod without a parent is chosen; a
/// lone mod with a parent is chosen when exactly one mod of its parent's
/// bucket was recently rendered. Of several mods, the one whose parent was
/// recently rendered is chosen, and only when exactly one active parent is
/// counted over all of them; otherwise none is.
pub open spec fn arbitrate(
    b: Map<u32, Seq<ModView>>,
    n: Map<Seq<char>, u32>,
    s: Seq<ModView>,
    now: u64,
) -> Option<int> {
    if s.len() == 1 {
        if s[0].parent_name.len() == 0 || active_total(b, n, s, now) == 1 {
            Some(0)
        } else {
            None
        }
    } else if s.len() > 1 && active_total(b, n, s, now) == 1 {
        last_matched(b, n, s, now)
    } else {
        None
    }
}

/// The position of the mod that stands in for a draw of `prims` primitives
/// over `verts` vertices: the arbitration's choice in the bucket of the
/// signature's key, provided that mod was made for exactly that signature.
pub open spec fn pick(
    b: Map<u32, Seq<ModView>>,
    n: Map<Seq<char>, u32>,
    prims: u32,
    verts: u32,
    now: u64,
) -> Option<int> {
    let k = spec_mod_key(verts, prims);
    if b.contains_key(k) {
        match arbitrate(b, n, b[k], now) {
            Some(i) => if b[k][i].ref_verts == verts && b[k][i].ref_prims == prims {
                Some(i)
            } else {
                None
            },
            None => None,
        }
    } else {
        None
    }
}

/// `x`, or 2 when it is larger.
pub open spec fn cap2(x: nat) -> nat {
    if x < 2 {
        x
    } else {
        2
    }
}

fn is_recent(m: &NativeMod, now: u64) -> (r: bool)
    ensures
        r == recently_rendered(m@, now),
{
    match m.last_frame_rendered {
        Some(f) => f <= now && now - f <= RECENT_FRAMES,
        None => false,
    }
}

/// What a draw needs of the chosen mod.
#[derive(Clone, Copy, Debug)]
pub struct ModDraw {
    pub kind: ModKind,
    pub prim_count: u32,
    pub vert_count: u32,
    pub vert_size_bytes: u32,
    pub vb: u64,
    pub decl: u64,
    pub textures: [u64; 4],
    pub d3d_state: D3dState,
}

/// `d` describes the mod `m`.
pub open spec fn draws(d: ModDraw, m: ModView) -> bool {
    &&& d.kind == m.kind
    &&& d.prim_count == m.prim_count
    &&& d.vert_count == m.vert_count
    &&& d.vert_size_bytes == m.vert_size_bytes
    &&& d.vb == m.vb
    &&& d.decl == m.decl
    &&& d.textures@ == m.textures
    &&& d.d3d_state == m.d3d_state
}

/// A mod after it is drawn in frame `now`: parents remember the frame.
pub open spec fn after_draw(m: ModView, now: u64) -> ModView {
    if m.is_parent {
        ModView { last_frame_rendered: Some(now), ..m }
    } else {
        m
    }
}

impl ModRegistry {
    /// Counts the active parents of the mod and tells whether its own parent
    /// was recently rendered.
    fn parent_activity(&self, m: &NativeMod, now: u64, base: u64) -> (r: (u64, bool))
        requires
            base <= 2,
        ensures
            r.0 == cap2((base + active_parents(self.buckets(), self.names(), m@, now)) as nat),
            r.1 == parent_matched(self.buckets(), self.names(), m@, now),
    {
        let ghost b = self.buckets();
        let ghost n = self.names();
        if m.parent_name.as_str().is_empty() {
            return (base, false);
        }
        let pk = match self.by_name.get(m.parent_name.as_str()) {
            Some(pk) => pk,
            None => return (base, false),
        };
        let pb = match self.by_key.get(pk) {
            Some(pb) => pb,
            None => return (base, false),
        };
        let ghost ps = b[pk];
        let mut total = base;
        let mut matched = false;
        let mut j: usize = 0;
        while j < pb.len()
            invariant
                ps == views_of(pb@),
                j <= pb@.len(),
                total as nat == cap2((base + recent_count(ps.subrange(0, j as int), now)) as nat),
                matched == exists|j2: int|
                    0 <= j2 < j && recently_rendered(#[trigger] ps[j2], now) && ps[j2].name
                        == m.parent_name@,
            decreases pb@.len() - j,
        {
            let pm = &pb[j];
            assert(ps[j as int] == pm@);
            assert(ps.subrange(0, j + 1).drop_last() =~= ps.subrange(0, j as int));
            if is_recent(pm, now) {
                if total < 2 {
                    total = total + 1;
                }
                if names_equal(&pm.name, &m.parent_name) {
                    matched = true;
                }
            }
            j = j + 1;
        }
        assert(ps.subrange(0, pb@.len() as int) =~= ps);
        (total, matched)
    }

    /// Arbitrates in the bucket under `key`: the position chosen, if any.
    pub fn arbitrate_bucket(&self, key: u32, now: u64) -> (r: Option<usize>)
        ensures
            match r {
                Some(i) => self.buckets().contains_key(key) && arbitrate(
                    self.buckets(),
                    self.names(),
                    self.buckets()[key],
                    now,
                ) == Some(i as int),
                None => !self.buckets().contains_key(key) || arbitrate(
                    self.buckets(),
                    self.names(),
                    self.buckets()[key],
                    now,
                ) is None,
            },
    {
        let ghost b = self.buckets();
        let ghost n = self.names();
        let bucket = match self.by_key.get(key) {
            Some(v) => v,
            None => return None,
        };
        let ghost s = b[key];
        let mut total: u64 = 0;
        let mut target: Option<usize> = None;
        let mut i: usize = 0;
        while i < bucket.len()
            invariant
                s == views_of(bucket@),
                i <= bucket@.len(),
                total as nat == cap2(active_total(b, n, s.subrange(0, i as int), now)),
                match target {
                    Some(t) => last_matched(b, n, s.subrange(0, i as int), now) == Some(t as int),
                    None => last_matched(b, n, s.subrange(0, i as int), now) is None,
                },
                b == self.buckets(),
                n == self.names(),
            decreases bucket@.len() - i,
        {
            let md = &bucket[i];
            assert(s[i as int] == md@);
            assert(s.subrange(0, i + 1).drop_last() =~= s.subrange(0, i as int));
            let (t2, matched) = self.parent_activity(md, now, total);
            total = t2;
            if matched {
                target = Some(i);
            }
            i = i + 1;
        }
        assert(s.subrange(0, bucket@.len() as int) =~= s);
        if bucket.len() == 1 {
            if bucket[0].parent_name.as_str().is_empty() || total == 1 {
                Some(0)
            } else {
                None
            }
        } else if bucket.len() > 1 && total == 1 {
            target
        } else {
            None
        }
    }
}

impl ModRegistry {
    /// Picks the mod that stands in for a draw of `prims` primitives over
    /// `verts` vertices in frame `now` (see `pick`), and records the frame on
    /// the chosen mod when it is a parent.
    pub fn select_for_draw(&mut self, prims: u32, verts: u32, now: u64) -> (r: Option<(usize, ModDraw)>)
        requires
            old(self).wf(),
        ensures
            final(self).wf(),
            final(self).names() == old(self).names(),
            final(self).owned@ == old(self).owned@,
            match pick(old(self).buckets(), old(self).names(), prims, verts, now) {
                Some(i) => match r {
                    Some((j, d)) => {
                        let k = spec_mod_key(verts, prims);
                        &&& j == i
                        &&& old(self).buckets().contains_key(k)
                        &&& 0 <= i < old(self).buckets()[k].len()
                        &&& draws(d, old(self).buckets()[k][i])
                        &&& final(self).buckets() == old(self).buckets().insert(
                            k,
                            old(self).buckets()[k].update(i, after_draw(old(self).buckets()[k][i], now)),
                        )
                    },
                    None => false,
                },
                None => r is None && final(self).buckets() == old(self).buckets(),
            },
    {
        let ghost b0 = self.buckets();
        let ghost n0 = self.names();
        let k = mod_key(verts, prims);
        let i = match self.arbitrate_bucket(k, now) {
            Some(i) => i,
            None => return None,
        };
        proof {
            lemma_last_matched_in_range(b0, n0, b0[k], now);
        }
        let mut bucket = match self.by_key.take(k) {
            Some(v) => v,
            None => return None,
        };
        assert(views_of(bucket@)[i as int] == bucket@[i as int]@);
        if bucket[i].ref_verts != verts || bucket[i].ref_prims != prims {
            self.by_key.put(k, bucket);
            assert(self.buckets() =~= b0);
            return None;
        }
        let mut md = bucket.remove(i);
        let ghost m0 = md@;
        if md.is_parent {
            md.last_frame_rendered = Some(now);
        }
        let d = ModDraw {
            kind: md.kind,
            prim_count: md.prim_count,
            vert_count: md.vert_count,
            vert_size_bytes: md.vert_size_bytes,
            vb: md.vb,
            decl: md.decl,
            textures: md.textures,
            d3d_state: md.d3d_state,
        };
        let ghost m1 = md@;
        assert(m1 == after_draw(m0, now));
        bucket.insert(i, md);
        proof {
            assert(views_of(bucket@) =~= b0[k].update(i as int, m1));
            assert(b0.remove(k).insert(k, b0[k].update(i as int, m1)) =~= b0.insert(
                k,
                b0[k].update(i as int, m1),
            ));
        }
        self.by_key.put(k, bucket);
        proof {
            let b1 = self.buckets();
            assert(b1.dom() =~= b0.dom());
            assert(mod_slots(b1) =~= mod_slots(b0));
            assert forall|nm: Seq<char>|
                #![trigger n0[nm]]
                n0.contains_key(nm) implies b1.contains_key(n0[nm]) && exists|j: int|
                    #![trigger b1[n0[nm]][j]]
                    0 <= j < b1[n0[nm]].len() && b1[n0[nm]][j].name == nm by {
                let j = choose|j: int|
                    #![trigger b0[n0[nm]][j]]
                    0 <= j < b0[n0[nm]].len() && b0[n0[nm]][j].name == nm;
                assert(b1[n0[nm]][j].name == nm);
            }
            assert forall|k2: u32| #[trigger] b1.contains_key(k2) implies b1[k2].len() > 0 by {
                assert(b0.contains_key(k2));
            }
            assert forall|k2: u32, j: int|
                #![trigger b1[k2][j]]
                b1.contains_key(k2) && 0 <= j < b1[k2].len() implies spec_mod_key(
                    b1[k2][j].ref_verts,
                    b1[k2][j].ref_prims,
                ) == k2 && b1[k2][j].textures.len() == 4 && (b1[k2][j].name.len() == 0
                    ==> !b1[k2][j].is_parent) && (b1[k2][j].last_frame_rendered.is_some()
                    ==> b1[k2][j].is_parent) by {
                assert(b0.contains_key(k2));
                assert(b0[k2][j].is_parent == b1[k2][j].is_parent);
            }
        }
        Some((i, d))
    }
}

proof fn lemma_last_matched_in_range(
    b: Map<u32, Seq<ModView>>,
    n: Map<Seq<char>, u32>,
    s: Seq<ModView>,
    now: u64,
)
    ensures
        match last_matched(b, n, s, now) {
            Some(i) => 0 <= i < s.len(),
            None => true,
        },
    decreases s.len(),
{
    if s.len() > 0 {
        lemma_last_matched_in_range(b, n, s.drop_last(), now);
    }
}

proof fn lemma_recent_count_positive(s: Seq<ModView>, now: u64, j: int)
    requires
        0 <= j < s.len(),
        recently_rendered(s[j], now),
    ensures
        recent_count(s, now) >= 1,
    decreases s.len(),
{
    if j < s.len() - 1 {
        lemma_recent_count_positive(s.drop_last(), now, j);
    }
}

proof fn lemma_recent_count_zero(s: Seq<ModView>, now: u64)
    requires
        forall|j: int| 0 <= j < s.len() ==> !recently_rendered(#[trigger] s[j], now),
    ensures
        recent_count(s, now) == 0,
    decreases s.len(),
{
    if s.len() > 0 {
        lemma_recent_count_zero(s.drop_last(), now);
    }
}

proof fn lemma_active_total_two(
    b: Map<u32, Seq<ModView>>,
    n: Map<Seq<char>, u32>,
    s: Seq<ModView>,
    now: u64,
    i1: int,
    i2: int,
)
    requires
        0 <= i1 < i2 < s.len(),
    ensures
        active_total(b, n, s, now) >= active_parents(b, n, s[i1], now) + active_parents(
            b,
            n,
            s[i2],
            now,
        ),
    decreases s.len(),
{
    if i2 < s.len() - 1 {
        lemma_active_total_two(b, n, s.drop_last(), now, i1, i2);
    } else {
        lemma_active_total_one(b, n, s.drop_last(), now, i1);
    }
}

proof fn lemma_active_total_one(
    b: Map<u32, Seq<ModView>>,
    n: Map<Seq<char>, u32>,
    s: Seq<ModView>,
    now: u64,
    i: int,
)
    requires
        0 <= i < s.len(),
    ensures
        active_total(b, n, s, now) >= active_parents(b, n, s[i], now),
    decreases s.len(),
{
    if i < s.len() - 1 {
        lemma_active_total_one(b, n, s.drop_last(), now, i);
    }
}

proof fn lemma_active_total_zero(
    b: Map<u32, Seq<ModView>>,
    n: Map<Seq<char>, u32>,
    s: Seq<ModView>,
    now: u64,
)
    requires
        forall|i: int| 0 <= i < s.len() ==> active_parents(b, n, #[trigger] s[i], now) == 0,
    ensures
        active_total(b, n, s, now) == 0,
    decreases s.len(),
{
    if s.len() > 0 {
        lemma_active_total_zero(b, n, s.drop_last(), now);
    }
}

/// When two mods of a bucket of several both have a recently rendered parent,
/// the draw gets no substitute.
pub proof fn lemma_two_active_parents_pass_through(
    reg: ModRegistry,
    prims: u32,
    verts: u32,
    now: u64,
    i1: int,
    i2: int,
)
    requires
        reg.wf(),
        reg.buckets().contains_key(spec_mod_key(verts, prims)),
        reg.buckets()[spec_mod_key(verts, prims)].len() > 1,
        0 <= i1 < i2 < reg.buckets()[spec_mod_key(verts, prims)].len(),
        parent_matched(reg.buckets(), reg.names(), reg.buckets()[spec_mod_key(verts, prims)][i1], now),
        parent_matched(reg.buckets(), reg.names(), reg.buckets()[spec_mod_key(verts, prims)][i2], now),
    ensures
        pick(reg.buckets(), reg.names(), prims, verts, now) is None,
{
    let b = reg.buckets();
    let n = reg.names();
    let s = b[spec_mod_key(verts, prims)];
    let p1 = s[i1].parent_name;
    let p2 = s[i2].parent_name;
    let j1 = choose|j: int| 0 <= j < b[n[p1]].len() && recently_rendered(#[trigger] b[n[p1]][j], now) && b[n[p1]][j].name == p1;
    let j2 = choose|j: int| 0 <= j < b[n[p2]].len() && recently_rendered(#[trigger] b[n[p2]][j], now) && b[n[p2]][j].name == p2;
    lemma_recent_count_positive(b[n[p1]], now, j1);
    lemma_recent_count_positive(b[n[p2]], now, j2);
    lemma_active_total_two(b, n, s, now, i1, i2);
}

/// When no mod of the parents' buckets of a bucket of several was recently
/// rendered, the draw gets no substitute.
pub proof fn lemma_no_active_parent_passes_through(
    reg: ModRegistry,
    prims: u32,
    verts: u32,
    now: u64,
)
    requires
        reg.wf(),
        reg.buckets().contains_key(spec_mod_key(verts, prims)),
        reg.buckets()[spec_mod_key(verts, prims)].len() > 1,
        forall|i: int, j: int|
            0 <= i < reg.buckets()[spec_mod_key(verts, prims)].len() && parent_resolves(
                reg.buckets(),
                reg.names(),
                reg.buckets()[spec_mod_key(verts, prims)][i].parent_name,
            ) && 0 <= j < reg.buckets()[reg.names()[reg.buckets()[spec_mod_key(
                verts,
                prims,
            )][i].parent_name]].len() ==> !recently_rendered(
                #[trigger] reg.buckets()[reg.names()[reg.buckets()[spec_mod_key(
                    verts,
                    prims,
                )][i].parent_name]][j],
                now,
            ),
    ensures
        pick(reg.buckets(), reg.names(), prims, verts, now) is None,
{
    let b = reg.buckets();
    let n = reg.names();
    let s = b[spec_mod_key(verts, prims)];
    assert forall|i: int| 0 <= i < s.len() implies active_parents(b, n, #[trigger] s[i], now) == 0 by {
        if parent_resolves(b, n, s[i].parent_name) {
            lemma_recent_count_zero(b[n[s[i].parent_name]], now);
        }
    }
    lemma_active_total_zero(b, n, s, now);
}

/// A mod with an empty name is never a parent: it is not marked as one, the
/// name index never holds the empty name, no mod's parent resolves to it, and
/// it never counts as a recently rendered parent.
pub proof fn lemma_empty_name_is_never_parent(reg: ModRegistry, k: u32, i: int, now: u64)
    requires
        reg.wf(),
        reg.buckets().contains_key(k),
        0 <= i < reg.buckets()[k].len(),
        reg.buckets()[k][i].name.len() == 0,
    ensures
        !reg.buckets()[k][i].is_parent,
        !reg.names().contains_key(reg.buckets()[k][i].name),
        !recently_rendered(reg.buckets()[k][i], now),
        forall|m: ModView| !(parent_resolves(reg.buckets(), reg.names(), m.parent_name)
            && m.parent_name == reg.buckets()[k][i].name),
{
    assert(reg.buckets()[k][i].name =~= Seq::<char>::empty());
}

} // verus!
