//! The device state a substitute draw changes, and the plan that binds a
//! mod's resources and then puts every saved value back.

use vstd::prelude::*;
use crate::select::ModDraw;

verus! {

/// The number of texture stages a plan can touch.
pub const BIND_STAGES: usize = 16;

/// The device bindings read before a substitute draw: the vertex declaration
/// (or input layout), the stream-0 vertex buffer with its offset and stride,
/// and the texture on each stage. Handles are opaque; zero is null.
#[derive(Clone, Copy, Debug)]
pub struct DeviceBindings {
    pub decl: u64,
    pub vb: u64,
    pub vb_offset: u32,
    pub vb_stride: u32,
    pub textures: [u64; 16],
}

pub ghost struct BindingsView {
    pub decl: u64,
    pub vb: u64,
    pub vb_offset: u32,
    pub vb_stride: u32,
    pub textures: Seq<u64>,
}

impl View for DeviceBindings {
    type V = BindingsView;

    open spec fn view(&self) -> BindingsView {
        BindingsView {
            decl: self.decl,
            vb: self.vb,
            vb_offset: self.vb_offset,
            vb_stride: self.vb_stride,
            textures: self.textures@,
        }
    }
}

/// One device call of a plan.
#[derive(Clone, Copy, Debug, PartialEq, Eq, Structural)]
pub enum BindOp {
    SetDecl(u64),
    SetStream { vb: u64, offset: u32, stride: u32 },
    SetTexture { stage: u32, tex: u64 },
}

/// The bindings after one call.
pub open spec fn apply(b: BindingsView, op: BindOp) -> BindingsView {
    match op {
        BindOp::SetDecl(d) => BindingsView { decl: d, ..b },
        BindOp::SetStream { vb, offset, stride } => BindingsView {
            vb,
            vb_offset: offset,
            vb_stride: stride,
            ..b
        },
        BindOp::SetTexture { stage, tex } => if stage < b.textures.len() {
            BindingsView { textures: b.textures.update(stage as int, tex), ..b }
        } else {
            b
        },
    }
}

/// The bindings after a sequence of calls, in order.
pub open spec fn apply_all(b: BindingsView, ops: Seq<BindOp>) -> BindingsView
    decreases ops.len(),
{
    if ops.len() == 0 {
        b
    } else {
        apply(apply_all(b, ops.drop_last()), ops.last())
    }
}

/// A substitute draw: calls that bind the mod, the draw itself, and calls
/// that restore what was bound before.
#[derive(Debug)]
pub struct SubstitutePlan {
    pub setup: Vec<BindOp>,
    /// Primitives of the replacement's triangle list.
    pub prim_count: u32,
    pub restore: Vec<BindOp>,
}

proof fn lemma_apply_all_push(b: BindingsView, ops: Seq<BindOp>, op: BindOp)
    ensures
        apply_all(b, ops.push(op)) == apply(apply_all(b, ops), op),
{
    assert(ops.push(op).drop_last() =~= ops);
}

proof fn lemma_apply_all_concat(b: BindingsView, a: Seq<BindOp>, c: Seq<BindOp>)
    ensures
        apply_all(b, a + c) == apply_all(apply_all(b, a), c),
    decreases c.len(),
{
    if c.len() == 0 {
        assert(a + c =~= a);
    } else {
        assert((a + c).drop_last() =~= a + c.drop_last());
        lemma_apply_all_concat(b, a, c.drop_last());
    }
}

/// Appends one call to a plan under construction.
fn push_op(ops: &mut Vec<BindOp>, op: BindOp, Ghost(start): Ghost<BindingsView>)
    ensures
        final(ops)@ == old(ops)@.push(op),
        apply_all(start, final(ops)@) == apply(apply_all(start, old(ops)@), op),
{
    proof {
        lemma_apply_all_push(start, ops@, op);
    }
    ops.push(op);
}

/// The texture a stage holds once the mod's textures are bound.
pub open spec fn texture_after_mod(cur: BindingsView, m: ModDraw, s: int) -> u64 {
    if 0 <= s < 4 && m.textures@[s] != 0 {
        m.textures@[s]
    } else {
        cur.textures[s]
    }
}

/// Plans a substitute draw of `m` against the bindings `cur` read from the
/// device. The setup binds the mod's declaration and vertex buffer (stride
/// `vert_size_bytes`, offset 0), each of its non-null textures on stages 0 to
/// 3, then the selection texture on `overlay`'s stage when there is one. The
/// restore undoes these in reverse order with the values they replaced.
pub fn plan_substitute(
    cur: &DeviceBindings,
    m: &ModDraw,
    overlay: Option<u32>,
    selection_tex: u64,
) -> (p: SubstitutePlan)
    requires
        match overlay {
            Some(s) => s < BIND_STAGES,
            None => true,
        },
    ensures
        apply_all(apply_all(cur@, p.setup@), p.restore@) == cur@,
        ({
            let bound = apply_all(cur@, p.setup@);
            &&& bound.decl == m.decl
            &&& bound.vb == m.vb
            &&& bound.vb_offset == 0
            &&& bound.vb_stride == m.vert_size_bytes
            &&& forall|s: int|
                0 <= s < BIND_STAGES ==> bound.textures[s] == (match overlay {
                    Some(o) => if s == o {
                        selection_tex
                    } else {
                        texture_after_mod(cur@, *m, s)
                    },
                    None => texture_after_mod(cur@, *m, s),
                })
        }),
        p.prim_count == m.prim_count,
{
    let ghost c = cur@;
    let mut setup: Vec<BindOp> = Vec::new();
    push_op(&mut setup, BindOp::SetDecl(m.decl), Ghost(c));
    push_op(
        &mut setup,
        BindOp::SetStream { vb: m.vb, offset: 0, stride: m.vert_size_bytes },
        Ghost(c),
    );
    let mut i: usize = 0;
    while i < 4
        invariant
            i <= 4,
            c == cur@,
            c.textures.len() == BIND_STAGES,
            ({
                let b = apply_all(c, setup@);
                &&& b.decl == m.decl
                &&& b.vb == m.vb
                &&& b.vb_offset == 0
                &&& b.vb_stride == m.vert_size_bytes
                &&& b.textures.len() == BIND_STAGES
                &&& forall|s: int|
                    0 <= s < BIND_STAGES ==> b.textures[s] == (if s < i {
                        texture_after_mod(c, *m, s)
                    } else {
                        c.textures[s]
                    })
            }),
        decreases 4 - i,
    {
        if m.textures[i] != 0 {
            push_op(&mut setup, BindOp::SetTexture { stage: i as u32, tex: m.textures[i] }, Ghost(c));
        }
        i = i + 1;
    }
    match overlay {
        Some(s) => {
            push_op(&mut setup, BindOp::SetTexture { stage: s, tex: selection_tex }, Ghost(c));
        },
        None => {},
    }
    let ghost bound = apply_all(c, setup@);
    let mut restore: Vec<BindOp> = Vec::new();
    match overlay {
        Some(s) => {
            let saved = if (s as usize) < 4 && m.textures[s as usize] != 0 {
                m.textures[s as usize]
            } else {
                cur.textures[s as usize]
            };
            push_op(&mut restore, BindOp::SetTexture { stage: s, tex: saved }, Ghost(bound));
        },
        None => {},
    }
    let mut j: usize = 4;
    while j > 0
        invariant
            j <= 4,
            c == cur@,
            c.textures.len() == BIND_STAGES,
            ({
                let b = apply_all(bound, restore@);
                &&& b.decl == m.decl
                &&& b.vb == m.vb
                &&& b.vb_offset == 0
                &&& b.vb_stride == m.vert_size_bytes
                &&& b.textures.len() == BIND_STAGES
                &&& forall|s: int|
                    0 <= s < BIND_STAGES ==> b.textures[s] == (if s < j {
                        texture_after_mod(c, *m, s)
                    } else {
                        c.textures[s]
                    })
            }),
        decreases j,
    {
        j = j - 1;
        if m.textures[j] != 0 {
            push_op(&mut restore, BindOp::SetTexture { stage: j as u32, tex: cur.textures[j] }, Ghost(bound));
        }
    }
    push_op(
        &mut restore,
        BindOp::SetStream { vb: cur.vb, offset: cur.vb_offset, stride: cur.vb_stride },
        Ghost(bound),
    );
    push_op(&mut restore, BindOp::SetDecl(cur.decl), Ghost(bound));
    proof {
        let fin = apply_all(bound, restore@);
        assert(fin.textures =~= c.textures);
    }
    SubstitutePlan { setup, prim_count: m.prim_count, restore }
}

/// Running a plan's setup and then its restore leaves every binding it
/// touches as it was read before the substitute draw.
pub proof fn lemma_restore_round_trip(cur: BindingsView, p_setup: Seq<BindOp>, p_restore: Seq<BindOp>)
    requires
        apply_all(apply_all(cur, p_setup), p_restore) == cur,
    ensures
        apply_all(cur, p_setup + p_restore) == cur,
{
    lemma_apply_all_concat(cur, p_setup, p_restore);
}

/// The view bound on stage `i` while the mod is drawn: the mod's texture
/// view `i` where it has one, the bound view otherwise.
pub open spec fn substituted_view(views: Seq<u64>, mods: Seq<u64>, i: int) -> u64 {
    if i < mods.len() && mods[i] != 0 {
        mods[i]
    } else {
        views[i]
    }
}

/// Puts the mod's texture views on their stages: mod view `i` replaces the
/// view bound on stage `i` (newer API generation); null mod views leave the
/// stage as it is.
pub fn substitute_views(views: &Vec<u64>, mods: &Vec<u64>) -> (r: Vec<u64>)
    ensures
        r@.len() == views@.len(),
        forall|i: int| 0 <= i < views@.len() ==> r@[i] == substituted_view(views@, mods@, i),
{
    let mut r: Vec<u64> = Vec::new();
    let mut i: usize = 0;
    while i < views.len()
        invariant
            i <= views@.len(),
            r@.len() == i,
            forall|j: int| 0 <= j < i ==> r@[j] == substituted_view(views@, mods@, j),
        decreases views@.len() - i,
    {
        if i < mods.len() && mods[i] != 0 {
            r.push(mods[i]);
        } else {
            r.push(views[i]);
        }
        i = i + 1;
    }
    r
}

/// How many vertex-buffer slots to bind back after a substitute draw: every
/// slot up to the last non-null one, so that each saved binding returns (and
/// none when every slot is null).
pub fn vertex_buffers_to_restore(vbs: &Vec<u64>) -> (r: usize)
    ensures
        r <= vbs@.len(),
        forall|j: int| r <= j < vbs@.len() ==> vbs@[j] == 0,
        r > 0 ==> vbs@[r - 1] != 0,
{
    let mut i: usize = vbs.len();
    while i > 0
        invariant
            i <= vbs@.len(),
            forall|j: int| i <= j < vbs@.len() ==> vbs@[j] == 0,
        decreases i,
    {
        if vbs[i - 1] != 0 {
            return i;
        }
        i = i - 1;
    }
    0
}

} // verus!
