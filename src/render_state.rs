//! The shadow of the input-assembler state that the newer API generation
//! keeps on the device: enough to recover a draw's vertex count from its
//! index count.

use vstd::prelude::*;

verus! {

/// The topology code of a triangle list.
pub const TOPOLOGY_TRIANGLE_LIST: u32 = 4;

/// Index counts at or below this are too small to be a mod's mesh.
pub const MIN_MOD_INDEX_COUNT: u32 = 6;

/// One bound vertex buffer: slot, byte width, structure byte stride.
#[derive(Clone, Copy, Debug, PartialEq, Eq, Structural)]
pub struct VertexBufferInfo {
    pub slot: u32,
    pub byte_width: u32,
    pub stride: u32,
}

/// One input layout, keyed by its handle, with the vertex size it describes.
#[derive(Clone, Copy, Debug, PartialEq, Eq, Structural)]
pub struct LayoutInfo {
    pub layout: u64,
    pub vert_size: u32,
}

/// The shadowed state. Handles are opaque; zero means none.
pub struct RenderState {
    pub prim_topology: u32,
    pub current_input_layout: u64,
    pub input_layouts: Vec<LayoutInfo>,
    pub vb_state: Vec<VertexBufferInfo>,
}

/// The vertex size recorded for `layout`: the latest entry for it (a layout
/// made again at a reused handle replaces the older one), or zero.
pub open spec fn layout_size(ls: Seq<LayoutInfo>, layout: u64) -> u32
    decreases ls.len(),
{
    if ls.len() == 0 {
        0
    } else if ls.last().layout == layout {
        ls.last().vert_size
    } else {
        layout_size(ls.drop_last(), layout)
    }
}

/// The (primitive count, vertex count) of an indexed triangle-list draw of
/// `index_count` indices: `None` when the draw is too small, when not exactly
/// one vertex buffer is bound, when that buffer is empty, or when the current
/// layout's vertex size is unknown.
pub open spec fn prim_vert_count(
    index_count: u32,
    vbs: Seq<VertexBufferInfo>,
    layouts: Seq<LayoutInfo>,
    current: u64,
) -> Option<(u32, u32)> {
    if index_count <= MIN_MOD_INDEX_COUNT || vbs.len() != 1 || vbs[0].byte_width == 0 {
        None
    } else {
        let size = if current == 0 {
            0
        } else {
            layout_size(layouts, current)
        };
        if size == 0 {
            None
        } else {
            Some(((index_count / 3) as u32, (vbs[0].byte_width / size) as u32))
        }
    }
}

/// The buffers recorded after a bind of `bound` (each `Some` carrying the
/// byte width and stride of a non-null buffer) starting at `start`.
pub open spec fn after_bind(
    vbs: Seq<VertexBufferInfo>,
    start: u32,
    bound: Seq<Option<(u32, u32)>>,
) -> Seq<VertexBufferInfo> {
    if bound.len() == 0 {
        Seq::empty()
    } else {
        let base = if start == 0 {
            Seq::empty()
        } else {
            vbs
        };
        base + appended(start, bound)
    }
}

/// The records a bind appends: one for each non-null buffer, at its slot.
pub open spec fn appended(start: u32, bound: Seq<Option<(u32, u32)>>) -> Seq<VertexBufferInfo>
    decreases bound.len(),
{
    if bound.len() == 0 {
        Seq::empty()
    } else {
        let rest = appended(start, bound.drop_last());
        match bound.last() {
            Some(wd) => rest.push(
                VertexBufferInfo {
                    slot: (start + bound.len() - 1) as u32,
                    byte_width: wd.0,
                    stride: wd.1,
                },
            ),
            None => rest,
        }
    }
}

impl RenderState {
    pub fn new() -> (r: RenderState)
        ensures
            r.prim_topology == 0,
            r.current_input_layout == 0,
            r.input_layouts@.len() == 0,
            r.vb_state@.len() == 0,
    {
        RenderState {
            prim_topology: 0,
            current_input_layout: 0,
            input_layouts: Vec::new(),
            vb_state: Vec::new(),
        }
    }

    /// Records the primitive topology.
    pub fn set_topology(&mut self, t: u32)
        ensures
            final(self).prim_topology == t,
            final(self).current_input_layout == old(self).current_input_layout,
            final(self).input_layouts@ == old(self).input_layouts@,
            final(self).vb_state@ == old(self).vb_state@,
    {
        self.prim_topology = t;
    }

    /// Records the current input layout (zero clears it).
    pub fn set_input_layout(&mut self, layout: u64)
        ensures
            final(self).current_input_layout == layout,
            final(self).prim_topology == old(self).prim_topology,
            final(self).input_layouts@ == old(self).input_layouts@,
            final(self).vb_state@ == old(self).vb_state@,
    {
        self.current_input_layout = layout;
    }

    /// Records the vertex size of a layout when it is created.
    pub fn add_input_layout(&mut self, layout: u64, vert_size: u32)
        ensures
            final(self).input_layouts@ == old(self).input_layouts@.push(
                LayoutInfo { layout, vert_size },
            ),
            final(self).prim_topology == old(self).prim_topology,
            final(self).current_input_layout == old(self).current_input_layout,
            final(self).vb_state@ == old(self).vb_state@,
    {
        self.input_layouts.push(LayoutInfo { layout, vert_size });
    }

    /// Records a vertex-buffer bind starting at slot `start`. An empty bind
    /// clears the record; a bind at slot 0 replaces it; otherwise the bound
    /// buffers are added. Each entry of `bound` is `None` for a null buffer or
    /// the byte width and stride the device reports for the buffer.
    pub fn set_vertex_buffers(&mut self, start: u32, bound: &Vec<Option<(u32, u32)>>)
        requires
            start + bound@.len() <= u32::MAX + 1,
        ensures
            final(self).vb_state@ == after_bind(old(self).vb_state@, start, bound@),
            final(self).prim_topology == old(self).prim_topology,
            final(self).current_input_layout == old(self).current_input_layout,
            final(self).input_layouts@ == old(self).input_layouts@,
    {
        if bound.len() == 0 || start == 0 {
            self.vb_state = Vec::new();
        }
        if bound.len() == 0 {
            return;
        }
        let ghost base = self.vb_state@;
        let mut i: usize = 0;
        while i < bound.len()
            invariant
                i <= bound@.len(),
                start + bound@.len() <= u32::MAX + 1,
                self.vb_state@ == base + appended(start, bound@.subrange(0, i as int)),
                self.prim_topology == old(self).prim_topology,
                self.current_input_layout == old(self).current_input_layout,
                self.input_layouts@ == old(self).input_layouts@,
            decreases bound@.len() - i,
        {
            let ghost next = bound@.subrange(0, i + 1);
            assert(next.drop_last() =~= bound@.subrange(0, i as int));
            match bound[i] {
                Some(wd) => {
                    self.vb_state.push(
                        VertexBufferInfo { slot: start + i as u32, byte_width: wd.0, stride: wd.1 },
                    );
                    assert(self.vb_state@ =~= base + appended(start, next));
                },
                None => {},
            }
            i = i + 1;
        }
        assert(bound@.subrange(0, bound@.len() as int) =~= bound@);
    }

    /// The vertex size recorded for `layout`, or zero.
    pub fn vertex_size_of(&self, layout: u64) -> (r: u32)
        ensures
            r == layout_size(self.input_layouts@, layout),
    {
        let mut i: usize = self.input_layouts.len();
        assert(self.input_layouts@.subrange(0, i as int) =~= self.input_layouts@);
        while i > 0
            invariant
                i <= self.input_layouts@.len(),
                layout_size(self.input_layouts@, layout) == layout_size(
                    self.input_layouts@.subrange(0, i as int),
                    layout,
                ),
            decreases i,
        {
            let ghost ls = self.input_layouts@.subrange(0, i as int);
            assert(ls.drop_last() =~= self.input_layouts@.subrange(0, i - 1));
            if self.input_layouts[i - 1].layout == layout {
                return self.input_layouts[i - 1].vert_size;
            }
            i = i - 1;
        }
        0
    }

    /// Recovers the (primitive count, vertex count) of an indexed draw, as
    /// `prim_vert_count` states.
    pub fn compute_prim_vert_count(&self, index_count: u32) -> (r: Option<(u32, u32)>)
        ensures
            r == prim_vert_count(
                index_count,
                self.vb_state@,
                self.input_layouts@,
                self.current_input_layout,
            ),
    {
        if index_count <= MIN_MOD_INDEX_COUNT {
            return None;
        }
        let prim_count = index_count / 3;
        if self.vb_state.len() != 1 {
            return None;
        }
        let vb_size = self.vb_state[0].byte_width;
        if vb_size == 0 {
            return None;
        }
        let vert_size = if self.current_input_layout == 0 {
            0
        } else {
            self.vertex_size_of(self.current_input_layout)
        };
        if vert_size == 0 {
            return None;
        }
        Some((prim_count, vb_size / vert_size))
    }

    /// The mesh signature of an indexed draw, when it is a triangle list whose
    /// signature can be recovered and has at least three primitives and three
    /// vertices; `None` otherwise, and the draw goes through unchanged.
    pub fn draw_signature(&self, index_count: u32) -> (r: Option<(u32, u32)>)
        ensures
            r == (if self.prim_topology != TOPOLOGY_TRIANGLE_LIST {
                None
            } else {
                match prim_vert_count(
                    index_count,
                    self.vb_state@,
                    self.input_layouts@,
                    self.current_input_layout,
                ) {
                    Some(pv) => if pv.0 >= 3 && pv.1 >= 3 {
                        Some(pv)
                    } else {
                        None
                    },
                    None => None,
                }
            }),
    {
        if self.prim_topology != TOPOLOGY_TRIANGLE_LIST {
            return None;
        }
        match self.compute_prim_vert_count(index_count) {
            Some(pv) => if pv.0 >= 3 && pv.1 >= 3 {
                Some(pv)
            } else {
                None
            },
            None => None,
        }
    }
}

/// A draw of six indices or fewer has no signature, so it is never
/// substituted.
pub proof fn lemma_small_draws_have_no_signature(
    index_count: u32,
    vbs: Seq<VertexBufferInfo>,
    layouts: Seq<LayoutInfo>,
    current: u64,
)
    requires
        index_count <= MIN_MOD_INDEX_COUNT,
    ensures
        prim_vert_count(index_count, vbs, layouts, current) is None,
{
}

} // verus!
