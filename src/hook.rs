//! The interceptor's state and its decisions: what each intercepted draw
//! does, the device-release bookkeeping, the per-frame tick and the user
//! commands. The host glue performs the device calls these decisions name.

use vstd::prelude::*;
use crate::frame::{ClrState, DrawCadence, FrameMetrics, LoadFlags};
use crate::registry::{spec_mod_key, D3dState, ModKind, ModRegistry, ModView};
use crate::render_state::{prim_vert_count, RenderState, MIN_MOD_INDEX_COUNT, TOPOLOGY_TRIANGLE_LIST};
use crate::select::{draws, pick, after_draw, ModDraw};
use crate::selection::{SelectionState, SnapshotState, MAX_STAGE};

verus! {

/// The device references this library holds, as the host device's reference
/// count shows them.
pub struct Accountant {
    pub d3d_resource_count: u64,
}

/// The count after resources were added, measured as the device reference
/// count before (`pre`) and after (`post`); a count that did not grow adds
/// nothing, and the sum saturates.
pub open spec fn spec_added(count: u64, pre: u32, post: u32) -> u64 {
    if post > pre {
        if count + (post - pre) > u64::MAX {
            u64::MAX
        } else {
            (count + (post - pre)) as u64
        }
    } else {
        count
    }
}

/// The count after resources were released; removing more than is tracked
/// leaves zero.
pub open spec fn spec_removed(count: u64, pre: u32, post: u32) -> u64 {
    let diff: int = if pre >= post {
        pre - post
    } else {
        0
    };
    if diff <= count {
        (count - diff) as u64
    } else {
        0
    }
}

/// What to do after the host released the device.
#[derive(Clone, Copy, Debug, PartialEq, Eq, Structural)]
pub struct ReleaseAction {
    /// The host's last reference is about to go: release everything this
    /// library holds.
    pub purge: bool,
    /// Release the device once more, so that it can be destroyed.
    pub release_again: bool,
}

impl Accountant {
    pub fn new() -> (r: Accountant)
        ensures
            r.d3d_resource_count == 0,
    {
        Accountant { d3d_resource_count: 0 }
    }

    /// Records resources added between two reference-count readings.
    pub fn add_delta(&mut self, pre: u32, post: u32)
        ensures
            final(self).d3d_resource_count == spec_added(old(self).d3d_resource_count, pre, post),
    {
        if post > pre {
            let diff = (post - pre) as u64;
            if self.d3d_resource_count > u64::MAX - diff {
                self.d3d_resource_count = u64::MAX;
            } else {
                self.d3d_resource_count = self.d3d_resource_count + diff;
            }
        }
    }

    /// Records resources released between two reference-count readings.
    pub fn remove_delta(&mut self, pre: u32, post: u32)
        ensures
            final(self).d3d_resource_count == spec_removed(old(self).d3d_resource_count, pre, post),
    {
        let diff: u64 = if pre >= post {
            (pre - post) as u64
        } else {
            0
        };
        if diff <= self.d3d_resource_count {
            self.d3d_resource_count = self.d3d_resource_count - diff;
        } else {
            self.d3d_resource_count = 0;
        }
    }

    /// Decides, from the reference count the device reports after a host
    /// release, whether the device is about to be destroyed: its count is one
    /// more than the references this library holds.
    pub fn release_action(&self, ref_count: u32) -> (r: ReleaseAction)
        ensures
            r.purge == (self.d3d_resource_count > 0 && ref_count == self.d3d_resource_count + 1),
            r.release_again == (r.purge || (self.d3d_resource_count == 0 && ref_count == 1)),
    {
        let purge = self.d3d_resource_count > 0 && self.d3d_resource_count < u64::MAX
            && ref_count as u64 == self.d3d_resource_count + 1;
        ReleaseAction { purge, release_again: purge || (self.d3d_resource_count == 0 && ref_count == 1) }
    }
}

/// A load that added `n` device references, followed by a clear that released
/// as many, leaves the count where it was before the load.
pub proof fn lemma_load_clear_count_restored(
    count: u64,
    load_pre: u32,
    load_post: u32,
    clear_pre: u32,
    clear_post: u32,
)
    requires
        load_post >= load_pre,
        clear_pre >= clear_post,
        clear_pre - clear_post == load_post - load_pre,
        count + (load_post - load_pre) <= u64::MAX,
    ensures
        spec_removed(spec_added(count, load_pre, load_post), clear_pre, clear_post) == count,
{
}

/// What an intercepted draw does.
#[derive(Clone, Copy, Debug)]
pub enum DrawDecision {
    /// The hook was entered from inside a draw: pass the call through.
    Reentered,
    /// Draw the intercepted geometry unchanged.
    Passthrough,
    /// Draw nothing.
    Deleted,
    /// Draw the mod; draw the intercepted geometry too when `also_draw_input`.
    Substitute { m: ModDraw, also_draw_input: bool },
    /// The chosen mod (at `index` of bucket `key`) has no GPU resources yet:
    /// draw the intercepted geometry. When `hold_layout`, the registry now
    /// holds the input layout in use, and the host must add a reference to it.
    LoadRequested { key: u32, index: usize, hold_layout: bool },
}

/// A draw's plan: the decision, the stage on which to show the selection
/// texture, and whether to take a snapshot of the draw first.
#[derive(Clone, Copy, Debug)]
pub struct DrawPlan {
    pub decision: DrawDecision,
    pub overlay: Option<u32>,
    pub snapshot: bool,
}

/// Mods drawn in addition to the intercepted geometry.
pub open spec fn is_additive(k: ModKind) -> bool {
    k == ModKind::CpuAdditive || k == ModKind::GpuAdditive
}

/// Whether a chosen mod is made now, from the input layout `layout` in use.
pub open spec fn takes_layout(m: ModView, layout: u64) -> bool {
    m.kind != ModKind::Deletion && m.d3d_state == D3dState::Unloaded && layout != 0
}

/// The decision for a draw with signature `sig` against the registry `b`,
/// `n` in frame `now`, with input layout `layout` in use.
pub open spec fn spec_decision(
    b: Map<u32, Seq<ModView>>,
    n: Map<Seq<char>, u32>,
    sig: Option<(u32, u32)>,
    now: u64,
    layout: u64,
    d: DrawDecision,
) -> bool {
    match sig {
        None => d is Passthrough,
        Some(pv) => match pick(b, n, pv.0, pv.1, now) {
            None => d is Passthrough,
            Some(i) => {
                let k = spec_mod_key(pv.1, pv.0);
                let m = b[k][i];
                if m.kind == ModKind::Deletion {
                    d is Deleted
                } else if m.d3d_state == D3dState::Loaded {
                    match d {
                        DrawDecision::Substitute { m: md, also_draw_input } => draws(md, m)
                            && also_draw_input == is_additive(m.kind),
                        _ => false,
                    }
                } else {
                    match d {
                        DrawDecision::LoadRequested { key, index, hold_layout } => key == k
                            && index == i && hold_layout == takes_layout(m, layout),
                        _ => false,
                    }
                }
            },
        },
    }
}

/// The registry's tables after the draw: the chosen parent remembers the
/// frame, and a chosen mod not made yet takes the layout in use.
pub open spec fn spec_after_pick(
    b: Map<u32, Seq<ModView>>,
    n: Map<Seq<char>, u32>,
    sig: Option<(u32, u32)>,
    now: u64,
    layout: u64,
) -> Map<u32, Seq<ModView>> {
    match sig {
        None => b,
        Some(pv) => match pick(b, n, pv.0, pv.1, now) {
            None => b,
            Some(i) => {
                let k = spec_mod_key(pv.1, pv.0);
                let drawn = after_draw(b[k][i], now);
                if takes_layout(b[k][i], layout) {
                    b.insert(
                        k,
                        b[k].update(i, ModView { d3d_state: D3dState::Partial(layout), ..drawn }),
                    )
                } else {
                    b.insert(k, b[k].update(i, drawn))
                }
            },
        },
    }
}

/// The lowest stage that holds the selected texture while selecting.
pub open spec fn spec_overlay(sel: SelectionState, o: Option<u32>) -> bool {
    if !sel.making_selection {
        o is None
    } else {
        match o {
            Some(s) => s < MAX_STAGE && sel.selected_on_stage@[s as int] && forall|t: int|
                0 <= t < s ==> !sel.selected_on_stage@[t],
            None => forall|t: int| 0 <= t < MAX_STAGE ==> !sel.selected_on_stage@[t],
        }
    }
}

/// The primitive-type code of a triangle list in the older API generation.
pub const PRIMITIVE_TRIANGLE_LIST: u32 = 4;

/// The signature of an older-generation draw: triangle lists of more than
/// six indices only.
pub open spec fn primitive_signature(prim_type: u32, prim_count: u32, num_vertices: u32) -> Option<(u32, u32)> {
    if prim_type == PRIMITIVE_TRIANGLE_LIST && prim_count * 3 > MIN_MOD_INDEX_COUNT {
        Some((prim_count, num_vertices))
    } else {
        None
    }
}

/// The signature of a newer-generation indexed draw, from the shadowed state:
/// triangle lists whose counts can be recovered and are at least three.
pub open spec fn indexed_signature(rs: RenderState, index_count: u32) -> Option<(u32, u32)> {
    if rs.prim_topology != TOPOLOGY_TRIANGLE_LIST {
        None
    } else {
        match prim_vert_count(index_count, rs.vb_state@, rs.input_layouts@, rs.current_input_layout) {
            Some(pv) => if pv.0 >= 3 && pv.1 >= 3 {
                Some(pv)
            } else {
                None
            },
            None => None,
        }
    }
}

/// What starting a draw does, from state `pre` to state `post`, with
/// signature `sig` and input layout `layout` in use. A draw entered from
/// inside another changes nothing. Otherwise only the running mark and the
/// registry change: with the frame rate low or mods hidden the intercepted
/// geometry is drawn and the registry is untouched; else the decision and
/// the registry's tables follow `spec_decision` and `spec_after_pick`.
pub open spec fn draw_started(
    pre: HookState,
    post: HookState,
    sig: Option<(u32, u32)>,
    layout: u64,
    r: DrawPlan,
) -> bool {
    if pre.in_dip {
        &&& r.decision is Reentered
        &&& post == pre
    } else {
        &&& post.in_dip
        &&& !(r.decision is Reentered)
        &&& post == (HookState { registry: post.registry, in_dip: true, ..pre })
        &&& post.registry.names() == pre.registry.names()
        &&& post.registry.owned@ == (match r.decision {
            DrawDecision::LoadRequested { hold_layout, .. } => if hold_layout {
                pre.registry.owned@.push(layout)
            } else {
                pre.registry.owned@
            },
            _ => pre.registry.owned@,
        })
        &&& if pre.metrics.low_framerate || !pre.show_mods {
            &&& r.decision is Passthrough
            &&& r.overlay is None
            &&& !r.snapshot
            &&& post.registry.buckets() == pre.registry.buckets()
        } else {
            &&& spec_overlay(pre.selection, r.overlay)
            &&& r.snapshot == (r.overlay is Some && pre.snapshot.is_snapping)
            &&& spec_decision(
                pre.registry.buckets(),
                pre.registry.names(),
                sig,
                pre.metrics.total_frames,
                layout,
                r.decision,
            )
            &&& post.registry.buckets() == spec_after_pick(
                pre.registry.buckets(),
                pre.registry.names(),
                sig,
                pre.metrics.total_frames,
                layout,
            )
        }
    }
}

pub struct HookState {
    pub registry: ModRegistry,
    pub selection: SelectionState,
    pub snapshot: SnapshotState,
    pub metrics: FrameMetrics,
    pub load: LoadFlags,
    pub clr: ClrState,
    pub show_mods: bool,
    pub in_dip: bool,
    pub in_hook_release: bool,
    pub in_beginend_scene: bool,
    pub selection_texture: u64,
    pub accountant: Accountant,
}

impl HookState {
    pub open spec fn wf(&self) -> bool {
        &&& self.registry.wf()
        &&& self.selection.wf()
        &&& self.metrics.wf()
    }

    /// A fresh state: nothing loaded, mods shown, no hook running.
    pub fn new(load_on_start: bool, now_us: u64) -> (r: HookState)
        ensures
            r.wf(),
            !r.in_dip,
            !r.in_hook_release,
            !r.in_beginend_scene,
            r.show_mods,
            r.selection_texture == 0,
            r.accountant.d3d_resource_count == 0,
            r.registry.owned@.len() == 0,
            r.registry.buckets().dom().len() == 0,
            r.registry.names().dom().len() == 0,
            r.selection.is_reset(),
            !r.snapshot.is_snapping,
            !r.metrics.low_framerate,
            r.metrics.total_frames == 0,
            r.metrics.dip_calls == 0,
            !r.load.loading_mods && !r.load.done_loading_mods && r.load.load_on_start == load_on_start,
            r.clr == ClrState::NotTried,
    {
        HookState {
            registry: ModRegistry::new(),
            selection: SelectionState::new(),
            snapshot: SnapshotState::new(),
            metrics: FrameMetrics::new(now_us),
            load: LoadFlags::new(load_on_start),
            clr: ClrState::NotTried,
            show_mods: true,
            in_dip: false,
            in_hook_release: false,
            in_beginend_scene: false,
            selection_texture: 0,
            accountant: Accountant::new(),
        }
    }

    /// Whether any hook is running.
    pub fn in_any_hook_fn(&self) -> (r: bool)
        ensures
            r == (self.in_dip || self.in_hook_release || self.in_beginend_scene),
    {
        self.in_dip || self.in_hook_release || self.in_beginend_scene
    }

    /// Starts an intercepted draw whose mesh signature (primitives, vertices)
    /// is `sig`, or `None` when it cannot be recovered; `layout` is the input
    /// layout in use (zero where the API generation has none to hand over). A
    /// draw entered from inside another is passed through and changes nothing.
    /// Otherwise the draw is marked running; with the frame rate low or mods
    /// hidden the intercepted geometry is drawn; else the mod chosen by parent
    /// arbitration (if any) decides: a deletion draws nothing, a made mod is
    /// drawn in its place, and a mod not made yet asks to be made (taking the
    /// layout in use). The selection texture is overlaid on the lowest stage
    /// holding the selected texture, and a snapshot is due when that overlay
    /// applies while the snapshot window is open.
    pub fn begin_draw(&mut self, sig: Option<(u32, u32)>, layout: u64) -> (r: DrawPlan)
        requires
            old(self).wf(),
        ensures
            final(self).wf(),
            draw_started(*old(self), *final(self), sig, layout, r),
    {
        if self.in_dip {
            return DrawPlan { decision: DrawDecision::Reentered, overlay: None, snapshot: false };
        }
        self.in_dip = true;
        if self.metrics.low_framerate || !self.show_mods {
            return DrawPlan { decision: DrawDecision::Passthrough, overlay: None, snapshot: false };
        }
        let overlay = if self.selection.making_selection {
            self.selection.get_selected_texture_stage()
        } else {
            None
        };
        let snapshot = overlay.is_some() && self.snapshot.is_snapping;
        let ghost b0 = self.registry.buckets();
        let decision = match sig {
            None => DrawDecision::Passthrough,
            Some(pv) => {
                let now = self.metrics.total_frames;
                match self.registry.select_for_draw(pv.0, pv.1, now) {
                    None => DrawDecision::Passthrough,
                    Some((index, m)) => {
                        let key = crate::registry::mod_key(pv.1, pv.0);
                        match m.kind {
                            ModKind::Deletion => DrawDecision::Deleted,
                            _ => match m.d3d_state {
                                D3dState::Loaded => DrawDecision::Substitute {
                                    m,
                                    also_draw_input: match m.kind {
                                        ModKind::CpuAdditive => true,
                                        ModKind::GpuAdditive => true,
                                        _ => false,
                                    },
                                },
                                D3dState::Unloaded => {
                                    let hold = layout != 0;
                                    if hold {
                                        let ghost b1 = self.registry.buckets();
                                        self.registry.request_load(key, index, layout);
                                        proof {
                                            let x = ModView {
                                                d3d_state: D3dState::Partial(layout),
                                                ..b1[key][index as int]
                                            };
                                            assert(b1[key].update(index as int, x) =~= b0[key].update(index as int, x));
                                            assert(b1.insert(key, b1[key].update(index as int, x)) =~= b0.insert(key, b0[key].update(index as int, x)));
                                        }
                                    }
                                    DrawDecision::LoadRequested { key, index, hold_layout: hold }
                                },
                                D3dState::Partial(_) => DrawDecision::LoadRequested {
                                    key,
                                    index,
                                    hold_layout: false,
                                },
                            },
                        }
                    },
                }
            },
        };
        DrawPlan { decision, overlay, snapshot }
    }

    /// Starts an intercepted indexed draw of the newer API generation, whose
    /// signature comes from the shadowed input-assembler state (see
    /// `indexed_signature`); the layout in use is the shadowed one. Draws of
    /// six indices or fewer, and draws that are not triangle lists, are never
    /// substituted or deleted and leave the registry as it was.
    pub fn begin_draw_indexed(&mut self, rs: &RenderState, index_count: u32) -> (r: DrawPlan)
        requires
            old(self).wf(),
        ensures
            final(self).wf(),
            draw_started(
                *old(self),
                *final(self),
                indexed_signature(*rs, index_count),
                rs.current_input_layout,
                r,
            ),
            index_count <= MIN_MOD_INDEX_COUNT || rs.prim_topology != TOPOLOGY_TRIANGLE_LIST ==> {
                &&& r.decision is Passthrough || r.decision is Reentered
                &&& final(self).registry.buckets() == old(self).registry.buckets()
                &&& final(self).registry.names() == old(self).registry.names()
                &&& final(self).registry.owned@ == old(self).registry.owned@
            },
    {
        let sig = rs.draw_signature(index_count);
        self.begin_draw(sig, rs.current_input_layout)
    }

    /// Starts an intercepted indexed draw of the older API generation, which
    /// names its primitive type, primitive count and vertex count. Only
    /// triangle lists of more than two primitives (more than six indices) have
    /// a signature; other draws are never substituted or deleted and leave the
    /// registry as it was.
    pub fn begin_draw_primitive(&mut self, prim_type: u32, prim_count: u32, num_vertices: u32) -> (r: DrawPlan)
        requires
            old(self).wf(),
        ensures
            final(self).wf(),
            draw_started(
                *old(self),
                *final(self),
                primitive_signature(prim_type, prim_count, num_vertices),
                0,
                r,
            ),
            prim_count * 3 <= MIN_MOD_INDEX_COUNT || prim_type != PRIMITIVE_TRIANGLE_LIST ==> {
                &&& r.decision is Passthrough || r.decision is Reentered
                &&& final(self).registry.buckets() == old(self).registry.buckets()
                &&& final(self).registry.names() == old(self).registry.names()
                &&& final(self).registry.owned@ == old(self).registry.owned@
            },
    {
        let sig = if prim_type == PRIMITIVE_TRIANGLE_LIST && prim_count > 2 {
            Some((prim_count, num_vertices))
        } else {
            None
        };
        self.begin_draw(sig, 0)
    }

    /// Ends an intercepted draw: counts it and clears the running mark.
    pub fn end_draw(&mut self) -> (r: DrawCadence)
        requires
            old(self).wf(),
        ensures
            final(self).wf(),
            !final(self).in_dip,
            final(self).metrics.dip_calls == old(self).metrics.dip_calls.wrapping_add(1),
            final(self).registry.buckets() == old(self).registry.buckets(),
            r.periodic == (final(self).metrics.dip_calls % crate::frame::PERIODIC_DRAWS == 0),
            r.input == (final(self).metrics.dip_calls % crate::frame::INPUT_DRAWS == 0),
            r.report == (final(self).metrics.dip_calls % crate::frame::LOG_DRAWS == 0),
    {
        let r = self.metrics.count_draw();
        self.in_dip = false;
        r
    }

    /// Starts handling a host release of the device; `false` when one is
    /// already being handled, and the call is then passed straight through.
    pub fn begin_release(&mut self) -> (r: bool)
        ensures
            r == !old(self).in_hook_release,
            *final(self) == (HookState { in_hook_release: true, ..*old(self) }),
    {
        if self.in_hook_release {
            return false;
        }
        self.in_hook_release = true;
        true
    }

    /// Finishes handling a host release; nothing else changes.
    pub fn end_release(&mut self)
        ensures
            *final(self) == (HookState { in_hook_release: false, ..*old(self) }),
    {
        self.in_hook_release = false;
    }

    /// Empties the registry and forgets the selection texture, returning every
    /// handle to release, and zeroes the accountant: the device is going away.
    pub fn purge_device_resources(&mut self) -> (released: Vec<u64>)
        requires
            old(self).wf(),
        ensures
            final(self).wf(),
            released@ == (if old(self).selection_texture != 0 {
                old(self).registry.owned@.push(old(self).selection_texture)
            } else {
                old(self).registry.owned@
            }),
            final(self).registry.buckets().dom().len() == 0,
            final(self).registry.names().dom().len() == 0,
            final(self).registry.owned@.len() == 0,
            final(self).selection_texture == 0,
            final(self).accountant.d3d_resource_count == 0,
            *final(self) == (HookState {
                registry: final(self).registry,
                selection_texture: 0,
                accountant: final(self).accountant,
                ..*old(self)
            }),
            final(self).in_dip == old(self).in_dip,
    {
        let mut released = self.registry.clear();
        if self.selection_texture != 0 {
            released.push(self.selection_texture);
            self.selection_texture = 0;
        }
        self.accountant.d3d_resource_count = 0;
        released
    }

    /// Empties the registry (between frames) and returns the handles to
    /// release; the host measures the device count around the releases and
    /// records it with `Accountant::remove_delta`.
    pub fn clear_loaded_mods(&mut self) -> (released: Vec<u64>)
        requires
            old(self).wf(),
        ensures
            final(self).wf(),
            crate::registry::clear_post(old(self).registry, final(self).registry, released@),
            *final(self) == (HookState { registry: final(self).registry, ..*old(self) }),
            final(self).in_dip == old(self).in_dip,
            final(self).accountant == old(self).accountant,
    {
        self.registry.clear()
    }

    /// Installs a freshly built registry in place of the current one (which
    /// must have been cleared).
    pub fn install_registry(&mut self, reg: ModRegistry)
        requires
            old(self).wf(),
            reg.wf(),
        ensures
            final(self).wf(),
            *final(self) == (HookState { registry: reg, ..*old(self) }),
            final(self).registry == reg,
            final(self).in_dip == old(self).in_dip,
            final(self).accountant == old(self).accountant,
    {
        self.registry = reg;
    }

    /// The per-frame tick: counts the frame (updating the frame rate and its
    /// gate) and closes an expired snapshot window.
    pub fn frame_tick(&mut self, now_us: u64, min_fps: u32)
        requires
            old(self).wf(),
        ensures
            final(self).wf(),
            *final(self) == (HookState {
                metrics: final(self).metrics,
                snapshot: final(self).snapshot,
                ..*old(self)
            }),
            crate::frame::frame_counted(old(self).metrics, final(self).metrics, now_us, min_fps),
            final(self).snapshot.snap_start_ms == old(self).snapshot.snap_start_ms,
            final(self).snapshot.is_snapping == (old(self).snapshot.is_snapping && now_us / 1000
                >= old(self).snapshot.snap_start_ms && now_us / 1000 - old(self).snapshot.snap_start_ms
                < crate::selection::SNAP_MS),
            final(self).metrics.low_framerate != old(self).metrics.low_framerate
                ==> old(self).metrics.frames.wrapping_add(1) % crate::frame::FPS_WINDOW_FRAMES == 0,
    {
        self.metrics.present_tick(now_us, min_fps);
        self.snapshot.tick(now_us / 1000);
    }

    /// Whether the selection texture still has to be made.
    pub fn needs_selection_texture(&self) -> (r: bool)
        ensures
            r == (self.selection_texture == 0),
    {
        self.selection_texture == 0
    }

    /// Records the selection texture that was made.
    pub fn set_selection_texture(&mut self, tex: u64)
        ensures
            final(self).selection_texture == tex,
            *final(self) == (HookState { selection_texture: tex, ..*old(self) }),
            final(self).registry == old(self).registry,
            final(self).selection == old(self).selection,
            final(self).metrics == old(self).metrics,
            final(self).in_dip == old(self).in_dip,
    {
        self.selection_texture = tex;
    }

    /// Shows or hides mods.
    pub fn cmd_toggle_show_mods(&mut self)
        ensures
            final(self).show_mods == !old(self).show_mods,
            *final(self) == (HookState { show_mods: !old(self).show_mods, ..*old(self) }),
            final(self).in_dip == old(self).in_dip,
            final(self).registry == old(self).registry,
    {
        self.show_mods = !self.show_mods;
    }

    /// Opens a snapshot window at `now_ms` (nothing while one is open).
    pub fn cmd_take_snapshot(&mut self, now_ms: u64)
        ensures
            final(self).snapshot.is_snapping,
            final(self).snapshot.snap_start_ms == (if old(self).snapshot.is_snapping {
                old(self).snapshot.snap_start_ms
            } else {
                now_ms
            }),
            *final(self) == (HookState { snapshot: final(self).snapshot, ..*old(self) }),
            final(self).in_dip == old(self).in_dip,
            final(self).registry == old(self).registry,
    {
        self.snapshot.take_snapshot(now_ms);
    }

    /// Selects the next texture; `true` when this entered selection mode, and
    /// the texture hook must then be installed.
    pub fn cmd_select_next_texture(&mut self) -> (entered: bool)
        requires
            old(self).wf(),
        ensures
            final(self).wf(),
            entered == !old(self).selection.making_selection,
            final(self).selection.making_selection,
            *final(self) == (HookState { selection: final(self).selection, ..*old(self) }),
            old(self).selection.making_selection ==> final(self).selection.active_texture_list@
                == old(self).selection.active_texture_list@,
            !old(self).selection.making_selection ==> final(self).selection.active_texture_list@.len() == 0,
            final(self).selection.curr_texture_index == crate::selection::next_index(
                old(self).selection.curr_texture_index,
                final(self).selection.active_texture_list@.len(),
            ),
    {
        let entered = !self.selection.making_selection;
        self.selection.select_next_texture();
        entered
    }

    /// Selects the previous texture; `true` when this entered selection mode.
    pub fn cmd_select_prev_texture(&mut self) -> (entered: bool)
        requires
            old(self).wf(),
        ensures
            final(self).wf(),
            entered == !old(self).selection.making_selection,
            final(self).selection.making_selection,
            *final(self) == (HookState { selection: final(self).selection, ..*old(self) }),
            old(self).selection.making_selection ==> final(self).selection.active_texture_list@
                == old(self).selection.active_texture_list@,
            !old(self).selection.making_selection ==> final(self).selection.active_texture_list@.len() == 0,
            final(self).selection.curr_texture_index == crate::selection::prev_index(
                old(self).selection.curr_texture_index,
                final(self).selection.active_texture_list@.len(),
            ),
    {
        let entered = !self.selection.making_selection;
        self.selection.select_prev_texture();
        entered
    }

    /// Leaves selection mode and forgets the textures seen.
    pub fn cmd_clear_texture_lists(&mut self)
        requires
            old(self).wf(),
        ensures
            final(self).wf(),
            final(self).selection.is_reset(),
            *final(self) == (HookState { selection: final(self).selection, ..*old(self) }),
            final(self).in_dip == old(self).in_dip,
            final(self).registry == old(self).registry,
    {
        self.selection.clear_texture_lists();
    }

    /// The clear command, given the managed load state: unless a load is
    /// running, empties the registry and returns the handles to release.
    pub fn cmd_clear_mods(&mut self, load_state: i32) -> (r: Option<Vec<u64>>)
        requires
            old(self).wf(),
        ensures
            final(self).wf(),
            *final(self) == (HookState {
                registry: final(self).registry,
                load: final(self).load,
                ..*old(self)
            }),
            final(self).in_dip == old(self).in_dip,
            match r {
                Some(v) => !(old(self).load.loading_mods || load_state
                    == crate::frame::LOAD_IN_PROGRESS) && crate::registry::clear_post(
                    old(self).registry,
                    final(self).registry,
                    v@,
                ) && final(self).load.done_loading_mods,
                None => (old(self).load.loading_mods || load_state
                    == crate::frame::LOAD_IN_PROGRESS) && final(self).registry == old(self).registry
                    && final(self).load == old(self).load,
            },
    {
        if self.load.clear_mods(load_state) {
            Some(self.registry.clear())
        } else {
            None
        }
    }

    /// The reload command: like the clear command, and a load then starts on
    /// a later frame.
    pub fn cmd_reload_mods(&mut self, load_state: i32) -> (r: Option<Vec<u64>>)
        requires
            old(self).wf(),
        ensures
            final(self).wf(),
            *final(self) == (HookState {
                registry: final(self).registry,
                load: final(self).load,
                ..*old(self)
            }),
            final(self).in_dip == old(self).in_dip,
            match r {
                Some(v) => !(old(self).load.loading_mods || load_state
                    == crate::frame::LOAD_IN_PROGRESS) && crate::registry::clear_post(
                    old(self).registry,
                    final(self).registry,
                    v@,
                ) && !final(self).load.loading_mods && !final(self).load.done_loading_mods,
                None => (old(self).load.loading_mods || load_state
                    == crate::frame::LOAD_IN_PROGRESS) && final(self).registry == old(self).registry
                    && final(self).load == old(self).load,
            },
    {
        if self.load.reload_mods(load_state) {
            Some(self.registry.clear())
        } else {
            None
        }
    }
}

} // verus!
