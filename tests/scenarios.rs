use modelmod_core::bindings::{plan_substitute, BindOp, DeviceBindings};
use modelmod_core::hook::{DrawDecision, HookState};
use modelmod_core::loader::{deletion_mod, replacement_mod, ModNumbers};
use modelmod_core::registry::{ModRegistry, NativeMod, MOD_TYPE_DELETION, MOD_TYPE_GPU_REPLACEMENT};
use modelmod_core::render_state::RenderState;

fn numbers(mod_type: i32, ref_verts: i32, ref_prims: i32, prims: i32, vert_size: i32) -> ModNumbers {
    ModNumbers {
        mod_type,
        prim_count: prims,
        vert_count: prims * 3,
        ref_prim_count: ref_prims,
        ref_vert_count: ref_verts,
        vert_size_bytes: vert_size,
        decl_size_bytes: 0,
        prim_type: 4,
    }
}

fn replacement(name: &str, parent: &str, ref_verts: i32, ref_prims: i32, vb: u64) -> NativeMod {
    let nums = numbers(MOD_TYPE_GPU_REPLACEMENT, ref_verts, ref_prims, 40, 32);
    replacement_mod(name, parent, &nums, vb, vb + 1, [0; 4])
}

fn state_with(mods: Vec<NativeMod>) -> HookState {
    let mut st = HookState::new(false, 0);
    st.install_registry(ModRegistry::load(mods));
    st
}

fn apply(b: &mut DeviceBindings, ops: &[BindOp]) {
    for op in ops {
        match *op {
            BindOp::SetDecl(d) => b.decl = d,
            BindOp::SetStream { vb, offset, stride } => {
                b.vb = vb;
                b.vb_offset = offset;
                b.vb_stride = stride;
            }
            BindOp::SetTexture { stage, tex } => b.textures[stage as usize] = tex,
        }
    }
}

fn triangle_list_state(byte_width: u32, vert_size: u32) -> RenderState {
    let mut rs = RenderState::new();
    rs.set_topology(4);
    rs.add_input_layout(0x300, vert_size);
    rs.set_input_layout(0x300);
    rs.set_vertex_buffers(0, &vec![Some((byte_width, 0))]);
    rs
}

#[test]
fn simple_replacement_draws_the_mod_and_restores_state() {
    let mut st = state_with(vec![replacement("A", "", 120, 60, 0x100)]);
    let rs = triangle_list_state(3840, 32);
    let plan = st.begin_draw_indexed(&rs, 180);
    let m = match plan.decision {
        DrawDecision::Substitute { m, also_draw_input } => {
            assert!(!also_draw_input);
            m
        }
        other => panic!("expected a substitute, got {:?}", other),
    };
    assert_eq!(m.prim_count, 40);
    assert_eq!(m.vb, 0x100);
    assert_eq!(m.vert_size_bytes, 32);
    st.end_draw();
    assert!(!st.in_dip);

    let before = DeviceBindings { decl: 7, vb: 8, vb_offset: 12, vb_stride: 24, textures: [5; 16] };
    let p = plan_substitute(&before, &m, None, 0);
    assert_eq!(p.prim_count, 40);
    let mut dev = before;
    apply(&mut dev, &p.setup);
    assert_eq!(dev.vb, 0x100);
    assert_eq!(dev.vb_stride, 32);
    assert_eq!(dev.vb_offset, 0);
    assert_eq!(dev.decl, 0x101);
    apply(&mut dev, &p.restore);
    assert_eq!(dev.decl, 7);
    assert_eq!(dev.vb, 8);
    assert_eq!(dev.vb_offset, 12);
    assert_eq!(dev.vb_stride, 24);
    assert_eq!(dev.textures, [5; 16]);
}

#[test]
fn deletion_issues_no_draw() {
    let nums = numbers(MOD_TYPE_DELETION, 80, 40, 0, 0);
    let mut st = state_with(vec![deletion_mod("B", &nums)]);
    let plan = st.begin_draw(Some((40, 80)), 0);
    assert!(matches!(plan.decision, DrawDecision::Deleted));
    st.end_draw();
    assert!(st.registry.owned.is_empty());
}

#[test]
fn parent_arbitration_follows_the_recent_parent() {
    let mut st = state_with(vec![
        replacement("Parent1", "", 120, 60, 0x10),
        replacement("Child", "parent1", 240, 120, 0x20),
        replacement("Other", "parent2", 240, 120, 0x30),
    ]);
    // frame N: the parent draws, then the child is chosen
    let p = st.begin_draw(Some((60, 120)), 0);
    assert!(matches!(p.decision, DrawDecision::Substitute { m, .. } if m.vb == 0x10));
    st.end_draw();
    let c = st.begin_draw(Some((120, 240)), 0);
    assert!(matches!(c.decision, DrawDecision::Substitute { m, .. } if m.vb == 0x20));
    st.end_draw();
    // two frames later, without the parent
    st.frame_tick(1_000, 0);
    st.frame_tick(2_000, 0);
    let later = st.begin_draw(Some((120, 240)), 0);
    assert!(matches!(later.decision, DrawDecision::Passthrough));
    st.end_draw();
}

#[test]
fn low_framerate_passes_draws_through() {
    let mut st = state_with(vec![replacement("A", "", 120, 60, 0x100)]);
    st.metrics.last_fps_milli = 50_000;
    // 90 frames in 3 s: 30 fps, smoothed to 44 fps, below 60
    for i in 1..=90u64 {
        st.frame_tick(i * 3_000_000 / 90, 60);
    }
    assert_eq!(st.metrics.last_fps_milli, 44_000);
    assert!(st.metrics.low_framerate);
    let plan = st.begin_draw(Some((60, 120)), 0);
    assert!(matches!(plan.decision, DrawDecision::Passthrough));
    st.end_draw();
    // smoothed to 72.0 fps: still below 72.6, still low
    let start = st.metrics.last_fps_update_us;
    for i in 1..=90u64 {
        st.frame_tick(start + i * 655_336 / 90, 60);
    }
    assert_eq!(st.metrics.last_fps_milli, 72_000);
    assert!(st.metrics.low_framerate);
    let plan = st.begin_draw(Some((60, 120)), 0);
    assert!(matches!(plan.decision, DrawDecision::Passthrough));
    st.end_draw();
    // 90 fps for a window: smoothed to 77.4 fps, above 72.6
    let start = st.metrics.last_fps_update_us;
    for i in 1..=90u64 {
        st.frame_tick(start + i * 1_000_000 / 90, 60);
    }
    assert_eq!(st.metrics.last_fps_milli, 77_400);
    assert!(!st.metrics.low_framerate);
    let plan = st.begin_draw(Some((60, 120)), 0);
    assert!(matches!(plan.decision, DrawDecision::Substitute { .. }));
    st.end_draw();
}

#[test]
fn snapshot_window_lasts_250_ms() {
    let mut st = state_with(vec![]);
    assert!(st.cmd_select_next_texture());
    st.selection.track_set_texture(0xAA, 0);
    assert_eq!(st.selection.get_current_texture(), 0xAA);
    st.cmd_take_snapshot(1_000);
    let plan = st.begin_draw(Some((60, 120)), 0);
    assert_eq!(plan.overlay, Some(0));
    assert!(plan.snapshot);
    st.end_draw();
    st.frame_tick(1_100_000, 0);
    assert!(st.snapshot.is_snapping);
    st.frame_tick(1_249_000, 0);
    assert!(st.snapshot.is_snapping);
    st.frame_tick(1_250_000, 0);
    assert!(!st.snapshot.is_snapping);
    let plan = st.begin_draw(Some((60, 120)), 0);
    assert_eq!(plan.overlay, Some(0));
    assert!(!plan.snapshot);
    st.end_draw();
}

#[test]
fn device_teardown_purges_and_releases_once_more() {
    let mut st = state_with(vec![replacement("A", "", 120, 60, 0x100)]);
    st.set_selection_texture(0x900);
    // the device held 10 references; the two mod handles and the selection
    // texture took three more
    let mut device_rc: u32 = 10;
    device_rc += 3;
    st.accountant.add_delta(10, device_rc);
    assert_eq!(st.accountant.d3d_resource_count, 3);
    // the host releases down to one reference of its own plus ours
    for _ in 0..9 {
        device_rc -= 1;
        assert!(st.begin_release());
        let action = st.accountant.release_action(device_rc);
        assert_eq!(action.purge, device_rc == 4);
        if action.purge {
            let released = st.purge_device_resources();
            assert_eq!(released, vec![0x100, 0x101, 0x900]);
            device_rc -= released.len() as u32;
        }
        if action.release_again {
            device_rc -= 1;
        }
        st.end_release();
    }
    assert_eq!(device_rc, 0);
    assert_eq!(st.accountant.d3d_resource_count, 0);
    assert!(st.registry.owned.is_empty());
}
