use modelmod_core::bindings::{plan_substitute, substitute_views, vertex_buffers_to_restore, BindOp, DeviceBindings};
use modelmod_core::frame::{
    clr_after_init, clr_needs_init, ClrState, FrameMetrics, LoadFlags, LOAD_COMPLETE,
    LOAD_IN_PROGRESS, LOAD_NOT_STARTED, LOAD_PENDING,
};
use modelmod_core::hex::u8_slice_to_hex_string;
use modelmod_core::hook::{Accountant, HookState};
use modelmod_core::input::{bindings, input_profile, Command, InputProfile, DIK_F1, DIK_F7};
use modelmod_core::registry::{D3dState, ModKind};
use modelmod_core::render_state::{RenderState, VertexBufferInfo};
use modelmod_core::select::ModDraw;
use modelmod_core::selection::{selection_texels, SelectionState, SnapshotState, SELECTION_COLOR};

#[test]
fn hex_string_has_two_digits_per_byte() {
    assert_eq!(u8_slice_to_hex_string(&[0x00, 0xab, 0x10, 0xff]), "00ab10ff");
    assert_eq!(u8_slice_to_hex_string(&[]), "");
    assert_eq!(u8_slice_to_hex_string(&[0x9f]), "9f");
}

#[test]
fn prim_vert_count_from_shadow() {
    let mut rs = RenderState::new();
    rs.set_topology(4);
    rs.add_input_layout(0x300, 32);
    rs.add_input_layout(0x400, 0);
    assert_eq!(rs.compute_prim_vert_count(180), None); // no buffer yet
    rs.set_vertex_buffers(0, &vec![Some((3840, 0))]);
    assert_eq!(rs.compute_prim_vert_count(180), None); // no layout yet
    rs.set_input_layout(0x300);
    assert_eq!(rs.compute_prim_vert_count(180), Some((60, 120)));
    assert_eq!(rs.draw_signature(180), Some((60, 120)));
    rs.set_input_layout(0x400);
    assert_eq!(rs.compute_prim_vert_count(180), None); // zero vertex size
    rs.set_input_layout(0x300);
    rs.set_vertex_buffers(1, &vec![Some((100, 4))]);
    assert_eq!(rs.compute_prim_vert_count(180), None); // two buffers
    rs.set_vertex_buffers(0, &vec![Some((0, 0))]);
    assert_eq!(rs.compute_prim_vert_count(180), None); // empty buffer
}

#[test]
fn vertex_buffer_binds_update_the_shadow() {
    let mut rs = RenderState::new();
    rs.set_vertex_buffers(0, &vec![Some((10, 1)), None, Some((30, 3))]);
    assert_eq!(
        rs.vb_state,
        vec![
            VertexBufferInfo { slot: 0, byte_width: 10, stride: 1 },
            VertexBufferInfo { slot: 2, byte_width: 30, stride: 3 },
        ]
    );
    rs.set_vertex_buffers(4, &vec![Some((40, 4))]);
    assert_eq!(rs.vb_state.len(), 3);
    assert_eq!(rs.vb_state[2], VertexBufferInfo { slot: 4, byte_width: 40, stride: 4 });
    rs.set_vertex_buffers(3, &vec![]);
    assert!(rs.vb_state.is_empty());
}

#[test]
fn selection_list_holds_each_texture_once() {
    let mut sel = SelectionState::new();
    sel.track_set_texture(0x10, 0); // not selecting: ignored
    assert!(sel.active_texture_list.is_empty());
    sel.select_next_texture();
    assert!(sel.making_selection);
    for t in [0x10u64, 0x20, 0x10, 0x30, 0x20] {
        sel.track_set_texture(t, 1);
    }
    assert_eq!(sel.active_texture_list, vec![0x10, 0x20, 0x30]);
    assert!(sel.has_seen(0x20));
    assert!(!sel.has_seen(0x40));
    assert_eq!(sel.curr_texture_index, 0);
    assert_eq!(sel.get_current_texture(), 0x10);
}

#[test]
fn selection_index_wraps_both_ways() {
    let mut sel = SelectionState::new();
    sel.select_next_texture();
    assert_eq!(sel.curr_texture_index, 0); // empty list: stays at 0
    sel.select_prev_texture();
    assert_eq!(sel.curr_texture_index, 0);
    for t in [1u64, 2, 3] {
        sel.track_set_texture(t, 0);
    }
    sel.select_prev_texture();
    assert_eq!(sel.curr_texture_index, 2);
    sel.select_next_texture();
    assert_eq!(sel.curr_texture_index, 0);
    sel.select_next_texture();
    sel.select_next_texture();
    assert_eq!(sel.get_current_texture(), 3);
    sel.select_next_texture();
    assert_eq!(sel.get_current_texture(), 1);
}

#[test]
fn selected_stage_follows_the_current_texture() {
    let mut sel = SelectionState::new();
    sel.select_next_texture();
    sel.track_set_texture(0xA, 3);
    assert_eq!(sel.get_selected_texture_stage(), Some(3));
    sel.track_set_texture(0xB, 1);
    assert_eq!(sel.get_selected_texture_stage(), Some(3));
    sel.track_set_texture(0xA, 1);
    assert_eq!(sel.get_selected_texture_stage(), Some(1));
    sel.track_set_texture(0xB, 1);
    sel.track_set_texture(0xB, 3);
    assert_eq!(sel.get_selected_texture_stage(), None);
    sel.track_set_texture(0xA, 40); // out of range stage: only listed
    assert_eq!(sel.get_selected_texture_stage(), None);
    sel.clear_texture_lists();
    assert!(!sel.making_selection);
    assert!(sel.active_texture_list.is_empty());
    assert_eq!(sel.curr_texture_index, 0);
}

#[test]
fn snapshot_request_is_idempotent_while_open() {
    let mut s = SnapshotState::new();
    s.take_snapshot(100);
    s.take_snapshot(200);
    assert_eq!(s.snap_start_ms, 100);
    s.tick(349);
    assert!(s.is_snapping);
    s.tick(350);
    assert!(!s.is_snapping);
    s.take_snapshot(500);
    s.tick(400); // clock behind the start closes the window
    assert!(!s.is_snapping);
}

#[test]
fn selection_texture_is_solid_green() {
    let t = selection_texels();
    assert_eq!(t.len(), 256 * 256);
    assert!(t.iter().all(|&p| p == SELECTION_COLOR));
    assert_eq!(SELECTION_COLOR, 0xFF00FF00);
}

#[test]
fn frame_counter_measures_every_ninety_frames() {
    let mut m = FrameMetrics::new(0);
    for i in 1..90u64 {
        m.present_tick(i * 10_000, 30);
        assert_eq!(m.last_fps_milli, 120_000);
    }
    m.present_tick(900_000, 30); // 90 frames in 0.9 s: 100 fps
    assert_eq!(m.last_fps_milli, (3 * 100_000 + 7 * 120_000) / 10);
    assert_eq!(m.frames, 0);
    assert_eq!(m.total_frames, 90);
    assert!(!m.low_framerate);
}

#[test]
fn draw_cadence_counts() {
    let mut m = FrameMetrics::new(0);
    let mut periodic = 0;
    let mut input = 0;
    for _ in 0..40_000 {
        let c = m.count_draw();
        if c.periodic {
            periodic += 1;
        }
        if c.input {
            input += 1;
        }
    }
    assert_eq!(m.dip_calls, 40_000);
    assert_eq!(periodic, 2);
    assert_eq!(input, 160);
}

#[test]
fn load_polling_transitions() {
    let mut f = LoadFlags::new(true);
    assert!(f.wants_start());
    assert!(!f.on_start_state(LOAD_PENDING));
    assert!(f.on_start_state(LOAD_NOT_STARTED));
    f.on_load_requested(LOAD_PENDING);
    assert!(f.loading_mods && !f.done_loading_mods);
    assert!(!f.wants_start());
    assert!(!f.on_poll_state(LOAD_IN_PROGRESS));
    assert!(f.on_poll_state(LOAD_COMPLETE));
    assert!(!f.loading_mods && f.done_loading_mods);
    let mut g = LoadFlags::new(true);
    assert!(!g.on_start_state(LOAD_IN_PROGRESS));
    assert!(g.loading_mods);
    assert!(g.is_loading(LOAD_NOT_STARTED));
    let mut h = LoadFlags::new(false);
    assert!(!h.wants_start());
    h.on_load_requested(LOAD_COMPLETE);
    assert!(h.done_loading_mods);
}

#[test]
fn commands_refused_while_loading() {
    let mut st = HookState::new(true, 0);
    assert!(st.cmd_clear_mods(LOAD_IN_PROGRESS).is_none());
    assert!(st.cmd_reload_mods(LOAD_IN_PROGRESS).is_none());
    assert_eq!(st.cmd_clear_mods(LOAD_COMPLETE), Some(vec![]));
    assert!(st.load.done_loading_mods);
    assert_eq!(st.cmd_reload_mods(LOAD_COMPLETE), Some(vec![]));
    assert!(!st.load.done_loading_mods && !st.load.loading_mods);
}

#[test]
fn clr_failure_is_sticky() {
    assert!(clr_needs_init(ClrState::NotTried));
    assert_eq!(clr_after_init(false), ClrState::Failed);
    assert!(!clr_needs_init(clr_after_init(false)));
    assert_eq!(clr_after_init(true), ClrState::Ready);
}

#[test]
fn accountant_clamps_and_restores() {
    let mut a = Accountant::new();
    a.add_delta(10, 16);
    assert_eq!(a.d3d_resource_count, 6);
    a.add_delta(16, 12); // shrinking adds nothing
    assert_eq!(a.d3d_resource_count, 6);
    a.remove_delta(16, 10);
    assert_eq!(a.d3d_resource_count, 0);
    a.add_delta(0, 2);
    a.remove_delta(20, 10); // more than tracked: clamped to zero
    assert_eq!(a.d3d_resource_count, 0);
    let r = a.release_action(1);
    assert!(!r.purge && r.release_again);
    a.add_delta(0, 2);
    assert!(a.release_action(3).purge);
    assert!(!a.release_action(4).purge);
}

#[test]
fn hook_flags() {
    let mut st = HookState::new(false, 0);
    assert!(!st.in_any_hook_fn());
    assert!(st.begin_release());
    assert!(st.in_any_hook_fn());
    assert!(!st.begin_release());
    st.end_release();
    assert!(!st.in_any_hook_fn());
    assert!(st.needs_selection_texture());
    st.set_selection_texture(5);
    assert!(!st.needs_selection_texture());
}

#[test]
fn input_profiles_by_prefix() {
    assert_eq!(input_profile("FKeys"), (InputProfile::FKeys, true));
    assert_eq!(input_profile("PunctKeys"), (InputProfile::Punct, true));
    assert_eq!(input_profile("wasd"), (InputProfile::FKeys, false));
    assert_eq!(input_profile(""), (InputProfile::FKeys, false));
    let b = bindings(InputProfile::FKeys);
    assert_eq!(b.len(), 6);
    assert_eq!(b[0], (DIK_F1, Command::ReloadMods));
    assert_eq!(b[5], (DIK_F7, Command::TakeSnapshot));
    assert!(bindings(InputProfile::Punct).is_empty());
}

#[test]
fn overlay_on_a_mod_texture_stage_restores_prior_bindings() {
    let cur = DeviceBindings { decl: 1, vb: 2, vb_offset: 3, vb_stride: 4, textures: [9; 16] };
    let m = ModDraw {
        kind: ModKind::GpuReplacement,
        prim_count: 10,
        vert_count: 30,
        vert_size_bytes: 20,
        vb: 0x100,
        decl: 0x101,
        textures: [0x50, 0, 0x52, 0],
        d3d_state: D3dState::Loaded,
    };
    let p = plan_substitute(&cur, &m, Some(2), 0x77);
    let mut dev = cur;
    let run = |dev: &mut DeviceBindings, ops: &[BindOp]| {
        for op in ops {
            match *op {
                BindOp::SetDecl(d) => dev.decl = d,
                BindOp::SetStream { vb, offset, stride } => {
                    dev.vb = vb;
                    dev.vb_offset = offset;
                    dev.vb_stride = stride;
                }
                BindOp::SetTexture { stage, tex } => dev.textures[stage as usize] = tex,
            }
        }
    };
    run(&mut dev, &p.setup);
    assert_eq!(dev.textures[0], 0x50);
    assert_eq!(dev.textures[1], 9);
    assert_eq!(dev.textures[2], 0x77);
    run(&mut dev, &p.restore);
    assert_eq!(dev.textures, [9; 16]);
    assert_eq!((dev.decl, dev.vb, dev.vb_offset, dev.vb_stride), (1, 2, 3, 4));
}

#[test]
fn mod_views_go_on_their_own_stages() {
    let views = vec![0, 11, 12, 13, 14];
    let mods = vec![0x51, 0, 0x53];
    let r = substitute_views(&views, &mods);
    assert_eq!(r, vec![0x51, 11, 0x53, 13, 14]);
}

#[test]
fn restore_count_covers_every_bound_slot() {
    assert_eq!(vertex_buffers_to_restore(&vec![5, 6, 0, 7]), 4);
    assert_eq!(vertex_buffers_to_restore(&vec![0, 9, 0, 0]), 2);
    assert_eq!(vertex_buffers_to_restore(&vec![0, 0]), 0);
    assert_eq!(vertex_buffers_to_restore(&vec![1; 16]), 16);
}

#[test]
fn recreated_layout_replaces_the_old_size() {
    let mut rs = RenderState::new();
    rs.set_topology(4);
    rs.add_input_layout(0x300, 16);
    rs.add_input_layout(0x300, 32);
    rs.set_input_layout(0x300);
    rs.set_vertex_buffers(0, &vec![Some((3840, 0))]);
    assert_eq!(rs.vertex_size_of(0x300), 32);
    assert_eq!(rs.compute_prim_vert_count(180), Some((60, 120)));
}

#[test]
fn release_marks_change_nothing_else() {
    let mut st = HookState::new(false, 0);
    st.set_selection_texture(0x900);
    assert!(st.begin_release());
    st.end_release();
    assert_eq!(st.selection_texture, 0x900);
    assert!(!st.in_hook_release);
}
