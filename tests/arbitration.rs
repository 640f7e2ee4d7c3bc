use modelmod_core::hook::{DrawDecision, HookState};
use modelmod_core::loader::{deferred_mod, replacement_mod, ModNumbers};
use modelmod_core::registry::{mod_key, D3dState, ModRegistry, NativeMod, MOD_TYPE_GPU_REPLACEMENT};
use modelmod_core::render_state::RenderState;

fn repl(name: &str, parent: &str, ref_verts: i32, ref_prims: i32, vb: u64) -> NativeMod {
    let nums = ModNumbers {
        mod_type: MOD_TYPE_GPU_REPLACEMENT,
        prim_count: 10,
        vert_count: 30,
        ref_prim_count: ref_prims,
        ref_vert_count: ref_verts,
        vert_size_bytes: 32,
        decl_size_bytes: 0,
        prim_type: 4,
    };
    replacement_mod(name, parent, &nums, vb, vb + 1, [0; 4])
}

fn draw(st: &mut HookState, prims: u32, verts: u32) -> DrawDecision {
    let d = st.begin_draw(Some((prims, verts)), 0).decision;
    st.end_draw();
    d
}

fn family() -> HookState {
    let mut st = HookState::new(false, 0);
    st.install_registry(ModRegistry::load(vec![
        repl("p1", "", 120, 60, 0x10),
        repl("p2", "", 150, 50, 0x20),
        repl("c1", "p1", 240, 120, 0x30),
        repl("c2", "p2", 240, 120, 0x40),
    ]));
    st
}

#[test]
fn two_recent_parents_give_no_substitute() {
    let mut st = family();
    assert!(matches!(draw(&mut st, 60, 120), DrawDecision::Substitute { .. }));
    assert!(matches!(draw(&mut st, 50, 150), DrawDecision::Substitute { .. }));
    assert!(matches!(draw(&mut st, 120, 240), DrawDecision::Passthrough));
}

#[test]
fn no_recent_parent_gives_no_substitute() {
    let mut st = family();
    assert!(matches!(draw(&mut st, 120, 240), DrawDecision::Passthrough));
}

#[test]
fn one_recent_parent_picks_its_child() {
    let mut st = family();
    assert!(matches!(draw(&mut st, 50, 150), DrawDecision::Substitute { .. }));
    assert!(matches!(draw(&mut st, 120, 240), DrawDecision::Substitute { m, .. } if m.vb == 0x40));
    // the parent is still recent one frame later
    st.frame_tick(10, 0);
    assert!(matches!(draw(&mut st, 120, 240), DrawDecision::Substitute { m, .. } if m.vb == 0x40));
}

#[test]
fn lone_child_needs_its_parent() {
    let mut st = HookState::new(false, 0);
    st.install_registry(ModRegistry::load(vec![repl("p", "", 120, 60, 0x10), repl("c", "p", 240, 120, 0x20)]));
    assert!(matches!(draw(&mut st, 120, 240), DrawDecision::Passthrough));
    assert!(matches!(draw(&mut st, 60, 120), DrawDecision::Substitute { .. }));
    assert!(matches!(draw(&mut st, 120, 240), DrawDecision::Substitute { m, .. } if m.vb == 0x20));
}

#[test]
fn chosen_parent_records_the_frame() {
    let mut st = family();
    st.frame_tick(10, 0);
    st.frame_tick(20, 0);
    draw(&mut st, 60, 120);
    let b = st.registry.bucket(mod_key(120, 60)).unwrap();
    assert_eq!(b[0].last_frame_rendered, Some(2));
    let c = st.registry.bucket(mod_key(240, 120)).unwrap();
    assert_eq!(c[0].last_frame_rendered, None);
}

#[test]
fn colliding_key_with_other_signature_is_not_used() {
    // (1, 65536) and (0, 0) share a key: 1 << 16 ^ 65536 == 0
    let mut st = HookState::new(false, 0);
    st.install_registry(ModRegistry::load(vec![repl("x", "", 1, 65536, 0x10)]));
    assert_eq!(mod_key(1, 65536), mod_key(0, 0));
    assert!(matches!(draw(&mut st, 0, 0), DrawDecision::Passthrough));
    assert!(matches!(draw(&mut st, 65536, 1), DrawDecision::Substitute { .. }));
}

#[test]
fn reentered_draw_changes_nothing() {
    let mut st = family();
    let outer = st.begin_draw(Some((60, 120)), 0);
    assert!(matches!(outer.decision, DrawDecision::Substitute { .. }));
    assert!(st.in_dip);
    let inner = st.begin_draw(Some((60, 120)), 0);
    assert!(matches!(inner.decision, DrawDecision::Reentered));
    st.end_draw();
    assert!(!st.in_dip);
}

#[test]
fn hidden_mods_pass_through() {
    let mut st = family();
    st.cmd_toggle_show_mods();
    assert!(matches!(draw(&mut st, 60, 120), DrawDecision::Passthrough));
    st.cmd_toggle_show_mods();
    assert!(matches!(draw(&mut st, 60, 120), DrawDecision::Substitute { .. }));
}

fn shadow(topology: u32) -> RenderState {
    let mut rs = RenderState::new();
    rs.set_topology(topology);
    rs.add_input_layout(0x300, 32);
    rs.set_input_layout(0x300);
    rs.set_vertex_buffers(0, &vec![Some((3840, 0))]);
    rs
}

#[test]
fn small_index_counts_are_never_substituted() {
    let mut st = HookState::new(false, 0);
    st.install_registry(ModRegistry::load(vec![repl("tiny", "", 120, 2, 0x10)]));
    let rs = shadow(4);
    assert_eq!(rs.compute_prim_vert_count(6), None);
    let plan = st.begin_draw_indexed(&rs, 6);
    assert!(matches!(plan.decision, DrawDecision::Passthrough));
    st.end_draw();
}

#[test]
fn other_topologies_are_never_substituted() {
    let mut st = family();
    let rs = shadow(5);
    assert_eq!(rs.compute_prim_vert_count(180), Some((60, 120)));
    let plan = st.begin_draw_indexed(&rs, 180);
    assert!(matches!(plan.decision, DrawDecision::Passthrough));
    st.end_draw();
    let plan = st.begin_draw_indexed(&shadow(4), 180);
    assert!(matches!(plan.decision, DrawDecision::Substitute { .. }));
    st.end_draw();
}

#[test]
fn deferred_mod_is_made_on_first_use() {
    let nums = ModNumbers {
        mod_type: MOD_TYPE_GPU_REPLACEMENT,
        prim_count: 40,
        vert_count: 120,
        ref_prim_count: 60,
        ref_vert_count: 120,
        vert_size_bytes: 32,
        decl_size_bytes: 0,
        prim_type: 4,
    };
    let mut st = HookState::new(false, 0);
    st.install_registry(ModRegistry::load(vec![deferred_mod("A", "", &nums)]));
    assert!(st.registry.owned.is_empty());
    let rs = shadow(4);
    let key = mod_key(120, 60);
    // first use: the layout in use is taken over
    let plan = st.begin_draw_indexed(&rs, 180);
    assert!(matches!(plan.decision, DrawDecision::LoadRequested { key: k, index: 0, hold_layout: true } if k == key));
    st.end_draw();
    assert_eq!(st.registry.owned, vec![0x300]);
    assert_eq!(st.registry.bucket(key).unwrap()[0].d3d_state, D3dState::Partial(0x300));
    // still partial: the intercepted draw goes on, nothing more is held
    let plan = st.begin_draw_indexed(&rs, 180);
    assert!(matches!(plan.decision, DrawDecision::LoadRequested { hold_layout: false, .. }));
    st.end_draw();
    assert_eq!(st.registry.owned, vec![0x300]);
    // once made, the mod is drawn with the held layout as its declaration
    st.registry.complete_load(key, 0, 0x500, [0x600, 0, 0, 0]);
    assert_eq!(st.registry.owned, vec![0x300, 0x500, 0x600]);
    let plan = st.begin_draw_indexed(&rs, 180);
    match plan.decision {
        DrawDecision::Substitute { m, .. } => {
            assert_eq!(m.vb, 0x500);
            assert_eq!(m.decl, 0x300);
            assert_eq!(m.textures, [0x600, 0, 0, 0]);
        }
        other => panic!("expected a substitute, got {:?}", other),
    }
    st.end_draw();
    let released = st.clear_loaded_mods();
    assert_eq!(released, vec![0x300, 0x500, 0x600]);
}

#[test]
fn deferred_mod_without_layout_takes_nothing() {
    let nums = ModNumbers {
        mod_type: MOD_TYPE_GPU_REPLACEMENT,
        prim_count: 40,
        vert_count: 120,
        ref_prim_count: 60,
        ref_vert_count: 120,
        vert_size_bytes: 32,
        decl_size_bytes: 0,
        prim_type: 4,
    };
    let mut st = HookState::new(false, 0);
    st.install_registry(ModRegistry::load(vec![deferred_mod("A", "", &nums)]));
    let plan = st.begin_draw(Some((60, 120)), 0);
    assert!(matches!(plan.decision, DrawDecision::LoadRequested { hold_layout: false, .. }));
    st.end_draw();
    assert!(st.registry.owned.is_empty());
}

#[test]
fn small_primitive_draws_are_never_substituted() {
    let mut st = HookState::new(false, 0);
    st.install_registry(ModRegistry::load(vec![repl("tiny", "", 6, 2, 0x10), repl("big", "", 120, 60, 0x20)]));
    let plan = st.begin_draw_primitive(4, 2, 6);
    assert!(matches!(plan.decision, DrawDecision::Passthrough));
    st.end_draw();
    // other primitive types are never substituted either
    let plan = st.begin_draw_primitive(5, 60, 120);
    assert!(matches!(plan.decision, DrawDecision::Passthrough));
    st.end_draw();
    let plan = st.begin_draw_primitive(4, 60, 120);
    assert!(matches!(plan.decision, DrawDecision::Substitute { m, .. } if m.vb == 0x20));
    st.end_draw();
}

#[test]
fn select_commands_wrap_the_index() {
    let mut st = HookState::new(false, 0);
    assert!(st.cmd_select_prev_texture());
    for t in [1u64, 2, 3] {
        st.selection.track_set_texture(t, 0);
    }
    assert!(!st.cmd_select_prev_texture());
    assert_eq!(st.selection.curr_texture_index, 2);
    assert!(!st.cmd_select_next_texture());
    assert_eq!(st.selection.curr_texture_index, 0);
}
