use modelmod_core::loader::{
    deletion_mod, load_step, replacement_mod, vertex_buffer_size, LoadStep, ModNumbers,
};
use modelmod_core::names::normalize_name;
use modelmod_core::registry::{mod_key, ModRegistry, NativeMod, MOD_TYPE_CPU_ADDITIVE, MOD_TYPE_DELETION, MOD_TYPE_GPU_REPLACEMENT};

fn numbers(mod_type: i32, ref_verts: i32, ref_prims: i32) -> ModNumbers {
    ModNumbers {
        mod_type,
        prim_count: 10,
        vert_count: 30,
        ref_prim_count: ref_prims,
        ref_vert_count: ref_verts,
        vert_size_bytes: 32,
        decl_size_bytes: 0,
        prim_type: 4,
    }
}

fn repl(name: &str, parent: &str, ref_verts: i32, ref_prims: i32, vb: u64, tex: [u64; 4]) -> NativeMod {
    replacement_mod(name, parent, &numbers(MOD_TYPE_GPU_REPLACEMENT, ref_verts, ref_prims), vb, vb + 1, tex)
}

#[test]
fn mod_key_is_shift_xor() {
    assert_eq!(mod_key(120, 60), (120u32 << 16) ^ 60);
    assert_eq!(mod_key(120, 60), 7_864_380);
    assert_eq!(mod_key(120, 60), mod_key(120, 60));
    assert_eq!(mod_key(0, 0), 0);
}

#[test]
fn names_are_trimmed_and_lowercased() {
    assert_eq!(normalize_name("  Foo Bar\t"), "foo bar");
    assert_eq!(normalize_name(""), "");
    let m = repl(" Parent1 ", "  PARENT2 ", 120, 60, 0x10, [0; 4]);
    assert_eq!(m.name, "parent1");
    assert_eq!(m.parent_name, "parent2");
}

#[test]
fn load_steps_follow_the_type_code() {
    assert_eq!(load_step(&numbers(MOD_TYPE_GPU_REPLACEMENT, 1, 1)), LoadStep::Replacement);
    assert_eq!(load_step(&numbers(MOD_TYPE_DELETION, 1, 1)), LoadStep::Deletion);
    assert_eq!(load_step(&numbers(MOD_TYPE_CPU_ADDITIVE, 1, 1)), LoadStep::Skip);
    assert_eq!(load_step(&numbers(0, 1, 1)), LoadStep::Skip);
}

#[test]
fn vertex_buffer_size_is_three_vertices_per_primitive() {
    let mut n = numbers(MOD_TYPE_GPU_REPLACEMENT, 1, 1);
    n.prim_count = 40;
    n.vert_size_bytes = 32;
    assert_eq!(vertex_buffer_size(&n), Some(3840));
    n.prim_count = -1;
    assert_eq!(vertex_buffer_size(&n), None);
    n.prim_count = i32::MAX;
    assert_eq!(vertex_buffer_size(&n), None);
}

#[test]
fn deletion_record_owns_nothing() {
    let d = deletion_mod(" B ", &numbers(MOD_TYPE_DELETION, 80, 40));
    assert_eq!(d.name, "b");
    assert_eq!(d.parent_name, "");
    assert_eq!(d.handles(), Vec::<u64>::new());
    assert_eq!(d.ref_verts, 80);
    assert_eq!(d.ref_prims, 40);
}

#[test]
fn handles_skip_null_ones() {
    let m = repl("a", "", 1, 1, 0x10, [0, 0x30, 0, 0x40]);
    assert_eq!(m.handles(), vec![0x10, 0x11, 0x30, 0x40]);
}

#[test]
fn load_indexes_names_and_marks_parents() {
    let reg = ModRegistry::load(vec![
        repl("Parent1", "", 120, 60, 0x10, [0; 4]),
        repl("Child", "parent1", 240, 120, 0x20, [0x21, 0, 0, 0]),
        repl("Child", "parent2", 240, 120, 0x30, [0; 4]),
        repl("", "", 300, 100, 0x40, [0; 4]),
    ]);
    assert_eq!(reg.key_of_name("parent1"), Some(mod_key(120, 60)));
    // the duplicate name keeps the first entry
    assert_eq!(reg.key_of_name("child"), Some(mod_key(240, 120)));
    assert_eq!(reg.key_of_name(""), None);
    let parents = reg.bucket(mod_key(120, 60)).unwrap();
    assert!(parents[0].is_parent);
    let children = reg.bucket(mod_key(240, 120)).unwrap();
    assert_eq!(children.len(), 2);
    assert!(!children[0].is_parent);
    assert_eq!(reg.owned, vec![0x10, 0x11, 0x20, 0x21, 0x21, 0x30, 0x31, 0x40, 0x41]);
}

#[test]
fn empty_name_is_never_a_parent() {
    let reg = ModRegistry::load(vec![
        repl("   ", "", 120, 60, 0x10, [0; 4]),
        repl("child", "  ", 240, 120, 0x20, [0; 4]),
    ]);
    let nameless = reg.bucket(mod_key(120, 60)).unwrap();
    assert_eq!(nameless[0].name, "");
    assert!(!nameless[0].is_parent);
    let child = reg.bucket(mod_key(240, 120)).unwrap();
    assert_eq!(child[0].parent_name, "");
}

#[test]
fn clear_twice_is_clear_once() {
    let mut reg = ModRegistry::load(vec![
        repl("a", "", 120, 60, 0x10, [0x12, 0, 0, 0]),
        deletion_mod("b", &numbers(MOD_TYPE_DELETION, 80, 40)),
    ]);
    let first = reg.clear();
    assert_eq!(first, vec![0x10, 0x11, 0x12]);
    assert!(reg.bucket(mod_key(120, 60)).is_none());
    assert!(reg.bucket(mod_key(80, 40)).is_none());
    assert_eq!(reg.key_of_name("a"), None);
    let second = reg.clear();
    assert!(second.is_empty());
    assert!(reg.keys().is_empty());
    assert!(reg.owned.is_empty());
}

#[test]
fn load_then_clear_releases_each_handle_once() {
    let mods = vec![
        repl("a", "", 120, 60, 0x10, [0x12, 0x13, 0, 0]),
        repl("b", "a", 240, 120, 0x20, [0; 4]),
    ];
    let added: usize = mods.iter().map(|m| m.handles().len()).sum();
    let mut reg = ModRegistry::load(mods);
    let released = reg.clear();
    assert_eq!(released.len(), added);
    assert_eq!(released.len(), 6);
}

#[test]
fn ambiguous_buckets_are_reported() {
    let reg = ModRegistry::load(vec![
        repl("a", "p", 240, 120, 0x10, [0; 4]),
        repl("b", "p", 240, 120, 0x20, [0; 4]),
        repl("c", "p", 300, 100, 0x30, [0; 4]),
        repl("d", "q", 300, 100, 0x40, [0; 4]),
        repl("e", "", 400, 100, 0x50, [0; 4]),
        repl("f", "r", 400, 100, 0x60, [0; 4]),
        repl("g", "", 500, 100, 0x70, [0; 4]),
    ]);
    let mut keys = reg.ambiguous_keys();
    keys.sort();
    let mut expected = vec![mod_key(240, 120), mod_key(400, 100)];
    expected.sort();
    assert_eq!(keys, expected);
}
