//! Component conversion per resource kind, typed record shapes, and
//! resolution of containers through the global reference index.

use alkahest::assemble::load_map;
use alkahest::decode::decode_record;
use alkahest::records::{Component, Unk80807190, Unk80809644, Vec4Bits};
use alkahest::refs::ExtendedRef;
use alkahest::schema::{
    builtin_registry, DISC_OCC_BOUNDS, DISC_TERRAIN, LID_INSTANCE_RANGE, LID_SHAPE_QUAD,
};
use alkahest::session::{GlobalEntry, PackageEntry, Session};
use alkahest::value::Value;

fn w16(b: &mut Vec<u8>, off: usize, v: u16) {
    if b.len() < off + 2 {
        b.resize(off + 2, 0);
    }
    let bytes = v.to_le_bytes();
    for i in 0..2 {
        b[off + i] = bytes[i];
    }
}

fn w32(b: &mut Vec<u8>, off: usize, v: u32) {
    if b.len() < off + 4 {
        b.resize(off + 4, 0);
    }
    let bytes = v.to_le_bytes();
    for i in 0..4 {
        b[off + i] = bytes[i];
    }
}

fn w64(b: &mut Vec<u8>, off: usize, v: u64) {
    if b.len() < off + 8 {
        b.resize(off + 8, 0);
    }
    let bytes = v.to_le_bytes();
    for i in 0..8 {
        b[off + i] = bytes[i];
    }
}

fn root_buffer(child: u32, name: u32) -> Vec<u8> {
    let mut b = vec![0u8; 0x50];
    w64(&mut b, 0, 0x50);
    w32(&mut b, 8, child);
    w32(&mut b, 0x18, name);
    b
}

fn def_buffer_global(global: u64) -> Vec<u8> {
    let mut b = vec![0u8; 0x18];
    w64(&mut b, 0, 0x18);
    w64(&mut b, 8, 1);
    w64(&mut b, 0x10, 8);
    w32(&mut b, 0x18, 0); // local part unused when the global id is set
    w64(&mut b, 0x20, global);
    b
}

fn def_buffer(containers: &[u32]) -> Vec<u8> {
    let mut b = vec![0u8; 0x18];
    w64(&mut b, 0, 0x18);
    w64(&mut b, 8, containers.len() as u64);
    w64(&mut b, 0x10, 8);
    for (i, c) in containers.iter().enumerate() {
        let base = 0x18 + i * 0x10;
        w32(&mut b, base, *c);
        w64(&mut b, base + 8, 0);
    }
    b
}

fn container_buffer(tables: &[u32]) -> Vec<u8> {
    let mut b = vec![0u8; 0x38];
    w64(&mut b, 0, 0x38);
    w64(&mut b, 0x28, tables.len() as u64);
    w64(&mut b, 0x30, 8);
    for (i, t) in tables.iter().enumerate() {
        w32(&mut b, 0x38 + i * 4, *t);
    }
    b
}

/// A data table with a single entry whose resource sits at 0x200 with the
/// given discriminant; the payload area is left for the caller to fill.
fn one_resource_table(disc: u32, len: usize) -> Vec<u8> {
    let mut b = vec![0u8; len];
    w64(&mut b, 0, 0x18);
    w64(&mut b, 8, 1);
    w64(&mut b, 0x10, 8);
    // entry at 0x18; resource pointer field at 0x90, target 0x200
    w64(&mut b, 0x18 + 0x70, 4242);
    w64(&mut b, 0x18 + 0x78, 0x170);
    w32(&mut b, 0x1FC, disc);
    b
}

fn session_for_table(t: Vec<u8>) -> Session {
    let packages = vec![
        PackageEntry { pkg: 1, id: 0x10, bytes: root_buffer(0x20, 1) },
        PackageEntry { pkg: 1, id: 0x20, bytes: def_buffer(&[0x30]) },
        PackageEntry { pkg: 1, id: 0x30, bytes: container_buffer(&[0x41]) },
        PackageEntry { pkg: 1, id: 0x41, bytes: t },
    ];
    Session::new(packages, Vec::new(), builtin_registry())
}

#[test]
fn terrain_resource_yields_terrain_component() {
    // terrain payload (0x20 bytes at 0x200): tags at +0x18 and +0x1c
    let mut t = one_resource_table(DISC_TERRAIN, 0x220);
    w32(&mut t, 0x218, 0x7777);
    w32(&mut t, 0x21C, 0x8888);
    let mut sess = session_for_table(t);
    let md = load_map(&mut sess, ExtendedRef { pkg: 1, id: 0x10 }).unwrap();
    assert_eq!(md.ops.len(), 1);
    assert_eq!(
        md.ops[0].component,
        Component::Terrain { terrain: 0x7777, terrain_bounds: 0x8888 }
    );
    assert_eq!(md.ops[0].world_id, 4242);
}

#[test]
fn occlusion_bounds_resource_counts_its_bounds() {
    let mut t = one_resource_table(DISC_OCC_BOUNDS, 0x2E0);
    // occlusion-bounds payload (0x18 bytes at 0x200): count 2, elements
    // right after the offset word at 0x210
    w64(&mut t, 0x200, 0x18);
    w64(&mut t, 0x208, 2);
    w64(&mut t, 0x210, 8);
    // two bound elements of 0x30 bytes each at 0x218 (zeroes suffice)
    t.resize(0x2E0, 0);
    let mut sess = session_for_table(t);
    let md = load_map(&mut sess, ExtendedRef { pkg: 1, id: 0x10 }).unwrap();
    assert_eq!(md.ops.len(), 1);
    assert_eq!(md.ops[0].component, Component::OcclusionBounds { bounds_count: 2 });
}

#[test]
fn container_resolves_through_the_global_index() {
    let packages = vec![
        PackageEntry { pkg: 1, id: 0x10, bytes: root_buffer(0x20, 9) },
        PackageEntry { pkg: 1, id: 0x20, bytes: def_buffer_global(0xABCD_0001) },
        PackageEntry { pkg: 2, id: 0x77, bytes: container_buffer(&[]) },
    ];
    let globals = vec![GlobalEntry { global: 0xABCD_0001, pkg: 2, id: 0x77 }];
    let mut sess = Session::new(packages, globals, builtin_registry());
    let md = load_map(&mut sess, ExtendedRef { pkg: 1, id: 0x10 }).unwrap();
    assert_eq!(md.ops.len(), 0);
    assert_eq!(md.skipped, 0);
}

#[test]
fn typed_shape_quad_reads_its_words() {
    let mut b: Vec<u8> = Vec::new();
    for i in 0..4 {
        w32(&mut b, i * 4, 0x100 + i as u32);
    }
    let reg = builtin_registry();
    let v = decode_record(&b, &reg, LID_SHAPE_QUAD, 0).unwrap();
    match v {
        Value::Record(fields) => {
            let q = Unk80809644::from_fields(&fields);
            assert_eq!(q.unk0, 0x100);
            assert_eq!(q.unk4, 0x101);
            assert_eq!(q.unk8, 0x102);
            assert_eq!(q.unkc, 0x103);
        },
        other => panic!("expected record, got {:?}", other),
    }
}

#[test]
fn typed_instance_range_reads_its_words() {
    let mut b: Vec<u8> = Vec::new();
    w16(&mut b, 0, 3);
    w16(&mut b, 2, 40);
    w16(&mut b, 4, 7);
    w16(&mut b, 6, 0);
    let reg = builtin_registry();
    let v = decode_record(&b, &reg, LID_INSTANCE_RANGE, 0).unwrap();
    match v {
        Value::Record(fields) => {
            let r = Unk80807190::from_fields(&fields);
            assert_eq!(r.instance_count, 3);
            assert_eq!(r.instance_start, 40);
            assert_eq!(r.static_index, 7);
        },
        other => panic!("expected record, got {:?}", other),
    }
}

#[test]
fn cubemap_transform_lanes_round_trip() {
    // The entry transform carries raw lanes through assembly untouched.
    let mut t = one_resource_table(0x0BAD_0002, 0x200);
    let lanes = [0x3F80_0000u32, 0x4000_0000, 0x4040_0000, 0x3F00_0000];
    for (i, lane) in lanes.iter().enumerate() {
        w32(&mut t, 0x18 + 4 * i, *lane);
    }
    let mut sess = session_for_table(t);
    let md = load_map(&mut sess, ExtendedRef { pkg: 1, id: 0x10 }).unwrap();
    assert_eq!(
        md.ops[0].rotation,
        Vec4Bits { x: 0x3F80_0000, y: 0x4000_0000, z: 0x4040_0000, w: 0x3F00_0000 }
    );
}
