//! Whole-pipeline behavior over the built-in schema: assembly order,
//! per-entry isolation, the end-to-end scenario, and the map collection.

use alkahest::assemble::{load_map, load_maps};
use alkahest::maplist::{MapData, MapDataList};
use alkahest::records::{Component, SimpleLight, Vec4Bits};
use alkahest::refs::{ExtendedRef, GlobalRef, LocalRef, NameHash};
use alkahest::schema::{builtin_registry, DISC_LIGHT_COLLECTION, DISC_STATIC_GROUP};
use alkahest::session::{LoadError, PackageEntry, Session};

fn w32(b: &mut Vec<u8>, off: usize, v: u32) {
    if b.len() < off + 4 {
        b.resize(off + 4, 0);
    }
    let bytes = v.to_le_bytes();
    for i in 0..4 {
        b[off + i] = bytes[i];
    }
}

fn w64(b: &mut Vec<u8>, off: usize, v: u64) {
    if b.len() < off + 8 {
        b.resize(off + 8, 0);
    }
    let bytes = v.to_le_bytes();
    for i in 0..8 {
        b[off + i] = bytes[i];
    }
}

/// Root record: definition reference at 8, display-name hash at 0x18,
/// empty trailing table.
fn root_buffer(child: u32, name: u32) -> Vec<u8> {
    let mut b = vec![0u8; 0x50];
    w64(&mut b, 0, 0x50);
    w32(&mut b, 8, child);
    w32(&mut b, 0x18, name);
    b
}

/// Definition record: the ordered container references as extended tags
/// (local identifier only, zero global).
fn def_buffer(containers: &[u32]) -> Vec<u8> {
    let mut b = vec![0u8; 0x18];
    w64(&mut b, 0, 0x18);
    w64(&mut b, 8, containers.len() as u64);
    w64(&mut b, 0x10, 8); // elements start right after the header
    for (i, c) in containers.iter().enumerate() {
        let base = 0x18 + i * 0x10;
        w32(&mut b, base, *c);
        w64(&mut b, base + 8, 0);
    }
    b
}

/// Container record: the data-table references at 0x28.
fn container_buffer(tables: &[u32]) -> Vec<u8> {
    let mut b = vec![0u8; 0x38];
    w64(&mut b, 0, 0x38);
    w64(&mut b, 0x28, tables.len() as u64);
    w64(&mut b, 0x30, 8); // elements start right after the container
    for (i, t) in tables.iter().enumerate() {
        w32(&mut b, 0x38 + i * 4, *t);
    }
    b
}

/// Starts a data-table buffer with `count` entries at 0x18 and at least
/// `len` bytes.
fn table_buffer(count: u64, len: usize) -> Vec<u8> {
    let mut b = vec![0u8; len];
    w64(&mut b, 0, 0x18);
    w64(&mut b, 8, count);
    w64(&mut b, 0x10, 8); // entries start right after the header
    b
}

/// Writes one entry at `pos`: rotation lanes `base .. base+4`, translation
/// lanes `base+4 .. base+8`, the world identifier, and the resource
/// pointer's relative offset (zero for an absent resource).
fn write_entry(b: &mut Vec<u8>, pos: usize, base: u32, world_id: u64, resrel: u64) {
    for lane in 0..8 {
        w32(b, pos + 4 * lane, base + lane as u32);
    }
    w32(b, pos + 0x20, base + 1000); // entity tag
    w64(b, pos + 0x70, world_id);
    w64(b, pos + 0x78, resrel);
}

fn pkg(id: u32, bytes: Vec<u8>) -> PackageEntry {
    PackageEntry { pkg: 1, id, bytes }
}

/// One data table holding a single entry whose resource discriminant is
/// unknown, so the entry yields exactly one opaque component.
fn opaque_entry_table(world_id: u64) -> Vec<u8> {
    let mut b = table_buffer(1, 0x100);
    // resource pointer field sits at 0x18 + 0x78 = 0x90; target 0x100
    write_entry(&mut b, 0x18, 100, world_id, 0x70);
    w32(&mut b, 0xFC, 0x0BAD_0001);
    b.resize(0x100, 0);
    b
}

#[test]
fn assembly_order_is_container_then_table_then_entry_order() {
    // Definition has containers [A, B]; A has tables [T1], B has [T2, T3].
    // The batch must list T1's entries, then T2's, then T3's.
    let packages = vec![
        pkg(0x10, root_buffer(0x20, 0x1234)),
        pkg(0x20, def_buffer(&[0x30, 0x31])),
        pkg(0x30, container_buffer(&[0x41])),
        pkg(0x31, container_buffer(&[0x42, 0x43])),
        pkg(0x41, opaque_entry_table(1)),
        pkg(0x42, opaque_entry_table(2)),
        pkg(0x43, opaque_entry_table(3)),
    ];
    let mut sess = Session::new(packages, Vec::new(), builtin_registry());
    let md = load_map(&mut sess, ExtendedRef { pkg: 1, id: 0x10 }).unwrap();
    assert_eq!(md.name_hash, NameHash { hash: 0x1234 });
    assert_eq!(md.skipped, 0);
    let wids: Vec<u64> = md.ops.iter().map(|op| op.world_id).collect();
    assert_eq!(wids, vec![1, 2, 3]);
}

#[test]
fn scenario_static_group_and_opaque_entry() {
    // Root -> definition with [C1] -> C1 has one table with two entries:
    // entry 1 carries a static-instance-group resource, entry 2 an
    // unrecognized discriminant. Expect one static-group component with
    // entry 1's transform, one opaque component, and zero skipped.
    let mut t = table_buffer(2, 0x300);
    // entry 1 at 0x18: resource pointer at 0x90, target 0x200
    write_entry(&mut t, 0x18, 10, 71, 0x170);
    w32(&mut t, 0x1FC, DISC_STATIC_GROUP);
    w64(&mut t, 0x200, 0x28);
    w32(&mut t, 0x208, 0x5555); // instances tag of the static group
    // entry 2 at 0xA8: resource pointer at 0x120, target 0x300
    write_entry(&mut t, 0xA8, 20, 72, 0x1E0);
    w32(&mut t, 0x2FC, 0x1234_5678);
    t.resize(0x300, 0);
    let packages = vec![
        pkg(0x10, root_buffer(0x20, 0xCAFE)),
        pkg(0x20, def_buffer(&[0x30])),
        pkg(0x30, container_buffer(&[0x41])),
        pkg(0x41, t),
    ];
    let mut sess = Session::new(packages, Vec::new(), builtin_registry());
    let md = load_map(&mut sess, ExtendedRef { pkg: 1, id: 0x10 }).unwrap();
    assert_eq!(md.skipped, 0);
    assert_eq!(md.ops.len(), 2);
    assert_eq!(md.ops[0].component, Component::StaticGroup { instances: 0x5555 });
    assert_eq!(md.ops[0].rotation, Vec4Bits { x: 10, y: 11, z: 12, w: 13 });
    assert_eq!(md.ops[0].translation, Vec4Bits { x: 14, y: 15, z: 16, w: 17 });
    assert_eq!(md.ops[0].world_id, 71);
    assert_eq!(md.ops[0].entity_old, 1010);
    assert_eq!(md.ops[1].component, Component::Unknown { disc: 0x1234_5678 });
    assert_eq!(md.ops[1].world_id, 72);
}

#[test]
fn light_collection_expands_to_one_op_per_light() {
    let mut t = table_buffer(1, 0x2A0);
    write_entry(&mut t, 0x18, 0, 5, 0x170); // resource target 0x200
    w32(&mut t, 0x1FC, DISC_LIGHT_COLLECTION);
    w64(&mut t, 0x200, 0x40);
    w64(&mut t, 0x210, 2); // two lights
    w64(&mut t, 0x218, 0x48); // lights start at 0x260
    for lane in 0..8 {
        w32(&mut t, 0x260 + 4 * lane, 1 + lane as u32);
        w32(&mut t, 0x280 + 4 * lane, 9 + lane as u32);
    }
    let packages = vec![
        pkg(0x10, root_buffer(0x20, 1)),
        pkg(0x20, def_buffer(&[0x30])),
        pkg(0x30, container_buffer(&[0x41])),
        pkg(0x41, t),
    ];
    let mut sess = Session::new(packages, Vec::new(), builtin_registry());
    let md = load_map(&mut sess, ExtendedRef { pkg: 1, id: 0x10 }).unwrap();
    assert_eq!(md.ops.len(), 2);
    assert_eq!(
        md.ops[0].component,
        Component::Light(SimpleLight {
            pos: Vec4Bits { x: 1, y: 2, z: 3, w: 4 },
            attenuation: Vec4Bits { x: 5, y: 6, z: 7, w: 8 },
        })
    );
    assert_eq!(
        md.ops[1].component,
        Component::Light(SimpleLight {
            pos: Vec4Bits { x: 9, y: 10, z: 11, w: 12 },
            attenuation: Vec4Bits { x: 13, y: 14, z: 15, w: 16 },
        })
    );
}

#[test]
fn absent_resource_yields_no_components() {
    let mut t = table_buffer(1, 0x100);
    write_entry(&mut t, 0x18, 0, 9, 0); // null resource pointer
    let packages = vec![
        pkg(0x10, root_buffer(0x20, 1)),
        pkg(0x20, def_buffer(&[0x30])),
        pkg(0x30, container_buffer(&[0x41])),
        pkg(0x41, t),
    ];
    let mut sess = Session::new(packages, Vec::new(), builtin_registry());
    let md = load_map(&mut sess, ExtendedRef { pkg: 1, id: 0x10 }).unwrap();
    assert_eq!(md.ops.len(), 0);
    assert_eq!(md.skipped, 0);
}

#[test]
fn malformed_table_is_skipped_without_aborting_the_map() {
    // Two tables: the first buffer is too short for its own header, the
    // second is fine; the map still assembles with one skip recorded.
    let packages = vec![
        pkg(0x10, root_buffer(0x20, 1)),
        pkg(0x20, def_buffer(&[0x30])),
        pkg(0x30, container_buffer(&[0x40, 0x41])),
        pkg(0x40, vec![0u8; 4]),
        pkg(0x41, opaque_entry_table(77)),
    ];
    let mut sess = Session::new(packages, Vec::new(), builtin_registry());
    let md = load_map(&mut sess, ExtendedRef { pkg: 1, id: 0x10 }).unwrap();
    assert_eq!(md.skipped, 1);
    assert_eq!(md.ops.len(), 1);
    assert_eq!(md.ops[0].world_id, 77);
}

#[test]
fn null_root_reference_is_required_absent() {
    let mut sess = Session::new(Vec::new(), Vec::new(), builtin_registry());
    assert_eq!(
        load_map(&mut sess, ExtendedRef { pkg: 1, id: 0 }).unwrap_err(),
        LoadError::RequiredAbsent
    );
}

#[test]
fn partial_failure_isolation_between_maps() {
    // M2's definition reference names a record with no package buffer:
    // M1 still assembles; M2 is the one recorded failure.
    let packages = vec![
        pkg(0x10, root_buffer(0x20, 0xAA)),
        pkg(0x20, def_buffer(&[0x30])),
        pkg(0x30, container_buffer(&[0x41])),
        pkg(0x41, opaque_entry_table(42)),
        pkg(0x50, root_buffer(0x66, 0xBB)), // definition 0x66 is missing
    ];
    let mut sess = Session::new(packages, Vec::new(), builtin_registry());
    let roots = vec![
        (ExtendedRef { pkg: 1, id: 0x10 }, None::<GlobalRef>),
        (ExtendedRef { pkg: 1, id: 0x50 }, None::<GlobalRef>),
    ];
    let (list, failures) = load_maps(&mut sess, &roots);
    assert_eq!(list.maps.len(), 1);
    assert_eq!(list.maps[0].0, LocalRef { id: 0x10 });
    assert_eq!(list.maps[0].2.name_hash, NameHash { hash: 0xAA });
    assert_eq!(list.maps[0].2.ops.len(), 1);
    assert_eq!(failures.len(), 1);
    assert_eq!(failures[0].0, ExtendedRef { pkg: 1, id: 0x50 });
    assert_eq!(failures[0].1, LoadError::PackageUnavailable);
}

fn dummy_map(name: u32) -> MapData {
    MapData {
        hash: ExtendedRef { pkg: 1, id: name },
        name_hash: NameHash { hash: name },
        ops: Vec::new(),
        skipped: 0,
    }
}

#[test]
fn selection_wraps_around_modulo_the_map_count() {
    let mut list = MapDataList {
        current_map: 7,
        maps: vec![
            (LocalRef { id: 1 }, None, dummy_map(1)),
            (LocalRef { id: 2 }, None, dummy_map(2)),
            (LocalRef { id: 3 }, None, dummy_map(3)),
        ],
    };
    // 7 % 3 == 1
    assert_eq!(list.current_map().unwrap().2.name_hash, NameHash { hash: 2 });
    assert_eq!(list.current_map_mut().unwrap().name_hash, NameHash { hash: 2 });
    list.current_map = 3;
    assert_eq!(list.current_map().unwrap().2.name_hash, NameHash { hash: 1 });
    assert!(list.map_mut(2).is_some());
    assert!(list.map_mut(3).is_none());
}

#[test]
fn empty_collection_has_no_current_map() {
    let mut list = MapDataList { current_map: 5, maps: Vec::new() };
    assert!(list.current_map().is_none());
    assert!(list.current_map_mut().is_none());
    assert!(list.map_mut(0).is_none());
}
