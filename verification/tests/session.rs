//! Resolver-level behavior: null short-circuit, the decode cache, and the
//! error kinds.

use alkahest::layout::{Field, Layout, Registry};
use alkahest::refs::{ExtendedRef, GlobalRef, LocalRef, RecordRef};
use alkahest::session::{GlobalEntry, LoadError, PackageEntry, Session};
use alkahest::value::Value;

fn one_record_registry() -> Registry {
    Registry {
        layouts: vec![Layout { size: 8, fields: vec![Field::U32, Field::U32] }],
        dispatch: vec![],
    }
}

fn small_session() -> Session {
    let mut bytes: Vec<u8> = Vec::new();
    bytes.extend_from_slice(&0x11u32.to_le_bytes());
    bytes.extend_from_slice(&0x22u32.to_le_bytes());
    let packages = vec![PackageEntry { pkg: 1, id: 7, bytes }];
    let globals = vec![GlobalEntry { global: 900, pkg: 1, id: 7 }];
    Session::new(packages, globals, one_record_registry())
}

#[test]
fn null_references_resolve_absent_without_byte_source() {
    // The session has no packages at all: had resolution consulted the
    // byte source, it would have failed; a null reference short-circuits.
    let mut sess = Session::new(Vec::new(), Vec::new(), one_record_registry());
    assert!(matches!(
        sess.load_record(1, &RecordRef::Local(LocalRef { id: 0 }), 0),
        Ok(None)
    ));
    assert!(matches!(
        sess.load_record(1, &RecordRef::Local(LocalRef { id: 0xFFFF_FFFF }), 0),
        Ok(None)
    ));
    assert!(matches!(
        sess.load_record(1, &RecordRef::Global(GlobalRef { id: 0 }), 0),
        Ok(None)
    ));
    assert!(matches!(
        sess.load_record(1, &RecordRef::Extended(ExtendedRef { pkg: 3, id: 0 }), 0),
        Ok(None)
    ));
}

#[test]
fn resolution_is_idempotent_and_decodes_once() {
    let mut sess = small_session();
    assert_eq!(sess.decode_count(1, 7, 0), 0);
    let first = sess
        .load_record(1, &RecordRef::Local(LocalRef { id: 7 }), 0)
        .unwrap()
        .unwrap();
    assert_eq!(sess.decode_count(1, 7, 0), 1);
    let second = sess
        .load_record(1, &RecordRef::Local(LocalRef { id: 7 }), 0)
        .unwrap()
        .unwrap();
    assert_eq!(first, second);
    assert_eq!(sess.decode_count(1, 7, 0), 1);
    // The same identity through the global index also hits the cache.
    let third = sess
        .load_record(9, &RecordRef::Global(GlobalRef { id: 900 }), 0)
        .unwrap()
        .unwrap();
    assert_eq!(first, third);
    assert_eq!(sess.decode_count(1, 7, 0), 1);
    assert_eq!(first, Value::Record(vec![Value::U32(0x11), Value::U32(0x22)]));
}

#[test]
fn reset_clears_the_cache() {
    let mut sess = small_session();
    sess.load_record(1, &RecordRef::Local(LocalRef { id: 7 }), 0)
        .unwrap();
    assert_eq!(sess.decode_count(1, 7, 0), 1);
    sess.reset();
    assert_eq!(sess.decode_count(1, 7, 0), 0);
}

#[test]
fn missing_package_for_local_reference_is_package_unavailable() {
    let mut sess = small_session();
    assert_eq!(
        sess.load_record(2, &RecordRef::Local(LocalRef { id: 7 }), 0)
            .unwrap_err(),
        LoadError::PackageUnavailable
    );
}

#[test]
fn missing_package_for_extended_reference_is_package_not_loaded() {
    let mut sess = small_session();
    assert_eq!(
        sess.load_record(1, &RecordRef::Extended(ExtendedRef { pkg: 5, id: 7 }), 0)
            .unwrap_err(),
        LoadError::PackageNotLoaded
    );
}

#[test]
fn unknown_global_reference_is_reported() {
    let mut sess = small_session();
    assert_eq!(
        sess.load_record(1, &RecordRef::Global(GlobalRef { id: 123 }), 0)
            .unwrap_err(),
        LoadError::UnknownGlobalReference
    );
}

#[test]
fn malformed_buffer_is_a_decode_error() {
    let packages = vec![PackageEntry { pkg: 1, id: 7, bytes: vec![0; 3] }];
    let mut sess = Session::new(packages, Vec::new(), one_record_registry());
    assert!(matches!(
        sess.load_record(1, &RecordRef::Local(LocalRef { id: 7 }), 0),
        Err(LoadError::Decode(_))
    ));
}
