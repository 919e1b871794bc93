//! Decoder-level behavior: primitive reads, offset tables, null pointers,
//! and polymorphic dispatch totality.

use alkahest::bytes::{read_u16, read_u32, read_u64, read_u8};
use alkahest::decode::decode_record;
use alkahest::layout::{Dispatch, Field, Layout, Registry};
use alkahest::value::Value;

fn w32(b: &mut Vec<u8>, off: usize, v: u32) {
    if b.len() < off + 4 {
        b.resize(off + 4, 0);
    }
    let bytes = v.to_le_bytes();
    for i in 0..4 {
        b[off + i] = bytes[i];
    }
}

fn w64(b: &mut Vec<u8>, off: usize, v: u64) {
    if b.len() < off + 8 {
        b.resize(off + 8, 0);
    }
    let bytes = v.to_le_bytes();
    for i in 0..8 {
        b[off + i] = bytes[i];
    }
}

#[test]
fn little_endian_reads() {
    let b: Vec<u8> = vec![0x01, 0x02, 0x03, 0x04, 0x05, 0x06, 0x07, 0x08, 0xFF];
    assert_eq!(read_u8(&b, 8), 0xFF);
    assert_eq!(read_u16(&b, 0), 0x0201);
    assert_eq!(read_u32(&b, 0), 0x04030201);
    assert_eq!(read_u64(&b, 0), 0x0807060504030201);
}

fn table_registry() -> Registry {
    let elem = Layout { size: 4, fields: vec![Field::U32] };
    let rec = Layout { size: 0x20, fields: vec![Field::U64, Field::Table(0)] };
    Registry { layouts: vec![elem, rec], dispatch: vec![] }
}

#[test]
fn offset_table_three_elements() {
    // Record at 0: file size, then (count = 3, rel = 16); the offset word
    // sits at byte 16, so the table starts at 16 + 16 = 32, regardless of
    // the declared record size 0x20 leaving padding.
    let mut b: Vec<u8> = Vec::new();
    w64(&mut b, 0, 99);
    w64(&mut b, 8, 3); // count
    w64(&mut b, 16, 16); // relative offset, anchored at its own position
    w32(&mut b, 32, 0xAAAA_0001);
    w32(&mut b, 36, 0xAAAA_0002);
    w32(&mut b, 40, 0xAAAA_0003);
    let reg = table_registry();
    let v = decode_record(&b, &reg, 1, 0).unwrap();
    match v {
        Value::Record(fields) => {
            assert_eq!(fields[0], Value::U64(99));
            match &fields[1] {
                Value::Table(es) => {
                    assert_eq!(es.len(), 3);
                    assert_eq!(es[0], Value::Record(vec![Value::U32(0xAAAA_0001)]));
                    assert_eq!(es[1], Value::Record(vec![Value::U32(0xAAAA_0002)]));
                    assert_eq!(es[2], Value::Record(vec![Value::U32(0xAAAA_0003)]));
                },
                other => panic!("expected table, got {:?}", other),
            }
        },
        other => panic!("expected record, got {:?}", other),
    }
}

#[test]
fn offset_table_out_of_buffer_is_error() {
    let mut b: Vec<u8> = Vec::new();
    w64(&mut b, 0, 99);
    w64(&mut b, 8, 3);
    w64(&mut b, 16, 1000); // points far outside the buffer
    b.resize(0x20, 0);
    let reg = table_registry();
    assert!(decode_record(&b, &reg, 1, 0).is_err());
}

#[test]
fn truncated_record_is_error() {
    let b: Vec<u8> = vec![0; 8]; // record needs 0x20 bytes
    let reg = table_registry();
    assert!(decode_record(&b, &reg, 1, 0).is_err());
}

fn pointer_registry() -> Registry {
    let elem = Layout { size: 4, fields: vec![Field::U32] };
    let rec = Layout { size: 16, fields: vec![Field::U64, Field::Ptr(0)] };
    Registry { layouts: vec![elem, rec], dispatch: vec![] }
}

#[test]
fn null_pointer_field_is_absent() {
    let mut b: Vec<u8> = Vec::new();
    w64(&mut b, 0, 7);
    w64(&mut b, 8, 0); // null pointer sentinel
    let reg = pointer_registry();
    let v = decode_record(&b, &reg, 1, 0).unwrap();
    match v {
        Value::Record(fields) => assert_eq!(fields[1], Value::Absent),
        other => panic!("expected record, got {:?}", other),
    }
}

#[test]
fn nonnull_pointer_field_resolves() {
    let mut b: Vec<u8> = Vec::new();
    w64(&mut b, 0, 7);
    w64(&mut b, 8, 8); // points at byte 16
    w32(&mut b, 16, 0x1234_5678);
    let reg = pointer_registry();
    let v = decode_record(&b, &reg, 1, 0).unwrap();
    match v {
        Value::Record(fields) => {
            assert_eq!(fields[1], Value::Record(vec![Value::U32(0x1234_5678)]));
        },
        other => panic!("expected record, got {:?}", other),
    }
}

fn resource_registry() -> Registry {
    let payload = Layout { size: 8, fields: vec![Field::U32, Field::U32] };
    let rec = Layout { size: 16, fields: vec![Field::ResPtr, Field::Skip(8)] };
    Registry { layouts: vec![payload, rec], dispatch: vec![Dispatch { disc: 5, lid: 0 }] }
}

#[test]
fn unknown_discriminant_decodes_to_opaque() {
    // Resource pointer at 0 points at byte 16; the discriminant word sits
    // immediately before the payload, at byte 12, and is not in the
    // dispatch table: the decode must succeed with the opaque variant.
    let mut b: Vec<u8> = Vec::new();
    w64(&mut b, 0, 16);
    w32(&mut b, 12, 0xDEAD_BEEF);
    w64(&mut b, 16, 0);
    let reg = resource_registry();
    let v = decode_record(&b, &reg, 1, 0).unwrap();
    match v {
        Value::Record(fields) => assert_eq!(fields[0], Value::Opaque(0xDEAD_BEEF)),
        other => panic!("expected record, got {:?}", other),
    }
}

#[test]
fn known_discriminant_decodes_payload() {
    let mut b: Vec<u8> = Vec::new();
    w64(&mut b, 0, 16);
    w32(&mut b, 12, 5);
    w32(&mut b, 16, 41);
    w32(&mut b, 20, 42);
    let reg = resource_registry();
    let v = decode_record(&b, &reg, 1, 0).unwrap();
    match v {
        Value::Record(fields) => {
            assert_eq!(
                fields[0],
                Value::Resource(5, vec![Value::U32(41), Value::U32(42)])
            );
        },
        other => panic!("expected record, got {:?}", other),
    }
}

#[test]
fn null_resource_pointer_is_absent() {
    let mut b: Vec<u8> = vec![0; 16];
    let reg = resource_registry();
    let v = decode_record(&b, &reg, 1, 0).unwrap();
    match v {
        Value::Record(fields) => assert_eq!(fields[0], Value::Absent),
        other => panic!("expected record, got {:?}", other),
    }
}

#[test]
fn seek_and_skip_directives_position_fields() {
    let rec = Layout {
        size: 0x20,
        fields: vec![Field::U8, Field::Skip(3), Field::U32, Field::SeekTo(0x10), Field::U16],
    };
    let reg = Registry { layouts: vec![rec], dispatch: vec![] };
    let mut b: Vec<u8> = vec![0; 0x20];
    b[0] = 0xAB;
    w32(&mut b, 4, 0x0102_0304);
    b[0x10] = 0x21;
    b[0x11] = 0x43;
    let v = decode_record(&b, &reg, 0, 0).unwrap();
    match v {
        Value::Record(fields) => {
            assert_eq!(fields[0], Value::U8(0xAB));
            assert_eq!(fields[1], Value::U32(0x0102_0304));
            assert_eq!(fields[2], Value::U16(0x4321));
        },
        other => panic!("expected record, got {:?}", other),
    }
}
