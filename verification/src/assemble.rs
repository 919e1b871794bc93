//! The map assembly pipeline.
//!
//! One map is assembled by walking the fixed record hierarchy: root record,
//! definition, the definition's ordered containers, each container's data
//! tables, and each table's entries. Every entry contributes zero or more
//! scene components, each paired with the entry's transform and source
//! identifiers, accumulated as one batch of insertion operations in strict
//! source order: containers in definition order, tables in container order,
//! entries in table order. Failures on the root-definition-container spine
//! abort the one map; a malformed data table or entry is recorded as
//! skipped and its siblings are unaffected.
//!
//! The spec functions (`smap`, `scontainers_ops`, `stables_ops`,
//! `sentries`, `sentry_ops`) mirror the pipeline mathematically over the
//! session's package contents alone: the decode cache can never change the
//! outcome, only save work.

use vstd::prelude::*;
use crate::decode::{decode_record, sdec_record};
use crate::layout::Registry;
use crate::maplist::{MapData, MapDataList};
use crate::records::{
    as_fields, fields_table, fields_u32, fields_u64, fields_vec4, sfields_of, sftable, sfu32,
    sfu64, sfvec4, Component, InsertOp, SimpleLight, Vec4Bits,
};
use crate::refs::{
    spec_local_is_null, ExtendedRef, GlobalRef, LocalRef, NameHash, RecordRef, NULL_LOCAL_ONES,
    NULL_LOCAL_ZERO,
};
use crate::schema::{
    DISC_CUBEMAP, DISC_DECALS, DISC_LIGHT_COLLECTION, DISC_OCC_BOUNDS, DISC_SHADOWING_LIGHT,
    DISC_SLIP_SURFACE, DISC_STATIC_GROUP, DISC_TERRAIN, LID_CONTAINER, LID_DATA_TABLE,
    LID_DEFINITION, LID_ENTRY, LID_ROOT,
};
use crate::session::{
    sload, slookup_global, slookup_pkg, GlobalEntry, LoadError, PackageEntry, Session,
};
use crate::value::{lemma_vvals_index, vval, vvals, SVal, Value};

verus! {

/// Addition capped at the largest 64-bit value, for diagnostic counters.
pub open spec fn sat_add(a: int, b: int) -> int {
    if a + b > 0xFFFF_FFFF_FFFF_FFFF {
        0xFFFF_FFFF_FFFF_FFFF
    } else {
        a + b
    }
}

/// Adds two counters, capping at the largest value instead of overflowing.
fn sat_add_u64(a: u64, b: u64) -> (r: u64)
    ensures
        r as int == sat_add(a as int, b as int),
{
    if a > u64::MAX - b {
        u64::MAX
    } else {
        a + b
    }
}

/// The single component of a recognized resource payload that is not a
/// light collection, built from the payload's field values.
pub open spec fn scomponent_single(d: u32, pfs: Seq<SVal>) -> Component {
    if d == DISC_STATIC_GROUP {
        Component::StaticGroup { instances: sfu32(pfs, 1) }
    } else if d == DISC_TERRAIN {
        Component::Terrain { terrain: sfu32(pfs, 3), terrain_bounds: sfu32(pfs, 4) }
    } else if d == DISC_SHADOWING_LIGHT {
        Component::ShadowingLight(
            SimpleLight { pos: sfvec4(pfs, 0), attenuation: sfvec4(pfs, 4) },
        )
    } else if d == DISC_CUBEMAP {
        Component::Cubemap { extents: sfvec4(pfs, 0), center: sfvec4(pfs, 4), texture: sfu32(
            pfs,
            8,
        ) }
    } else if d == DISC_OCC_BOUNDS {
        Component::OcclusionBounds { bounds_count: sftable(pfs, 1).len() as u64 }
    } else if d == DISC_DECALS {
        Component::Decals { instance_points: sfu32(pfs, 3), occlusion: sfu32(pfs, 6) }
    } else if d == DISC_SLIP_SURFACE {
        Component::SlipSurface { havok_file: sfu32(pfs, 0), shape_index: sfu32(pfs, 2) }
    } else {
        Component::Unknown { disc: d }
    }
}

/// One insertion per light of a light collection, in table order.
pub open spec fn slight_ops(es: Seq<SVal>, rot: Vec4Bits, trans: Vec4Bits, wid: u64, ent: u32)
    -> Seq<InsertOp>
    decreases es.len(),
{
    if es.len() == 0 {
        Seq::empty()
    } else {
        let lf = sfields_of(es[0]);
        seq![
            InsertOp {
                rotation: rot,
                translation: trans,
                world_id: wid,
                entity_old: ent,
                component: Component::Light(
                    SimpleLight { pos: sfvec4(lf, 0), attenuation: sfvec4(lf, 4) },
                ),
            },
        ].add(slight_ops(es.drop_first(), rot, trans, wid, ent))
    }
}

/// The insertions of one recognized resource payload.
pub open spec fn scomponent_ops(
    d: u32,
    pfs: Seq<SVal>,
    rot: Vec4Bits,
    trans: Vec4Bits,
    wid: u64,
    ent: u32,
) -> Seq<InsertOp> {
    if d == DISC_LIGHT_COLLECTION {
        slight_ops(sftable(pfs, 2), rot, trans, wid, ent)
    } else {
        seq![
            InsertOp {
                rotation: rot,
                translation: trans,
                world_id: wid,
                entity_old: ent,
                component: scomponent_single(d, pfs),
            },
        ]
    }
}

/// The insertions of one decoded data-table entry: its transform and world
/// identifier attached to each component of its resource payload. An
/// absent resource yields nothing; an unrecognized discriminant yields one
/// opaque component.
pub open spec fn sentry_ops(e: SVal) -> Seq<InsertOp> {
    let fs = sfields_of(e);
    let rot = sfvec4(fs, 0);
    let trans = sfvec4(fs, 4);
    let ent = sfu32(fs, 8);
    let wid = sfu64(fs, 9);
    if 10 < fs.len() {
        match fs[10] {
            SVal::Absent => Seq::empty(),
            SVal::Opaque(d) => seq![
                InsertOp {
                    rotation: rot,
                    translation: trans,
                    world_id: wid,
                    entity_old: ent,
                    component: Component::Unknown { disc: d },
                },
            ],
            SVal::Resource(d, pfs) => scomponent_ops(d, pfs, rot, trans, wid, ent),
            _ => Seq::empty(),
        }
    } else {
        Seq::empty()
    }
}

/// The insertions and skip count of `n` entries starting at `pos` in the
/// table's buffer, one every `stride` bytes: a malformed entry is skipped,
/// its siblings decode on.
pub open spec fn sentries(
    b: Seq<u8>,
    reg: Registry,
    pos: int,
    n: int,
    stride: int,
) -> (Seq<InsertOp>, int)
    decreases n,
{
    if n <= 0 {
        (Seq::empty(), 0)
    } else {
        let head = sdec_record(true, b, reg.layouts@, reg.dispatch@, LID_ENTRY as int, pos);
        let rest = sentries(b, reg, pos + stride, n - 1, stride);
        match head {
            Some(e) => (sentry_ops(e).add(rest.0), rest.1),
            None => (rest.0, sat_add(rest.1, 1)),
        }
    }
}

/// Entries at positions past the end of the buffer never decode: they are
/// all skipped.
pub proof fn lemma_sentries_oob(b: Seq<u8>, reg: Registry, pos: int, n: int, stride: int)
    requires
        pos > b.len(),
        stride >= 0,
        0 <= n <= 0xFFFF_FFFF_FFFF_FFFF,
    ensures
        sentries(b, reg, pos, n, stride) == (Seq::<InsertOp>::empty(), n),
    decreases n,
{
    if n > 0 {
        lemma_sentries_oob(b, reg, pos + stride, n - 1, stride);
    }
}

/// The skip count of `sentries` never exceeds the entry count.
pub proof fn lemma_sentries_skip_bound(b: Seq<u8>, reg: Registry, pos: int, n: int, stride: int)
    requires
        n >= 0,
    ensures
        0 <= sentries(b, reg, pos, n, stride).1 <= n,
    decreases n,
{
    if n > 0 {
        lemma_sentries_skip_bound(b, reg, pos + stride, n - 1, stride);
    }
}

/// The insertions and skip count of one data table, given the table's own
/// buffer and its decoded header fields: `count` entries starting at the
/// offset-word position plus the stored relative offset. A count that
/// cannot fit the buffer marks the whole table as one skipped sub-tree.
pub open spec fn stable_ops(b: Seq<u8>, reg: Registry, tfs: Seq<SVal>, stride: int) -> (
    Seq<InsertOp>,
    int,
) {
    let count = sfu64(tfs, 1) as int;
    let off = sfu64(tfs, 2) as int;
    if count > b.len() {
        (Seq::empty(), 1)
    } else {
        sentries(b, reg, 0x10 + off, count, stride)
    }
}

/// The insertions and skip count of a container's data tables, in order:
/// a null table reference contributes nothing, a table that cannot be
/// loaded or decoded is one skipped sub-tree.
pub open spec fn stables_ops(
    ps: Seq<PackageEntry>,
    reg: Registry,
    pkg: u16,
    tags: Seq<SVal>,
    stride: int,
) -> (Seq<InsertOp>, int)
    decreases tags.len(),
{
    if tags.len() == 0 {
        (Seq::empty(), 0)
    } else {
        let t = sfu32(sfields_of(tags[0]), 0);
        let rest = stables_ops(ps, reg, pkg, tags.drop_first(), stride);
        if spec_local_is_null(t) {
            rest
        } else {
            match sload(ps, reg, pkg, t, LID_DATA_TABLE as int) {
                None => (rest.0, sat_add(rest.1, 1)),
                Some(tv) => {
                    let tb = slookup_pkg(ps, pkg, t).unwrap();
                    let this = stable_ops(tb, reg, sfields_of(tv), stride);
                    (this.0.add(rest.0), sat_add(this.1, rest.1))
                },
            }
        }
    }
}

/// The insertions and skip count of the definition's containers, in
/// definition order; `None` if any container of the required spine cannot
/// be resolved or decoded.
pub open spec fn scontainers_ops(
    ps: Seq<PackageEntry>,
    gs: Seq<GlobalEntry>,
    reg: Registry,
    defpkg: u16,
    elems: Seq<SVal>,
    stride: int,
) -> Option<(Seq<InsertOp>, int)>
    decreases elems.len(),
{
    if elems.len() == 0 {
        Some((Seq::empty(), 0))
    } else {
        let efs = sfields_of(elems[0]);
        let l = sfu32(efs, 0);
        let g = sfu64(efs, 1);
        let kopt = if g != 0 {
            slookup_global(gs, g)
        } else {
            Some((defpkg, l))
        };
        match kopt {
            None => None,
            Some(k) => if spec_local_is_null(k.1) {
                None
            } else {
                match sload(ps, reg, k.0, k.1, LID_CONTAINER as int) {
                    None => None,
                    Some(cv) => {
                        let this = stables_ops(ps, reg, k.0, sftable(sfields_of(cv), 1), stride);
                        match scontainers_ops(ps, gs, reg, defpkg, elems.drop_first(), stride) {
                            None => None,
                            Some(rest) => Some(
                                (this.0.add(rest.0), sat_add(this.1, rest.1)),
                            ),
                        }
                    },
                }
            },
        }
    }
}

/// Builds the single component of a recognized non-light-collection
/// payload.
fn component_single(d: u32, pfs: &Vec<Value>) -> (r: Component)
    ensures
        r == scomponent_single(d, vvals(pfs@)),
{
    let empty: Vec<Value> = Vec::new();
    if d == DISC_STATIC_GROUP {
        Component::StaticGroup { instances: fields_u32(pfs, 1) }
    } else if d == DISC_TERRAIN {
        Component::Terrain { terrain: fields_u32(pfs, 3), terrain_bounds: fields_u32(pfs, 4) }
    } else if d == DISC_SHADOWING_LIGHT {
        Component::ShadowingLight(
            SimpleLight { pos: fields_vec4(pfs, 0), attenuation: fields_vec4(pfs, 4) },
        )
    } else if d == DISC_CUBEMAP {
        Component::Cubemap {
            extents: fields_vec4(pfs, 0),
            center: fields_vec4(pfs, 4),
            texture: fields_u32(pfs, 8),
        }
    } else if d == DISC_OCC_BOUNDS {
        let bounds = fields_table(pfs, 1, &empty);
        proof {
            lemma_vvals_index(bounds@);
        }
        Component::OcclusionBounds { bounds_count: bounds.len() as u64 }
    } else if d == DISC_DECALS {
        Component::Decals { instance_points: fields_u32(pfs, 3), occlusion: fields_u32(pfs, 6) }
    } else if d == DISC_SLIP_SURFACE {
        Component::SlipSurface { havok_file: fields_u32(pfs, 0), shape_index: fields_u32(pfs, 2) }
    } else {
        Component::Unknown { disc: d }
    }
}

/// Builds the insertions of one recognized resource payload.
fn resource_ops(d: u32, pfs: &Vec<Value>, rot: Vec4Bits, trans: Vec4Bits, wid: u64, ent: u32)
    -> (r: Vec<InsertOp>)
    ensures
        r@ == scomponent_ops(d, vvals(pfs@), rot, trans, wid, ent),
{
    let mut out: Vec<InsertOp> = Vec::new();
    if d == DISC_LIGHT_COLLECTION {
        let empty: Vec<Value> = Vec::new();
        let es = fields_table(pfs, 2, &empty);
        let ghost ges = vvals(es@);
        proof {
            lemma_vvals_index(es@);
            assert(ges.skip(0) =~= ges);
        }
        let mut j: usize = 0;
        while j < es.len()
            invariant
                j <= es@.len(),
                empty@.len() == 0,
                ges == vvals(es@),
                ges.len() == es@.len(),
                forall|x: int| 0 <= x < es@.len() ==> ges[x] == vval(#[trigger] es@[x]),
                slight_ops(ges, rot, trans, wid, ent) == out@.add(
                    slight_ops(ges.skip(j as int), rot, trans, wid, ent),
                ),
            decreases es@.len() - j,
        {
            proof {
                assert(ges.skip(j as int).drop_first() =~= ges.skip(j + 1));
                assert(ges.skip(j as int)[0] == ges[j as int]);
            }
            let lf = as_fields(&es[j], &empty);
            let op = InsertOp {
                rotation: rot,
                translation: trans,
                world_id: wid,
                entity_old: ent,
                component: Component::Light(
                    SimpleLight { pos: fields_vec4(lf, 0), attenuation: fields_vec4(lf, 4) },
                ),
            };
            let ghost oldout = out@;
            out.push(op);
            proof {
                let tail = slight_ops(ges.skip(j + 1), rot, trans, wid, ent);
                assert(oldout.add(seq![op].add(tail)) =~= out@.add(tail));
            }
            j = j + 1;
        }
        proof {
            assert(ges.skip(j as int).len() == 0);
            assert(out@.add(Seq::<InsertOp>::empty()) =~= out@);
        }
    } else {
        let c = component_single(d, pfs);
        out.push(
            InsertOp {
                rotation: rot,
                translation: trans,
                world_id: wid,
                entity_old: ent,
                component: c,
            },
        );
        proof {
            assert(out@ =~= seq![
                InsertOp {
                    rotation: rot,
                    translation: trans,
                    world_id: wid,
                    entity_old: ent,
                    component: scomponent_single(d, vvals(pfs@)),
                },
            ]);
        }
    }
    out
}

/// Builds the insertions of one decoded data-table entry.
fn entry_ops(e: &Value) -> (r: Vec<InsertOp>)
    ensures
        r@ == sentry_ops(vval(*e)),
{
    match e {
        Value::Record(fs) => {
            proof {
                lemma_vvals_index(fs@);
            }
            let rot = fields_vec4(fs, 0);
            let trans = fields_vec4(fs, 4);
            let ent = fields_u32(fs, 8);
            let wid = fields_u64(fs, 9);
            if 10 < fs.len() {
                match &fs[10] {
                    Value::Absent => Vec::new(),
                    Value::Opaque(d) => {
                        let mut out: Vec<InsertOp> = Vec::new();
                        out.push(
                            InsertOp {
                                rotation: rot,
                                translation: trans,
                                world_id: wid,
                                entity_old: ent,
                                component: Component::Unknown { disc: *d },
                            },
                        );
                        proof {
                            assert(out@ =~= sentry_ops(vval(*e)));
                        }
                        out
                    },
                    Value::Resource(d, pfs) => resource_ops(*d, pfs, rot, trans, wid, ent),
                    _ => Vec::new(),
                }
            } else {
                Vec::new()
            }
        },
        _ => Vec::new(),
    }
}

/// Decodes and converts the entries of one data table from the table's own
/// buffer, per its decoded header fields; returns the insertions in entry
/// order and the skip count.
fn table_entries(b: &[u8], reg: &Registry, tfs: &Vec<Value>, stride: usize) -> (r: (
    Vec<InsertOp>,
    u64,
))
    ensures
        ({
            let s = stable_ops(b@, *reg, vvals(tfs@), stride as int);
            r.0@ == s.0 && r.1 as int == s.1
        }),
{
    let count = fields_u64(tfs, 1);
    let off = fields_u64(tfs, 2);
    let blen = b.len();
    if count > blen as u64 {
        let out: Vec<InsertOp> = Vec::new();
        return (out, 1);
    }
    let ghost pos0: int = 0x10 + off as int;
    if off > u64::MAX - 0x10 || 0x10 + off > blen as u64 {
        proof {
            lemma_sentries_oob(b@, *reg, pos0, count as int, stride as int);
        }
        let out: Vec<InsertOp> = Vec::new();
        return (out, count);
    }
    let pos64: u64 = 0x10 + off;
    let mut pos: usize = pos64 as usize;
    let mut i: u64 = 0;
    let mut ops: Vec<InsertOp> = Vec::new();
    let mut skipped: u64 = 0;
    let ghost total = sentries(b@, *reg, pos0, count as int, stride as int);
    while i < count
        invariant
            i <= count,
            skipped <= i,
            pos <= b@.len(),
            count <= b@.len(),
            blen == b@.len(),
            total == sentries(b@, *reg, pos0, count as int, stride as int),
            ({
                let rem = sentries(b@, *reg, pos as int, (count - i) as int, stride as int);
                total.0 == ops@.add(rem.0) && total.1 == skipped + rem.1
            }),
        decreases count - i,
    {
        let ghost rem = sentries(b@, *reg, pos as int, (count - i) as int, stride as int);
        let ghost rest = sentries(
            b@,
            *reg,
            pos + stride,
            (count - i - 1) as int,
            stride as int,
        );
        proof {
            lemma_sentries_skip_bound(b@, *reg, pos + stride, (count - i - 1) as int,
                stride as int);
        }
        match decode_record(b, reg, LID_ENTRY, pos) {
            Ok(v) => {
                let mut eo = entry_ops(&v);
                let ghost oldops = ops@;
                ops.append(&mut eo);
                proof {
                    assert(oldops.add(sentry_ops(vval(v)).add(rest.0)) =~= ops@.add(rest.0));
                }
            },
            Err(_) => {
                skipped = skipped + 1;
            },
        }
        i = i + 1;
        if i < count {
            if stride <= blen - pos {
                pos = pos + stride;
            } else {
                proof {
                    lemma_sentries_oob(b@, *reg, pos + stride, (count - i) as int, stride as int);
                    assert(rest.0 =~= Seq::<InsertOp>::empty());
                    assert(ops@.add(Seq::<InsertOp>::empty()) =~= ops@);
                }
                skipped = skipped + (count - i);
                i = count;
            }
        }
        proof {
            if i == count {
                assert(sentries(b@, *reg, pos as int, 0, stride as int) == (
                    Seq::<InsertOp>::empty(),
                    0int,
                ));
                assert(ops@.add(Seq::<InsertOp>::empty()) =~= ops@);
            }
        }
    }
    proof {
        assert(sentries(b@, *reg, pos as int, 0, stride as int) == (
            Seq::<InsertOp>::empty(),
            0int,
        ));
        assert(ops@.add(Seq::<InsertOp>::empty()) =~= ops@);
    }
    (ops, skipped)
}

/// One whole map, assembled from the session's package contents: the
/// display-name hash, the insertion batch in source order, and the skip
/// count; `None` if the root-definition-container spine cannot be loaded.
pub open spec fn smap(
    ps: Seq<PackageEntry>,
    gs: Seq<GlobalEntry>,
    reg: Registry,
    root: ExtendedRef,
) -> Option<(u32, Seq<InsertOp>, int)> {
    if spec_local_is_null(root.id) {
        None
    } else {
        match sload(ps, reg, root.pkg, root.id, LID_ROOT as int) {
            None => None,
            Some(rv) => {
                let rfs = sfields_of(rv);
                let child = sfu32(rfs, 1);
                let name = sfu32(rfs, 4);
                if spec_local_is_null(child) {
                    None
                } else {
                    match sload(ps, reg, root.pkg, child, LID_DEFINITION as int) {
                        None => None,
                        Some(dv) => {
                            let stride = reg.layouts@[LID_ENTRY as int].size as int;
                            match scontainers_ops(
                                ps,
                                gs,
                                reg,
                                root.pkg,
                                sftable(sfields_of(dv), 1),
                                stride,
                            ) {
                                None => None,
                                Some(t) => Some((name, t.0, t.1)),
                            }
                        },
                    }
                }
            },
        }
    }
}

/// Skip counts stay within the 64-bit counter range.
pub proof fn lemma_stables_skip_range(
    ps: Seq<PackageEntry>,
    reg: Registry,
    pkg: u16,
    tags: Seq<SVal>,
    stride: int,
)
    ensures
        0 <= stables_ops(ps, reg, pkg, tags, stride).1 <= 0xFFFF_FFFF_FFFF_FFFF,
    decreases tags.len(),
{
    if tags.len() > 0 {
        lemma_stables_skip_range(ps, reg, pkg, tags.drop_first(), stride);
        let t = sfu32(sfields_of(tags[0]), 0);
        if !spec_local_is_null(t) {
            match sload(ps, reg, pkg, t, LID_DATA_TABLE as int) {
                None => {},
                Some(tv) => {
                    let tb = slookup_pkg(ps, pkg, t).unwrap();
                    let tfs = sfields_of(tv);
                    let count = sfu64(tfs, 1) as int;
                    let off = sfu64(tfs, 2) as int;
                    if !(count > tb.len()) {
                        lemma_sentries_skip_bound(tb, reg, 0x10 + off, count, stride);
                    }
                },
            }
        }
    }
}

/// Skip counts of the container walk stay within the 64-bit counter range.
pub proof fn lemma_scontainers_skip_range(
    ps: Seq<PackageEntry>,
    gs: Seq<GlobalEntry>,
    reg: Registry,
    defpkg: u16,
    elems: Seq<SVal>,
    stride: int,
)
    ensures
        scontainers_ops(ps, gs, reg, defpkg, elems, stride) matches Some(t) ==> 0 <= t.1
            <= 0xFFFF_FFFF_FFFF_FFFF,
    decreases elems.len(),
{
    if elems.len() > 0 {
        lemma_scontainers_skip_range(ps, gs, reg, defpkg, elems.drop_first(), stride);
        let efs = sfields_of(elems[0]);
        let l = sfu32(efs, 0);
        let g = sfu64(efs, 1);
        let kopt = if g != 0 {
            slookup_global(gs, g)
        } else {
            Some((defpkg, l))
        };
        match kopt {
            None => {},
            Some(k) => {
                if !spec_local_is_null(k.1) {
                    match sload(ps, reg, k.0, k.1, LID_CONTAINER as int) {
                        None => {},
                        Some(cv) => {
                            lemma_stables_skip_range(
                                ps,
                                reg,
                                k.0,
                                sftable(sfields_of(cv), 1),
                                stride,
                            );
                        },
                    }
                }
            },
        }
    }
}

/// Loads one container and assembles the insertions of all its data
/// tables, in table order, with the skip count.
fn container_ops(sess: &mut Session, pkg: u16, id: u32, stride: usize) -> (res: Result<
    (Vec<InsertOp>, u64),
    LoadError,
>)
    requires
        old(sess).wf(),
        !spec_local_is_null(id),
    ensures
        final(sess).wf(),
        final(sess).packages == old(sess).packages,
        final(sess).globals == old(sess).globals,
        final(sess).registry == old(sess).registry,
        ({
            let ps = old(sess).packages@;
            let reg = old(sess).registry;
            let c = sload(ps, reg, pkg, id, LID_CONTAINER as int);
            &&& (res is Ok <==> c is Some)
            &&& (res matches Ok(p) ==> c matches Some(cv) && {
                let this = stables_ops(ps, reg, pkg, sftable(sfields_of(cv), 1), stride as int);
                p.0@ == this.0 && p.1 as int == this.1
            })
        }),
{
    let ghost ps = old(sess).packages@;
    let ghost gs = old(sess).globals@;
    let ghost reg = old(sess).registry;
    let empty: Vec<Value> = Vec::new();
    let cv = match sess.load_record(
        pkg,
        &RecordRef::Extended(ExtendedRef { pkg, id }),
        LID_CONTAINER,
    ) {
        Ok(Some(v)) => v,
        Ok(None) => {
            proof {
                assert(false);
            }
            return Err(LoadError::RequiredAbsent);
        },
        Err(e) => {
            return Err(e);
        },
    };
    let cfs = as_fields(&cv, &empty);
    let tags = fields_table(cfs, 1, &empty);
    let ghost ctags = sftable(sfields_of(vval(cv)), 1);
    proof {
        lemma_vvals_index(tags@);
    }
    let ghost this_tot = stables_ops(ps, reg, pkg, ctags, stride as int);
    let mut cops: Vec<InsertOp> = Vec::new();
    let mut cskip: u64 = 0;
    let mut j2: usize = 0;
    proof {
        assert(ctags.skip(0) =~= ctags);
        assert(cops@.add(this_tot.0) =~= this_tot.0);
        lemma_stables_skip_range(ps, reg, pkg, ctags, stride as int);
    }
    while j2 < tags.len()
        invariant
            j2 <= tags@.len(),
            sess.wf(),
            sess.packages == old(sess).packages,
            sess.globals == old(sess).globals,
            sess.packages@ == ps,
            sess.globals@ == gs,
            sess.registry == reg,
            empty@.len() == 0,
            vvals(tags@) == ctags,
            ctags.len() == tags@.len(),
            forall|x: int| 0 <= x < tags@.len() ==> ctags[x] == vval(#[trigger] tags@[x]),
            this_tot == stables_ops(ps, reg, pkg, ctags, stride as int),
            ({
                let rem2 = stables_ops(ps, reg, pkg, ctags.skip(j2 as int), stride as int);
                this_tot.0 == cops@.add(rem2.0) && this_tot.1 == sat_add(cskip as int, rem2.1)
            }),
        decreases tags@.len() - j2,
    {
        proof {
            assert(ctags.skip(j2 as int).drop_first() =~= ctags.skip(j2 + 1));
            assert(ctags.skip(j2 as int)[0] == ctags[j2 as int]);
            lemma_stables_skip_range(ps, reg, pkg, ctags.skip(j2 as int), stride as int);
            lemma_stables_skip_range(ps, reg, pkg, ctags.skip(j2 + 1), stride as int);
        }
        let ghost rest2 = stables_ops(ps, reg, pkg, ctags.skip(j2 + 1), stride as int);
        let tfs0 = as_fields(&tags[j2], &empty);
        let t = fields_u32(tfs0, 0);
        if !(t == NULL_LOCAL_ZERO || t == NULL_LOCAL_ONES) {
            match sess.load_record(pkg, &RecordRef::Local(LocalRef { id: t }), LID_DATA_TABLE) {
                Ok(Some(tv)) => {
                    match sess.package_bytes(pkg, t) {
                        Some(buf) => {
                            let tfs = as_fields(&tv, &empty);
                            let tr = table_entries(buf.as_slice(), &sess.registry, tfs, stride);
                            let mut tops = tr.0;
                            let ghost oldcops = cops@;
                            cops.append(&mut tops);
                            cskip = sat_add_u64(cskip, tr.1);
                            proof {
                                let this = stable_ops(
                                    slookup_pkg(ps, pkg, t).unwrap(),
                                    reg,
                                    sfields_of(vval(tv)),
                                    stride as int,
                                );
                                assert(oldcops.add(this.0.add(rest2.0)) =~= cops@.add(rest2.0));
                            }
                        },
                        None => {
                            proof {
                                assert(false);
                            }
                        },
                    }
                },
                Ok(None) => {
                    proof {
                        assert(false);
                    }
                },
                Err(_) => {
                    cskip = sat_add_u64(cskip, 1);
                },
            }
        }
        j2 = j2 + 1;
    }
    proof {
        assert(ctags.skip(j2 as int).len() == 0);
        assert(cops@.add(Seq::<InsertOp>::empty()) =~= cops@);
    }
    Ok((cops, cskip))
}

/// Loads and assembles one map from its root reference.
///
/// The result is determined by the session's package contents, global
/// index and registry alone (`smap`): the shared decode cache can only
/// save work, never change the outcome, so maps loaded in one session do
/// not disturb each other. Spine failures surface as the error; malformed
/// data tables and entries are only counted in `skipped`.
#[verifier::rlimit(50)]
pub fn load_map(sess: &mut Session, root: ExtendedRef) -> (res: Result<MapData, LoadError>)
    requires
        old(sess).wf(),
        LID_ENTRY < old(sess).registry.layouts@.len(),
    ensures
        final(sess).wf(),
        final(sess).packages == old(sess).packages,
        final(sess).globals == old(sess).globals,
        final(sess).registry == old(sess).registry,
        ({
            let m = smap(old(sess).packages@, old(sess).globals@, old(sess).registry, root);
            &&& (res is Ok <==> m is Some)
            &&& (res matches Ok(md) ==> m matches Some(t) && md.hash == root
                && md.name_hash.hash == t.0 && md.ops@ == t.1 && md.skipped as int == t.2)
        }),
        spec_local_is_null(root.id) ==> res == Result::<MapData, LoadError>::Err(
            LoadError::RequiredAbsent,
        ),
{
    let ghost ps = old(sess).packages@;
    let ghost gs = old(sess).globals@;
    let ghost reg = old(sess).registry;
    if root.id == NULL_LOCAL_ZERO || root.id == NULL_LOCAL_ONES {
        return Err(LoadError::RequiredAbsent);
    }
    let stride = sess.registry.layouts[LID_ENTRY].size;
    let empty: Vec<Value> = Vec::new();
    let rootv = match sess.load_record(root.pkg, &RecordRef::Extended(root), LID_ROOT) {
        Ok(Some(v)) => v,
        Ok(None) => {
            proof {
                assert(false);
            }
            return Err(LoadError::RequiredAbsent);
        },
        Err(e) => {
            return Err(e);
        },
    };
    let rfs = as_fields(&rootv, &empty);
    let child = fields_u32(rfs, 1);
    let name = fields_u32(rfs, 4);
    if child == NULL_LOCAL_ZERO || child == NULL_LOCAL_ONES {
        return Err(LoadError::RequiredAbsent);
    }
    let defv = match sess.load_record(
        root.pkg,
        &RecordRef::Local(LocalRef { id: child }),
        LID_DEFINITION,
    ) {
        Ok(Some(v)) => v,
        Ok(None) => {
            proof {
                assert(false);
            }
            return Err(LoadError::RequiredAbsent);
        },
        Err(e) => {
            return Err(e);
        },
    };
    let dfs = as_fields(&defv, &empty);
    let elems = fields_table(dfs, 1, &empty);
    let ghost celems = sftable(sfields_of(vval(defv)), 1);
    proof {
        lemma_vvals_index(elems@);
    }
    let mut ops: Vec<InsertOp> = Vec::new();
    let mut skipped: u64 = 0;
    let ghost ctot = scontainers_ops(ps, gs, reg, root.pkg, celems, stride as int);
    let mut j: usize = 0;
    proof {
        assert(celems.skip(0) =~= celems);
        lemma_scontainers_skip_range(ps, gs, reg, root.pkg, celems, stride as int);
        match scontainers_ops(ps, gs, reg, root.pkg, celems, stride as int) {
            Some(r) => {
                assert(ops@.add(r.0) =~= r.0);
            },
            None => {},
        }
    }
    while j < elems.len()
        invariant
            j <= elems@.len(),
            sess.wf(),
            sess.packages == old(sess).packages,
            sess.globals == old(sess).globals,
            sess.packages@ == ps,
            sess.globals@ == gs,
            sess.registry == reg,
            empty@.len() == 0,
            vvals(elems@) == celems,
            celems.len() == elems@.len(),
            forall|x: int| 0 <= x < elems@.len() ==> celems[x] == vval(#[trigger] elems@[x]),
            stride == reg.layouts@[LID_ENTRY as int].size,
            LID_ENTRY < reg.layouts@.len(),
            !spec_local_is_null(root.id),
            ps == old(sess).packages@,
            gs == old(sess).globals@,
            reg == old(sess).registry,
            ctot == scontainers_ops(ps, gs, reg, root.pkg, celems, stride as int),
            match ctot {
                None => smap(ps, gs, reg, root) is None,
                Some(t) => smap(ps, gs, reg, root) == Some((name, t.0, t.1)),
            },
            ({
                let rem = scontainers_ops(
                    ps,
                    gs,
                    reg,
                    root.pkg,
                    celems.skip(j as int),
                    stride as int,
                );
                match rem {
                    None => ctot is None,
                    Some(r) => ctot matches Some(t) && t.0 == ops@.add(r.0) && t.1 == sat_add(
                        skipped as int,
                        r.1,
                    ),
                }
            }),
        decreases elems@.len() - j,
    {
        proof {
            assert(celems.skip(j as int).drop_first() =~= celems.skip(j + 1));
            assert(celems.skip(j as int)[0] == celems[j as int]);
        }
        let efs = as_fields(&elems[j], &empty);
        let l = fields_u32(efs, 0);
        let g = fields_u64(efs, 1);
        let k: (u16, u32) = if g != 0 {
            match sess.lookup_global(g) {
                None => {
                    return Err(LoadError::UnknownGlobalReference);
                },
                Some(k) => k,
            }
        } else {
            (root.pkg, l)
        };
        if k.1 == NULL_LOCAL_ZERO || k.1 == NULL_LOCAL_ONES {
            return Err(LoadError::RequiredAbsent);
        }
        let ghost this_tot_opt = sload(ps, reg, k.0, k.1, LID_CONTAINER as int);
        let cres = container_ops(sess, k.0, k.1, stride);
        let cpair = match cres {
            Ok(p) => p,
            Err(e) => {
                return Err(e);
            },
        };
        proof {
            lemma_stables_skip_range(
                ps,
                reg,
                k.0,
                sftable(
                    sfields_of(
                        match sload(ps, reg, k.0, k.1, LID_CONTAINER as int) {
                            Some(cv) => cv,
                            None => SVal::Absent,
                        },
                    ),
                    1,
                ),
                stride as int,
            );
            lemma_scontainers_skip_range(
                ps,
                gs,
                reg,
                root.pkg,
                celems.skip(j + 1),
                stride as int,
            );
        }
        let mut cops2 = cpair.0;
        let ghost oldops = ops@;
        ops.append(&mut cops2);
        skipped = sat_add_u64(skipped, cpair.1);
        proof {
            match scontainers_ops(ps, gs, reg, root.pkg, celems.skip(j + 1), stride as int) {
                Some(rest) => {
                    match sload(ps, reg, k.0, k.1, LID_CONTAINER as int) {
                        Some(cv) => {
                            let this = stables_ops(
                                ps,
                                reg,
                                k.0,
                                sftable(sfields_of(cv), 1),
                                stride as int,
                            );
                            assert(oldops.add(this.0.add(rest.0)) =~= ops@.add(rest.0));
                        },
                        None => {},
                    }
                },
                None => {},
            }
        }
        j = j + 1;
    }
    proof {
        assert(celems.skip(j as int).len() == 0);
        assert(ops@.add(Seq::<InsertOp>::empty()) =~= ops@);
    }
    Ok(MapData { hash: root, name_hash: NameHash { hash: name }, ops, skipped })
}

/// The maps of a load list that assemble, in list order, each with its
/// optional global identifier and its assembled contents.
pub open spec fn sok_list(
    ps: Seq<PackageEntry>,
    gs: Seq<GlobalEntry>,
    reg: Registry,
    rs: Seq<(ExtendedRef, Option<GlobalRef>)>,
) -> Seq<(ExtendedRef, Option<GlobalRef>, (u32, Seq<InsertOp>, int))>
    decreases rs.len(),
{
    if rs.len() == 0 {
        Seq::empty()
    } else {
        let rest = sok_list(ps, gs, reg, rs.drop_first());
        match smap(ps, gs, reg, rs[0].0) {
            Some(m) => seq![(rs[0].0, rs[0].1, m)].add(rest),
            None => rest,
        }
    }
}

/// The roots of a load list whose maps fail to assemble, in list order.
pub open spec fn serr_list(
    ps: Seq<PackageEntry>,
    gs: Seq<GlobalEntry>,
    reg: Registry,
    rs: Seq<(ExtendedRef, Option<GlobalRef>)>,
) -> Seq<ExtendedRef>
    decreases rs.len(),
{
    if rs.len() == 0 {
        Seq::empty()
    } else {
        let rest = serr_list(ps, gs, reg, rs.drop_first());
        match smap(ps, gs, reg, rs[0].0) {
            Some(m) => rest,
            None => seq![rs[0].0].add(rest),
        }
    }
}

/// Loads every map of a load list, in order: maps that assemble are
/// appended to the collection, failures are recorded per root, and neither
/// disturbs the other — each outcome is determined by that root alone.
#[verifier::rlimit(50)]
pub fn load_maps(sess: &mut Session, roots: &Vec<(ExtendedRef, Option<GlobalRef>)>) -> (r: (
    MapDataList,
    Vec<(ExtendedRef, LoadError)>,
))
    requires
        old(sess).wf(),
        LID_ENTRY < old(sess).registry.layouts@.len(),
    ensures
        final(sess).wf(),
        final(sess).packages == old(sess).packages,
        final(sess).globals == old(sess).globals,
        final(sess).registry == old(sess).registry,
        r.0.current_map == 0,
        ({
            let oks = sok_list(old(sess).packages@, old(sess).globals@, old(sess).registry,
                roots@);
            let errs = serr_list(old(sess).packages@, old(sess).globals@, old(sess).registry,
                roots@);
            &&& r.0.maps@.len() == oks.len()
            &&& (forall|x: int|
                0 <= x < oks.len() ==> {
                    let mi = #[trigger] r.0.maps@[x];
                    &&& mi.0.id == oks[x].0.id
                    &&& mi.1 == oks[x].1
                    &&& mi.2.hash == oks[x].0
                    &&& mi.2.name_hash.hash == oks[x].2.0
                    &&& mi.2.ops@ == oks[x].2.1
                    &&& mi.2.skipped as int == oks[x].2.2
                })
            &&& r.1@.len() == errs.len()
            &&& (forall|x: int| 0 <= x < errs.len() ==> (#[trigger] r.1@[x]).0 == errs[x])
        }),
{
    let ghost ps = old(sess).packages@;
    let ghost gs = old(sess).globals@;
    let ghost reg = old(sess).registry;
    let ghost oks = sok_list(ps, gs, reg, roots@);
    let ghost errs = serr_list(ps, gs, reg, roots@);
    let mut maps: Vec<(LocalRef, Option<GlobalRef>, MapData)> = Vec::new();
    let mut failures: Vec<(ExtendedRef, LoadError)> = Vec::new();
    let mut i: usize = 0;
    proof {
        assert(roots@.skip(0) =~= roots@);
    }
    while i < roots.len()
        invariant
            i <= roots@.len(),
            sess.wf(),
            sess.packages == old(sess).packages,
            sess.globals == old(sess).globals,
            sess.packages@ == ps,
            sess.globals@ == gs,
            sess.registry == reg,
            sess.registry == old(sess).registry,
            ps == old(sess).packages@,
            gs == old(sess).globals@,
            reg == old(sess).registry,
            LID_ENTRY < reg.layouts@.len(),
            oks == sok_list(ps, gs, reg, roots@),
            errs == serr_list(ps, gs, reg, roots@),
            oks.len() == maps@.len() + sok_list(ps, gs, reg, roots@.skip(i as int)).len(),
            errs.len() == failures@.len() + serr_list(ps, gs, reg, roots@.skip(i as int)).len(),
            sok_list(ps, gs, reg, roots@.skip(i as int)) == oks.skip(maps@.len() as int),
            serr_list(ps, gs, reg, roots@.skip(i as int)) == errs.skip(failures@.len() as int),
            forall|x: int|
                0 <= x < maps@.len() ==> {
                    let mi = #[trigger] maps@[x];
                    &&& mi.0.id == oks[x].0.id
                    &&& mi.1 == oks[x].1
                    &&& mi.2.hash == oks[x].0
                    &&& mi.2.name_hash.hash == oks[x].2.0
                    &&& mi.2.ops@ == oks[x].2.1
                    &&& mi.2.skipped as int == oks[x].2.2
                },
            forall|x: int|
                0 <= x < failures@.len() ==> (#[trigger] failures@[x]).0 == errs[x],
        decreases roots@.len() - i,
    {
        proof {
            assert(roots@.skip(i as int).drop_first() =~= roots@.skip(i + 1));
            assert(roots@.skip(i as int)[0] == roots@[i as int]);
        }
        let root = roots[i].0;
        let gopt = roots[i].1;
        let ghost nm = maps@.len() as int;
        let ghost nf = failures@.len() as int;
        let ghost okrest = sok_list(ps, gs, reg, roots@.skip(i + 1));
        let ghost errrest = serr_list(ps, gs, reg, roots@.skip(i + 1));
        match load_map(sess, root) {
            Ok(md) => {
                proof {
                    assert(oks.skip(nm)[0] == oks[nm]);
                    assert(okrest =~= oks.skip(nm).skip(1));
                    assert(oks.skip(nm).skip(1) =~= oks.skip(nm + 1));
                }
                maps.push((LocalRef { id: root.id }, gopt, md));
            },
            Err(e) => {
                proof {
                    assert(errs.skip(nf)[0] == errs[nf]);
                    assert(errrest =~= errs.skip(nf).skip(1));
                    assert(errs.skip(nf).skip(1) =~= errs.skip(nf + 1));
                }
                failures.push((root, e));
            },
        }
        i = i + 1;
    }
    proof {
        assert(roots@.skip(i as int).len() == 0);
        assert(oks.skip(maps@.len() as int).len() == 0);
        assert(errs.skip(failures@.len() as int).len() == 0);
    }
    (MapDataList { current_map: 0, maps }, failures)
}

} // verus!
