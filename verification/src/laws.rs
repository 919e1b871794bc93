//! The library's stated laws, proved once and for all.
//!
//! Each proof function here states a property of the engine over the same
//! spec functions that the executable functions' contracts use, so the
//! contracts and the laws meet in the middle: what `load_record`,
//! `decode_record` and `load_map` promise is exactly what these laws are
//! about.

use vstd::prelude::*;
use crate::assemble::{scontainers_ops, serr_list, smap, sok_list, stables_ops};
use crate::bytes::{le32, le64};
use crate::decode::{scons, sdec_fields, sdec_record, sdec_table};
use crate::layout::{spec_dispatch_find, Dispatch, Field, Layout, Registry};
use crate::refs::{spec_local_is_null, RecordRef};
use crate::session::{skey, sload, GlobalEntry, Session};
use crate::value::{vval, SVal};

verus! {

/// Whether a reference is a null sentinel of its flavor.
pub open spec fn sref_is_null(r: RecordRef) -> bool {
    match r {
        RecordRef::Local(l) => spec_local_is_null(l.id),
        RecordRef::Global(g) => g.id == 0,
        RecordRef::Extended(e) => spec_local_is_null(e.id),
    }
}

/// Null-reference short-circuit: a null reference of any flavor resolves
/// to the explicit absent identity, so resolution never reaches the byte
/// source. Together with `Session::load_record`'s contract (which returns
/// `Ok(None)` and leaves the session untouched exactly when `skey` is
/// `Some(None)`), a null reference in any pointer field is absent, never
/// a decode attempt.
pub proof fn lemma_null_reference_short_circuit(gs: Seq<GlobalEntry>, ctx: u16, r: RecordRef)
    requires
        sref_is_null(r),
    ensures
        skey(gs, ctx, r) == Some(None::<(u16, u32)>),
{
}

/// Null-pointer short-circuit in the decoder: a direct pointer field whose
/// stored offset is the zero sentinel decodes to the explicit absent
/// value; the decode goes on behind it rather than failing.
pub proof fn lemma_null_pointer_absent(
    f: bool,
    b: Seq<u8>,
    lays: Seq<Layout>,
    disp: Seq<Dispatch>,
    lid: int,
    start: int,
    cur: int,
    i: int,
)
    requires
        0 <= lid < lays.len(),
        0 <= i < lays[lid].fields.len(),
        lays[lid].fields[i] matches Field::Ptr(el) && (el as int) < lid,
        cur + 8 <= start + lays[lid].size,
        le64(b, cur) == 0,
    ensures
        sdec_fields(f, b, lays, disp, lid, start, cur, i) == scons(
            SVal::Absent,
            sdec_fields(f, b, lays, disp, lid, start, cur + 8, i + 1),
        ),
{
}

/// Polymorphic dispatch totality: a resource pointer whose discriminant is
/// outside the dispatch table decodes to the opaque variant carrying that
/// raw discriminant — never an error, provided only that the discriminant
/// itself could be read. Unmapped format extensions therefore cannot abort
/// a load.
pub proof fn lemma_dispatch_totality(
    b: Seq<u8>,
    lays: Seq<Layout>,
    disp: Seq<Dispatch>,
    lid: int,
    start: int,
    cur: int,
    i: int,
)
    requires
        0 <= lid < lays.len(),
        0 <= i < lays[lid].fields.len(),
        lays[lid].fields[i] is ResPtr,
        cur + 8 <= start + lays[lid].size,
        le64(b, cur) != 0,
        4 <= cur + le64(b, cur) <= b.len(),
        spec_dispatch_find(disp, le32(b, cur + le64(b, cur) - 4)) is None,
    ensures
        sdec_fields(true, b, lays, disp, lid, start, cur, i) == scons(
            SVal::Opaque(le32(b, cur + le64(b, cur) - 4)),
            sdec_fields(true, b, lays, disp, lid, start, cur + 8, i + 1),
        ),
{
}

/// Offset-table correctness: when a table of `n` elements decodes, it
/// yields exactly `n` elements, and element `i` is exactly the record
/// decoded at `pos + i * size` — `pos` being the position of the offset
/// word plus the stored relative offset, regardless of any declared record
/// padding around the field.
pub proof fn lemma_table_elements(
    f: bool,
    b: Seq<u8>,
    lays: Seq<Layout>,
    disp: Seq<Dispatch>,
    el: int,
    pos: int,
    n: int,
)
    requires
        0 <= n,
        0 <= el < lays.len(),
        sdec_table(f, b, lays, disp, el, pos, n) is Some,
    ensures
        ({
            let t = sdec_table(f, b, lays, disp, el, pos, n).unwrap();
            &&& t.len() == n
            &&& forall|i: int|
                0 <= i < n ==> sdec_record(
                    f,
                    b,
                    lays,
                    disp,
                    el,
                    pos + i * lays[el].size,
                ) == Some(#[trigger] t[i])
        }),
    decreases n,
{
    if n > 0 {
        let sz = lays[el].size as int;
        lemma_table_elements(f, b, lays, disp, el, pos + sz, n - 1);
        let t = sdec_table(f, b, lays, disp, el, pos, n).unwrap();
        let rest = sdec_table(f, b, lays, disp, el, pos + sz, n - 1).unwrap();
        assert forall|i: int| 0 <= i < n implies sdec_record(
            f,
            b,
            lays,
            disp,
            el,
            pos + i * sz,
        ) == Some(#[trigger] t[i]) by {
            if i == 0 {
                assert(pos + 0 * sz == pos) by (nonlinear_arith);
            } else {
                assert(t[i] == rest[i - 1]);
                assert((pos + sz) + (i - 1) * sz == pos + i * sz) by (nonlinear_arith);
            }
        }
    }
}

/// Idempotent resolution: every cached identity of a well-formed session
/// was decoded exactly once, and holds exactly the decode of its buffer.
/// Together with `Session::load_record`'s contract — a hit returns the
/// cached record and leaves the session unchanged, and every successful
/// load returns exactly `sload` of the identity — resolving the same
/// identity twice in one session returns structurally identical records
/// while the decode count for that identity stays at exactly one.
pub proof fn lemma_idempotent_resolution(s: Session, j: int)
    requires
        s.wf(),
        0 <= j < s.cache@.len(),
    ensures
        s.cache@[j].decodes == 1,
        sload(s.packages@, s.registry, s.cache@[j].pkg, s.cache@[j].id, s.cache@[j].lid as int)
            == Some(vval(s.cache@[j].value)),
{
}

/// Deterministic assembly order across data tables: the insertions of a
/// table list split as the insertions of its first part followed by those
/// of the rest, so ops always come in source order, never resorted.
pub proof fn lemma_tables_order(
    ps: Seq<crate::session::PackageEntry>,
    reg: Registry,
    pkg: u16,
    t1: Seq<SVal>,
    t2: Seq<SVal>,
    stride: int,
)
    ensures
        stables_ops(ps, reg, pkg, t1.add(t2), stride).0 == stables_ops(
            ps,
            reg,
            pkg,
            t1,
            stride,
        ).0.add(stables_ops(ps, reg, pkg, t2, stride).0),
    decreases t1.len(),
{
    if t1.len() == 0 {
        assert(t1.add(t2) =~= t2);
        assert(stables_ops(ps, reg, pkg, t1, stride).0.add(
            stables_ops(ps, reg, pkg, t2, stride).0,
        ) =~= stables_ops(ps, reg, pkg, t2, stride).0);
    } else {
        lemma_tables_order(ps, reg, pkg, t1.drop_first(), t2, stride);
        assert(t1.add(t2).drop_first() =~= t1.drop_first().add(t2));
        assert(t1.add(t2)[0] == t1[0]);
        assert(stables_ops(ps, reg, pkg, t1.add(t2), stride).0 =~= stables_ops(
            ps,
            reg,
            pkg,
            t1,
            stride,
        ).0.add(stables_ops(ps, reg, pkg, t2, stride).0));
    }
}

/// Deterministic assembly order across containers: when every container of
/// both parts assembles, the insertions of the concatenation are the
/// insertions of the first part followed by those of the second, each in
/// its own order. With `lemma_tables_order` this pins the batch order of
/// `load_map`: container by container in definition order, table by table
/// in container order, entries in table order.
pub proof fn lemma_containers_order(
    ps: Seq<crate::session::PackageEntry>,
    gs: Seq<GlobalEntry>,
    reg: Registry,
    defpkg: u16,
    e1: Seq<SVal>,
    e2: Seq<SVal>,
    stride: int,
)
    requires
        scontainers_ops(ps, gs, reg, defpkg, e1, stride) is Some,
        scontainers_ops(ps, gs, reg, defpkg, e2, stride) is Some,
    ensures
        scontainers_ops(ps, gs, reg, defpkg, e1.add(e2), stride) matches Some(t) && t.0
            == scontainers_ops(ps, gs, reg, defpkg, e1, stride).unwrap().0.add(
            scontainers_ops(ps, gs, reg, defpkg, e2, stride).unwrap().0,
        ),
    decreases e1.len(),
{
    if e1.len() == 0 {
        assert(e1.add(e2) =~= e2);
        assert(scontainers_ops(ps, gs, reg, defpkg, e1, stride).unwrap().0.add(
            scontainers_ops(ps, gs, reg, defpkg, e2, stride).unwrap().0,
        ) =~= scontainers_ops(ps, gs, reg, defpkg, e2, stride).unwrap().0);
    } else {
        assert(e1.add(e2).drop_first() =~= e1.drop_first().add(e2));
        assert(e1.add(e2)[0] == e1[0]);
        lemma_containers_order(ps, gs, reg, defpkg, e1.drop_first(), e2, stride);
        let h1 = scontainers_ops(ps, gs, reg, defpkg, e1, stride).unwrap();
        let h12 = scontainers_ops(ps, gs, reg, defpkg, e1.add(e2), stride).unwrap();
        let h2 = scontainers_ops(ps, gs, reg, defpkg, e2, stride).unwrap();
        assert(h12.0 =~= h1.0.add(h2.0));
    }
}

/// Partial-failure isolation: in a session loading two maps where the
/// second's spine is unresolvable, the first still assembles (and is the
/// only assembled map) while the second is the one recorded failure.
pub proof fn lemma_partial_failure_isolation(
    ps: Seq<crate::session::PackageEntry>,
    gs: Seq<GlobalEntry>,
    reg: Registry,
    r1: (crate::refs::ExtendedRef, Option<crate::refs::GlobalRef>),
    r2: (crate::refs::ExtendedRef, Option<crate::refs::GlobalRef>),
)
    requires
        smap(ps, gs, reg, r1.0) is Some,
        smap(ps, gs, reg, r2.0) is None,
    ensures
        sok_list(ps, gs, reg, seq![r1, r2]) == seq![
            (r1.0, r1.1, smap(ps, gs, reg, r1.0).unwrap()),
        ],
        serr_list(ps, gs, reg, seq![r1, r2]) == seq![r2.0],
{
    let rs = seq![r1, r2];
    let none_roots = Seq::<(crate::refs::ExtendedRef, Option<crate::refs::GlobalRef>)>::empty();
    assert(rs.drop_first() =~= seq![r2]);
    assert(seq![r2].drop_first() =~= none_roots);
    assert(seq![r2][0] == r2);
    assert(rs[0] == r1);
    assert(sok_list(ps, gs, reg, none_roots).len() == 0);
    assert(serr_list(ps, gs, reg, none_roots).len() == 0);
    assert(sok_list(ps, gs, reg, seq![r2]).len() == 0);
    assert(sok_list(ps, gs, reg, rs) =~= seq![(r1.0, r1.1, smap(ps, gs, reg, r1.0).unwrap())]);
    assert(serr_list(ps, gs, reg, seq![r2]) =~= seq![r2.0]);
    assert(serr_list(ps, gs, reg, rs) =~= seq![r2.0]);
}

} // verus!
