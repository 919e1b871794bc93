//! The schema-driven record decoder.
//!
//! `decode_record` reads a record of a given layout out of a byte buffer:
//! scalars in field order, explicit offset directives, inline nested records,
//! variable-length tables stored as (count, relative offset), direct
//! pointers with a zero null sentinel, and polymorphic resource pointers
//! dispatched on the discriminant stored immediately before their target.
//!
//! The spec functions `sdec_record` / `sdec_fields` / `sdec_table` define
//! the decode mathematically; the executable decoder is proved to return
//! `Ok` exactly when the spec decode is defined, and then to return exactly
//! the spec value. Reading past the declared record size, a table or pointer
//! target outside the buffer, or a layout reference that is not strictly
//! earlier in the registry is a decode error, never undefined behavior. A
//! resource discriminant outside the dispatch table decodes to
//! [`Value::Opaque`], never an error.
//!
//! Termination: layouts may only refer to strictly smaller layout
//! identifiers, which the decoder checks dynamically, and a resource payload
//! may not itself contain a resource pointer (the dispatch table of the
//! built-in schema respects this; the decoder refuses a nested resource
//! pointer).

use vstd::prelude::*;
use crate::bytes::{le16, le32, le64, read_u16, read_u32, read_u64, read_u8};
use crate::layout::{dispatch_find, spec_dispatch_find, Dispatch, Field, Layout, Registry};
use crate::value::{vval, vvals, SVal, Value};

verus! {

/// A malformed or truncated record relative to its declared layout.
#[derive(Clone, Copy, Debug, PartialEq, Eq, Structural)]
pub struct DecodeError {
    /// The byte position at which decoding failed (diagnostic only).
    pub at: usize,
}

/// Measure component for the resource-pointer nesting flag.
pub open spec fn flagv(f: bool) -> int {
    if f {
        1
    } else {
        0
    }
}

/// Prepends a value to a decoded field list, propagating failure.
pub open spec fn scons(x: SVal, rest: Option<Seq<SVal>>) -> Option<Seq<SVal>> {
    match rest {
        Some(r) => Some(seq![x].add(r)),
        None => None,
    }
}

/// The record of layout `lid` decoded from `b` at `start`, or `None` on a
/// decode error. `f` tells whether resource pointers may still be followed.
pub open spec fn sdec_record(
    f: bool,
    b: Seq<u8>,
    lays: Seq<Layout>,
    disp: Seq<Dispatch>,
    lid: int,
    start: int,
) -> Option<SVal>
    decreases flagv(f), lid, 2int, 0int,
{
    if !(0 <= lid < lays.len()) {
        None
    } else if lays[lid].size < 1 {
        None
    } else if !(0 <= start && start + lays[lid].size <= b.len()) {
        None
    } else {
        match sdec_fields(f, b, lays, disp, lid, start, start, 0) {
            Some(fs) => Some(SVal::Record(fs)),
            None => None,
        }
    }
}

/// The field values of layout `lid` from field index `i` on, with the read
/// cursor at `cur` and the record starting at `start`.
pub open spec fn sdec_fields(
    f: bool,
    b: Seq<u8>,
    lays: Seq<Layout>,
    disp: Seq<Dispatch>,
    lid: int,
    start: int,
    cur: int,
    i: int,
) -> Option<Seq<SVal>>
    decreases
        flagv(f),
        lid,
        1int,
        (if 0 <= lid < lays.len() {
            lays[lid].fields.len() - i
        } else {
            0int
        }),
{
    if !(0 <= lid < lays.len()) {
        None
    } else if !(0 <= i <= lays[lid].fields.len()) {
        None
    } else if i == lays[lid].fields.len() {
        Some(Seq::empty())
    } else {
        let end = start + lays[lid].size;
        match lays[lid].fields[i] {
            Field::U8 => if cur + 1 <= end {
                scons(
                    SVal::U8(b[cur]),
                    sdec_fields(f, b, lays, disp, lid, start, cur + 1, i + 1),
                )
            } else {
                None
            },
            Field::U16 => if cur + 2 <= end {
                scons(
                    SVal::U16(le16(b, cur)),
                    sdec_fields(f, b, lays, disp, lid, start, cur + 2, i + 1),
                )
            } else {
                None
            },
            Field::U32 => if cur + 4 <= end {
                scons(
                    SVal::U32(le32(b, cur)),
                    sdec_fields(f, b, lays, disp, lid, start, cur + 4, i + 1),
                )
            } else {
                None
            },
            Field::U64 => if cur + 8 <= end {
                scons(
                    SVal::U64(le64(b, cur)),
                    sdec_fields(f, b, lays, disp, lid, start, cur + 8, i + 1),
                )
            } else {
                None
            },
            Field::Nested(el) => if el < lid && 0 <= el < lays.len() && cur + lays[el as int].size
                <= end {
                match sdec_record(f, b, lays, disp, el as int, cur) {
                    Some(rec) => scons(
                        rec,
                        sdec_fields(
                            f,
                            b,
                            lays,
                            disp,
                            lid,
                            start,
                            cur + lays[el as int].size,
                            i + 1,
                        ),
                    ),
                    None => None,
                }
            } else {
                None
            },
            Field::Table(el) => if el < lid && cur + 16 <= end {
                let count = le64(b, cur);
                let rel = le64(b, cur + 8);
                match sdec_table(f, b, lays, disp, el as int, cur + 8 + rel, count as int) {
                    Some(es) => scons(
                        SVal::Table(es),
                        sdec_fields(f, b, lays, disp, lid, start, cur + 16, i + 1),
                    ),
                    None => None,
                }
            } else {
                None
            },
            Field::Ptr(el) => if el < lid && cur + 8 <= end {
                let rel = le64(b, cur);
                if rel == 0 {
                    scons(
                        SVal::Absent,
                        sdec_fields(f, b, lays, disp, lid, start, cur + 8, i + 1),
                    )
                } else {
                    match sdec_record(f, b, lays, disp, el as int, cur + rel) {
                        Some(rec) => scons(
                            rec,
                            sdec_fields(f, b, lays, disp, lid, start, cur + 8, i + 1),
                        ),
                        None => None,
                    }
                }
            } else {
                None
            },
            Field::ResPtr => if f && cur + 8 <= end {
                let rel = le64(b, cur);
                if rel == 0 {
                    scons(
                        SVal::Absent,
                        sdec_fields(f, b, lays, disp, lid, start, cur + 8, i + 1),
                    )
                } else {
                    let target = cur + rel;
                    if 4 <= target && target <= b.len() {
                        let disc = le32(b, target - 4);
                        match spec_dispatch_find(disp, disc) {
                            None => scons(
                                SVal::Opaque(disc),
                                sdec_fields(f, b, lays, disp, lid, start, cur + 8, i + 1),
                            ),
                            Some(dl) => match sdec_record(
                                false,
                                b,
                                lays,
                                disp,
                                dl as int,
                                target,
                            ) {
                                Some(SVal::Record(pfs)) => scons(
                                    SVal::Resource(disc, pfs),
                                    sdec_fields(f, b, lays, disp, lid, start, cur + 8, i + 1),
                                ),
                                _ => None,
                            },
                        }
                    } else {
                        None
                    }
                }
            } else {
                None
            },
            Field::SeekTo(o) => if o <= lays[lid].size {
                sdec_fields(f, b, lays, disp, lid, start, start + o, i + 1)
            } else {
                None
            },
            Field::Skip(n) => if cur + n <= end {
                sdec_fields(f, b, lays, disp, lid, start, cur + n, i + 1)
            } else {
                None
            },
        }
    }
}

/// `n` consecutive records of layout `el`, starting at `pos`, one element
/// every `lays[el].size` bytes.
pub open spec fn sdec_table(
    f: bool,
    b: Seq<u8>,
    lays: Seq<Layout>,
    disp: Seq<Dispatch>,
    el: int,
    pos: int,
    n: int,
) -> Option<Seq<SVal>>
    decreases flagv(f), el, 3int, n,
{
    if n <= 0 {
        Some(Seq::empty())
    } else if !(0 <= el < lays.len()) {
        None
    } else {
        match sdec_record(f, b, lays, disp, el, pos) {
            None => None,
            Some(r) => match sdec_table(
                f,
                b,
                lays,
                disp,
                el,
                pos + lays[el].size,
                n - 1,
            ) {
                None => None,
                Some(rest) => Some(seq![r].add(rest)),
            },
        }
    }
}

/// `vvals` distributes over concatenation.
pub proof fn lemma_vvals_add(s1: Seq<Value>, s2: Seq<Value>)
    ensures
        vvals(s1.add(s2)) == vvals(s1).add(vvals(s2)),
    decreases s1.len(),
{
    if s1.len() == 0 {
        assert(s1.add(s2) =~= s2);
        assert(vvals(s1).add(vvals(s2)) =~= vvals(s2));
    } else {
        lemma_vvals_add(s1.drop_first(), s2);
        assert(s1.add(s2).drop_first() =~= s1.drop_first().add(s2));
        assert(s1.add(s2)[0] == s1[0]);
        assert(vvals(s1.add(s2)) =~= vvals(s1).add(vvals(s2)));
    }
}

/// Prepends `x` to `rest`, matching `scons` on views.
fn cons_value(x: Value, rest: Vec<Value>) -> (out: Vec<Value>)
    ensures
        vvals(out@) == seq![vval(x)].add(vvals(rest@)),
{
    let ghost gx = x;
    let ghost grest = rest@;
    let mut out = rest;
    out.insert(0, x);
    proof {
        assert(out@ =~= seq![gx].add(grest));
        lemma_vvals_add(seq![gx], grest);
        assert(seq![gx].drop_first() =~= Seq::<Value>::empty());
        assert(vvals(Seq::<Value>::empty()) =~= Seq::<SVal>::empty());
        assert(seq![gx][0] == gx);
        assert(vvals(seq![gx]) =~= seq![vval(gx)]);
    }
    out
}

/// Decodes the record of layout `lid` at `start`; resource pointers are
/// followed if `f` is set.
fn dec_record(
    f: bool,
    b: &[u8],
    reg: &Registry,
    lid: usize,
    start: usize,
) -> (r: Result<Value, DecodeError>)
    ensures
        r is Ok <==> sdec_record(f, b@, reg.layouts@, reg.dispatch@, lid as int, start as int)
            is Some,
        r matches Ok(v) ==> Some(vval(v)) == sdec_record(
            f,
            b@,
            reg.layouts@,
            reg.dispatch@,
            lid as int,
            start as int,
        ),
    decreases flagv(f), lid as int, 2int, 0int,
{
    if lid >= reg.layouts.len() {
        return Err(DecodeError { at: start });
    }
    let sz = reg.layouts[lid].size;
    if sz < 1 {
        return Err(DecodeError { at: start });
    }
    if !(start <= b.len() && sz <= b.len() - start) {
        return Err(DecodeError { at: start });
    }
    match dec_fields(f, b, reg, lid, start, start, 0) {
        Ok(fs) => Ok(Value::Record(fs)),
        Err(e) => Err(e),
    }
}

/// Decodes the fields of layout `lid` from field index `i` on.
fn dec_fields(
    f: bool,
    b: &[u8],
    reg: &Registry,
    lid: usize,
    start: usize,
    cur: usize,
    i: usize,
) -> (r: Result<Vec<Value>, DecodeError>)
    requires
        lid < reg.layouts@.len(),
        start + reg.layouts@[lid as int].size <= b@.len(),
        start <= cur <= b@.len(),
        i <= reg.layouts@[lid as int].fields@.len(),
    ensures
        r is Ok <==> sdec_fields(
            f,
            b@,
            reg.layouts@,
            reg.dispatch@,
            lid as int,
            start as int,
            cur as int,
            i as int,
        ) is Some,
        r matches Ok(vs) ==> Some(vvals(vs@)) == sdec_fields(
            f,
            b@,
            reg.layouts@,
            reg.dispatch@,
            lid as int,
            start as int,
            cur as int,
            i as int,
        ),
    decreases flagv(f), lid as int, 1int, reg.layouts@[lid as int].fields@.len() - i,
{
    let blen = b.len();
    let lay = &reg.layouts[lid];
    let nfields = lay.fields.len();
    if i == nfields {
        let out: Vec<Value> = Vec::new();
        assert(vvals(out@) =~= Seq::<SVal>::empty());
        return Ok(out);
    }
    assert(start + lay.size <= blen);
    let end = start + lay.size;
    let fld = lay.fields[i];
    match fld {
        Field::U8 => {
            if !(cur < end && end - cur >= 1) {
                return Err(DecodeError { at: cur });
            }
            let x = read_u8(b, cur);
            let rest = dec_fields(f, b, reg, lid, start, cur + 1, i + 1)?;
            Ok(cons_value(Value::U8(x), rest))
        },
        Field::U16 => {
            if !(cur <= end && end - cur >= 2) {
                return Err(DecodeError { at: cur });
            }
            let x = read_u16(b, cur);
            let rest = dec_fields(f, b, reg, lid, start, cur + 2, i + 1)?;
            Ok(cons_value(Value::U16(x), rest))
        },
        Field::U32 => {
            if !(cur <= end && end - cur >= 4) {
                return Err(DecodeError { at: cur });
            }
            let x = read_u32(b, cur);
            let rest = dec_fields(f, b, reg, lid, start, cur + 4, i + 1)?;
            Ok(cons_value(Value::U32(x), rest))
        },
        Field::U64 => {
            if !(cur <= end && end - cur >= 8) {
                return Err(DecodeError { at: cur });
            }
            let x = read_u64(b, cur);
            let rest = dec_fields(f, b, reg, lid, start, cur + 8, i + 1)?;
            Ok(cons_value(Value::U64(x), rest))
        },
        Field::Nested(el) => {
            if !(el < lid && el < reg.layouts.len()) {
                return Err(DecodeError { at: cur });
            }
            let elsz = reg.layouts[el].size;
            if !(cur <= end && end - cur >= elsz) {
                return Err(DecodeError { at: cur });
            }
            let rec = dec_record(f, b, reg, el, cur)?;
            let rest = dec_fields(f, b, reg, lid, start, cur + elsz, i + 1)?;
            Ok(cons_value(rec, rest))
        },
        Field::Table(el) => {
            if !(el < lid && cur <= end && end - cur >= 16) {
                return Err(DecodeError { at: cur });
            }
            let count = read_u64(b, cur);
            let rel = read_u64(b, cur + 8);
            let es = dec_table_at(f, b, reg, el, cur + 8, rel, count)?;
            let rest = dec_fields(f, b, reg, lid, start, cur + 16, i + 1)?;
            Ok(cons_value(Value::Table(es), rest))
        },
        Field::Ptr(el) => {
            if !(el < lid && cur <= end && end - cur >= 8) {
                return Err(DecodeError { at: cur });
            }
            let rel = read_u64(b, cur);
            if rel == 0 {
                let rest = dec_fields(f, b, reg, lid, start, cur + 8, i + 1)?;
                Ok(cons_value(Value::Absent, rest))
            } else {
                let rec = dec_record_at(f, b, reg, el, cur, rel)?;
                let rest = dec_fields(f, b, reg, lid, start, cur + 8, i + 1)?;
                Ok(cons_value(rec, rest))
            }
        },
        Field::ResPtr => {
            if !(f && cur <= end && end - cur >= 8) {
                return Err(DecodeError { at: cur });
            }
            let rel = read_u64(b, cur);
            if rel == 0 {
                let rest = dec_fields(f, b, reg, lid, start, cur + 8, i + 1)?;
                Ok(cons_value(Value::Absent, rest))
            } else {
                let len64 = b.len() as u64;
                if !(rel <= len64 - (cur as u64)) {
                    assert(cur + rel > b@.len());
                    return Err(DecodeError { at: cur });
                }
                let target = cur + (rel as usize);
                if target < 4 {
                    return Err(DecodeError { at: cur });
                }
                let disc = read_u32(b, target - 4);
                match dispatch_find(&reg.dispatch, disc) {
                    None => {
                        let rest = dec_fields(f, b, reg, lid, start, cur + 8, i + 1)?;
                        Ok(cons_value(Value::Opaque(disc), rest))
                    },
                    Some(dl) => {
                        let rec = dec_record(false, b, reg, dl, target)?;
                        match rec {
                            Value::Record(pfs) => {
                                let rest = dec_fields(f, b, reg, lid, start, cur + 8, i + 1)?;
                                Ok(cons_value(Value::Resource(disc, pfs), rest))
                            },
                            _ => Err(DecodeError { at: target }),
                        }
                    },
                }
            }
        },
        Field::SeekTo(o) => {
            if !(o <= lay.size) {
                return Err(DecodeError { at: cur });
            }
            dec_fields(f, b, reg, lid, start, start + o, i + 1)
        },
        Field::Skip(n) => {
            if !(cur <= end && end - cur >= n) {
                return Err(DecodeError { at: cur });
            }
            dec_fields(f, b, reg, lid, start, cur + n, i + 1)
        },
    }
}

/// Decodes a pointed-to record at `base + rel` where `rel != 0`, checking
/// that the target lies inside the buffer.
fn dec_record_at(
    f: bool,
    b: &[u8],
    reg: &Registry,
    el: usize,
    base: usize,
    rel: u64,
) -> (r: Result<Value, DecodeError>)
    requires
        base <= b@.len(),
    ensures
        r is Ok <==> sdec_record(
            f,
            b@,
            reg.layouts@,
            reg.dispatch@,
            el as int,
            base + rel,
        ) is Some,
        r matches Ok(v) ==> Some(vval(v)) == sdec_record(
            f,
            b@,
            reg.layouts@,
            reg.dispatch@,
            el as int,
            base + rel,
        ),
    decreases flagv(f), el as int, 2int, 1int,
{
    let len64 = b.len() as u64;
    if rel > len64 - (base as u64) {
        proof {
            let lays = reg.layouts@;
            let t = base + rel;
            if 0 <= (el as int) < lays.len() && lays[el as int].size >= 1 {
                assert(t + lays[el as int].size > b@.len());
            }
        }
        return Err(DecodeError { at: base });
    }
    let target = base + (rel as usize);
    dec_record(f, b, reg, el, target)
}

/// Decodes the elements of a table whose (count, offset) pair has its offset
/// word at `opos`; the table starts at `opos + rel`.
fn dec_table_at(
    f: bool,
    b: &[u8],
    reg: &Registry,
    el: usize,
    opos: usize,
    rel: u64,
    count: u64,
) -> (r: Result<Vec<Value>, DecodeError>)
    requires
        opos <= b@.len(),
    ensures
        r is Ok <==> sdec_table(
            f,
            b@,
            reg.layouts@,
            reg.dispatch@,
            el as int,
            opos + rel,
            count as int,
        ) is Some,
        r matches Ok(vs) ==> Some(vvals(vs@)) == sdec_table(
            f,
            b@,
            reg.layouts@,
            reg.dispatch@,
            el as int,
            opos + rel,
            count as int,
        ),
    decreases flagv(f), el as int, 3int, count as int + 1,
{
    if count == 0 {
        let out: Vec<Value> = Vec::new();
        assert(vvals(out@) =~= Seq::<SVal>::empty());
        return Ok(out);
    }
    if el >= reg.layouts.len() {
        return Err(DecodeError { at: opos });
    }
    let len64 = b.len() as u64;
    if rel > len64 - (opos as u64) {
        proof {
            assert(opos + rel > b@.len());
            assert(sdec_record(
                f,
                b@,
                reg.layouts@,
                reg.dispatch@,
                el as int,
                opos + rel,
            ) is None);
        }
        return Err(DecodeError { at: opos });
    }
    let pos = opos + (rel as usize);
    dec_table(f, b, reg, el, pos, count)
}

/// Decodes `n` consecutive records of layout `el` starting at `pos`.
fn dec_table(
    f: bool,
    b: &[u8],
    reg: &Registry,
    el: usize,
    pos: usize,
    n: u64,
) -> (r: Result<Vec<Value>, DecodeError>)
    requires
        el < reg.layouts@.len(),
        pos <= b@.len(),
    ensures
        r is Ok <==> sdec_table(
            f,
            b@,
            reg.layouts@,
            reg.dispatch@,
            el as int,
            pos as int,
            n as int,
        ) is Some,
        r matches Ok(vs) ==> Some(vvals(vs@)) == sdec_table(
            f,
            b@,
            reg.layouts@,
            reg.dispatch@,
            el as int,
            pos as int,
            n as int,
        ),
    decreases flagv(f), el as int, 3int, n as int,
{
    if n == 0 {
        let out: Vec<Value> = Vec::new();
        assert(vvals(out@) =~= Seq::<SVal>::empty());
        return Ok(out);
    }
    let rec = dec_record(f, b, reg, el, pos)?;
    let elsz = reg.layouts[el].size;
    let blen = b.len();
    proof {
        let srec = sdec_record(f, b@, reg.layouts@, reg.dispatch@, el as int, pos as int);
        assert(srec is Some);
        assert(pos + elsz <= blen);
    }
    let rest = dec_table(f, b, reg, el, pos + elsz, n - 1)?;
    let out = cons_value(rec, rest);
    Ok(out)
}

/// Decodes the record of layout `lid` stored at `start` in `b`, against the
/// layouts and dispatch table of `reg`.
///
/// Succeeds exactly when the mathematical decode `sdec_record` is defined,
/// and then returns exactly its value.
pub fn decode_record(b: &[u8], reg: &Registry, lid: usize, start: usize) -> (r: Result<
    Value,
    DecodeError,
>)
    ensures
        r is Ok <==> sdec_record(
            true,
            b@,
            reg.layouts@,
            reg.dispatch@,
            lid as int,
            start as int,
        ) is Some,
        r matches Ok(v) ==> Some(vval(v)) == sdec_record(
            true,
            b@,
            reg.layouts@,
            reg.dispatch@,
            lid as int,
            start as int,
        ),
{
    dec_record(true, b, reg, lid, start)
}

} // verus!
