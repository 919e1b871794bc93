//! The package resolver: reference resolution plus the per-session decode
//! cache.
//!
//! A [`Session`] owns the state of one load session: the package buffers the
//! caller has supplied, the global reference index, the layout registry, and
//! a cache of already-decoded records. [`Session::load_record`] guarantees
//! at-most-one decode per resolved identity per session: repeated requests
//! for the same identity return the cached record, structurally identical to
//! the first result, and the recorded decode count for that identity stays
//! at exactly one. Null references resolve to an explicit absent result and
//! touch nothing.
//!
//! A resolved identity is the triple (owning package, local identifier,
//! layout); in this format a record's identity determines its type, so the
//! layout component only guards against inconsistent use.

use vstd::prelude::*;
use crate::decode::{decode_record, sdec_record, DecodeError};
use crate::layout::Registry;
use crate::refs::{spec_local_is_null, RecordRef};
use crate::value::{vval, SVal, Value};

verus! {

/// A load failure.
#[derive(Clone, Copy, Debug, PartialEq, Eq, Structural)]
pub enum LoadError {
    /// The byte source has no buffer for the resolved package identity.
    PackageUnavailable,
    /// The global reference index has no entry for a global identifier.
    UnknownGlobalReference,
    /// An extended reference names a package that is not loaded.
    PackageNotLoaded,
    /// A record was malformed relative to its declared layout.
    Decode(DecodeError),
    /// A reference on the required root-definition-container spine was a
    /// null sentinel.
    RequiredAbsent,
}

/// One package buffer supplied by the byte source.
#[derive(Debug)]
pub struct PackageEntry {
    /// The owning package identifier.
    pub pkg: u16,
    /// The local identifier of the record this buffer holds.
    pub id: u32,
    /// The raw bytes.
    pub bytes: Vec<u8>,
}

/// One row of the global reference index.
#[derive(Clone, Copy, Debug, PartialEq, Eq, Structural)]
pub struct GlobalEntry {
    /// The global identifier.
    pub global: u64,
    /// The owning package it maps to.
    pub pkg: u16,
    /// The local identifier it maps to.
    pub id: u32,
}

/// One cached decode.
#[derive(Debug)]
pub struct CacheEntry {
    /// Owning package of the cached record.
    pub pkg: u16,
    /// Local identifier of the cached record.
    pub id: u32,
    /// Layout the record was decoded with.
    pub lid: usize,
    /// The decoded record.
    pub value: Value,
    /// How many times this identity was decoded; always exactly one.
    pub decodes: u64,
}

/// The buffer the byte source supplies for `(pkg, id)`: the first matching
/// entry wins.
pub open spec fn slookup_pkg(ps: Seq<PackageEntry>, pkg: u16, id: u32) -> Option<Seq<u8>>
    decreases ps.len(),
{
    if ps.len() == 0 {
        None
    } else if ps[0].pkg == pkg && ps[0].id == id {
        Some(ps[0].bytes@)
    } else {
        slookup_pkg(ps.drop_first(), pkg, id)
    }
}

/// The (package, local) pair the global index maps `g` to, if any.
pub open spec fn slookup_global(gs: Seq<GlobalEntry>, g: u64) -> Option<(u16, u32)>
    decreases gs.len(),
{
    if gs.len() == 0 {
        None
    } else if gs[0].global == g {
        Some((gs[0].pkg, gs[0].id))
    } else {
        slookup_global(gs.drop_first(), g)
    }
}

/// The resolved identity of a reference: `None` means the global index has
/// no entry; `Some(None)` means the reference is null (absent);
/// `Some(Some(key))` is the owning package and local identifier.
pub open spec fn skey(gs: Seq<GlobalEntry>, ctx: u16, r: RecordRef) -> Option<
    Option<(u16, u32)>,
> {
    match r {
        RecordRef::Local(l) => if spec_local_is_null(l.id) {
            Some(None)
        } else {
            Some(Some((ctx, l.id)))
        },
        RecordRef::Global(g) => if g.id == 0 {
            Some(None)
        } else {
            match slookup_global(gs, g.id) {
                None => None,
                Some(k) => if spec_local_is_null(k.1) {
                    Some(None)
                } else {
                    Some(Some(k))
                },
            }
        },
        RecordRef::Extended(e) => if spec_local_is_null(e.id) {
            Some(None)
        } else {
            Some(Some((e.pkg, e.id)))
        },
    }
}

/// The error reported when the resolved package buffer is missing: an
/// extended reference named a package that is not loaded, anything else
/// means the byte source failed.
pub open spec fn smissing_err(r: RecordRef) -> LoadError {
    match r {
        RecordRef::Extended(_) => LoadError::PackageNotLoaded,
        _ => LoadError::PackageUnavailable,
    }
}

/// The record identity `(pkg, id, lid)` decoded from its buffer, as the
/// resolver decodes it: layout `lid` at offset zero.
pub open spec fn sload(
    ps: Seq<PackageEntry>,
    reg: Registry,
    pkg: u16,
    id: u32,
    lid: int,
) -> Option<SVal> {
    match slookup_pkg(ps, pkg, id) {
        None => None,
        Some(bytes) => sdec_record(true, bytes, reg.layouts@, reg.dispatch@, lid, 0),
    }
}

/// Whether the cache holds an entry for `(pkg, id, lid)`.
pub open spec fn scache_has(cs: Seq<CacheEntry>, pkg: u16, id: u32, lid: usize) -> bool {
    exists|j: int|
        0 <= j < cs.len() && (#[trigger] cs[j]).pkg == pkg && cs[j].id == id && cs[j].lid == lid
}

/// One load session: byte source contents, global index, layout registry,
/// and the decode cache.
#[derive(Debug)]
pub struct Session {
    /// The package buffers supplied by the byte source.
    pub packages: Vec<PackageEntry>,
    /// The global reference index.
    pub globals: Vec<GlobalEntry>,
    /// The layouts and the resource dispatch table.
    pub registry: Registry,
    /// Records decoded so far this session.
    pub cache: Vec<CacheEntry>,
}

impl Session {
    /// Session well-formedness: every cached record is exactly the decode of
    /// its identity's buffer, was decoded exactly once, and identities are
    /// cached at most once.
    pub open spec fn wf(self) -> bool {
        &&& forall|j: int|
            0 <= j < self.cache@.len() ==> {
                let e = #[trigger] self.cache@[j];
                &&& e.decodes == 1
                &&& sload(self.packages@, self.registry, e.pkg, e.id, e.lid as int) == Some(
                    vval(e.value),
                )
            }
        &&& forall|j1: int, j2: int|
            0 <= j1 < j2 < self.cache@.len() ==> !((#[trigger] self.cache@[j1]).pkg
                == (#[trigger] self.cache@[j2]).pkg && self.cache@[j1].id == self.cache@[j2].id
                && self.cache@[j1].lid == self.cache@[j2].lid)
    }

    /// Starts a session over the given byte source contents, global index
    /// and registry, with an empty cache.
    pub fn new(packages: Vec<PackageEntry>, globals: Vec<GlobalEntry>, registry: Registry) -> (s:
        Session)
        ensures
            s.wf(),
            s.packages == packages,
            s.globals == globals,
            s.registry == registry,
            s.cache@.len() == 0,
    {
        Session { packages, globals, registry, cache: Vec::new() }
    }

    /// Ends the current load session and begins an independent one: the
    /// cache is dropped, so nothing stale survives a package reload.
    pub fn reset(&mut self)
        ensures
            final(self).wf(),
            final(self).packages == old(self).packages,
            final(self).globals == old(self).globals,
            final(self).registry == old(self).registry,
            final(self).cache@.len() == 0,
    {
        self.cache.clear();
    }

    /// How many times the identity `(pkg, id, lid)` has been decoded this
    /// session: one if it is cached, zero otherwise.
    pub fn decode_count(&self, pkg: u16, id: u32, lid: usize) -> (n: u64)
        requires
            self.wf(),
        ensures
            n == (if scache_has(self.cache@, pkg, id, lid) {
                1u64
            } else {
                0u64
            }),
    {
        match cache_find(&self.cache, pkg, id, lid) {
            Some(ix) => self.cache[ix].decodes,
            None => 0,
        }
    }

    /// Looks a global identifier up in the session's global reference index.
    pub fn lookup_global(&self, g: u64) -> (r: Option<(u16, u32)>)
        ensures
            r == slookup_global(self.globals@, g),
    {
        global_find(&self.globals, g)
    }

    /// Borrows the package buffer for `(pkg, id)`, if the byte source
    /// supplied one.
    pub fn package_bytes(&self, pkg: u16, id: u32) -> (r: Option<&Vec<u8>>)
        ensures
            r is Some <==> slookup_pkg(self.packages@, pkg, id) is Some,
            r matches Some(b) ==> slookup_pkg(self.packages@, pkg, id) == Some(b@),
    {
        match pkg_find(&self.packages, pkg, id) {
            Some(ix) => Some(&self.packages[ix].bytes),
            None => None,
        }
    }

    /// Resolves `r` in the context of package `ctx` and loads the record of
    /// layout `lid` it names.
    ///
    /// - A null reference returns `Ok(None)` and touches nothing: the byte
    ///   source is never consulted (the session is left exactly as it was).
    /// - Otherwise the result is determined by the session's packages and
    ///   registry alone: `Ok(Some(v))` exactly when `sload` succeeds, with
    ///   `v` its value; the cache only avoids repeated decodes.
    /// - At most one decode per identity: a cache hit leaves the session
    ///   unchanged; a miss appends the one new entry, with a decode count
    ///   of one.
    pub fn load_record(&mut self, ctx: u16, r: &RecordRef, lid: usize) -> (res: Result<
        Option<Value>,
        LoadError,
    >)
        requires
            old(self).wf(),
        ensures
            final(self).wf(),
            final(self).packages == old(self).packages,
            final(self).globals == old(self).globals,
            final(self).registry == old(self).registry,
            match skey(old(self).globals@, ctx, *r) {
                Some(None) => (res matches Ok(o) && o is None) && final(self).cache@
                    == old(self).cache@,
                None => res == Result::<Option<Value>, LoadError>::Err(
                    LoadError::UnknownGlobalReference,
                ) && final(self).cache@ == old(self).cache@,
                Some(Some(k)) => {
                    let l = sload(old(self).packages@, old(self).registry, k.0, k.1, lid as int);
                    &&& (res is Ok <==> l is Some)
                    &&& (res matches Ok(o) ==> o matches Some(v) && Some(vval(v)) == l)
                    &&& (res is Err ==> final(self).cache@ == old(self).cache@ && (if slookup_pkg(
                        old(self).packages@,
                        k.0,
                        k.1,
                    ) is None {
                        res == Result::<Option<Value>, LoadError>::Err(smissing_err(*r))
                    } else {
                        res matches Err(LoadError::Decode(_))
                    }))
                    &&& (res is Ok && scache_has(old(self).cache@, k.0, k.1, lid)
                        ==> final(self).cache@ == old(self).cache@)
                    &&& (res is Ok && !scache_has(old(self).cache@, k.0, k.1, lid)
                        ==> final(self).cache@.len() == old(self).cache@.len() + 1 && final(
                        self).cache@.subrange(
                        0,
                        old(self).cache@.len() as int,
                    ) == old(self).cache@ && final(self).cache@.last().pkg == k.0
                        && final(self).cache@.last().id == k.1 && final(self).cache@.last().lid
                        == lid && final(self).cache@.last().decodes == 1)
                },
            },
    {
        let key: Option<(u16, u32)> = match r {
            RecordRef::Local(l) => {
                if l.is_null() {
                    return Ok(None);
                }
                Some((ctx, l.id))
            },
            RecordRef::Global(g) => {
                if g.is_null() {
                    return Ok(None);
                }
                match global_find(&self.globals, g.id) {
                    None => {
                        return Err(LoadError::UnknownGlobalReference);
                    },
                    Some(k) => {
                        if k.1 == crate::refs::NULL_LOCAL_ZERO || k.1
                            == crate::refs::NULL_LOCAL_ONES {
                            return Ok(None);
                        }
                        Some(k)
                    },
                }
            },
            RecordRef::Extended(e) => {
                if e.id == crate::refs::NULL_LOCAL_ZERO || e.id == crate::refs::NULL_LOCAL_ONES {
                    return Ok(None);
                }
                Some((e.pkg, e.id))
            },
        };
        let (pkg, id) = key.unwrap();
        match cache_find(&self.cache, pkg, id, lid) {
            Some(ix) => {
                let out = self.cache[ix].value.clone();
                return Ok(Some(out));
            },
            None => {},
        }
        let bix = match pkg_find(&self.packages, pkg, id) {
            Some(bix) => bix,
            None => {
                return Err(match r {
                    RecordRef::Extended(_) => LoadError::PackageNotLoaded,
                    _ => LoadError::PackageUnavailable,
                });
            },
        };
        match decode_record(self.packages[bix].bytes.as_slice(), &self.registry, lid, 0) {
            Ok(v) => {
                let out = v.clone();
                let ghost oldcache = self.cache@;
                self.cache.push(CacheEntry { pkg, id, lid, value: v, decodes: 1 });
                proof {
                    assert(self.cache@.subrange(0, oldcache.len() as int) =~= oldcache);
                }
                Ok(Some(out))
            },
            Err(e) => Err(LoadError::Decode(e)),
        }
    }
}

/// Finds the cache entry for `(pkg, id, lid)`.
fn cache_find(cs: &Vec<CacheEntry>, pkg: u16, id: u32, lid: usize) -> (r: Option<usize>)
    ensures
        r is Some <==> scache_has(cs@, pkg, id, lid),
        r matches Some(ix) ==> ix < cs@.len() && cs@[ix as int].pkg == pkg && cs@[ix as int].id
            == id && cs@[ix as int].lid == lid,
{
    let mut i: usize = 0;
    while i < cs.len()
        invariant
            i <= cs@.len(),
            forall|j: int|
                0 <= j < i ==> !((#[trigger] cs@[j]).pkg == pkg && cs@[j].id == id && cs@[j].lid
                    == lid),
        decreases cs@.len() - i,
    {
        if cs[i].pkg == pkg && cs[i].id == id && cs[i].lid == lid {
            return Some(i);
        }
        i = i + 1;
    }
    None
}

/// Finds the package buffer for `(pkg, id)`: the first matching entry.
fn pkg_find(ps: &Vec<PackageEntry>, pkg: u16, id: u32) -> (r: Option<usize>)
    ensures
        r is Some <==> slookup_pkg(ps@, pkg, id) is Some,
        r matches Some(ix) ==> ix < ps@.len() && slookup_pkg(ps@, pkg, id) == Some(
            ps@[ix as int].bytes@,
        ),
{
    let mut i: usize = 0;
    proof {
        assert(ps@.skip(0) =~= ps@);
    }
    while i < ps.len()
        invariant
            i <= ps@.len(),
            slookup_pkg(ps@, pkg, id) == slookup_pkg(ps@.skip(i as int), pkg, id),
        decreases ps@.len() - i,
    {
        proof {
            assert(ps@.skip(i as int).drop_first() =~= ps@.skip(i + 1));
            assert(ps@.skip(i as int)[0] == ps@[i as int]);
        }
        if ps[i].pkg == pkg && ps[i].id == id {
            return Some(i);
        }
        i = i + 1;
    }
    proof {
        assert(ps@.skip(i as int).len() == 0);
    }
    None
}

/// Finds the global index row for `g`: the first matching entry.
fn global_find(gs: &Vec<GlobalEntry>, g: u64) -> (r: Option<(u16, u32)>)
    ensures
        r == slookup_global(gs@, g),
{
    let mut i: usize = 0;
    proof {
        assert(gs@.skip(0) =~= gs@);
    }
    while i < gs.len()
        invariant
            i <= gs@.len(),
            slookup_global(gs@, g) == slookup_global(gs@.skip(i as int), g),
        decreases gs@.len() - i,
    {
        proof {
            assert(gs@.skip(i as int).drop_first() =~= gs@.skip(i + 1));
            assert(gs@.skip(i as int)[0] == gs@[i as int]);
        }
        if gs[i].global == g {
            return Some((gs[i].pkg, gs[i].id));
        }
        i = i + 1;
    }
    proof {
        assert(gs@.skip(i as int).len() == 0);
    }
    None
}

} // verus!
