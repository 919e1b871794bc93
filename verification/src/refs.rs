//! Reference types: immutable value identities for records.
//!
//! A record is named either within the current package context
//! ([`LocalRef`]), package-independently through a global index
//! ([`GlobalRef`]), or by an explicit (package, local) pair ([`ExtendedRef`]).
//! A [`NameHash`] is a hash of a human-readable name used as an opaque
//! secondary key, never a pointer. Equality and hashing are structural.
//!
//! A zero or all-ones local identifier, and a zero global identifier, are
//! null sentinels: they denote "absent" and must short-circuit resolution.

use vstd::prelude::*;

verus! {

/// The local identifier value reserved as the "absent" sentinel, low form.
pub const NULL_LOCAL_ZERO: u32 = 0;

/// The local identifier value reserved as the "absent" sentinel, high form.
pub const NULL_LOCAL_ONES: u32 = 0xFFFF_FFFF;

/// Whether a 32-bit local identifier is a null sentinel.
pub open spec fn spec_local_is_null(id: u32) -> bool {
    id == NULL_LOCAL_ZERO || id == NULL_LOCAL_ONES
}

/// A 32-bit identifier valid only within the current package context.
#[derive(Clone, Copy, Debug, PartialEq, Eq, Structural, Hash)]
pub struct LocalRef {
    /// The raw identifier.
    pub id: u32,
}

impl LocalRef {
    /// Whether this reference is the null sentinel.
    pub fn is_null(&self) -> (r: bool)
        ensures
            r == spec_local_is_null(self.id),
    {
        self.id == NULL_LOCAL_ZERO || self.id == NULL_LOCAL_ONES
    }
}

/// A 64-bit package-independent identifier, resolved through the global
/// reference index.
#[derive(Clone, Copy, Debug, PartialEq, Eq, Structural, Hash)]
pub struct GlobalRef {
    /// The raw identifier; zero is the null sentinel.
    pub id: u64,
}

impl GlobalRef {
    /// Whether this reference is the null sentinel.
    pub fn is_null(&self) -> (r: bool)
        ensures
            r == (self.id == 0),
    {
        self.id == 0
    }
}

/// An explicit (owning package, local identifier) pair, used where a record
/// must name a specific package rather than "the current one".
#[derive(Clone, Copy, Debug, PartialEq, Eq, Structural, Hash)]
pub struct ExtendedRef {
    /// The owning package.
    pub pkg: u16,
    /// The local identifier within that package.
    pub id: u32,
}

/// A 32-bit hash of a human-readable resource name; an opaque identity,
/// not a pointer.
#[derive(Clone, Copy, Debug, PartialEq, Eq, Structural, Hash)]
pub struct NameHash {
    /// The raw hash value.
    pub hash: u32,
}

/// Any of the three resolvable reference flavors.
#[derive(Clone, Copy, Debug, PartialEq, Eq, Structural, Hash)]
pub enum RecordRef {
    /// Resolves against the package currently supplying the referencing
    /// record.
    Local(LocalRef),
    /// Resolves through the global reference index.
    Global(GlobalRef),
    /// Resolves directly against the named package.
    Extended(ExtendedRef),
}

} // verus!
