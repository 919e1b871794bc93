//! Declarative layout descriptors: the schema of the binary record format.
//!
//! A [`Layout`] describes one record shape as an ordered field list plus a
//! declared byte size. A [`Registry`] holds all known layouts, indexed by a
//! small layout identifier, together with the closed dispatch table that maps
//! a polymorphic-resource discriminant to the layout of its payload.
//!
//! Conventions fixed by this schema:
//! - all integers are little-endian;
//! - a table field is stored as a 64-bit element count followed by a 64-bit
//!   unsigned relative offset, measured from the offset word's own position;
//! - a pointer field is a 64-bit unsigned relative offset measured from its
//!   own position, with zero as the null sentinel;
//! - a resource pointer is stored like a pointer, and the 32-bit discriminant
//!   selecting the payload type sits immediately before the pointed-to data;
//! - offset directives reposition the cursor relative to the record start;
//!   bytes not covered by any field are padding and are never materialized.

use vstd::prelude::*;

verus! {

/// One field of a record layout, in field order.
#[derive(Clone, Copy, Debug)]
pub enum Field {
    /// An unsigned byte.
    U8,
    /// A 16-bit little-endian integer.
    U16,
    /// A 32-bit little-endian integer.
    U32,
    /// A 64-bit little-endian integer.
    U64,
    /// An inline nested record of the given layout.
    Nested(usize),
    /// A variable-length table of records of the given layout, stored as
    /// (count, relative offset).
    Table(usize),
    /// A direct pointer to a record of the given layout; zero means absent.
    Ptr(usize),
    /// A polymorphic resource pointer; the payload layout is chosen through
    /// the registry's dispatch table by the discriminant stored immediately
    /// before the pointed-to data. Zero means absent; a discriminant outside
    /// the dispatch table decodes to an opaque value, never an error.
    ResPtr,
    /// Repositions the cursor to the given offset from the record start.
    SeekTo(usize),
    /// Advances the cursor over the given number of padding bytes.
    Skip(usize),
}

/// The declarative description of one record shape.
#[derive(Clone, Debug)]
pub struct Layout {
    /// Declared byte size of the record; inline reads past it are an error.
    pub size: usize,
    /// The fields, in the order they are read.
    pub fields: Vec<Field>,
}

/// One row of the dispatch table: discriminant and payload layout.
#[derive(Clone, Copy, Debug)]
pub struct Dispatch {
    /// The discriminant value stored before a resource payload.
    pub disc: u32,
    /// The layout of the payload this discriminant selects.
    pub lid: usize,
}

/// All known layouts plus the resource dispatch table.
#[derive(Clone, Debug)]
pub struct Registry {
    /// The layouts, indexed by layout identifier.
    pub layouts: Vec<Layout>,
    /// The closed dispatch table for polymorphic resource pointers.
    pub dispatch: Vec<Dispatch>,
}

/// The payload layout the dispatch table selects for `disc`, if any.
/// The first matching row wins.
pub open spec fn spec_dispatch_find(disp: Seq<Dispatch>, disc: u32) -> Option<usize>
    decreases disp.len(),
{
    if disp.len() == 0 {
        None
    } else if disp[0].disc == disc {
        Some(disp[0].lid)
    } else {
        spec_dispatch_find(disp.drop_first(), disc)
    }
}

/// Looks the discriminant up in the dispatch table.
pub fn dispatch_find(disp: &Vec<Dispatch>, disc: u32) -> (r: Option<usize>)
    ensures
        r == spec_dispatch_find(disp@, disc),
    decreases disp@.len(),
{
    let mut i: usize = 0;
    proof {
        assert(disp@.skip(0) =~= disp@);
    }
    while i < disp.len()
        invariant
            i <= disp@.len(),
            spec_dispatch_find(disp@, disc) == spec_dispatch_find(disp@.skip(i as int), disc),
        decreases disp@.len() - i,
    {
        proof {
            assert(disp@.skip(i as int).drop_first() =~= disp@.skip(i + 1));
        }
        if disp[i].disc == disc {
            assert(disp@.skip(i as int)[0] == disp@[i as int]);
            return Some(disp[i].lid);
        }
        i = i + 1;
    }
    proof {
        assert(disp@.skip(i as int).len() == 0);
    }
    None
}

} // verus!
