//! The built-in schema: layout descriptors for the map record hierarchy and
//! the closed resource dispatch table.
//!
//! Layout identifiers are indices into the registry; a layout may only
//! refer to strictly smaller identifiers, so element layouts come first.
//! Resource payload layouts are dispatch targets and contain no resource
//! pointers themselves.

use vstd::prelude::*;
use crate::layout::{Dispatch, Field, Layout, Registry};

verus! {

/// Layout of a four-word shape quad (the root record's trailing table).
pub const LID_SHAPE_QUAD: usize = 0;

/// Layout of a four-word octree cell.
pub const LID_CELL: usize = 1;

/// Layout of a static-mesh instance range.
pub const LID_INSTANCE_RANGE: usize = 2;

/// Layout of a static-mesh mesh-group row.
pub const LID_MESH_GROUP: usize = 3;

/// Layout of a bare 32-bit tag reference (table element).
pub const LID_TAG: usize = 4;

/// Layout of an extended tag reference: local identifier plus global
/// identifier (table element).
pub const LID_EXT_TAG: usize = 5;

/// Layout of a static-instance-group resource payload.
pub const LID_STATIC_GROUP_RES: usize = 6;

/// Layout of a terrain-patch resource payload.
pub const LID_TERRAIN_RES: usize = 7;

/// Layout of one point light of a light collection.
pub const LID_LIGHT: usize = 8;

/// Layout of a light-collection resource payload.
pub const LID_LIGHT_COLLECTION_RES: usize = 9;

/// Layout of a shadow-casting-light resource payload.
pub const LID_SHADOWING_LIGHT_RES: usize = 10;

/// Layout of a cubemap-volume resource payload.
pub const LID_CUBEMAP_RES: usize = 11;

/// Layout of one occlusion bound of an occlusion-bounds set.
pub const LID_OCC_BOUND: usize = 12;

/// Layout of an occlusion-bounds-set resource payload.
pub const LID_OCC_BOUNDS_RES: usize = 13;

/// Layout of one decal instance row.
pub const LID_DECAL_INSTANCE: usize = 14;

/// Layout of a decal-collection resource payload.
pub const LID_DECALS_RES: usize = 15;

/// Layout of a slip-surface collision volume resource payload.
pub const LID_SLIP_SURFACE_RES: usize = 16;

/// Layout of one data-table entry: transform, identifiers and the
/// polymorphic resource pointer.
pub const LID_ENTRY: usize = 17;

/// Layout of a data-table header: record size, entry count and the
/// relative offset of the entry array.
pub const LID_DATA_TABLE: usize = 18;

/// Layout of a map container: its list of data-table references.
pub const LID_CONTAINER: usize = 19;

/// Layout of a map definition: its ordered list of container references.
pub const LID_DEFINITION: usize = 20;

/// Layout of a map root record: definition reference and display-name hash.
pub const LID_ROOT: usize = 21;

/// Number of layouts in the built-in registry.
pub const N_LAYOUTS: usize = 22;

/// Discriminant of a static-instance-group resource.
pub const DISC_STATIC_GROUP: u32 = 0x80806EF4;

/// Discriminant of a terrain-patch resource.
pub const DISC_TERRAIN: u32 = 0x8080714B;

/// Discriminant of a light-collection resource.
pub const DISC_LIGHT_COLLECTION: u32 = 0x80806C70;

/// Discriminant of a shadow-casting-light resource.
pub const DISC_SHADOWING_LIGHT: u32 = 0x80806C71;

/// Discriminant of a cubemap-volume resource.
pub const DISC_CUBEMAP: u32 = 0x80806B7F;

/// Discriminant of an occlusion-bounds-set resource.
pub const DISC_OCC_BOUNDS: u32 = 0x808093B1;

/// Discriminant of a decal-collection resource.
pub const DISC_DECALS: u32 = 0x80806E68;

/// Discriminant of a slip-surface collision volume resource.
pub const DISC_SLIP_SURFACE: u32 = 0x8080917B;

/// Builds the built-in registry: the layouts above, in identifier order,
/// and the dispatch table of the closed resource kind set.
pub fn builtin_registry() -> (reg: Registry)
    ensures
        reg.layouts@.len() == N_LAYOUTS,
        reg.layouts@[LID_ROOT as int].size == 0x50,
        reg.layouts@[LID_DEFINITION as int].size == 0x18,
        reg.layouts@[LID_CONTAINER as int].size == 0x38,
        reg.layouts@[LID_DATA_TABLE as int].size == 0x18,
        reg.layouts@[LID_ENTRY as int].size == 0x90,
        reg.dispatch@ == seq![
            Dispatch { disc: DISC_STATIC_GROUP, lid: LID_STATIC_GROUP_RES },
            Dispatch { disc: DISC_TERRAIN, lid: LID_TERRAIN_RES },
            Dispatch { disc: DISC_LIGHT_COLLECTION, lid: LID_LIGHT_COLLECTION_RES },
            Dispatch { disc: DISC_SHADOWING_LIGHT, lid: LID_SHADOWING_LIGHT_RES },
            Dispatch { disc: DISC_CUBEMAP, lid: LID_CUBEMAP_RES },
            Dispatch { disc: DISC_OCC_BOUNDS, lid: LID_OCC_BOUNDS_RES },
            Dispatch { disc: DISC_DECALS, lid: LID_DECALS_RES },
            Dispatch { disc: DISC_SLIP_SURFACE, lid: LID_SLIP_SURFACE_RES },
        ],
{
    let mut layouts: Vec<Layout> = Vec::new();
    // LID_SHAPE_QUAD
    layouts.push(
        Layout {
            size: 0x10,
            fields: vec![Field::U32, Field::U32, Field::U32, Field::U32],
        },
    );
    // LID_CELL
    layouts.push(
        Layout {
            size: 0x10,
            fields: vec![Field::U32, Field::U32, Field::U32, Field::U32],
        },
    );
    // LID_INSTANCE_RANGE
    layouts.push(
        Layout { size: 8, fields: vec![Field::U16, Field::U16, Field::U16, Field::U16] },
    );
    // LID_MESH_GROUP
    layouts.push(
        Layout {
            size: 8,
            fields: vec![Field::U16, Field::U8, Field::U8, Field::U16, Field::Skip(2)],
        },
    );
    // LID_TAG
    layouts.push(Layout { size: 4, fields: vec![Field::U32] });
    // LID_EXT_TAG
    layouts.push(Layout { size: 0x10, fields: vec![Field::U32, Field::Skip(4), Field::U64] });
    // LID_STATIC_GROUP_RES
    layouts.push(Layout { size: 0x28, fields: vec![Field::U64, Field::U32] });
    // LID_TERRAIN_RES
    layouts.push(
        Layout {
            size: 0x20,
            fields: vec![
                Field::SeekTo(0x10),
                Field::U16,
                Field::U16,
                Field::U32,
                Field::U32,
                Field::U32,
            ],
        },
    );
    // LID_LIGHT
    layouts.push(
        Layout {
            size: 0x20,
            fields: vec![
                Field::U32,
                Field::U32,
                Field::U32,
                Field::U32,
                Field::U32,
                Field::U32,
                Field::U32,
                Field::U32,
            ],
        },
    );
    // LID_LIGHT_COLLECTION_RES
    layouts.push(
        Layout {
            size: 0x40,
            fields: vec![
                Field::U64,
                Field::U64,
                Field::Table(LID_LIGHT),
                Field::U32,
                Field::U32,
                Field::U32,
            ],
        },
    );
    // LID_SHADOWING_LIGHT_RES
    layouts.push(
        Layout {
            size: 0x30,
            fields: vec![
                Field::U32,
                Field::U32,
                Field::U32,
                Field::U32,
                Field::U32,
                Field::U32,
                Field::U32,
                Field::U32,
                Field::U32,
                Field::U32,
                Field::U32,
                Field::U32,
            ],
        },
    );
    // LID_CUBEMAP_RES
    layouts.push(
        Layout {
            size: 0x1e0,
            fields: vec![
                Field::SeekTo(0x20),
                Field::U32,
                Field::U32,
                Field::U32,
                Field::U32,
                Field::U32,
                Field::U32,
                Field::U32,
                Field::U32,
                Field::SeekTo(0x1b8),
                Field::U32,
            ],
        },
    );
    // LID_OCC_BOUND
    layouts.push(
        Layout {
            size: 0x30,
            fields: vec![
                Field::U32,
                Field::U32,
                Field::U32,
                Field::U32,
                Field::U32,
                Field::U32,
                Field::U32,
                Field::U32,
                Field::Skip(0x10),
            ],
        },
    );
    // LID_OCC_BOUNDS_RES
    layouts.push(Layout { size: 0x18, fields: vec![Field::U64, Field::Table(LID_OCC_BOUND)] });
    // LID_DECAL_INSTANCE
    layouts.push(Layout { size: 8, fields: vec![Field::U32, Field::U16, Field::U16] });
    // LID_DECALS_RES
    layouts.push(
        Layout {
            size: 0x40,
            fields: vec![
                Field::U64,
                Field::Table(LID_DECAL_INSTANCE),
                Field::Table(LID_CELL),
                Field::U32,
                Field::U32,
                Field::Skip(8),
                Field::U32,
            ],
        },
    );
    // LID_SLIP_SURFACE_RES
    layouts.push(
        Layout {
            size: 0x1c,
            fields: vec![Field::Skip(0x10), Field::U32, Field::U32, Field::U32],
        },
    );
    // LID_ENTRY
    layouts.push(
        Layout {
            size: 0x90,
            fields: vec![
                Field::U32,
                Field::U32,
                Field::U32,
                Field::U32,
                Field::U32,
                Field::U32,
                Field::U32,
                Field::U32,
                Field::U32,
                Field::SeekTo(0x70),
                Field::U64,
                Field::ResPtr,
            ],
        },
    );
    // LID_DATA_TABLE
    layouts.push(Layout { size: 0x18, fields: vec![Field::U64, Field::U64, Field::U64] });
    // LID_CONTAINER
    layouts.push(
        Layout {
            size: 0x38,
            fields: vec![Field::U64, Field::SeekTo(0x28), Field::Table(LID_TAG)],
        },
    );
    // LID_DEFINITION
    layouts.push(Layout { size: 0x18, fields: vec![Field::U64, Field::Table(LID_EXT_TAG)] });
    // LID_ROOT
    layouts.push(
        Layout {
            size: 0x50,
            fields: vec![
                Field::U64,
                Field::U32,
                Field::U32,
                Field::U64,
                Field::U32,
                Field::SeekTo(0x40),
                Field::Table(LID_SHAPE_QUAD),
            ],
        },
    );
    let dispatch: Vec<Dispatch> = vec![
        Dispatch { disc: DISC_STATIC_GROUP, lid: LID_STATIC_GROUP_RES },
        Dispatch { disc: DISC_TERRAIN, lid: LID_TERRAIN_RES },
        Dispatch { disc: DISC_LIGHT_COLLECTION, lid: LID_LIGHT_COLLECTION_RES },
        Dispatch { disc: DISC_SHADOWING_LIGHT, lid: LID_SHADOWING_LIGHT_RES },
        Dispatch { disc: DISC_CUBEMAP, lid: LID_CUBEMAP_RES },
        Dispatch { disc: DISC_OCC_BOUNDS, lid: LID_OCC_BOUNDS_RES },
        Dispatch { disc: DISC_DECALS, lid: LID_DECALS_RES },
        Dispatch { disc: DISC_SLIP_SURFACE, lid: LID_SLIP_SURFACE_RES },
    ];
    proof {
        assert(dispatch@ =~= seq![
            Dispatch { disc: DISC_STATIC_GROUP, lid: LID_STATIC_GROUP_RES },
            Dispatch { disc: DISC_TERRAIN, lid: LID_TERRAIN_RES },
            Dispatch { disc: DISC_LIGHT_COLLECTION, lid: LID_LIGHT_COLLECTION_RES },
            Dispatch { disc: DISC_SHADOWING_LIGHT, lid: LID_SHADOWING_LIGHT_RES },
            Dispatch { disc: DISC_CUBEMAP, lid: LID_CUBEMAP_RES },
            Dispatch { disc: DISC_OCC_BOUNDS, lid: LID_OCC_BOUNDS_RES },
            Dispatch { disc: DISC_DECALS, lid: LID_DECALS_RES },
            Dispatch { disc: DISC_SLIP_SURFACE, lid: LID_SLIP_SURFACE_RES },
        ]);
    }
    Registry { layouts, dispatch }
}

} // verus!
