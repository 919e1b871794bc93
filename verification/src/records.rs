//! Typed record shapes and scene components.
//!
//! Vector quantities (rotations, translations, light parameters) are carried
//! as raw 32-bit lanes exactly as they sit in the byte stream; interpreting
//! them as floating-point values is the renderer's business, not part of
//! resolution.

use vstd::prelude::*;
use crate::value::{lemma_vvals_index, vval, SVal, Value};

verus! {

/// The raw bit patterns of a four-lane vector.
#[derive(Clone, Copy, Debug, PartialEq, Eq, Structural)]
pub struct Vec4Bits {
    /// First lane.
    pub x: u32,
    /// Second lane.
    pub y: u32,
    /// Third lane.
    pub z: u32,
    /// Fourth lane.
    pub w: u32,
}

/// A point light: position and attenuation, one four-lane vector each.
#[derive(Clone, Copy, Debug, PartialEq, Eq, Structural)]
pub struct SimpleLight {
    /// Position lanes.
    pub pos: Vec4Bits,
    /// Attenuation lanes.
    pub attenuation: Vec4Bits,
}

/// One scene component produced for a map entry.
#[derive(Clone, Copy, Debug, PartialEq, Eq, Structural)]
pub enum Component {
    /// A static-instance group; names its instance record.
    StaticGroup {
        /// Tag of the instance record.
        instances: u32,
    },
    /// A terrain patch.
    Terrain {
        /// Tag of the terrain record.
        terrain: u32,
        /// Tag of the terrain bounds record.
        terrain_bounds: u32,
    },
    /// A decal collection.
    Decals {
        /// Tag of the instance-point buffer.
        instance_points: u32,
        /// Tag of the shared occlusion-bounds record.
        occlusion: u32,
    },
    /// One point light out of a light collection.
    Light(SimpleLight),
    /// A shadow-casting light.
    ShadowingLight(SimpleLight),
    /// A cubemap volume.
    Cubemap {
        /// Extents lanes.
        extents: Vec4Bits,
        /// Visual-center lanes.
        center: Vec4Bits,
        /// Tag of the cubemap texture.
        texture: u32,
    },
    /// An occlusion-bounds set.
    OcclusionBounds {
        /// Number of bounds in the set.
        bounds_count: u64,
    },
    /// A collision slip-surface volume.
    SlipSurface {
        /// Tag of the collision file.
        havok_file: u32,
        /// Index of the shape within that file.
        shape_index: u32,
    },
    /// A resource whose discriminant is outside the dispatch table; kept
    /// opaque rather than dropped.
    Unknown {
        /// The raw discriminant.
        disc: u32,
    },
}

/// One pending scene insertion: the entry's transform and identifiers
/// together with one component.
#[derive(Clone, Copy, Debug, PartialEq, Eq, Structural)]
pub struct InsertOp {
    /// Rotation quaternion lanes of the owning entry.
    pub rotation: Vec4Bits,
    /// Translation lanes of the owning entry.
    pub translation: Vec4Bits,
    /// Source world identifier of the owning entry.
    pub world_id: u64,
    /// Tag of the owning entry's entity record.
    pub entity_old: u32,
    /// The component to insert.
    pub component: Component,
}

/// The raw bit patterns of a three-lane vector.
#[derive(Clone, Copy, Debug, PartialEq, Eq, Structural)]
pub struct Vec3Bits {
    /// First lane.
    pub x: u32,
    /// Second lane.
    pub y: u32,
    /// Third lane.
    pub z: u32,
}

/// A shape quad of the root record's trailing table.
#[derive(Clone, Copy, Debug, PartialEq, Eq, Structural)]
pub struct Unk80809644 {
    /// First word.
    pub unk0: u32,
    /// Second word.
    pub unk4: u32,
    /// Third word.
    pub unk8: u32,
    /// Fourth word.
    pub unkc: u32,
}

/// A four-word cell of the unknown octree resource.
#[derive(Clone, Copy, Debug)]
pub struct Unk8080726a {
    /// The raw words.
    pub unk0: [u32; 4],
}

/// An instance range of a static-mesh instance table.
#[derive(Clone, Copy, Debug, PartialEq, Eq, Structural)]
pub struct Unk80807190 {
    /// Number of instances.
    pub instance_count: u16,
    /// First instance index.
    pub instance_start: u16,
    /// Index of the static mesh.
    pub static_index: u16,
    /// Trailing word.
    pub unk6: u16,
}

/// A mesh group row of a static-mesh header.
#[derive(Clone, Copy, Debug, PartialEq, Eq, Structural)]
pub struct Unk8080719b {
    /// Index of the part this group starts at.
    pub part_index: u16,
    /// First flag byte.
    pub unk2: u8,
    /// Second flag byte.
    pub unk3: u8,
    /// Trailing word.
    pub unk5: u16,
}

/// A mesh part row of a static-mesh header; the level-of-detail category
/// and primitive type are carried as their raw byte codes.
#[derive(Clone, Copy, Debug, PartialEq, Eq, Structural)]
pub struct Unk8080719a {
    /// First index of the part.
    pub index_start: u32,
    /// Number of indices of the part.
    pub index_count: u32,
    /// Which buffer triple the part draws from.
    pub buffer_index: u8,
    /// Flag byte.
    pub unk9: u8,
    /// Raw level-of-detail category code.
    pub lod_category: u8,
    /// Raw primitive-type code.
    pub primitive_type: u8,
}

/// One instance transform of a static-mesh instance table: rotation,
/// translation and scale as raw lanes.
#[derive(Clone, Copy, Debug, PartialEq, Eq, Structural)]
pub struct Unk808071a3 {
    /// Rotation quaternion lanes.
    pub rotation: Vec4Bits,
    /// Translation lanes.
    pub translation: Vec3Bits,
    /// Scale lanes.
    pub scale: Vec3Bits,
    /// First trailing word.
    pub unk28: u32,
    /// Second trailing word.
    pub unk2c: u32,
}

/// The field values of a record, empty for any other value shape.
pub open spec fn sfields_of(v: SVal) -> Seq<SVal> {
    match v {
        SVal::Record(fs) => fs,
        _ => Seq::empty(),
    }
}

/// Field `i`, if it is a 32-bit scalar; zero otherwise.
pub open spec fn sfu32(fs: Seq<SVal>, i: int) -> u32 {
    if 0 <= i < fs.len() {
        match fs[i] {
            SVal::U32(x) => x,
            _ => 0,
        }
    } else {
        0
    }
}

/// Field `i`, if it is a 64-bit scalar; zero otherwise.
pub open spec fn sfu64(fs: Seq<SVal>, i: int) -> u64 {
    if 0 <= i < fs.len() {
        match fs[i] {
            SVal::U64(x) => x,
            _ => 0,
        }
    } else {
        0
    }
}

/// The elements of table field `i`; empty otherwise.
pub open spec fn sftable(fs: Seq<SVal>, i: int) -> Seq<SVal> {
    if 0 <= i < fs.len() {
        match fs[i] {
            SVal::Table(es) => es,
            _ => Seq::empty(),
        }
    } else {
        Seq::empty()
    }
}

/// The four 32-bit lanes at fields `i .. i + 4`.
pub open spec fn sfvec4(fs: Seq<SVal>, i: int) -> Vec4Bits {
    Vec4Bits { x: sfu32(fs, i), y: sfu32(fs, i + 1), z: sfu32(fs, i + 2), w: sfu32(fs, i + 3) }
}

/// Borrows a decoded record's field vector; for any other value shape the
/// supplied empty vector.
pub fn as_fields<'a>(v: &'a Value, empty: &'a Vec<Value>) -> (r: &'a Vec<Value>)
    requires
        empty@.len() == 0,
    ensures
        crate::value::vvals(r@) == sfields_of(vval(*v)),
{
    proof {
        assert(crate::value::vvals(empty@) =~= Seq::<SVal>::empty());
    }
    match v {
        Value::Record(fs) => fs,
        _ => empty,
    }
}

/// Reads field `i` as a 32-bit scalar, zero if absent or of another shape.
pub fn fields_u32(fs: &Vec<Value>, i: usize) -> (r: u32)
    ensures
        r == sfu32(crate::value::vvals(fs@), i as int),
{
    proof {
        lemma_vvals_index(fs@);
    }
    if i < fs.len() {
        match &fs[i] {
            Value::U32(x) => *x,
            _ => 0,
        }
    } else {
        0
    }
}

/// Reads field `i` as a 64-bit scalar, zero if absent or of another shape.
pub fn fields_u64(fs: &Vec<Value>, i: usize) -> (r: u64)
    ensures
        r == sfu64(crate::value::vvals(fs@), i as int),
{
    proof {
        lemma_vvals_index(fs@);
    }
    if i < fs.len() {
        match &fs[i] {
            Value::U64(x) => *x,
            _ => 0,
        }
    } else {
        0
    }
}

/// Borrows the elements of table field `i`; the supplied empty vector if
/// the field is absent or of another shape.
pub fn fields_table<'a>(fs: &'a Vec<Value>, i: usize, empty: &'a Vec<Value>) -> (r: &'a Vec<
    Value,
>)
    requires
        empty@.len() == 0,
    ensures
        crate::value::vvals(r@) == sftable(crate::value::vvals(fs@), i as int),
{
    proof {
        lemma_vvals_index(fs@);
        assert(crate::value::vvals(empty@) =~= Seq::<SVal>::empty());
    }
    if i < fs.len() {
        match &fs[i] {
            Value::Table(es) => es,
            _ => empty,
        }
    } else {
        empty
    }
}

/// Field `i`, if it is a 16-bit scalar; zero otherwise.
pub open spec fn sfu16(fs: Seq<SVal>, i: int) -> u16 {
    if 0 <= i < fs.len() {
        match fs[i] {
            SVal::U16(x) => x,
            _ => 0,
        }
    } else {
        0
    }
}

/// Field `i`, if it is a byte scalar; zero otherwise.
pub open spec fn sfu8(fs: Seq<SVal>, i: int) -> u8 {
    if 0 <= i < fs.len() {
        match fs[i] {
            SVal::U8(x) => x,
            _ => 0,
        }
    } else {
        0
    }
}

/// Reads field `i` as a 16-bit scalar, zero if absent or of another shape.
pub fn fields_u16(fs: &Vec<Value>, i: usize) -> (r: u16)
    ensures
        r == sfu16(crate::value::vvals(fs@), i as int),
{
    proof {
        lemma_vvals_index(fs@);
    }
    if i < fs.len() {
        match &fs[i] {
            Value::U16(x) => *x,
            _ => 0,
        }
    } else {
        0
    }
}

/// Reads field `i` as a byte scalar, zero if absent or of another shape.
pub fn fields_u8(fs: &Vec<Value>, i: usize) -> (r: u8)
    ensures
        r == sfu8(crate::value::vvals(fs@), i as int),
{
    proof {
        lemma_vvals_index(fs@);
    }
    if i < fs.len() {
        match &fs[i] {
            Value::U8(x) => *x,
            _ => 0,
        }
    } else {
        0
    }
}

impl Unk80809644 {
    /// Builds the typed shape quad from a decoded record's fields.
    pub fn from_fields(fs: &Vec<Value>) -> (r: Self)
        ensures
            r == (Unk80809644 {
                unk0: sfu32(crate::value::vvals(fs@), 0),
                unk4: sfu32(crate::value::vvals(fs@), 1),
                unk8: sfu32(crate::value::vvals(fs@), 2),
                unkc: sfu32(crate::value::vvals(fs@), 3),
            }),
    {
        Unk80809644 {
            unk0: fields_u32(fs, 0),
            unk4: fields_u32(fs, 1),
            unk8: fields_u32(fs, 2),
            unkc: fields_u32(fs, 3),
        }
    }
}

impl Unk80807190 {
    /// Builds the typed instance range from a decoded record's fields.
    pub fn from_fields(fs: &Vec<Value>) -> (r: Self)
        ensures
            r == (Unk80807190 {
                instance_count: sfu16(crate::value::vvals(fs@), 0),
                instance_start: sfu16(crate::value::vvals(fs@), 1),
                static_index: sfu16(crate::value::vvals(fs@), 2),
                unk6: sfu16(crate::value::vvals(fs@), 3),
            }),
    {
        Unk80807190 {
            instance_count: fields_u16(fs, 0),
            instance_start: fields_u16(fs, 1),
            static_index: fields_u16(fs, 2),
            unk6: fields_u16(fs, 3),
        }
    }
}

impl Unk8080719b {
    /// Builds the typed mesh group row from a decoded record's fields.
    pub fn from_fields(fs: &Vec<Value>) -> (r: Self)
        ensures
            r == (Unk8080719b {
                part_index: sfu16(crate::value::vvals(fs@), 0),
                unk2: sfu8(crate::value::vvals(fs@), 1),
                unk3: sfu8(crate::value::vvals(fs@), 2),
                unk5: sfu16(crate::value::vvals(fs@), 3),
            }),
    {
        Unk8080719b {
            part_index: fields_u16(fs, 0),
            unk2: fields_u8(fs, 1),
            unk3: fields_u8(fs, 2),
            unk5: fields_u16(fs, 3),
        }
    }
}

/// Reads the four 32-bit lanes at fields `i .. i + 4`.
pub fn fields_vec4(fs: &Vec<Value>, i: usize) -> (r: Vec4Bits)
    requires
        i + 4 <= usize::MAX,
    ensures
        r == sfvec4(crate::value::vvals(fs@), i as int),
{
    Vec4Bits {
        x: fields_u32(fs, i),
        y: fields_u32(fs, i + 1),
        z: fields_u32(fs, i + 2),
        w: fields_u32(fs, i + 3),
    }
}

} // verus!
