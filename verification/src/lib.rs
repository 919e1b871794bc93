//! A tagged-record resolution engine for packed binary map assets.
//!
//! Game-world map data is stored as heterogeneous binary records scattered
//! across package files, cross-referencing each other by tag identifiers.
//! This crate decodes those records against declarative layout descriptors,
//! resolves references between them (including references that cross package
//! boundaries and polymorphic resource pointers whose target type is chosen
//! by a discriminant in the byte stream), and assembles the resolved record
//! graph into an ordered list of scene-insertion operations per map.
//!
//! The byte source (package files on disk), the entity-component scene and
//! the renderer are external collaborators: callers feed package buffers in
//! as plain bytes and apply the produced insertion operations themselves.

pub mod bytes;
pub mod layout;
pub mod value;
pub mod decode;
pub mod refs;
pub mod session;
pub mod schema;
pub mod assemble;
pub mod maplist;
pub mod records;
pub mod laws;
