//! The map collection: assembled maps plus a current-selection index.
//!
//! The selection index is taken modulo the number of maps, so a stale or
//! wrapped-around selection never indexes out of range; with no maps loaded
//! the accessors return an explicit absent result.

use vstd::prelude::*;
use crate::records::InsertOp;
use crate::refs::{ExtendedRef, GlobalRef, LocalRef, NameHash};

verus! {

/// One fully assembled map: its identifiers, display-name hash, and the
/// pending batch of scene insertions, applied by the consumer as one
/// transaction together with the count of entries skipped over decode
/// failures.
#[derive(Debug)]
pub struct MapData {
    /// The root reference the map was loaded from.
    pub hash: ExtendedRef,
    /// Hash of the map's display name.
    pub name_hash: NameHash,
    /// The pending scene insertions, in deterministic source order.
    pub ops: Vec<InsertOp>,
    /// How many entries were skipped because their bytes were malformed.
    pub skipped: u64,
}

/// The ordered collection of loaded maps with the current selection.
#[derive(Debug)]
pub struct MapDataList {
    /// The selection index; read modulo the number of maps.
    pub current_map: usize,
    /// The maps, in load order, each with its local and optional global
    /// identifier.
    pub maps: Vec<(LocalRef, Option<GlobalRef>, MapData)>,
}

impl MapDataList {
    /// The effective selection: the raw index taken modulo the map count.
    pub open spec fn spec_selected(self) -> int
        recommends
            self.maps@.len() > 0,
    {
        (self.current_map as int) % (self.maps@.len() as int)
    }

    /// The currently selected map entry: the entry at the selection index
    /// modulo the map count, or `None` when no maps are loaded.
    pub fn current_map(&self) -> (r: Option<&(LocalRef, Option<GlobalRef>, MapData)>)
        ensures
            self.maps@.len() == 0 ==> r is None,
            self.maps@.len() > 0 ==> (r matches Some(m) && *m == self.maps@[self.spec_selected()]),
    {
        if self.maps.len() == 0 {
            None
        } else {
            Some(&self.maps[self.current_map % self.maps.len()])
        }
    }

    /// Mutable access to the currently selected map's data, or `None` when
    /// no maps are loaded.
    pub fn current_map_mut(&mut self) -> (r: Option<&mut MapData>)
        ensures
            old(self).maps@.len() == 0 ==> r is None && *final(self) == *old(self),
            old(self).maps@.len() > 0 ==> r is Some,
    {
        if self.maps.len() == 0 {
            None
        } else {
            let map_index = self.current_map % self.maps.len();
            Some(&mut self.maps[map_index].2)
        }
    }

    /// Mutable access to the map at index `i`, or `None` when out of range.
    pub fn map_mut(&mut self, i: usize) -> (r: Option<&mut MapData>)
        ensures
            i >= old(self).maps@.len() ==> r is None && *final(self) == *old(self),
            i < old(self).maps@.len() ==> r is Some,
    {
        if i < self.maps.len() {
            Some(&mut self.maps[i].2)
        } else {
            None
        }
    }
}

} // verus!
