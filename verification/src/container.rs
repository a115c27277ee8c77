//! The decoded container and its records.

use crate::gravity::GravityVector;
use vstd::prelude::*;
use vstd::utf8::encode_utf8;

verus! {

/// One decoded record: the fields read from its 432-byte block, the
/// metadata derived from the sentinel cell, and the remapped 20x20
/// tile grid.
pub struct MapEntry {
    pub name: String,
    pub description: String,
    pub width: u32,
    pub height: u32,
    pub area: u32,
    pub gravity: Option<GravityVector>,
    pub id: u32,
    pub data: Vec<Vec<u8>>,
}

/// The mathematical model of one record.
#[verifier::ext_equal]
pub ghost struct MapEntryView {
    pub name: Seq<char>,
    pub description: Seq<char>,
    pub width: u32,
    pub height: u32,
    pub area: u32,
    pub gravity: Option<GravityVector>,
    pub id: u32,
    pub data: Seq<Seq<u8>>,
}

impl View for MapEntry {
    type V = MapEntryView;

    open spec fn view(&self) -> MapEntryView {
        MapEntryView {
            name: self.name@,
            description: self.description@,
            width: self.width,
            height: self.height,
            area: self.area,
            gravity: self.gravity,
            id: self.id,
            data: self.data.deep_view(),
        }
    }
}

/// A record's grid is exactly 20 rows of exactly 20 columns.
pub open spec fn grid_wf(data: Seq<Seq<u8>>) -> bool {
    &&& data.len() == 20
    &&& forall|r: int| 0 <= r < 20 ==> (#[trigger] data[r]).len() == 20
}

/// Well-formedness of one record: its grid has the fixed shape and
/// its name fits the 15-byte name region of a block.
pub open spec fn entry_wf(e: MapEntryView) -> bool {
    &&& grid_wf(e.data)
    &&& encode_utf8(e.name).len() <= 15
}

/// The decoded container: the magic tag, the declared record count,
/// and the records themselves.
pub struct MapFile {
    pub magic: String,
    pub count: u32,
    pub maps: Vec<MapEntry>,
}

/// The mathematical model of the container.
#[verifier::ext_equal]
pub ghost struct MapFileView {
    pub magic: Seq<char>,
    pub count: u32,
    pub maps: Seq<MapEntryView>,
}

impl View for MapFile {
    type V = MapFileView;

    open spec fn view(&self) -> MapFileView {
        MapFileView {
            magic: self.magic@,
            count: self.count,
            maps: self.maps@.map_values(|e: MapEntry| e@),
        }
    }
}

/// Well-formedness of the container: it holds exactly as many
/// records as its count declares, and each record is well formed.
pub open spec fn file_wf(m: MapFileView) -> bool {
    &&& m.maps.len() == m.count
    &&& forall|i: int| 0 <= i < m.maps.len() ==> entry_wf(#[trigger] m.maps[i])
}

} // verus!
