//! The grid data model: zero-based, end-exclusive rectangles and the named
//! ranges a spreadsheet defines.

use vstd::prelude::*;

verus! {

/// A zero-based, end-exclusive bounding box inside one sheet.
///
/// Spreadsheet metadata may omit any of the four bounds; a rectangle with an
/// absent field is *incomplete* and can never be translated into a range
/// expression.
#[derive(Clone, Copy)]
pub struct GridRectangle {
    pub start_row: Option<i64>,
    pub start_column: Option<i64>,
    pub end_row: Option<i64>,
    pub end_column: Option<i64>,
}

impl GridRectangle {
    /// All four bounds are present.
    pub open spec fn is_complete(self) -> bool {
        &&& self.start_row is Some
        &&& self.start_column is Some
        &&& self.end_row is Some
        &&& self.end_column is Some
    }

    /// The data-model invariant: whatever bounds are present are
    /// non-negative, and on each axis a complete pair is ordered with the
    /// exclusive end at or after the start.
    pub open spec fn well_formed(self) -> bool {
        &&& self.start_row is Some ==> 0 <= self.start_row->0
        &&& self.start_column is Some ==> 0 <= self.start_column->0
        &&& self.end_row is Some ==> 0 <= self.end_row->0
        &&& self.end_column is Some ==> 0 <= self.end_column->0
        &&& self.start_row is Some && self.end_row is Some ==> self.start_row->0
            <= self.end_row->0
        &&& self.start_column is Some && self.end_column is Some ==> self.start_column->0
            <= self.end_column->0
    }

    /// Builds a complete rectangle from its four bounds.
    pub fn new(start_row: i64, start_column: i64, end_row: i64, end_column: i64) -> (r:
        GridRectangle)
        requires
            0 <= start_row <= end_row,
            0 <= start_column <= end_column,
        ensures
            r.is_complete(),
            r.well_formed(),
            r.start_row->0 == start_row,
            r.start_column->0 == start_column,
            r.end_row->0 == end_row,
            r.end_column->0 == end_column,
    {
        GridRectangle {
            start_row: Some(start_row),
            start_column: Some(start_column),
            end_row: Some(end_row),
            end_column: Some(end_column),
        }
    }

    /// True when all four bounds are present.
    pub fn complete(&self) -> (r: bool)
        ensures
            r == self.is_complete(),
    {
        self.start_row.is_some() && self.start_column.is_some() && self.end_row.is_some()
            && self.end_column.is_some()
    }
}

/// One named range as the spreadsheet reports it: both the name and the
/// rectangle may be absent in partially provisioned metadata.
pub struct NamedRange {
    pub name: Option<String>,
    pub rectangle: Option<GridRectangle>,
}

impl NamedRange {
    /// The data-model invariant for one metadata entry.
    pub open spec fn well_formed(self) -> bool {
        self.rectangle is Some ==> self.rectangle->0.well_formed()
    }
}

/// The data-model invariant for a whole metadata set.
pub open spec fn ranges_well_formed(all: Seq<NamedRange>) -> bool {
    forall|i: int| 0 <= i < all.len() ==> (#[trigger] all[i]).well_formed()
}

} // verus!
