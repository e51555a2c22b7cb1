use vstd::prelude::*;

verus! {

/// The kinds of geometry a user can select.
#[derive(Clone, Copy, PartialEq, Eq, Structural, Debug)]
pub enum SelectionType {
    /// A single vertex.
    Vertex,
    /// A single segment.
    Segment,
    /// A single polygon.
    Polygon,
    /// A single solid.
    Solid,
}

/// A selection of one piece of geometry.
#[derive(Clone, Copy, PartialEq, Eq, Structural, Debug)]
pub struct Selection {
    /// The identifier of the selected geometry.
    pub id: u64,
    /// The kind of the selected geometry.
    pub selection_type: SelectionType,
}

} // verus!
