use crate::point::COORD_LIMIT;
use crate::cuboid::create_rectangular_solid;
use crate::store::ID_CEILING;
use crate::polygon::PolygonRegistry;
use crate::segment::SegmentRegistry;
use crate::solid::SolidRegistry;
use crate::vertex::VertexRegistry;
use vstd::prelude::*;

verus! {

/// The side length of the unit cube, in coordinate units: one thousand
/// coordinate steps to the unit.
pub const UNIT_CUBE_SIDE: i64 = 1000;

/// Build a unit cube centred on the origin: eight vertices at half a unit
/// along each axis, twelve segments, six polygons of four segments each, and
/// one solid referencing all six polygons.
///
/// Returns nothing when a construction step is rejected; on success the
/// returned identifier names the solid.
pub fn create_cube(
    vertex_registry: &mut VertexRegistry,
    segment_registry: &mut SegmentRegistry,
    polygon_registry: &mut PolygonRegistry,
    solid_registry: &mut SolidRegistry,
) -> (r: Option<u64>)
    requires
        old(vertex_registry).wf(),
        old(segment_registry).wf(),
        old(polygon_registry).wf(),
        old(solid_registry).wf(),
    ensures
        final(vertex_registry).wf(),
        final(segment_registry).wf(),
        final(polygon_registry).wf(),
        final(solid_registry).wf(),
        (old(vertex_registry).spec_next_id() <= ID_CEILING - 32 && old(
            segment_registry,
        ).spec_next_id() <= ID_CEILING - 48 && old(polygon_registry).spec_next_id() <= ID_CEILING
            - 24 && old(solid_registry).spec_next_id() <= ID_CEILING - 4) ==> r is Some,
        match r {
            Some(id) => {
                &&& final(solid_registry).contents().dom().contains(id)
                &&& final(solid_registry).contents()[id].polygons@.len() == 6
                &&& final(vertex_registry).item_seq().len() == old(
                    vertex_registry,
                ).item_seq().len() + 8
                &&& final(segment_registry).item_seq().len() == old(
                    segment_registry,
                ).item_seq().len() + 12
                &&& final(polygon_registry).item_seq().len() == old(
                    polygon_registry,
                ).item_seq().len() + 6
            },
            None => true,
        },
{
    proof {
        assert(0 <= UNIT_CUBE_SIDE <= 2 * COORD_LIMIT);
    }
    create_rectangular_solid(
        UNIT_CUBE_SIDE,
        UNIT_CUBE_SIDE,
        UNIT_CUBE_SIDE,
        vertex_registry,
        segment_registry,
        polygon_registry,
        solid_registry,
    )
}

} // verus!
