use crate::cuboid::create_cube_solid;
use crate::store::ID_CEILING;
use crate::polygon::PolygonRegistry;
use crate::segment::SegmentRegistry;
use crate::solid::SolidRegistry;
use crate::vertex::VertexRegistry;
use vstd::prelude::*;

verus! {

/// Create a sample scene holding one unit cube, and return the identifier of
/// its solid; nothing when a construction step is rejected.
pub fn create_sample_scene(
    vertex_registry: &mut VertexRegistry,
    segment_registry: &mut SegmentRegistry,
    polygon_registry: &mut PolygonRegistry,
    solid_registry: &mut SolidRegistry,
) -> (r: Option<u64>)
    requires
        old(vertex_registry).wf(),
        old(segment_registry).wf(),
        old(polygon_registry).wf(),
        old(solid_registry).wf(),
    ensures
        final(vertex_registry).wf(),
        final(segment_registry).wf(),
        final(polygon_registry).wf(),
        final(solid_registry).wf(),
        r is Some ==> final(solid_registry).contents().dom().contains(r->Some_0),
        (old(vertex_registry).spec_next_id() <= ID_CEILING - 32 && old(
            segment_registry,
        ).spec_next_id() <= ID_CEILING - 48 && old(polygon_registry).spec_next_id() <= ID_CEILING
            - 24 && old(solid_registry).spec_next_id() <= ID_CEILING - 4) ==> r is Some,
{
    create_cube_solid(
        crate::cube::UNIT_CUBE_SIDE,
        vertex_registry,
        segment_registry,
        polygon_registry,
        solid_registry,
    )
}

} // verus!
