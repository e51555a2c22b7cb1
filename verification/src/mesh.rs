use crate::point::Point;
use crate::polygon::Polygon;
use crate::registry::GeometryRegistry;
use crate::segment::Segment;
use crate::solid::Solid;
use crate::triangulation::{
    polygon_faces, registry_positions, triangulate_polygon_for_rendering, TriangulatedFace,
};
use crate::vertex::Vertex;
use vstd::prelude::*;

verus! {

/// All the triangles of the given polygons, in order: for each registered
/// polygon its fan, skipping unregistered polygon identifiers.
pub open spec fn solid_faces(
    polygon_ids: Seq<u64>,
    polys: Map<u64, Polygon>,
    segs: Map<u64, Segment>,
    verts: Map<u64, Vertex>,
    all_positions: Seq<Point>,
) -> Seq<TriangulatedFace>
    decreases polygon_ids.len(),
{
    if polygon_ids.len() == 0 {
        Seq::empty()
    } else {
        solid_faces(polygon_ids.drop_last(), polys, segs, verts, all_positions) + (if polys.dom().contains(
            polygon_ids.last(),
        ) {
            polygon_faces(polys[polygon_ids.last()].segments@, segs, verts, all_positions)
        } else {
            Seq::empty()
        })
    }
}

/// Triangulate every polygon of a solid, in order, into one flat list of
/// renderable faces. Unregistered polygon identifiers are skipped; a polygon
/// whose segments do not form a single closed cycle contributes no faces.
#[verifier::loop_isolation(false)]
pub fn triangulate_solid(solid: &Solid, geometry_registry: &GeometryRegistry) -> (r: Vec<
    TriangulatedFace,
>)
    requires
        geometry_registry.wf(),
        geometry_registry.vertices.item_seq().len() > 0,
    ensures
        r@ == solid_faces(
            solid.polygons@,
            geometry_registry.polygons.contents(),
            geometry_registry.segments.contents(),
            geometry_registry.vertices.contents(),
            registry_positions(geometry_registry.vertices),
        ),
{
    let ghost polys = geometry_registry.polygons.contents();
    let ghost segs = geometry_registry.segments.contents();
    let ghost verts = geometry_registry.vertices.contents();
    let ghost all_positions = registry_positions(geometry_registry.vertices);

    let mut faces: Vec<TriangulatedFace> = Vec::new();
    let mut i: usize = 0;
    while i < solid.polygons.len()
        invariant
            0 <= i <= solid.polygons@.len(),
            faces@ == solid_faces(solid.polygons@.take(i as int), polys, segs, verts, all_positions),
        decreases solid.polygons@.len() - i,
    {
        proof {
            assert(solid.polygons@.take(i + 1 as int).drop_last() =~= solid.polygons@.take(
                i as int,
            ));
            assert(solid.polygons@.take(i + 1 as int).last() == solid.polygons@[i as int]);
        }
        match geometry_registry.polygons.get(solid.polygons[i]) {
            Some(polygon) => {
                let mut tris = triangulate_polygon_for_rendering(
                    polygon,
                    &geometry_registry.segments,
                    &geometry_registry.vertices,
                );
                faces.append(&mut tris);
                proof {
                    assert(faces@ =~= solid_faces(
                        solid.polygons@.take(i + 1 as int),
                        polys,
                        segs,
                        verts,
                        all_positions,
                    ));
                }
            },
            None => {
                proof {
                    assert(faces@ + Seq::<TriangulatedFace>::empty() =~= faces@);
                }
            },
        }
        i = i + 1;
    }
    proof {
        assert(solid.polygons@.take(i as int) =~= solid.polygons@);
    }
    faces
}

} // verus!
