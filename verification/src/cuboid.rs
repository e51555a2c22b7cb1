use crate::point::{Point, COORD_LIMIT};
use crate::polygon::{lemma_quad_face_input_ok, pair_is, PolygonRegistry};
use crate::validate::lemma_distinct_4;
use crate::segment::{seg_hi, seg_lo, SegmentRegistry};
use crate::solid::SolidRegistry;
use crate::store::ID_CEILING;
use crate::vertex::{Vertex, VertexRegistry};
use vstd::prelude::*;

verus! {

/// Build a rectangular solid centred on the origin: eight vertices, twelve
/// segments, six polygons of four segments each, and one solid referencing
/// all six polygons. Polygon coplanarity is validated at tolerance zero; the
/// faces of a box are exactly planar.
///
/// Construction succeeds whenever the registries have identifiers to spare;
/// on success the returned identifier names the solid.
pub fn create_rectangular_solid(
    width: i64,
    height: i64,
    depth: i64,
    vertex_registry: &mut VertexRegistry,
    segment_registry: &mut SegmentRegistry,
    polygon_registry: &mut PolygonRegistry,
    solid_registry: &mut SolidRegistry,
) -> (r: Option<u64>)
    requires
        old(vertex_registry).wf(),
        old(segment_registry).wf(),
        old(polygon_registry).wf(),
        old(solid_registry).wf(),
        0 <= width <= 2 * COORD_LIMIT,
        0 <= height <= 2 * COORD_LIMIT,
        0 <= depth <= 2 * COORD_LIMIT,
    ensures
        final(vertex_registry).wf(),
        final(segment_registry).wf(),
        final(polygon_registry).wf(),
        final(solid_registry).wf(),
        (old(vertex_registry).spec_next_id() <= ID_CEILING - 32 && old(
            segment_registry,
        ).spec_next_id() <= ID_CEILING - 48 && old(polygon_registry).spec_next_id() <= ID_CEILING
            - 24 && old(solid_registry).spec_next_id() <= ID_CEILING - 4) ==> r is Some,
        match r {
            Some(id) => {
                &&& final(solid_registry).contents().dom().contains(id)
                &&& final(solid_registry).contents()[id].polygons@.len() == 6
                &&& final(vertex_registry).item_seq().len() == old(
                    vertex_registry,
                ).item_seq().len() + 8
                &&& final(segment_registry).item_seq().len() == old(
                    segment_registry,
                ).item_seq().len() + 12
                &&& final(polygon_registry).item_seq().len() == old(
                    polygon_registry,
                ).item_seq().len() + 6
                &&& forall|i: int|
                    0 <= i < 6 ==> final(polygon_registry).contents().dom().contains(
                        #[trigger] final(solid_registry).contents()[id].polygons@[i],
                    )
            },
            None => true,
        },
{
    // Phase 1: the eight corners.
    // Coordinate axes: x grows to the east, y to the north, z upward.
    let hw = width / 2;
    let hh = height / 2;
    let hd = depth / 2;

    let p_bbl = Point { x: -hw, y: -hd, z: -hh };
    let p_bbr = Point { x: hw, y: -hd, z: -hh };
    let p_bfr = Point { x: hw, y: hd, z: -hh };
    let p_bfl = Point { x: -hw, y: hd, z: -hh };
    let p_tbl = Point { x: -hw, y: -hd, z: hh };
    let p_tbr = Point { x: hw, y: -hd, z: hh };
    let p_tfr = Point { x: hw, y: hd, z: hh };
    let p_tfl = Point { x: -hw, y: hd, z: hh };

    let bottom_back_left = match vertex_registry.create_and_store(p_bbl) {
        Some(id) => id,
        None => {
            return None;
        },
    };
    let bottom_back_right = match vertex_registry.create_and_store(p_bbr) {
        Some(id) => id,
        None => {
            return None;
        },
    };
    let bottom_front_right = match vertex_registry.create_and_store(p_bfr) {
        Some(id) => id,
        None => {
            return None;
        },
    };
    let bottom_front_left = match vertex_registry.create_and_store(p_bfl) {
        Some(id) => id,
        None => {
            return None;
        },
    };
    let top_back_left = match vertex_registry.create_and_store(p_tbl) {
        Some(id) => id,
        None => {
            return None;
        },
    };
    let top_back_right = match vertex_registry.create_and_store(p_tbr) {
        Some(id) => id,
        None => {
            return None;
        },
    };
    let top_front_right = match vertex_registry.create_and_store(p_tfr) {
        Some(id) => id,
        None => {
            return None;
        },
    };
    let top_front_left = match vertex_registry.create_and_store(p_tfl) {
        Some(id) => id,
        None => {
            return None;
        },
    };

    let ghost verts = vertex_registry.contents();
    proof {
        assert(verts.dom().contains(bottom_back_left) && verts[bottom_back_left] == Vertex {
            id: bottom_back_left,
            position: p_bbl,
        });
        assert(verts.dom().contains(bottom_back_right) && verts[bottom_back_right] == Vertex {
            id: bottom_back_right,
            position: p_bbr,
        });
        assert(verts.dom().contains(bottom_front_right) && verts[bottom_front_right] == Vertex {
            id: bottom_front_right,
            position: p_bfr,
        });
        assert(verts.dom().contains(bottom_front_left) && verts[bottom_front_left] == Vertex {
            id: bottom_front_left,
            position: p_bfl,
        });
        assert(verts.dom().contains(top_back_left) && verts[top_back_left] == Vertex {
            id: top_back_left,
            position: p_tbl,
        });
        assert(verts.dom().contains(top_back_right) && verts[top_back_right] == Vertex {
            id: top_back_right,
            position: p_tbr,
        });
        assert(verts.dom().contains(top_front_right) && verts[top_front_right] == Vertex {
            id: top_front_right,
            position: p_tfr,
        });
        assert(verts.dom().contains(top_front_left) && verts[top_front_left] == Vertex {
            id: top_front_left,
            position: p_tfl,
        });
    }

    // Phase 2: the twelve edges.
    let bottom_left = match segment_registry.create_and_store(
        bottom_back_left,
        bottom_front_left,
        vertex_registry,
    ) {
        Some(id) => id,
        None => {
            return None;
        },
    };
    let bottom_back = match segment_registry.create_and_store(
        bottom_back_right,
        bottom_back_left,
        vertex_registry,
    ) {
        Some(id) => id,
        None => {
            return None;
        },
    };
    let bottom_right = match segment_registry.create_and_store(
        bottom_front_right,
        bottom_back_right,
        vertex_registry,
    ) {
        Some(id) => id,
        None => {
            return None;
        },
    };
    let bottom_front = match segment_registry.create_and_store(
        bottom_front_left,
        bottom_front_right,
        vertex_registry,
    ) {
        Some(id) => id,
        None => {
            return None;
        },
    };
    let top_left = match segment_registry.create_and_store(
        top_back_left,
        top_front_left,
        vertex_registry,
    ) {
        Some(id) => id,
        None => {
            return None;
        },
    };
    let top_back = match segment_registry.create_and_store(
        top_back_right,
        top_back_left,
        vertex_registry,
    ) {
        Some(id) => id,
        None => {
            return None;
        },
    };
    let top_right = match segment_registry.create_and_store(
        top_front_right,
        top_back_right,
        vertex_registry,
    ) {
        Some(id) => id,
        None => {
            return None;
        },
    };
    let top_front = match segment_registry.create_and_store(
        top_front_left,
        top_front_right,
        vertex_registry,
    ) {
        Some(id) => id,
        None => {
            return None;
        },
    };
    let back_left = match segment_registry.create_and_store(
        bottom_back_left,
        top_back_left,
        vertex_registry,
    ) {
        Some(id) => id,
        None => {
            return None;
        },
    };
    let back_right = match segment_registry.create_and_store(
        bottom_back_right,
        top_back_right,
        vertex_registry,
    ) {
        Some(id) => id,
        None => {
            return None;
        },
    };
    let front_right = match segment_registry.create_and_store(
        bottom_front_right,
        top_front_right,
        vertex_registry,
    ) {
        Some(id) => id,
        None => {
            return None;
        },
    };
    let front_left = match segment_registry.create_and_store(
        bottom_front_left,
        top_front_left,
        vertex_registry,
    ) {
        Some(id) => id,
        None => {
            return None;
        },
    };

    let ghost segs = segment_registry.contents();
    proof {
        assert(segs.dom().contains(bottom_left) && segs[bottom_left].vertices[0] == seg_lo(
            bottom_back_left,
            bottom_front_left,
        ) && segs[bottom_left].vertices[1] == seg_hi(bottom_back_left, bottom_front_left));
        assert(segs.dom().contains(bottom_back) && pair_is(
            (segs[bottom_back].vertices[0], segs[bottom_back].vertices[1]),
            bottom_back_right,
            bottom_back_left,
        ));
        assert(segs.dom().contains(bottom_right) && pair_is(
            (segs[bottom_right].vertices[0], segs[bottom_right].vertices[1]),
            bottom_front_right,
            bottom_back_right,
        ));
        assert(segs.dom().contains(bottom_front) && pair_is(
            (segs[bottom_front].vertices[0], segs[bottom_front].vertices[1]),
            bottom_front_left,
            bottom_front_right,
        ));
        assert(segs.dom().contains(top_left) && pair_is(
            (segs[top_left].vertices[0], segs[top_left].vertices[1]),
            top_back_left,
            top_front_left,
        ));
        assert(segs.dom().contains(top_back) && pair_is(
            (segs[top_back].vertices[0], segs[top_back].vertices[1]),
            top_back_right,
            top_back_left,
        ));
        assert(segs.dom().contains(top_right) && pair_is(
            (segs[top_right].vertices[0], segs[top_right].vertices[1]),
            top_front_right,
            top_back_right,
        ));
        assert(segs.dom().contains(top_front) && pair_is(
            (segs[top_front].vertices[0], segs[top_front].vertices[1]),
            top_front_left,
            top_front_right,
        ));
        assert(segs.dom().contains(back_left) && pair_is(
            (segs[back_left].vertices[0], segs[back_left].vertices[1]),
            bottom_back_left,
            top_back_left,
        ));
        assert(segs.dom().contains(back_right) && pair_is(
            (segs[back_right].vertices[0], segs[back_right].vertices[1]),
            bottom_back_right,
            top_back_right,
        ));
        assert(segs.dom().contains(front_right) && pair_is(
            (segs[front_right].vertices[0], segs[front_right].vertices[1]),
            bottom_front_right,
            top_front_right,
        ));
        assert(segs.dom().contains(front_left) && pair_is(
            (segs[front_left].vertices[0], segs[front_left].vertices[1]),
            bottom_front_left,
            top_front_left,
        ));
    }

    // Phase 3: the six faces, each a closed chain of four edges in an
    // axis-aligned plane, coplanar at tolerance zero.
    let face_bottom = vec![bottom_left, bottom_back, bottom_right, bottom_front];
    proof {
        assert(face_bottom@ =~= seq![bottom_left, bottom_back, bottom_right, bottom_front]);
        lemma_distinct_4(face_bottom@);
        lemma_quad_face_input_ok(
            face_bottom@,
            segs,
            verts,
            bottom_front_left,
            bottom_back_left,
            bottom_back_right,
            bottom_front_right,
            2,
        );
    }
    let bottom_face = match polygon_registry.create_and_store(
        face_bottom,
        segment_registry,
        vertex_registry,
        0,
    ) {
        Some(id) => id,
        None => {
            return None;
        },
    };

    let face_top = vec![top_right, top_back, top_left, top_front];
    proof {
        assert(face_top@ =~= seq![top_right, top_back, top_left, top_front]);
        lemma_distinct_4(face_top@);
        lemma_quad_face_input_ok(
            face_top@,
            segs,
            verts,
            top_front_right,
            top_back_right,
            top_back_left,
            top_front_left,
            2,
        );
    }
    let top_face = match polygon_registry.create_and_store(
        face_top,
        segment_registry,
        vertex_registry,
        0,
    ) {
        Some(id) => id,
        None => {
            return None;
        },
    };

    let face_back = vec![back_left, bottom_back, back_right, top_back];
    proof {
        assert(face_back@ =~= seq![back_left, bottom_back, back_right, top_back]);
        lemma_distinct_4(face_back@);
        lemma_quad_face_input_ok(
            face_back@,
            segs,
            verts,
            top_back_left,
            bottom_back_left,
            bottom_back_right,
            top_back_right,
            1,
        );
    }
    let back_face = match polygon_registry.create_and_store(
        face_back,
        segment_registry,
        vertex_registry,
        0,
    ) {
        Some(id) => id,
        None => {
            return None;
        },
    };

    let face_front = vec![front_left, bottom_front, front_right, top_front];
    proof {
        assert(face_front@ =~= seq![front_left, bottom_front, front_right, top_front]);
        lemma_distinct_4(face_front@);
        lemma_quad_face_input_ok(
            face_front@,
            segs,
            verts,
            top_front_left,
            bottom_front_left,
            bottom_front_right,
            top_front_right,
            1,
        );
    }
    let front_face = match polygon_registry.create_and_store(
        face_front,
        segment_registry,
        vertex_registry,
        0,
    ) {
        Some(id) => id,
        None => {
            return None;
        },
    };

    let face_left = vec![bottom_left, front_left, top_left, back_left];
    proof {
        assert(face_left@ =~= seq![bottom_left, front_left, top_left, back_left]);
        lemma_distinct_4(face_left@);
        lemma_quad_face_input_ok(
            face_left@,
            segs,
            verts,
            bottom_back_left,
            bottom_front_left,
            top_front_left,
            top_back_left,
            0,
        );
    }
    let left_face = match polygon_registry.create_and_store(
        face_left,
        segment_registry,
        vertex_registry,
        0,
    ) {
        Some(id) => id,
        None => {
            return None;
        },
    };

    let face_right = vec![bottom_right, back_right, top_right, front_right];
    proof {
        assert(face_right@ =~= seq![bottom_right, back_right, top_right, front_right]);
        lemma_distinct_4(face_right@);
        lemma_quad_face_input_ok(
            face_right@,
            segs,
            verts,
            bottom_front_right,
            bottom_back_right,
            top_back_right,
            top_front_right,
            0,
        );
    }
    let right_face = match polygon_registry.create_and_store(
        face_right,
        segment_registry,
        vertex_registry,
        0,
    ) {
        Some(id) => id,
        None => {
            return None;
        },
    };

    // Phase 4: the solid over all six faces.
    let mut face_ids: Vec<u64> = Vec::new();
    face_ids.push(bottom_face);
    face_ids.push(top_face);
    face_ids.push(back_face);
    face_ids.push(front_face);
    face_ids.push(left_face);
    face_ids.push(right_face);
    solid_registry.create_and_store(face_ids, polygon_registry)
}

/// Build a cube: a rectangular solid with equal width, height and depth.
pub fn create_cube_solid(
    side_length: i64,
    vertex_registry: &mut VertexRegistry,
    segment_registry: &mut SegmentRegistry,
    polygon_registry: &mut PolygonRegistry,
    solid_registry: &mut SolidRegistry,
) -> (r: Option<u64>)
    requires
        old(vertex_registry).wf(),
        old(segment_registry).wf(),
        old(polygon_registry).wf(),
        old(solid_registry).wf(),
        0 <= side_length <= 2 * COORD_LIMIT,
    ensures
        final(vertex_registry).wf(),
        final(segment_registry).wf(),
        final(polygon_registry).wf(),
        final(solid_registry).wf(),
        (old(vertex_registry).spec_next_id() <= ID_CEILING - 32 && old(
            segment_registry,
        ).spec_next_id() <= ID_CEILING - 48 && old(polygon_registry).spec_next_id() <= ID_CEILING
            - 24 && old(solid_registry).spec_next_id() <= ID_CEILING - 4) ==> r is Some,
        match r {
            Some(id) => {
                &&& final(solid_registry).contents().dom().contains(id)
                &&& final(solid_registry).contents()[id].polygons@.len() == 6
                &&& final(vertex_registry).item_seq().len() == old(
                    vertex_registry,
                ).item_seq().len() + 8
                &&& final(segment_registry).item_seq().len() == old(
                    segment_registry,
                ).item_seq().len() + 12
                &&& final(polygon_registry).item_seq().len() == old(
                    polygon_registry,
                ).item_seq().len() + 6
            },
            None => true,
        },
{
    create_rectangular_solid(
        side_length,
        side_length,
        side_length,
        vertex_registry,
        segment_registry,
        polygon_registry,
        solid_registry,
    )
}

} // verus!
