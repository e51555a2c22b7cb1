use crate::polygon::PolygonRegistry;
use crate::segment::SegmentRegistry;
use crate::solid::SolidRegistry;
use crate::vertex::VertexRegistry;
use vstd::prelude::*;

verus! {

/// The authoritative store of all geometry, composed of the four registries.
///
/// All cross-references between entities are by identifier, never by direct
/// reference; the kind tag in every identifier keeps the four identifier
/// spaces disjoint.
pub struct GeometryRegistry {
    /// The vertices in the registry.
    pub vertices: VertexRegistry,
    /// The segments in the registry.
    pub segments: SegmentRegistry,
    /// The polygons in the registry.
    pub polygons: PolygonRegistry,
    /// The solids in the registry.
    pub solids: SolidRegistry,
}

impl GeometryRegistry {
    /// All four registries are well-formed.
    pub open spec fn wf(self) -> bool {
        &&& self.vertices.wf()
        &&& self.segments.wf()
        &&& self.polygons.wf()
        &&& self.solids.wf()
    }

    /// Create a registry with no geometry.
    pub fn create_new() -> (r: GeometryRegistry)
        ensures
            r.wf(),
            r.vertices.contents() == Map::<u64, crate::vertex::Vertex>::empty(),
            r.segments.contents() == Map::<u64, crate::segment::Segment>::empty(),
            r.polygons.contents() == Map::<u64, crate::polygon::Polygon>::empty(),
            r.solids.contents() == Map::<u64, crate::solid::Solid>::empty(),
    {
        GeometryRegistry {
            vertices: VertexRegistry::create_new(),
            segments: SegmentRegistry::create_new(),
            polygons: PolygonRegistry::create_new(),
            solids: SolidRegistry::create_new(),
        }
    }
}

/// A named geometry scope with its own tolerance.
///
/// Tiers are the basis of the hierarchical geometry system: each tier is
/// propagated to the next in a one-way relationship.
pub struct Tier {
    /// The name of the tier.
    pub name: String,
    /// The geometry identifiers associated with the tier.
    pub geometry: Vec<u64>,
    /// The tolerance of the tier, in coordinate units.
    pub tolerance: i64,
}

} // verus!
