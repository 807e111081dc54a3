//! The spherical body whose level of detail the octree manages.
//!
//! The planet couples a radius with the octree root covering its
//! circumscribing cube.  Geometry is carried in fixed-point coordinates,
//! [`UNIT`] units per world unit, so the body of radius one world unit has
//! radius [`UNIT`] here.

use vstd::prelude::*;

use crate::bounds::{lemma_sq_bound, sq, NodeBounds, Vec3i, COORD_LIMIT};
use crate::octree::{updated_shape, Node, NodeState};

verus! {

/// Fixed-point coordinate units per world unit.
pub const UNIT: i64 = 1024;

/// A procedurally represented spherical body: its radius and the octree
/// that tracks observer proximity over its volume.
#[derive(Debug)]
pub struct Planet {
    /// The body's radius, in fixed-point units.
    pub radius: i64,
    /// The root of the level-of-detail octree.
    pub octree: Node,
}

impl Planet {
    /// The radius is in range and the octree is structurally well formed.
    pub open spec fn wf(self) -> bool {
        &&& 0 <= self.radius <= COORD_LIMIT
        &&& self.octree.wf()
    }

    /// Creates a planet of radius one world unit, with an unsplit octree
    /// root covering the body's circumscribing cube.
    pub fn new() -> (p: Planet)
        ensures
            p.wf(),
            p.radius == UNIT,
            p.octree.bounds == (NodeBounds {
                min: Vec3i { x: (-UNIT) as i64, y: (-UNIT) as i64, z: (-UNIT) as i64 },
                max: Vec3i { x: UNIT, y: UNIT, z: UNIT },
            }),
            p.octree.state == NodeState::Unsplit,
            p.octree.children@.len() == 0,
    {
        let octree = Node::new(
            NodeBounds {
                min: Vec3i { x: -UNIT, y: -UNIT, z: -UNIT },
                max: Vec3i { x: UNIT, y: UNIT, z: UNIT },
            },
        );

        Planet { radius: UNIT, octree }
    }

    /// The body's membership field, in fixed-point: full density ([`UNIT`],
    /// standing for one) at points within the radius of the origin, zero
    /// density beyond it.
    ///
    /// Distances are compared through their squares, which is exact on
    /// integers and agrees with comparing the distances themselves, since
    /// neither a distance nor the radius is negative.
    pub fn noise_function(&self, point: Vec3i) -> (noise: i64)
        requires
            self.wf(),
            point.wf(),
        ensures
            noise == (if point.dist_sq((Vec3i { x: 0, y: 0, z: 0 })) > sq(self.radius as int) {
                0int
            } else {
                UNIT as int
            }),
    {
        let mut noise: i64 = UNIT;

        let d2 = point.distance_squared(&(Vec3i { x: 0, y: 0, z: 0 }));
        proof {
            lemma_sq_bound(self.radius as int, COORD_LIMIT as int);
        }
        let r2: i128 = (self.radius as i128) * (self.radius as i128);

        if d2 > r2 {
            noise = 0;
        }
        noise
    }

    /// One refresh cycle: re-evaluates octree refinement from the current
    /// observer positions, refining at most `max_depth` levels below the
    /// root.  Each call is a full re-evaluation from the positions handed
    /// in; nothing is buffered or diffed between calls.
    pub fn update_octree(&mut self, cameras: &Vec<Vec3i>, max_depth: u32)
        requires
            old(self).wf(),
            forall|k: int| 0 <= k < cameras@.len() ==> (#[trigger] cameras@[k]).wf(),
        ensures
            final(self).wf(),
            final(self).radius == old(self).radius,
            final(self).octree.bounds == old(self).octree.bounds,
            final(self).octree.child == old(self).octree.child,
            final(self).octree.shape() == updated_shape(
                old(self).octree.bounds,
                cameras@,
                max_depth as nat,
            ),
    {
        self.octree.update(cameras, max_depth);
    }
}

} // verus!
