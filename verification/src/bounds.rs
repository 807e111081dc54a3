//! Fixed-point 3D vectors and axis-aligned bounding volumes.
//!
//! Coordinates are plain `i64` values in fixed-point units (a caller picks the
//! scale; `crate::planet` uses [`crate::planet::UNIT`] units per world unit).
//! Every coordinate the engine works with is kept within
//! [`COORD_LIMIT`] so that squared distances and squared sizes fit
//! comfortably in `i128` and all arithmetic can be proved exact.

use vstd::prelude::*;

verus! {

/// Largest magnitude a coordinate may take (2^46 fixed-point units).
///
/// With every coordinate bounded by this, an axis extent is at most 2^47, a
/// squared extent at most 2^94, and a squared distance at most 3 * 2^94, all
/// far inside the range of `i128`.
pub const COORD_LIMIT: i64 = 0x4000_0000_0000;

/// Whether a single coordinate lies within the engine's working range.
pub open spec fn in_coord_range(c: int) -> bool {
    -COORD_LIMIT <= c <= COORD_LIMIT
}

/// The square of an integer.
#[verifier::inline]
pub open spec fn sq(a: int) -> int {
    a * a
}

/// Squares are monotone in the magnitude of their argument.
pub(crate) proof fn lemma_sq_bound(a: int, b: int)
    requires
        -b <= a <= b,
    ensures
        0 <= sq(a) <= sq(b),
{
    assert(0 <= a * a <= b * b) by (nonlinear_arith)
        requires
            -b <= a <= b,
    ;
}

/// A 3D point or direction in fixed-point coordinates.
#[derive(Clone, Copy, PartialEq, Eq, Structural, Debug)]
pub struct Vec3i {
    pub x: i64,
    pub y: i64,
    pub z: i64,
}

impl Vec3i {
    /// All three coordinates lie within the engine's working range.
    pub open spec fn wf(self) -> bool {
        &&& in_coord_range(self.x as int)
        &&& in_coord_range(self.y as int)
        &&& in_coord_range(self.z as int)
    }

    /// Squared Euclidean distance between two points.
    pub open spec fn dist_sq(self, other: Vec3i) -> int {
        sq(self.x - other.x) + sq(self.y - other.y) + sq(self.z - other.z)
    }

    /// Computes the squared Euclidean distance to `other` exactly.
    pub fn distance_squared(&self, other: &Vec3i) -> (r: i128)
        requires
            self.wf(),
            other.wf(),
        ensures
            r == self.dist_sq(*other),
            r >= 0,
    {
        let dx: i128 = self.x as i128 - other.x as i128;
        let dy: i128 = self.y as i128 - other.y as i128;
        let dz: i128 = self.z as i128 - other.z as i128;
        proof {
            lemma_sq_bound(dx as int, 2 * COORD_LIMIT as int);
            lemma_sq_bound(dy as int, 2 * COORD_LIMIT as int);
            lemma_sq_bound(dz as int, 2 * COORD_LIMIT as int);
        }
        dx * dx + dy * dy + dz * dz
    }

    /// Checks that all three coordinates are within the working range.
    pub fn in_range(&self) -> (b: bool)
        ensures
            b == self.wf(),
    {
        -COORD_LIMIT <= self.x && self.x <= COORD_LIMIT && -COORD_LIMIT <= self.y && self.y
            <= COORD_LIMIT && -COORD_LIMIT <= self.z && self.z <= COORD_LIMIT
    }
}

/// The midpoint of `[a, b]`, rounded towards `a`.
pub open spec fn mid(a: int, b: int) -> int {
    a + (b - a) / 2
}

/// For an ordered pair within range, the midpoint stays between the two.
pub(crate) proof fn lemma_mid_between(a: int, b: int)
    requires
        a <= b,
    ensures
        a <= mid(a, b) <= b,
{
    assert(0 <= (b - a) / 2 <= b - a);
}

/// An axis-aligned volume, described by its minimum and maximum corners.
#[derive(Clone, Copy, PartialEq, Eq, Structural, Debug)]
pub struct NodeBounds {
    pub min: Vec3i,
    pub max: Vec3i,
}

impl NodeBounds {
    /// Both corners are in range and ordered component-wise.
    ///
    /// All derived geometry (centre, size, octants) is meaningful only for
    /// well-formed bounds; [`NodeBounds::new`] rejects anything else.
    pub open spec fn wf(self) -> bool {
        &&& self.min.wf()
        &&& self.max.wf()
        &&& self.min.x <= self.max.x
        &&& self.min.y <= self.max.y
        &&& self.min.z <= self.max.z
    }

    /// The x coordinate of the volume's centre.
    pub open spec fn centre_x(self) -> int {
        mid(self.min.x as int, self.max.x as int)
    }

    /// The y coordinate of the volume's centre.
    pub open spec fn centre_y(self) -> int {
        mid(self.min.y as int, self.max.y as int)
    }

    /// The z coordinate of the volume's centre.
    pub open spec fn centre_z(self) -> int {
        mid(self.min.z as int, self.max.z as int)
    }

    /// The edge length along the x axis.
    pub open spec fn extent_x(self) -> int {
        self.max.x - self.min.x
    }

    /// The edge length along the y axis.
    pub open spec fn extent_y(self) -> int {
        self.max.y - self.min.y
    }

    /// The edge length along the z axis.
    pub open spec fn extent_z(self) -> int {
        self.max.z - self.min.z
    }

    /// The single scalar characterising the volume's span: its largest edge
    /// length.  This is the refinement threshold used by the octree: an
    /// observer strictly closer to the centre than this makes a node split.
    ///
    /// Doubling every edge length doubles this value, so the threshold is
    /// monotone in the volume's extent.
    pub open spec fn size_spec(self) -> int {
        max3(self.extent_x(), self.extent_y(), self.extent_z())
    }

    /// The number of lattice points of the half-open box `[min, max)`,
    /// equal to the product of the three edge lengths.
    pub open spec fn volume(self) -> int {
        self.extent_x() * self.extent_y() * self.extent_z()
    }

    /// Whether a point lies in the half-open box `[min, max)`.
    ///
    /// Treating each volume as half-open makes the eight octants of a parent
    /// tile it exactly, with no point shared between two octants.
    pub open spec fn contains(self, p: Vec3i) -> bool {
        &&& self.min.x <= p.x < self.max.x
        &&& self.min.y <= p.y < self.max.y
        &&& self.min.z <= p.z < self.max.z
    }

    /// The squared distance from this volume's centre to `p`.
    pub open spec fn centre_dist_sq(self, p: Vec3i) -> int {
        sq(p.x - self.centre_x()) + sq(p.y - self.centre_y()) + sq(p.z - self.centre_z())
    }

    /// Octant `i` (for `0 <= i < 8`) of this volume: each axis is bisected at
    /// its midpoint, and bit 0 of `i` selects the upper x half, bit 1 the
    /// upper y half, bit 2 the upper z half.  Octant order is fixed, so code
    /// that indexes children positionally is stable across calls.
    pub open spec fn child_octant(self, i: int) -> NodeBounds {
        let xm = mid(self.min.x as int, self.max.x as int) as i64;
        let ym = mid(self.min.y as int, self.max.y as int) as i64;
        let zm = mid(self.min.z as int, self.max.z as int) as i64;
        NodeBounds {
            min: Vec3i {
                x: if i % 2 == 0 {
                    self.min.x
                } else {
                    xm
                },
                y: if (i / 2) % 2 == 0 {
                    self.min.y
                } else {
                    ym
                },
                z: if i / 4 == 0 {
                    self.min.z
                } else {
                    zm
                },
            },
            max: Vec3i {
                x: if i % 2 == 0 {
                    xm
                } else {
                    self.max.x
                },
                y: if (i / 2) % 2 == 0 {
                    ym
                } else {
                    self.max.y
                },
                z: if i / 4 == 0 {
                    zm
                } else {
                    self.max.z
                },
            },
        }
    }

    /// Builds bounds from two corners, rejecting any pair that is out of
    /// range or not ordered component-wise.
    pub fn new(min: Vec3i, max: Vec3i) -> (r: Option<NodeBounds>)
        ensures
            r == (if (NodeBounds { min, max }).wf() {
                Some(NodeBounds { min, max })
            } else {
                None::<NodeBounds>
            }),
    {
        if min.in_range() && max.in_range() && min.x <= max.x && min.y <= max.y && min.z <= max.z {
            Some(NodeBounds { min, max })
        } else {
            None
        }
    }

    /// Checks the well-formedness invariant at run time.
    pub fn is_well_formed(&self) -> (b: bool)
        ensures
            b == self.wf(),
    {
        self.min.in_range() && self.max.in_range() && self.min.x <= self.max.x && self.min.y
            <= self.max.y && self.min.z <= self.max.z
    }

    /// Lists the six corner coordinates in the order x min, y min, z min,
    /// x max, y max, z max.
    pub fn unpack(&self) -> (r: [i64; 6])
        ensures
            r@ == seq![self.min.x, self.min.y, self.min.z, self.max.x, self.max.y, self.max.z],
    {
        let r = [self.min.x, self.min.y, self.min.z, self.max.x, self.max.y, self.max.z];
        proof {
            assert(r@ =~= seq![
                self.min.x,
                self.min.y,
                self.min.z,
                self.max.x,
                self.max.y,
                self.max.z,
            ]);
        }
        r
    }

    /// Computes the centre: the component-wise midpoint of the two corners,
    /// rounded towards the minimum corner.
    pub fn get_centre(&self) -> (c: Vec3i)
        requires
            self.wf(),
        ensures
            c.x == self.centre_x(),
            c.y == self.centre_y(),
            c.z == self.centre_z(),
            c.wf(),
    {
        proof {
            lemma_mid_between(self.min.x as int, self.max.x as int);
            lemma_mid_between(self.min.y as int, self.max.y as int);
            lemma_mid_between(self.min.z as int, self.max.z as int);
        }
        Vec3i {
            x: self.min.x + (self.max.x - self.min.x) / 2,
            y: self.min.y + (self.max.y - self.min.y) / 2,
            z: self.min.z + (self.max.z - self.min.z) / 2,
        }
    }

    /// Computes the volume's characteristic size: its largest edge length.
    pub fn get_size(&self) -> (s: i64)
        requires
            self.wf(),
        ensures
            s == self.size_spec(),
            0 <= s <= 2 * COORD_LIMIT,
    {
        let ex = self.max.x - self.min.x;
        let ey = self.max.y - self.min.y;
        let ez = self.max.z - self.min.z;
        if ex >= ey && ex >= ez {
            ex
        } else if ey >= ez {
            ey
        } else {
            ez
        }
    }
}

/// Every octant of well-formed bounds is itself well formed.
pub proof fn lemma_child_octant_wf(b: NodeBounds, i: int)
    requires
        b.wf(),
        0 <= i < 8,
    ensures
        b.child_octant(i).wf(),
{
    lemma_mid_between(b.min.x as int, b.max.x as int);
    lemma_mid_between(b.min.y as int, b.max.y as int);
    lemma_mid_between(b.min.z as int, b.max.z as int);
}

/// The eight octants exactly tile their parent: a point of the half-open
/// parent box lies in exactly one octant, and a point of an octant lies in
/// the parent.
pub proof fn lemma_child_octants_tile(b: NodeBounds, p: Vec3i)
    requires
        b.wf(),
    ensures
        b.contains(p) <==> exists|i: int|
            0 <= i < 8 && (#[trigger] b.child_octant(i)).contains(p),
        forall|i: int, j: int|
            0 <= i < 8 && 0 <= j < 8 && i != j ==> !((#[trigger] b.child_octant(i)).contains(p)
                && (#[trigger] b.child_octant(j)).contains(p)),
{
    lemma_mid_between(b.min.x as int, b.max.x as int);
    lemma_mid_between(b.min.y as int, b.max.y as int);
    lemma_mid_between(b.min.z as int, b.max.z as int);
    let xm = mid(b.min.x as int, b.max.x as int) as i64;
    let ym = mid(b.min.y as int, b.max.y as int) as i64;
    let zm = mid(b.min.z as int, b.max.z as int) as i64;
    if b.contains(p) {
        let i = (if p.x >= xm {
            1int
        } else {
            0int
        }) + 2 * (if p.y >= ym {
            1int
        } else {
            0int
        }) + 4 * (if p.z >= zm {
            1int
        } else {
            0int
        });
        assert(0 <= i < 8);
        assert(b.child_octant(i).contains(p));
    }
}

/// The volumes of the eight octants add up to the parent's volume, whatever
/// the parent's edge lengths; and when every edge length is even, each octant
/// takes exactly one eighth of the parent's volume.
pub proof fn lemma_child_octant_volumes(b: NodeBounds)
    requires
        b.wf(),
    ensures
        b.child_octant(0).volume() + b.child_octant(1).volume() + b.child_octant(2).volume()
            + b.child_octant(3).volume() + b.child_octant(4).volume() + b.child_octant(5).volume()
            + b.child_octant(6).volume() + b.child_octant(7).volume() == b.volume(),
        b.extent_x() % 2 == 0 && b.extent_y() % 2 == 0 && b.extent_z() % 2 == 0 ==> forall|i: int|
            0 <= i < 8 ==> (#[trigger] b.child_octant(i)).volume() == b.volume() / 8,
{
    lemma_mid_between(b.min.x as int, b.max.x as int);
    lemma_mid_between(b.min.y as int, b.max.y as int);
    lemma_mid_between(b.min.z as int, b.max.z as int);
    let xm = mid(b.min.x as int, b.max.x as int);
    let ym = mid(b.min.y as int, b.max.y as int);
    let zm = mid(b.min.z as int, b.max.z as int);
    let lx = xm - b.min.x;
    let hx = b.max.x - xm;
    let ly = ym - b.min.y;
    let hy = b.max.y - ym;
    let lz = zm - b.min.z;
    let hz = b.max.z - zm;
    assert((lx + hx) * (ly + hy) == lx * ly + hx * ly + lx * hy + hx * hy) by (nonlinear_arith);
    assert((lx * ly + hx * ly + lx * hy + hx * hy) * (lz + hz) == (lx * ly) * lz + (hx * ly) * lz
        + (lx * hy) * lz + (hx * hy) * lz + (lx * ly) * hz + (hx * ly) * hz + (lx * hy) * hz + (hx
        * hy) * hz) by (nonlinear_arith);
    if b.extent_x() % 2 == 0 && b.extent_y() % 2 == 0 && b.extent_z() % 2 == 0 {
        assert(lx == hx && ly == hy && lz == hz);
        assert((lx + hx) * (ly + hy) * (lz + hz) == 8 * (lx * ly * lz)) by (nonlinear_arith)
            requires
                lx == hx && ly == hy && lz == hz,
        ;
        assert((8 * (lx * ly * lz)) / 8 == lx * ly * lz);
        assert forall|i: int| 0 <= i < 8 implies (#[trigger] b.child_octant(i)).volume()
            == b.volume() / 8 by {
            assert(b.child_octant(i).volume() == lx * ly * lz);
        }
    }
}

/// The largest of three integers.
pub open spec fn max3(a: int, b: int, c: int) -> int {
    if a >= b && a >= c {
        a
    } else if b >= c {
        b
    } else {
        c
    }
}

} // verus!
