//! The recursive spatial unit of the octree and its refinement policy.
//!
//! A [`Node`] owns an axis-aligned volume, an opaque [`Leaf`] payload and,
//! while split, the eight child nodes covering its octants.  [`Node::update`]
//! re-evaluates the refinement decision from a set of observer positions:
//! the node splits whenever some observer is strictly closer to its centre
//! than its characteristic size, and collapses back otherwise.

use vstd::prelude::*;

use crate::bounds::{lemma_child_octant_wf, lemma_sq_bound, sq, NodeBounds, Vec3i, COORD_LIMIT};

verus! {

/// The two refinement states of a node: terminal, or subdivided into eight
/// children.
#[derive(Clone, Copy, PartialEq, Eq, Structural, Debug)]
pub enum NodeState {
    Unsplit,
    Split,
}

/// The payload of a terminal node.
///
/// The spatial engine treats it as an opaque marker: a collaborator (a mesh
/// builder, a density cache) decides what to attach to a terminal node; the
/// octree only propagates it through the node's lifecycle.
#[derive(Clone, Copy, PartialEq, Eq, Structural, Debug)]
pub struct Leaf {}

impl Leaf {
    /// An empty payload for a freshly created node.
    fn new() -> (l: Leaf)
        ensures
            l == (Leaf {  }),
    {
        Leaf {  }
    }
}

/// The shape of a subtree: the branching structure alone, with bounds and
/// payloads stripped.  Together with the root's bounds this determines a
/// well-formed tree completely, since every child's bounds is a fixed
/// function of its parent's.
#[verifier::ext_equal]
pub enum TreeShape {
    /// The node is terminal.
    Terminal,
    /// The node is split into eight subtrees, listed in octant order.
    Branch(Seq<TreeShape>),
}

/// The core recursive spatial unit: a volume, an opaque payload, and, while
/// split, the eight children covering the volume's octants.
#[derive(Debug)]
pub struct Node {
    /// The volume this node covers; fixed for the node's lifetime.
    pub bounds: NodeBounds,
    /// The opaque terminal payload; present regardless of split state.
    pub child: Leaf,
    /// The eight children, in octant order, while split; empty otherwise.
    pub children: Vec<Node>,
    /// Whether the node is currently subdivided.
    pub state: NodeState,
}

impl Node {
    /// Structural well-formedness: the bounds are well formed, and the node
    /// has no children while unsplit, or exactly the eight octant children,
    /// recursively well formed, while split.
    pub open spec fn wf(self) -> bool
        decreases self,
    {
        &&& self.bounds.wf()
        &&& match self.state {
            NodeState::Unsplit => self.children@.len() == 0,
            NodeState::Split => {
                &&& self.children@.len() == 8
                &&& forall|i: int|
                    0 <= i < 8 ==> (#[trigger] self.children@[i]).bounds
                        == self.bounds.child_octant(i)
                &&& forall|i: int| 0 <= i < 8 ==> (#[trigger] self.children@[i]).wf()
            },
        }
    }

    /// The branching structure of the subtree rooted here.
    pub open spec fn shape(self) -> TreeShape
        decreases self,
    {
        match self.state {
            NodeState::Unsplit => TreeShape::Terminal,
            NodeState::Split => TreeShape::Branch(
                Seq::new(
                    self.children@.len(),
                    |i: int|
                        if 0 <= i < self.children@.len() {
                            self.children@[i].shape()
                        } else {
                            TreeShape::Terminal
                        },
                ),
            ),
        }
    }

    /// Creates a terminal node covering `bounds`, with an empty payload and
    /// no children.
    pub fn new(bounds: NodeBounds) -> (n: Node)
        requires
            bounds.wf(),
        ensures
            n.bounds == bounds,
            n.state == NodeState::Unsplit,
            n.children@.len() == 0,
            n.child == (Leaf {  }),
            n.wf(),
            n.shape() == TreeShape::Terminal,
    {
        Node { bounds, child: Leaf::new(), children: Vec::new(), state: NodeState::Unsplit }
    }

    /// Lists the nine split coordinates: minimum, midpoint and maximum along
    /// each axis, x first, then y, then z.
    pub fn get_split_points(bounds: &NodeBounds) -> (r: [i64; 9])
        requires
            bounds.wf(),
        ensures
            r@ == seq![
                bounds.min.x,
                bounds.centre_x() as i64,
                bounds.max.x,
                bounds.min.y,
                bounds.centre_y() as i64,
                bounds.max.y,
                bounds.min.z,
                bounds.centre_z() as i64,
                bounds.max.z,
            ],
    {
        let c = bounds.get_centre();
        let r = [
            bounds.min.x,
            c.x,
            bounds.max.x,
            bounds.min.y,
            c.y,
            bounds.max.y,
            bounds.min.z,
            c.z,
            bounds.max.z,
        ];
        proof {
            assert(r@ =~= seq![
                bounds.min.x,
                bounds.centre_x() as i64,
                bounds.max.x,
                bounds.min.y,
                bounds.centre_y() as i64,
                bounds.max.y,
                bounds.min.z,
                bounds.centre_z() as i64,
                bounds.max.z,
            ]);
        }
        r
    }

    /// Lists the six corner coordinates of all eight octants, in octant
    /// order; each row reads x low, x high, y low, y high, z low, z high.
    pub fn get_child_bounds(bounds: &NodeBounds) -> (r: [[i64; 6]; 8])
        requires
            bounds.wf(),
        ensures
            forall|i: int|
                0 <= i < 8 ==> bounds_from_row((#[trigger] r@[i])@) == bounds.child_octant(i),
    {
        let sp = Node::get_split_points(bounds);
        let xmin = sp[0];
        let xmid = sp[1];
        let xmax = sp[2];
        let ymin = sp[3];
        let ymid = sp[4];
        let ymax = sp[5];
        let zmin = sp[6];
        let zmid = sp[7];
        let zmax = sp[8];
        let r = [
            [xmin, xmid, ymin, ymid, zmin, zmid],
            [xmid, xmax, ymin, ymid, zmin, zmid],
            [xmin, xmid, ymid, ymax, zmin, zmid],
            [xmid, xmax, ymid, ymax, zmin, zmid],
            [xmin, xmid, ymin, ymid, zmid, zmax],
            [xmid, xmax, ymin, ymid, zmid, zmax],
            [xmin, xmid, ymid, ymax, zmid, zmax],
            [xmid, xmax, ymid, ymax, zmid, zmax],
        ];
        proof {
            assert(bounds_from_row(r@[0]@) =~= bounds.child_octant(0));
            assert(bounds_from_row(r@[1]@) =~= bounds.child_octant(1));
            assert(bounds_from_row(r@[2]@) =~= bounds.child_octant(2));
            assert(bounds_from_row(r@[3]@) =~= bounds.child_octant(3));
            assert(bounds_from_row(r@[4]@) =~= bounds.child_octant(4));
            assert(bounds_from_row(r@[5]@) =~= bounds.child_octant(5));
            assert(bounds_from_row(r@[6]@) =~= bounds.child_octant(6));
            assert(bounds_from_row(r@[7]@) =~= bounds.child_octant(7));
        }
        r
    }

    /// Appends a fresh terminal child covering the volume a row of
    /// [`Node::get_child_bounds`] describes.
    fn add_child(&mut self, bounds: [i64; 6])
        requires
            bounds_from_row(bounds@).wf(),
            old(self).children@.len() < 8,
        ensures
            final(self).bounds == old(self).bounds,
            final(self).state == old(self).state,
            final(self).child == old(self).child,
            final(self).children@.len() == old(self).children@.len() + 1,
            forall|j: int|
                0 <= j < old(self).children@.len() ==> final(self).children@[j] == old(
                    self,
                ).children@[j],
            ({
                let n = final(self).children@.last();
                n.bounds == bounds_from_row(bounds@) && n.state == NodeState::Unsplit
                    && n.children@.len() == 0 && n.child == (Leaf {  }) && n.wf()
            }),
    {
        let xmin = bounds[0];
        let xmax = bounds[1];
        let ymin = bounds[2];
        let ymax = bounds[3];
        let zmin = bounds[4];
        let zmax = bounds[5];

        let new_node = Node::new(
            NodeBounds {
                min: Vec3i { x: xmin, y: ymin, z: zmin },
                max: Vec3i { x: xmax, y: ymax, z: zmax },
            },
        );

        self.children.push(new_node);
    }

    /// Subdivides the node into its eight octant children.
    ///
    /// A no-op on a node that is already split, so calling it twice in a row
    /// yields the very children that one call yields.  On an unsplit node it
    /// creates one fresh terminal child per octant, in octant order, and
    /// moves to the split state.  The node's own bounds and payload are
    /// untouched, and no other node is.
    pub fn split(&mut self)
        requires
            old(self).wf(),
        ensures
            final(self).wf(),
            final(self).bounds == old(self).bounds,
            final(self).child == old(self).child,
            final(self).state == NodeState::Split,
            final(self).children@.len() == 8,
            old(self).state == NodeState::Split ==> *final(self) == *old(self),
            forall|i: int|
                0 <= i < 8 ==> (#[trigger] final(self).children@[i]).bounds == old(
                    self,
                ).bounds.child_octant(i),
            old(self).state == NodeState::Unsplit ==> forall|i: int|
                0 <= i < 8 ==> (#[trigger] final(self).children@[i]).state == NodeState::Unsplit
                    && final(self).children@[i].children@.len() == 0,
    {
        match self.state {
            NodeState::Split => {},
            NodeState::Unsplit => {
                let child_bounds = Node::get_child_bounds(&self.bounds);

                let mut i: usize = 0;
                while i < 8
                    invariant
                        i <= 8,
                        self.bounds == old(self).bounds,
                        self.state == NodeState::Unsplit,
                        self.child == old(self).child,
                        old(self).bounds.wf(),
                        self.children@.len() == i,
                        forall|k: int|
                            0 <= k < 8 ==> bounds_from_row((#[trigger] child_bounds@[k])@) == old(
                                self,
                            ).bounds.child_octant(k),
                        forall|j: int|
                            0 <= j < i ==> (#[trigger] self.children@[j]).bounds == old(
                                self,
                            ).bounds.child_octant(j) && self.children@[j].state
                                == NodeState::Unsplit && self.children@[j].children@.len() == 0
                                && self.children@[j].child == (Leaf {  }) && self.children@[j].wf(),
                    decreases 8 - i,
                {
                    proof {
                        lemma_child_octant_wf(old(self).bounds, i as int);
                    }
                    self.add_child(child_bounds[i]);
                    i += 1;
                }

                self.state = NodeState::Split;
            },
        }
    }
}

impl Node {
    /// Recursively unsplits and discards every child.
    fn dispose_children(&mut self)
        requires
            old(self).wf(),
        ensures
            final(self).bounds == old(self).bounds,
            final(self).state == old(self).state,
            final(self).child == old(self).child,
            final(self).children@.len() == 0,
        decreases *old(self), 0int,
    {
        proof {
            assert(old(self).children@.subrange(0, old(self).children@.len() as int) =~= old(
                self,
            ).children@);
        }
        loop
            invariant
                self.bounds == old(self).bounds,
                self.state == old(self).state,
                self.child == old(self).child,
                self.children@.len() <= old(self).children@.len(),
                self.children@ == old(self).children@.subrange(0, self.children@.len() as int),
                forall|j: int|
                    0 <= j < old(self).children@.len() ==> (#[trigger] old(
                        self,
                    ).children@[j]).wf(),
            ensures
                self.bounds == old(self).bounds,
                self.state == old(self).state,
                self.child == old(self).child,
                self.children@.len() == 0,
            decreases self.children@.len(),
        {
            let popped = self.children.pop();
            match popped {
                Some(mut node) => {
                    proof {
                        let k = self.children@.len() as int;
                        assert(node == old(self).children@[k]);
                        assert(decreases_to!(*old(self) => old(self).children@[k]));
                    }
                    node.unsplit();
                },
                None => {
                    break ;
                },
            }
        }
    }

    /// Collapses the node back to a terminal one.
    ///
    /// A no-op on a node that is already unsplit.  On a split node it first
    /// recursively unsplits every child, so that any deeper split
    /// descendants fully collapse and the entire subtree is freed, then
    /// discards the child collection and moves to the unsplit state.  The
    /// node's own bounds and payload are untouched, and no other node is.
    pub fn unsplit(&mut self)
        requires
            old(self).wf(),
        ensures
            final(self).wf(),
            final(self).state == NodeState::Unsplit,
            final(self).children@.len() == 0,
            final(self).bounds == old(self).bounds,
            final(self).child == old(self).child,
            final(self).shape() == TreeShape::Terminal,
            old(self).state == NodeState::Unsplit ==> *final(self) == *old(self),
        decreases *old(self), 1int,
    {
        match self.state {
            NodeState::Unsplit => {},
            NodeState::Split => {
                self.dispose_children();
                self.state = NodeState::Unsplit;
            },
        }
    }
}

/// Whether some observer lies strictly closer to the centre of `b` than the
/// refinement threshold, the characteristic size of `b`.  Distances are
/// compared through their squares, which is exact on integers.
pub open spec fn close_to_any(b: NodeBounds, cams: Seq<Vec3i>) -> bool {
    exists|k: int|
        0 <= k < cams.len() && b.centre_dist_sq(#[trigger] cams[k]) < sq(b.size_spec())
}

/// The tree shape that one update pass produces for a node covering `b`,
/// given the observer set and the remaining depth budget.
///
/// The aggregate rule: a node refines exactly when the minimum observer
/// distance is below its threshold — that is, when any one observer is close
/// enough — and the depth budget is not exhausted.  A node at the depth
/// bound stays terminal, whatever the observers do.
pub open spec fn updated_shape(b: NodeBounds, cams: Seq<Vec3i>, depth: nat) -> TreeShape
    decreases depth,
{
    if depth > 0 && close_to_any(b, cams) {
        TreeShape::Branch(
            Seq::new(
                8,
                |i: int|
                    if 0 <= i < 8 {
                        updated_shape(b.child_octant(i), cams, (depth - 1) as nat)
                    } else {
                        TreeShape::Terminal
                    },
            ),
        )
    } else {
        TreeShape::Terminal
    }
}

/// The subtrees of a shape: eight for a branch, none for a terminal.
pub open spec fn subtrees(t: TreeShape) -> Seq<TreeShape> {
    match t {
        TreeShape::Terminal => Seq::empty(),
        TreeShape::Branch(kids) => kids,
    }
}

/// The refinement rule over the update policy's result: one update pass
/// leaves a node branching if and only if the depth budget allows it and
/// some observer is strictly closer to the node's centre than the node's
/// characteristic size.
pub proof fn lemma_refinement_threshold(b: NodeBounds, cams: Seq<Vec3i>, depth: nat)
    ensures
        updated_shape(b, cams, depth) is Branch <==> (depth > 0 && close_to_any(b, cams)),
        updated_shape(b, cams, depth) is Terminal <==> !(depth > 0 && close_to_any(b, cams)),
{
}

/// Updating is idempotent for a fixed observer set.  [`Node::update`]
/// guarantees that the shape of the tree it leaves behind is
/// [`updated_shape`] of the node's bounds, the observers and the depth
/// budget — a function of those inputs alone, never of the tree's previous
/// shape — and that it preserves the node's bounds.  So if `first` is any
/// tree one pass produced and `second` any tree a repeated pass over it
/// produced, the two have the same shape: the second pass changed nothing.
pub proof fn lemma_update_idempotent(first: Node, second: Node, cams: Seq<Vec3i>, depth: nat)
    requires
        first.shape() == updated_shape(first.bounds, cams, depth),
        second.bounds == first.bounds,
        second.shape() == updated_shape(second.bounds, cams, depth),
    ensures
        second.shape() == first.shape(),
{
}

/// Monotonic refinement for a single observer: within the depth budget, an
/// observer at squared distance below the squared threshold yields a split
/// node; one at or beyond it (with no closer observer present) yields an
/// unsplit node.
pub proof fn lemma_refinement_single(b: NodeBounds, cam: Vec3i, depth: nat)
    requires
        depth > 0,
    ensures
        b.centre_dist_sq(cam) < sq(b.size_spec()) ==> updated_shape(b, seq![cam], depth)
            is Branch,
        b.centre_dist_sq(cam) >= sq(b.size_spec()) ==> updated_shape(b, seq![cam], depth)
            is Terminal,
{
    let cams = seq![cam];
    assert(cams[0] == cam);
    if b.centre_dist_sq(cam) < sq(b.size_spec()) {
        assert(close_to_any(b, cams));
    } else {
        assert(forall|k: int| 0 <= k < cams.len() ==> #[trigger] cams[k] == cam);
    }
}

/// Mutably borrows one node of a collection.
fn node_at_mut(nodes: &mut Vec<Node>, i: usize) -> (n: &mut Node)
    requires
        i < old(nodes)@.len(),
    ensures
        *n == old(nodes)@[i as int],
        final(nodes)@ == old(nodes)@.update(i as int, *final(n)),
{
    &mut nodes[i]
}

impl Node {
    /// Decides the refinement rule: whether any observer lies strictly
    /// closer to this node's centre than this node's characteristic size.
    fn is_close(&self, cameras: &Vec<Vec3i>) -> (r: bool)
        requires
            self.bounds.wf(),
            forall|k: int| 0 <= k < cameras@.len() ==> (#[trigger] cameras@[k]).wf(),
        ensures
            r == close_to_any(self.bounds, cameras@),
    {
        let centre = self.bounds.get_centre();
        let threshold = self.bounds.get_size();
        proof {
            lemma_sq_bound(threshold as int, 2 * COORD_LIMIT as int);
        }
        let t2: i128 = (threshold as i128) * (threshold as i128);

        let mut found = false;
        let mut k: usize = 0;
        while k < cameras.len()
            invariant
                k <= cameras@.len(),
                self.bounds.wf(),
                forall|j: int| 0 <= j < cameras@.len() ==> (#[trigger] cameras@[j]).wf(),
                centre.wf(),
                centre.x == self.bounds.centre_x(),
                centre.y == self.bounds.centre_y(),
                centre.z == self.bounds.centre_z(),
                t2 == sq(self.bounds.size_spec()),
                found == exists|j: int|
                    0 <= j < k && self.bounds.centre_dist_sq(#[trigger] cameras@[j]) < sq(
                        self.bounds.size_spec(),
                    ),
            decreases cameras@.len() - k,
        {
            let cam = cameras[k];
            let d = cam.distance_squared(&centre);
            if d < t2 {
                found = true;
                proof {
                    assert(self.bounds.centre_dist_sq(cameras@[k as int]) < sq(
                        self.bounds.size_spec(),
                    ));
                }
            }
            k += 1;
        }
        found
    }

    /// Re-evaluates refinement for this node and, recursively, for its
    /// children, from the given observer positions.
    ///
    /// The node's own decision is fully resolved first: it splits when some
    /// observer is strictly closer to its centre than its characteristic
    /// size and the depth budget is not exhausted, and unsplits (tearing the
    /// whole subtree down) otherwise.  Only then are the children visited,
    /// each with one level less of depth budget, so nested refinement stops
    /// after at most `max_depth` levels below this node.
    ///
    /// The resulting shape depends only on the node's bounds, the observer
    /// set and the depth budget — never on the tree's previous shape — so an
    /// immediately repeated call with the same arguments is a no-op on the
    /// tree's shape.
    pub fn update(&mut self, cameras: &Vec<Vec3i>, max_depth: u32)
        requires
            old(self).wf(),
            forall|k: int| 0 <= k < cameras@.len() ==> (#[trigger] cameras@[k]).wf(),
        ensures
            final(self).wf(),
            final(self).bounds == old(self).bounds,
            final(self).child == old(self).child,
            final(self).shape() == updated_shape(old(self).bounds, cameras@, max_depth as nat),
            final(self).state == NodeState::Split <==> (max_depth > 0 && close_to_any(
                old(self).bounds,
                cameras@,
            )),
        decreases max_depth,
    {
        let close = self.is_close(cameras);
        if close && max_depth > 0 {
            self.split();
            let mut i: usize = 0;
            while i < 8
                invariant
                    i <= 8,
                    max_depth >= 1,
                    close_to_any(old(self).bounds, cameras@),
                    forall|k: int| 0 <= k < cameras@.len() ==> (#[trigger] cameras@[k]).wf(),
                    old(self).bounds.wf(),
                    self.bounds == old(self).bounds,
                    self.state == NodeState::Split,
                    self.child == old(self).child,
                    self.children@.len() == 8,
                    forall|j: int|
                        0 <= j < 8 ==> (#[trigger] self.children@[j]).bounds == old(
                            self,
                        ).bounds.child_octant(j),
                    forall|j: int| 0 <= j < 8 ==> (#[trigger] self.children@[j]).wf(),
                    forall|j: int|
                        0 <= j < i ==> (#[trigger] self.children@[j]).shape() == updated_shape(
                            old(self).bounds.child_octant(j),
                            cameras@,
                            (max_depth - 1) as nat,
                        ),
                decreases 8 - i,
            {
                let child = node_at_mut(&mut self.children, i);
                child.update(cameras, max_depth - 1);
                i += 1;
            }
            proof {
                let b = old(self).bounds;
                let cams = cameras@;
                let d = max_depth as nat;
                let skids = subtrees(self.shape());
                let ukids = subtrees(updated_shape(b, cams, d));
                assert(updated_shape(b, cams, d) is Branch);
                assert(ukids.len() == 8);
                assert(skids.len() == 8);
                assert forall|i: int| 0 <= i < 8 implies skids[i] == ukids[i] by {
                    assert(skids[i] == self.children@[i].shape());
                    assert(ukids[i] == updated_shape(b.child_octant(i), cams, (d - 1) as nat));
                }
                assert(skids =~= ukids);
                assert(self.shape() == updated_shape(b, cams, d));
            }
        } else {
            self.unsplit();
        }
    }
}

/// Reads a six-coordinate row (x low, x high, y low, y high, z low, z high)
/// back as bounds.
pub open spec fn bounds_from_row(row: Seq<i64>) -> NodeBounds {
    NodeBounds {
        min: Vec3i { x: row[0], y: row[2], z: row[4] },
        max: Vec3i { x: row[1], y: row[3], z: row[5] },
    }
}

} // verus!
