use librecrash::bounds::{NodeBounds, Vec3i, COORD_LIMIT};
use librecrash::octree::{Node, NodeState};

fn vec3(x: i64, y: i64, z: i64) -> Vec3i {
    Vec3i { x, y, z }
}

fn bounds(min: (i64, i64, i64), max: (i64, i64, i64)) -> NodeBounds {
    NodeBounds {
        min: vec3(min.0, min.1, min.2),
        max: vec3(max.0, max.1, max.2),
    }
}

/// Collects, in preorder, the child count of every node of the tree.
fn child_counts(node: &Node, out: &mut Vec<usize>) {
    out.push(node.children.len());
    for c in node.children.iter() {
        child_counts(c, out);
    }
}

#[test]
fn unpack_bounds() {
    let bounds = NodeBounds {
        min: Vec3i { x: 1, y: 2, z: 3 },
        max: Vec3i { x: 4, y: 5, z: 6 },
    };

    let expected_unpack = [1, 2, 3, 4, 5, 6];

    let unpack = bounds.unpack();

    assert_eq!(
        unpack, expected_unpack,
        "Unpacked bound values do not match expected values."
    )
}

#[test]
fn get_centre() {
    let bounds = NodeBounds {
        min: Vec3i { x: 0, y: 0, z: 0 },
        max: Vec3i { x: 8, y: 8, z: 8 },
    };

    let expected_centre = Vec3i { x: 4, y: 4, z: 4 };

    let centre = bounds.get_centre();

    assert_eq!(
        centre, expected_centre,
        "Centre point does not match expected values."
    );
}

#[test]
fn get_size() {
    let bounds = NodeBounds {
        min: Vec3i { x: 0, y: 0, z: 0 },
        max: Vec3i { x: 8, y: 8, z: 8 },
    };

    let expected_size = 8;

    let size = bounds.get_size();

    assert_eq!(size, expected_size, "Size does not match expected value.");
}

#[test]
fn get_split_points() {
    let bounds = NodeBounds {
        min: Vec3i { x: 0, y: 0, z: 0 },
        max: Vec3i { x: 8, y: 8, z: 8 },
    };

    let expected_split_points = [0, 4, 8, 0, 4, 8, 0, 4, 8];

    let split_points = Node::get_split_points(&bounds);

    assert_eq!(
        split_points, expected_split_points,
        "Split points do not match expected values."
    );
}

#[test]
fn get_child_bounds() {
    let bounds = NodeBounds {
        min: Vec3i { x: 0, y: 0, z: 0 },
        max: Vec3i { x: 8, y: 8, z: 8 },
    };

    let expected_bounds = [
        [0, 4, 0, 4, 0, 4],
        [4, 8, 0, 4, 0, 4],
        [0, 4, 4, 8, 0, 4],
        [4, 8, 4, 8, 0, 4],
        [0, 4, 0, 4, 4, 8],
        [4, 8, 0, 4, 4, 8],
        [0, 4, 4, 8, 4, 8],
        [4, 8, 4, 8, 4, 8],
    ];

    let bounds = Node::get_child_bounds(&bounds);

    assert_eq!(
        bounds, expected_bounds,
        "Split child bounds do not match expected values."
    );
}

#[test]
fn rejects_malformed_bounds() {
    // Corners out of order.
    assert_eq!(NodeBounds::new(vec3(1, 0, 0), vec3(0, 1, 1)), None);
    assert_eq!(NodeBounds::new(vec3(0, 0, 5), vec3(9, 9, 4)), None);
    // A coordinate out of the working range.
    assert_eq!(
        NodeBounds::new(vec3(0, 0, 0), vec3(COORD_LIMIT + 1, 1, 1)),
        None
    );
    // A well-formed pair is accepted unchanged; equal corners are fine.
    assert_eq!(
        NodeBounds::new(vec3(-2, -2, -2), vec3(2, 2, 2)),
        Some(bounds((-2, -2, -2), (2, 2, 2)))
    );
    assert_eq!(
        NodeBounds::new(vec3(7, 7, 7), vec3(7, 7, 7)),
        Some(bounds((7, 7, 7), (7, 7, 7)))
    );
}

#[test]
fn octants_tile_parent() {
    // Octant rows of [0,8)^3: each point of the parent must fall in exactly
    // one octant (half-open boxes), points outside in none.
    let parent = bounds((0, 0, 0), (8, 8, 8));
    let rows = Node::get_child_bounds(&parent);
    let inside =
        |row: &[i64; 6], p: (i64, i64, i64)| -> bool {
            row[0] <= p.0 && p.0 < row[1] && row[2] <= p.1 && p.1 < row[3] && row[4] <= p.2
                && p.2 < row[5]
        };
    for x in -1..10 {
        for y in -1..10 {
            for z in -1..10 {
                let p = (x, y, z);
                let hits = rows.iter().filter(|row| inside(row, p)).count();
                let in_parent = (0..8).contains(&x) && (0..8).contains(&y) && (0..8).contains(&z);
                assert_eq!(hits, if in_parent { 1 } else { 0 });
            }
        }
    }
}

#[test]
fn octant_volumes_even_extents() {
    // With even edge lengths every octant takes exactly one eighth of the
    // parent's volume.
    let parent = bounds((0, 0, 0), (8, 8, 8));
    let rows = Node::get_child_bounds(&parent);
    for row in rows.iter() {
        let volume = (row[1] - row[0]) * (row[3] - row[2]) * (row[5] - row[4]);
        assert_eq!(volume, 64);
    }
    assert_eq!(64 * 8, 8 * 8 * 8);
}

#[test]
fn octant_volumes_odd_extents_sum() {
    // With an odd edge length the eighth-of-volume claim fails (the halves
    // differ by one unit), but the eight volumes still add up to the parent.
    let parent = bounds((0, 0, 0), (3, 3, 3));
    let rows = Node::get_child_bounds(&parent);
    let total: i64 = rows
        .iter()
        .map(|row| (row[1] - row[0]) * (row[3] - row[2]) * (row[5] - row[4]))
        .sum();
    assert_eq!(total, 27);
    let first = (rows[0][1] - rows[0][0]) * (rows[0][3] - rows[0][2]) * (rows[0][5] - rows[0][4]);
    assert_eq!(first, 1);
    assert_ne!(first * 8, 27);
}

#[test]
fn split_then_unsplit_restores_unsplit() {
    // From a fresh node.
    let mut node = Node::new(bounds((-8, -8, -8), (8, 8, 8)));
    node.split();
    node.unsplit();
    assert_eq!(node.state, NodeState::Unsplit);
    assert_eq!(node.children.len(), 0);

    // From an already split node with split grandchildren.
    node.split();
    node.children[3].split();
    node.split();
    node.unsplit();
    assert_eq!(node.state, NodeState::Unsplit);
    assert_eq!(node.children.len(), 0);
}

#[test]
fn split_is_idempotent() {
    let mut node = Node::new(bounds((0, 0, 0), (8, 8, 8)));
    node.split();
    let first: Vec<NodeBounds> = node.children.iter().map(|c| c.bounds).collect();
    assert_eq!(first.len(), 8);
    node.split();
    let second: Vec<NodeBounds> = node.children.iter().map(|c| c.bounds).collect();
    assert_eq!(first, second);
    assert_eq!(node.state, NodeState::Split);
    // Children cover the same octants that one call produced.
    assert_eq!(second[0], bounds((0, 0, 0), (4, 4, 4)));
    assert_eq!(second[7], bounds((4, 4, 4), (8, 8, 8)));
}

#[test]
fn unsplit_is_idempotent() {
    let mut node = Node::new(bounds((-4, -4, -4), (4, 4, 4)));
    node.unsplit();
    assert_eq!(node.state, NodeState::Unsplit);
    assert_eq!(node.children.len(), 0);
    assert_eq!(node.bounds, bounds((-4, -4, -4), (4, 4, 4)));
}

#[test]
fn update_splits_when_close_unsplits_when_far() {
    // Bounds [-1000, 1000]^3: centre at the origin, threshold 2000.
    let mut node = Node::new(bounds((-1000, -1000, -1000), (1000, 1000, 1000)));

    // An observer strictly inside the threshold distance: split.
    node.update(&vec![vec3(0, 0, 500)], 1);
    assert_eq!(node.state, NodeState::Split);
    assert_eq!(node.children.len(), 8);

    // An observer at exactly the threshold distance: not strictly closer,
    // so the node collapses.
    node.update(&vec![vec3(0, 0, 2000)], 1);
    assert_eq!(node.state, NodeState::Unsplit);
    assert_eq!(node.children.len(), 0);

    // Far beyond the threshold: still unsplit.
    node.update(&vec![vec3(0, 0, 100000)], 1);
    assert_eq!(node.state, NodeState::Unsplit);

    // Any one close observer among far ones triggers the split.
    node.update(&vec![vec3(0, 0, 100000), vec3(1999, 0, 0)], 1);
    assert_eq!(node.state, NodeState::Split);
}

#[test]
fn update_is_idempotent() {
    let mut node = Node::new(bounds((-1000, -1000, -1000), (1000, 1000, 1000)));
    let cameras = vec![vec3(100, -50, 300), vec3(5000, 5000, 5000)];

    node.update(&cameras, 3);
    let mut first = Vec::new();
    child_counts(&node, &mut first);

    node.update(&cameras, 3);
    let mut second = Vec::new();
    child_counts(&node, &mut second);

    assert_eq!(first, second);
}

#[test]
fn update_respects_depth_bound() {
    let mut node = Node::new(bounds((-1000, -1000, -1000), (1000, 1000, 1000)));
    // With no depth budget a node stays terminal however close the observer.
    node.update(&vec![vec3(0, 0, 0)], 0);
    assert_eq!(node.state, NodeState::Unsplit);
    assert_eq!(node.children.len(), 0);

    // With a budget of one, the root splits but the children stay terminal.
    node.update(&vec![vec3(0, 0, 0)], 1);
    assert_eq!(node.state, NodeState::Split);
    for c in node.children.iter() {
        assert_eq!(c.state, NodeState::Unsplit);
    }
}

#[test]
fn recursive_teardown() {
    let mut node = Node::new(bounds((-1000, -1000, -1000), (1000, 1000, 1000)));

    // An observer at the centre refines every level the budget allows:
    // the root and all eight children split.
    node.update(&vec![vec3(0, 0, 0)], 2);
    assert_eq!(node.state, NodeState::Split);
    assert_eq!(node.children.len(), 8);
    for c in node.children.iter() {
        assert_eq!(c.state, NodeState::Split);
        assert_eq!(c.children.len(), 8);
        for g in c.children.iter() {
            assert_eq!(g.state, NodeState::Unsplit);
            assert_eq!(g.children.len(), 0);
        }
    }

    // Moving the observer far away and updating once collapses the entire
    // subtree back to a single unsplit root.
    node.update(&vec![vec3(0, 0, 100000)], 2);
    assert_eq!(node.state, NodeState::Unsplit);
    assert_eq!(node.children.len(), 0);
    let mut counts = Vec::new();
    child_counts(&node, &mut counts);
    assert_eq!(counts, vec![0]);
}
