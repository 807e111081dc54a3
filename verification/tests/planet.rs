use librecrash::bounds::Vec3i;
use librecrash::octree::NodeState;
use librecrash::planet::{Planet, UNIT};

fn vec3(x: i64, y: i64, z: i64) -> Vec3i {
    Vec3i { x, y, z }
}

#[test]
fn new_planet_covers_circumscribing_cube() {
    let planet = Planet::new();
    assert_eq!(planet.radius, UNIT);
    assert_eq!(planet.octree.bounds.min, vec3(-UNIT, -UNIT, -UNIT));
    assert_eq!(planet.octree.bounds.max, vec3(UNIT, UNIT, UNIT));
    assert_eq!(planet.octree.state, NodeState::Unsplit);
    assert_eq!(planet.octree.children.len(), 0);
}

#[test]
fn noise_function_marks_the_body() {
    let planet = Planet::new();
    // Inside the radius: full density, one in fixed point.
    assert_eq!(planet.noise_function(vec3(0, 0, 0)), UNIT);
    assert_eq!(planet.noise_function(vec3(UNIT / 2, 0, 0)), UNIT);
    // Exactly on the radius: not beyond it, so still inside.
    assert_eq!(planet.noise_function(vec3(UNIT, 0, 0)), UNIT);
    // Beyond the radius: zero density.
    assert_eq!(planet.noise_function(vec3(2 * UNIT, 0, 0)), 0);
    assert_eq!(planet.noise_function(vec3(UNIT, UNIT, UNIT)), 0);
}

#[test]
fn example_far_and_near_observer() {
    // The root covers [-1, 1]^3 world units (centre at the origin,
    // characteristic size two world units).

    // An observer ten world units away, far beyond the threshold: the root
    // stays unsplit.
    let mut planet = Planet::new();
    planet.update_octree(&vec![vec3(0, 0, 10 * UNIT)], 4);
    assert_eq!(planet.octree.state, NodeState::Unsplit);
    assert_eq!(planet.octree.children.len(), 0);

    // An observer half a world unit away, inside the threshold: the root
    // splits into eight children, each of half the parent's edge length.
    planet.update_octree(&vec![vec3(0, 0, UNIT / 2)], 1);
    assert_eq!(planet.octree.state, NodeState::Split);
    assert_eq!(planet.octree.children.len(), 8);
    for c in planet.octree.children.iter() {
        assert_eq!(c.bounds.max.x - c.bounds.min.x, UNIT);
        assert_eq!(c.bounds.max.y - c.bounds.min.y, UNIT);
        assert_eq!(c.bounds.max.z - c.bounds.min.z, UNIT);
    }
    assert_eq!(planet.octree.children[0].bounds.min, vec3(-UNIT, -UNIT, -UNIT));
    assert_eq!(planet.octree.children[7].bounds.max, vec3(UNIT, UNIT, UNIT));
}
