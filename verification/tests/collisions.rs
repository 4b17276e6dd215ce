use particle_box::boundary::{ContainerBoundary, Plane};
use particle_box::fixed::SCALE;
use particle_box::particle::Particle;
use particle_box::vector::Vec3;

const HALF: i64 = 5_000_000;
const RESTITUTION: i64 = 800_000;
const TWICE: i64 = 2_000_000;

fn floor_plane() -> Plane {
    Plane { normal: Vec3::new(0, SCALE, 0), offset: HALF }
}

#[test]
fn cube_has_six_faces_in_order() {
    let cube = ContainerBoundary::cube(HALF);
    let expected = vec![
        Plane { normal: Vec3::new(0, 0, -SCALE), offset: HALF },
        Plane { normal: Vec3::new(0, 0, SCALE), offset: HALF },
        Plane { normal: Vec3::new(0, -SCALE, 0), offset: HALF },
        Plane { normal: Vec3::new(0, SCALE, 0), offset: HALF },
        Plane { normal: Vec3::new(-SCALE, 0, 0), offset: HALF },
        Plane { normal: Vec3::new(SCALE, 0, 0), offset: HALF },
    ];
    assert_eq!(cube.planes(), &expected);
}

#[test]
fn cube_faces_across_an_axis_oppose() {
    let cube = ContainerBoundary::cube(1_234_567);
    let planes = cube.planes();
    assert_eq!(planes.len(), 6);
    for k in 0..3 {
        let near = planes[2 * k];
        let far = planes[2 * k + 1];
        assert_eq!(near.offset, far.offset);
        assert_eq!(near.normal.x, -far.normal.x);
        assert_eq!(near.normal.y, -far.normal.y);
        assert_eq!(near.normal.z, -far.normal.z);
        assert_eq!(near.normal.dot(near.normal), SCALE);
        assert_eq!(near.normal.dot(far.normal), -SCALE);
    }
}

#[test]
fn boundary_keeps_the_planes_it_was_given() {
    let planes = vec![
        Plane { normal: Vec3::new(600_000, 800_000, 0), offset: 1_000_000 },
        floor_plane(),
    ];
    let boundary = ContainerBoundary::from_planes(planes.clone());
    assert_eq!(boundary.planes(), &planes);
    let empty = ContainerBoundary::from_planes(Vec::new());
    assert!(empty.planes().is_empty());
}

#[test]
fn signed_distance_is_positive_inside_and_negative_outside() {
    let plane = floor_plane();
    assert_eq!(plane.signed_distance(Vec3::new(0, -4_970_000, 0)), 30_000);
    assert_eq!(plane.signed_distance(Vec3::new(7, -5_000_000, -9)), 0);
    assert_eq!(plane.signed_distance(Vec3::new(0, -5_012_943, 0)), -12_943);
    let ceiling = Plane { normal: Vec3::new(0, -SCALE, 0), offset: HALF };
    assert_eq!(ceiling.signed_distance(Vec3::new(0, -4_970_000, 0)), 9_970_000);
    assert_eq!(ceiling.signed_distance(Vec3::new(0, 5_000_001, 0)), -1);
}

#[test]
fn particle_inside_a_face_is_untouched() {
    let p = Particle::new(Vec3::new(1, -4_999_999, 3), Vec3::new(-7_000_000, -8_000_000, 9));
    assert_eq!(floor_plane().resolved(p, RESTITUTION, TWICE), p);
}

#[test]
fn particle_resting_on_a_face_is_untouched() {
    let p = Particle::new(Vec3::new(0, -HALF, 0), Vec3::new(0, -8_000_000, 0));
    assert_eq!(floor_plane().signed_distance(p.position), 0);
    assert_eq!(floor_plane().resolved(p, RESTITUTION, TWICE), p);
}

#[test]
fn particle_inside_the_cube_passes_unchanged() {
    let cube = ContainerBoundary::cube(HALF);
    let inside = [
        Vec3::new(0, 0, 0),
        Vec3::new(HALF, HALF, HALF),
        Vec3::new(-HALF, -HALF, -HALF),
        Vec3::new(HALF, -HALF, 4_999_999),
        Vec3::new(-1, 2, -3),
    ];
    for position in inside {
        let p = Particle::new(position, Vec3::new(50_000_000, -60_000_000, 70_000_000));
        assert_eq!(cube.resolve(p, RESTITUTION, TWICE), p);
    }
}

#[test]
fn bounce_reverses_and_shrinks_the_normal_velocity() {
    let p = Particle::new(Vec3::new(0, -5_012_943, 0), Vec3::new(0, -2_294_300, 0));
    let q = floor_plane().resolved(p, RESTITUTION, TWICE);
    assert_eq!(q.velocity, Vec3::new(0, 1_376_580, 0));
    assert_eq!(q.position, Vec3::new(0, -4_987_057, 0));
}

#[test]
fn bounce_leaves_the_tangential_velocity() {
    let p = Particle::new(
        Vec3::new(1_000_000, -5_500_000, -2_000_000),
        Vec3::new(3_000_000, -10_000_000, -4_000_000),
    );
    let q = floor_plane().resolved(p, RESTITUTION, TWICE);
    assert_eq!(q.velocity, Vec3::new(3_000_000, 6_000_000, -4_000_000));
    assert_eq!(q.position, Vec3::new(1_000_000, -4_500_000, -2_000_000));
}

#[test]
fn bounce_off_a_face_with_negative_normal() {
    let ceiling = Plane { normal: Vec3::new(0, -SCALE, 0), offset: HALF };
    let p = Particle::new(Vec3::new(0, 5_250_000, 0), Vec3::new(0, 2_000_005, 0));
    let q = ceiling.resolved(p, RESTITUTION, TWICE);
    assert_eq!(q.velocity, Vec3::new(0, -1_200_003, 0));
    assert_eq!(q.position, Vec3::new(0, 4_750_000, 0));
    assert_eq!(ceiling.signed_distance(q.position), 250_000);
}

#[test]
fn normal_velocity_after_a_bounce_is_within_a_millionth_of_the_exact_value() {
    let plane = floor_plane();
    for d in [-1_i64, -2, -3, -7, -99_999, -2_294_301, -123_456_789] {
        for r in [0_i64, 1, 250_000, 500_000, 500_001, 800_000, 999_999, SCALE] {
            let p = Particle::new(Vec3::new(0, -6_000_000, 0), Vec3::new(0, d, 0));
            let after = plane.normal.dot(plane.resolved(p, r, TWICE).velocity);
            let exact = (d as i128) * ((SCALE - 2 * r) as i128);
            let error = (SCALE as i128) * (after as i128) - exact;
            assert!(-(SCALE as i128) < error && error < SCALE as i128);
            assert!(d <= after && after <= -d);
            if 2 * r > SCALE {
                assert!(after > 0);
            }
        }
    }
}

#[test]
fn slowest_bounce_off_a_negative_normal_comes_to_a_stop() {
    let ceiling = Plane { normal: Vec3::new(0, -SCALE, 0), offset: HALF };
    let p = Particle::new(Vec3::new(0, 6_000_000, 0), Vec3::new(0, 1, 0));
    let q = ceiling.resolved(p, RESTITUTION, TWICE);
    assert_eq!(ceiling.normal.dot(p.velocity), -1);
    assert_eq!(ceiling.normal.dot(q.velocity), 0);
    let faster = Particle::new(Vec3::new(0, 6_000_000, 0), Vec3::new(0, 2, 0));
    let r = ceiling.resolved(faster, RESTITUTION, TWICE);
    assert_eq!(ceiling.normal.dot(r.velocity), 1);
}

#[test]
fn particle_moving_inward_outside_a_face_is_thrown_outward() {
    let p = Particle::new(Vec3::new(0, -5_100_000, 0), Vec3::new(0, 1_000_000, 0));
    let q = floor_plane().resolved(p, RESTITUTION, TWICE);
    assert_eq!(q.velocity, Vec3::new(0, -600_000, 0));
    assert_eq!(q.position, Vec3::new(0, -4_900_000, 0));
}

#[test]
fn correction_factor_scales_the_push_back() {
    let p = Particle::new(Vec3::new(0, -5_300_000, 0), Vec3::new(0, -1_000_000, 0));
    let on_face = floor_plane().resolved(p, RESTITUTION, SCALE);
    assert_eq!(on_face.position, Vec3::new(0, -HALF, 0));
    let mirrored = floor_plane().resolved(p, RESTITUTION, TWICE);
    assert_eq!(mirrored.position, Vec3::new(0, -4_700_000, 0));
    let none = floor_plane().resolved(p, RESTITUTION, 0);
    assert_eq!(none.position, p.position);
    assert_eq!(none.velocity, mirrored.velocity);
}

#[test]
fn restitution_scales_the_kick() {
    let p = Particle::new(Vec3::new(0, -5_300_000, 0), Vec3::new(0, -1_000_000, 0));
    assert_eq!(floor_plane().resolved(p, 0, TWICE).velocity.y, -1_000_000);
    assert_eq!(floor_plane().resolved(p, 500_000, TWICE).velocity.y, 0);
    assert_eq!(floor_plane().resolved(p, SCALE, TWICE).velocity.y, 1_000_000);
}

#[test]
fn oblique_face_bounces_along_its_normal() {
    let plane = Plane { normal: Vec3::new(600_000, 800_000, 0), offset: 1_000_000 };
    let p = Particle::new(
        Vec3::new(-3_000_000, -1_000_000, 250_000),
        Vec3::new(-2_000_000, 500_000, 700_000),
    );
    assert_eq!(plane.signed_distance(p.position), -1_600_000);
    assert_eq!(plane.normal.dot(p.velocity), -800_000);
    let q = plane.resolved(p, RESTITUTION, TWICE);
    assert_eq!(q.position, Vec3::new(-1_080_000, 1_560_000, 250_000));
    assert_eq!(q.velocity, Vec3::new(-1_232_000, 1_524_000, 700_000));
}

#[test]
fn corner_gets_one_correction_for_each_face_it_left() {
    let cube = ContainerBoundary::cube(HALF);
    let p = Particle::new(
        Vec3::new(5_200_000, 5_300_000, -5_100_000),
        Vec3::new(1_000_000, 2_000_000, -3_000_000),
    );
    let q = cube.resolve(p, RESTITUTION, TWICE);
    assert_eq!(q.position, Vec3::new(4_800_000, 4_700_000, -4_900_000));
    assert_eq!(q.velocity, Vec3::new(-600_000, -1_200_000, 1_800_000));
}

#[test]
fn faces_are_consulted_in_order_each_seeing_the_last_result() {
    let first = Plane { normal: Vec3::new(SCALE, 0, 0), offset: 0 };
    let second = Plane { normal: Vec3::new(-SCALE, 0, 0), offset: 500_000 };
    let p = Particle::new(Vec3::new(-1_000_000, 0, 0), Vec3::new(-1_000_000, 0, 0));
    let after_first = first.resolved(p, RESTITUTION, TWICE);
    assert_eq!(after_first.position.x, 1_000_000);
    let expected = second.resolved(after_first, RESTITUTION, TWICE);
    assert_eq!(expected.position.x, 0);
    assert_eq!(expected.velocity.x, -360_000);
    let both = ContainerBoundary::from_planes(vec![first, second]);
    assert_eq!(both.resolve(p, RESTITUTION, TWICE), expected);
    let reversed = ContainerBoundary::from_planes(vec![second, first]);
    assert_eq!(reversed.resolve(p, RESTITUTION, TWICE), after_first);
}

#[test]
fn empty_boundary_changes_nothing() {
    let nothing = ContainerBoundary::from_planes(Vec::new());
    let p = Particle::new(Vec3::new(i64::MAX, i64::MIN, 0), Vec3::new(1, 2, 3));
    assert_eq!(nothing.resolve(p, RESTITUTION, TWICE), p);
}

#[test]
fn mirror_puts_the_particle_as_far_inside_as_it_was_outside() {
    let cube = ContainerBoundary::cube(HALF);
    for plane in cube.planes() {
        let n = plane.normal;
        let outside = Vec3::new(0, 0, 0).minus(n.scaled(5_250_000));
        let p = Particle::new(outside, Vec3::new(0, 0, 0));
        assert_eq!(plane.signed_distance(p.position), -250_000);
        let q = plane.resolved(p, RESTITUTION, TWICE);
        assert_eq!(plane.signed_distance(q.position), 250_000);
        assert_eq!(q.position, Vec3::new(0, 0, 0).minus(n.scaled(4_750_000)));
    }
}

#[test]
fn cube_takes_back_what_strayed_less_than_a_full_width() {
    let cube = ContainerBoundary::cube(HALF);
    let coordinates = [-3 * HALF, -HALF - 1, -HALF, -1, 0, HALF, HALF + 1, 2 * HALF, 3 * HALF];
    for x in coordinates {
        for y in coordinates {
            for z in coordinates {
                let p = Particle::new(Vec3::new(x, y, z), Vec3::new(1, 2, 3));
                let q = cube.resolve(p, RESTITUTION, TWICE).position;
                assert!(-HALF <= q.x && q.x <= HALF);
                assert!(-HALF <= q.y && q.y <= HALF);
                assert!(-HALF <= q.z && q.z <= HALF);
            }
        }
    }
}

#[test]
fn cube_does_not_take_back_what_tunnelled_too_far() {
    let cube = ContainerBoundary::cube(HALF);
    let p = Particle::new(Vec3::new(-3 * HALF - 1, 0, 0), Vec3::new(-1_000_000, 0, 0));
    let q = cube.resolve(p, RESTITUTION, TWICE);
    assert_eq!(q.position, Vec3::new(HALF + 1, 0, 0));
    assert_eq!(q.velocity, Vec3::new(600_000, 0, 0));
}

#[test]
fn point_is_inside_the_cube_when_no_face_is_penetrated() {
    let cube = ContainerBoundary::cube(HALF);
    let coordinates = [i64::MIN, -HALF - 1, -HALF, 0, HALF, HALF + 1, i64::MAX];
    for x in coordinates {
        for y in coordinates {
            for z in coordinates {
                let point = Vec3::new(x, y, z);
                let on_inner_side =
                    cube.planes().iter().all(|plane| plane.signed_distance(point) >= 0);
                let within = [x, y, z].iter().all(|c| -HALF <= *c && *c <= HALF);
                assert_eq!(on_inner_side, within);
            }
        }
    }
}
