//! What holds of every tick, proved over the definitions that the
//! contracts of the library use.

use vstd::arithmetic::div_mod::{
    lemma_div_pos_is_pos, lemma_mod_pos_bound, lemma_multiply_divide_lt,
};
use vstd::prelude::*;
use crate::boundary::{cube_planes, is_box, resolved_against, Plane};
use crate::fixed::{
    lemma_mul_by_fraction, lemma_mul_by_zero, spec_fx_double, spec_fx_mul, spec_fx_sub,
    spec_magnitude_below, SCALE,
};
use crate::particle::{spec_settle, Particle};
use crate::system::{grid, grid_particle, spec_step, Config, SystemState, GRID_SPACING};
use crate::vector::{lemma_dot_with_axis_unit, lemma_scaled_axis_unit, Vec3};

verus! {

/// After the sleep rule a velocity component is either zero or at least
/// `threshold` in magnitude, and applying the rule again changes nothing.
pub proof fn lemma_settle_is_idempotent(c: i64, threshold: i64)
    ensures
        spec_magnitude_below(spec_settle(c, threshold), threshold) ==> spec_settle(c, threshold)
            == 0,
        spec_settle(spec_settle(c, threshold), threshold) == spec_settle(c, threshold),
{
}

/// A particle that the sleep rule was applied to obeys it, and a second
/// application leaves it as it is.
pub proof fn lemma_settled_is_idempotent(p: Particle, threshold: i64)
    ensures
        p.spec_settled(threshold).is_settled(threshold),
        p.spec_settled(threshold).spec_settled(threshold) == p.spec_settled(threshold),
{
    lemma_settle_is_idempotent(p.velocity.x, threshold);
    lemma_settle_is_idempotent(p.velocity.y, threshold);
    lemma_settle_is_idempotent(p.velocity.z, threshold);
}

/// After a tick, every velocity component of every particle whose
/// magnitude is below the sleep threshold is exactly zero.
pub proof fn lemma_tick_settles(state: SystemState, dt: i64)
    ensures
        state.stepped(dt).is_settled(),
{
    let after = state.stepped(dt);
    assert forall|i: int| 0 <= i < after.particles.len() implies (#[trigger] after.particles[i])
        .is_settled(after.config.sleep_threshold) by {
        let before = resolved_against(
            state.planes,
            state.particles[i].spec_integrated(dt).spec_accelerated(state.config.gravity, dt),
            state.config.restitution,
            state.config.correction_factor,
        );
        lemma_settled_is_idempotent(before, state.config.sleep_threshold);
    }
}

/// The sleep rule holds after every run of at least one tick.
pub proof fn lemma_run_settles(state: SystemState, dts: Seq<i64>)
    requires
        dts.len() > 0,
    ensures
        state.ran(dts).is_settled(),
{
    lemma_tick_settles(state.ran(dts.drop_last()), dts.last());
}

/// A particle that lies on or inside every face is left as it is by the
/// collision step: neither its position nor its velocity changes.
pub proof fn lemma_inside_is_untouched(
    planes: Seq<Plane>,
    p: Particle,
    restitution: i64,
    correction: i64,
)
    requires
        forall|k: int| 0 <= k < planes.len() ==> !(#[trigger] planes[k]).is_penetrated_at(p.position),
    ensures
        resolved_against(planes, p, restitution, correction) == p,
    decreases planes.len(),
{
    if planes.len() > 0 {
        let front = planes.drop_last();
        assert forall|k: int| 0 <= k < front.len() implies !(#[trigger] front[k]).is_penetrated_at(
            p.position,
        ) by {
            assert(front[k] == planes[k]);
        }
        lemma_inside_is_untouched(front, p, restitution, correction);
        assert(!planes[planes.len() - 1].is_penetrated_at(p.position));
    }
}

/// A particle that after its motion lies on or inside every face is in
/// free flight: the tick moves it by `velocity * dt`, takes `gravity * dt`
/// off its vertical velocity, and then puts its slow components to rest.
pub proof fn lemma_free_flight(p: Particle, planes: Seq<Plane>, config: Config, dt: i64)
    requires
        forall|k: int|
            0 <= k < planes.len() ==> !(#[trigger] planes[k]).is_penetrated_at(
                p.position.spec_plus(p.velocity.spec_scaled(dt)),
            ),
    ensures
        spec_step(p, planes, config, dt).position == p.position.spec_plus(
            p.velocity.spec_scaled(dt),
        ),
        spec_step(p, planes, config, dt).velocity == (Vec3 {
            x: spec_settle(p.velocity.x, config.sleep_threshold),
            y: spec_settle(
                spec_fx_sub(p.velocity.y, spec_fx_mul(config.gravity, dt)),
                config.sleep_threshold,
            ),
            z: spec_settle(p.velocity.z, config.sleep_threshold),
        }),
{
    lemma_inside_is_untouched(
        planes,
        p.spec_integrated(dt).spec_accelerated(config.gravity, dt),
        config.restitution,
        config.correction_factor,
    );
}

/// Every particle of the initial grid lies on the plane `y = 0`, between
/// minus half the grid's width and half its width less one spacing along
/// `x` and `z`, and has the given velocity.
pub proof fn lemma_grid_lies_within(per_row: u32, velocity: Vec3, index: int)
    requires
        0 <= index < per_row * per_row,
    ensures
        ({
            let p = grid(per_row as int, velocity)[index];
            let half_width = per_row * (GRID_SPACING / 2);
            &&& p.velocity == velocity
            &&& p.position.y == 0
            &&& -half_width <= p.position.x <= half_width - GRID_SPACING
            &&& -half_width <= p.position.z <= half_width - GRID_SPACING
        }),
{
    let n = per_row as int;
    assert(n > 0) by (nonlinear_arith)
        requires
            0 <= index < n * n,
            0 <= n,
    ;
    lemma_div_pos_is_pos(index, n);
    lemma_multiply_divide_lt(index, n, n);
    lemma_mod_pos_bound(index, n);
    let column = index % n;
    let row = index / n;
    assert(grid(n, velocity)[index] == grid_particle(index, n, velocity));
    assert(column * GRID_SPACING == column * 3_000_000);
    assert(row * GRID_SPACING == row * 3_000_000);
    assert(n * (GRID_SPACING / 2) == n * 1_500_000);
}

/// The state after a run depends on nothing but the particles, the faces,
/// the constants and the time steps: two systems that agree in these agree
/// after the run, particle for particle.
pub proof fn lemma_run_is_deterministic(a: SystemState, b: SystemState, dts: Seq<i64>)
    requires
        a.particles =~= b.particles,
        a.planes =~= b.planes,
        a.config == b.config,
    ensures
        a.ran(dts) == b.ran(dts),
{
}

/// A run keeps the number of particles, the faces and the constants.
pub proof fn lemma_run_keeps_shape(state: SystemState, dts: Seq<i64>)
    ensures
        state.ran(dts).particles.len() == state.particles.len(),
        state.ran(dts).planes == state.planes,
        state.ran(dts).config == state.config,
    decreases dts.len(),
{
    if dts.len() > 0 {
        lemma_run_keeps_shape(state, dts.drop_last());
    }
}

/// One particle after one tick for each element of `dts`, first to last.
pub open spec fn ran_alone(p: Particle, planes: Seq<Plane>, config: Config, dts: Seq<i64>) -> Particle
    decreases dts.len(),
{
    if dts.len() == 0 {
        p
    } else {
        spec_step(ran_alone(p, planes, config, dts.drop_last()), planes, config, dts.last())
    }
}

/// No particle influences another: each one ends a run where it would have
/// ended it alone in the container.
pub proof fn lemma_particles_are_independent(state: SystemState, dts: Seq<i64>, i: int)
    requires
        0 <= i < state.particles.len(),
    ensures
        state.ran(dts).particles.len() == state.particles.len(),
        state.ran(dts).particles[i] == ran_alone(
            state.particles[i],
            state.planes,
            state.config,
            dts,
        ),
    decreases dts.len(),
{
    lemma_run_keeps_shape(state, dts);
    if dts.len() > 0 {
        lemma_run_keeps_shape(state, dts.drop_last());
        lemma_particles_are_independent(state, dts.drop_last(), i);
    }
}

/// Running through `first` and then through `second` is running through
/// the two in a row.
pub proof fn lemma_run_composes(state: SystemState, first: Seq<i64>, second: Seq<i64>)
    ensures
        state.ran(first + second) == state.ran(first).ran(second),
    decreases second.len(),
{
    if second.len() == 0 {
        assert(first + second =~= first);
    } else {
        assert((first + second).drop_last() =~= first + second.drop_last());
        assert((first + second).last() == second.last());
        lemma_run_composes(state, first, second.drop_last());
    }
}

/// A particle that has left through a face along an axis and still moves
/// outward with normal velocity `d < 0` has, after the bounce, the normal
/// velocity `d * (1 - 2 * restitution)` to within one millionth: it is
/// never larger in magnitude than `d`, and it no longer points outward once
/// the restitution exceeds one half. It then points strictly inward off a
/// face whose normal is positive, and off any face as soon as the exact
/// value reaches one millionth.
pub proof fn lemma_bounce_reverses_normal_velocity(
    plane: Plane,
    p: Particle,
    restitution: i64,
    correction: i64,
)
    requires
        plane.normal.is_axis_unit(),
        plane.is_penetrated_at(p.position),
        plane.normal.spec_dot(p.velocity) < 0,
        i64::MIN < 2 * plane.normal.spec_dot(p.velocity),
        0 <= restitution <= SCALE,
    ensures
        ({
            let d = plane.normal.spec_dot(p.velocity);
            let after = plane.normal.spec_dot(
                plane.spec_resolved(p, restitution, correction).velocity,
            );
            let exact = d * (SCALE - 2 * restitution);
            &&& d <= after <= -d
            &&& -SCALE < SCALE * after - exact < SCALE
            &&& SCALE < 2 * restitution ==> after >= 0
            &&& SCALE < 2 * restitution && plane.normal.along(plane.normal) > 0 ==> after > 0
            &&& exact >= SCALE ==> after > 0
        }),
{
    let n = plane.normal;
    let v = p.velocity;
    let d = n.spec_dot(v);
    let double = spec_fx_double(d);
    let push = n.spec_scaled(double);
    let kick = push.spec_scaled(restitution);
    let w = v.spec_minus(kick);
    assert(plane.spec_resolved(p, restitution, correction).velocity == w);
    lemma_dot_with_axis_unit(n, v);
    lemma_dot_with_axis_unit(n, w);
    lemma_scaled_axis_unit(n, double);
    lemma_mul_by_zero(restitution);
    lemma_mul_by_fraction(push.along(n), restitution);
    let exact = d * (SCALE - 2 * restitution);
    assert(exact == 1_000_000 * d - (2 * d) * restitution) by (nonlinear_arith)
        requires
            exact == d * (1_000_000 - 2 * restitution),
    ;
    assert((-(2 * d)) * restitution == -((2 * d) * restitution)) by (nonlinear_arith);
    assert(1_000_000 < 2 * restitution ==> exact > 0) by (nonlinear_arith)
        requires
            exact == d * (1_000_000 - 2 * restitution),
            d < 0,
    ;
}

/// With a correction factor of two, a particle that has left through a
/// face along an axis is put back as far inside that face as it was
/// outside, and is moved along that axis only.
pub proof fn lemma_bounce_mirrors_position(plane: Plane, p: Particle, restitution: i64)
    requires
        plane.normal.is_axis_unit(),
        plane.is_penetrated_at(p.position),
        -0x1000_0000_0000_0000 <= p.position.along(plane.normal) <= 0x1000_0000_0000_0000,
        -0x1000_0000_0000_0000 <= plane.offset <= 0x1000_0000_0000_0000,
    ensures
        ({
            let after = plane.spec_resolved(p, restitution, (2 * SCALE) as i64).position;
            &&& plane.spec_signed_distance(after) == -plane.spec_signed_distance(p.position)
            &&& !plane.is_penetrated_at(after)
            &&& plane.normal.x == 0 ==> after.x == p.position.x
            &&& plane.normal.y == 0 ==> after.y == p.position.y
            &&& plane.normal.z == 0 ==> after.z == p.position.z
        }),
{
    let n = plane.normal;
    let distance = plane.spec_signed_distance(p.position);
    let depth = spec_fx_mul((2 * SCALE) as i64, distance);
    let after = p.position.spec_minus(n.spec_scaled(depth));
    assert(plane.spec_resolved(p, restitution, (2 * SCALE) as i64).position == after);
    lemma_dot_with_axis_unit(n, p.position);
    lemma_dot_with_axis_unit(n, after);
    lemma_scaled_axis_unit(n, depth);
    assert(((2 * SCALE) as i64) * distance == (2 * distance) * 1_000_000) by (nonlinear_arith);
}

/// The cube has six faces along the axes, all at the same offset, and the
/// two faces across each axis have opposite normals.
pub proof fn lemma_cube_faces_oppose(half_extent: i64)
    ensures
        is_box(cube_planes(half_extent)),
        cube_planes(half_extent).len() == 6,
        forall|k: int|
            0 <= k < 6 ==> {
                &&& (#[trigger] cube_planes(half_extent)[k]).normal.is_axis_unit()
                &&& cube_planes(half_extent)[k].offset == half_extent
            },
        forall|k: int|
            0 <= k < 3 ==> {
                let near = #[trigger] cube_planes(half_extent)[2 * k];
                let far = cube_planes(half_extent)[2 * k + 1];
                &&& near.normal.x == -far.normal.x
                &&& near.normal.y == -far.normal.y
                &&& near.normal.z == -far.normal.z
            },
{
}

/// A face of the cube is penetrated exactly where the coordinate along its
/// axis lies beyond the half-width on the side that the normal points
/// away from.
proof fn lemma_cube_face_test(half_extent: i64, k: int, point: Vec3)
    requires
        0 <= k < 6,
        i64::MIN < half_extent,
    ensures
        ({
            let plane = cube_planes(half_extent)[k];
            let c = point.along(plane.normal);
            plane.is_penetrated_at(point) <==> if plane.normal.along(plane.normal) > 0 {
                c < -half_extent
            } else {
                c > half_extent
            }
        }),
{
    let plane = cube_planes(half_extent)[k];
    lemma_cube_faces_oppose(half_extent);
    lemma_dot_with_axis_unit(plane.normal, point);
}

/// A point lies on or inside every face of the cube exactly when each of
/// its coordinates is at most the half-width in magnitude.
pub proof fn lemma_cube_holds_its_interior(half_extent: i64, point: Vec3)
    ensures
        (forall|k: int|
            0 <= k < 6 ==> !(#[trigger] cube_planes(half_extent)[k]).is_penetrated_at(point)) <==> {
            &&& -half_extent <= point.x <= half_extent
            &&& -half_extent <= point.y <= half_extent
            &&& -half_extent <= point.z <= half_extent
        },
{
    let planes = cube_planes(half_extent);
    if half_extent == i64::MIN {
        lemma_dot_with_axis_unit(planes[5].normal, point);
        assert(planes[5].is_penetrated_at(point));
    } else {
        lemma_cube_face_test(half_extent, 0, point);
        lemma_cube_face_test(half_extent, 1, point);
        lemma_cube_face_test(half_extent, 2, point);
        lemma_cube_face_test(half_extent, 3, point);
        lemma_cube_face_test(half_extent, 4, point);
        lemma_cube_face_test(half_extent, 5, point);
        assert(planes[0].is_penetrated_at(point) <==> point.z > half_extent);
        assert(planes[1].is_penetrated_at(point) <==> point.z < -half_extent);
        assert(planes[2].is_penetrated_at(point) <==> point.y > half_extent);
        assert(planes[3].is_penetrated_at(point) <==> point.y < -half_extent);
        assert(planes[4].is_penetrated_at(point) <==> point.x > half_extent);
        assert(planes[5].is_penetrated_at(point) <==> point.x < -half_extent);
    }
}

/// A particle inside the cube, its faces included, passes the collision
/// step unchanged.
pub proof fn lemma_inside_cube_is_untouched(
    half_extent: i64,
    p: Particle,
    restitution: i64,
    correction: i64,
)
    requires
        -half_extent <= p.position.x <= half_extent,
        -half_extent <= p.position.y <= half_extent,
        -half_extent <= p.position.z <= half_extent,
    ensures
        resolved_against(cube_planes(half_extent), p, restitution, correction) == p,
{
    lemma_cube_holds_its_interior(half_extent, p.position);
    lemma_inside_is_untouched(cube_planes(half_extent), p, restitution, correction);
}

/// Consulting the first `k + 1` faces is consulting the first `k` and then
/// face `k`.
pub proof fn lemma_one_more_face(
    planes: Seq<Plane>,
    k: int,
    p: Particle,
    restitution: i64,
    correction: i64,
)
    requires
        0 <= k < planes.len(),
    ensures
        resolved_against(planes.take(k + 1), p, restitution, correction) == planes[k].spec_resolved(
            resolved_against(planes.take(k), p, restitution, correction),
            restitution,
            correction,
        ),
{
    assert(planes.take(k + 1).drop_last() =~= planes.take(k));
}

/// What a face along an axis at offset `h` does to a position that is at
/// most three times `h` from the centre along every axis: across the face
/// nothing; along it, a face with negative normal brings the coordinate
/// down to `h` at most, and one with positive normal up to `-h` at least
/// without lifting above `h` what was not above it.
proof fn lemma_axis_face_takes_back(plane: Plane, p: Particle, restitution: i64)
    requires
        plane.normal.is_axis_unit(),
        0 <= plane.offset <= 0x0400_0000_0000_0000,
        -3 * plane.offset <= p.position.x <= 3 * plane.offset,
        -3 * plane.offset <= p.position.y <= 3 * plane.offset,
        -3 * plane.offset <= p.position.z <= 3 * plane.offset,
    ensures
        ({
            let h = plane.offset;
            let n = plane.normal;
            let before = p.position;
            let after = plane.spec_resolved(p, restitution, (2 * SCALE) as i64).position;
            &&& n.x == 0 ==> after.x == before.x
            &&& n.y == 0 ==> after.y == before.y
            &&& n.z == 0 ==> after.z == before.z
            &&& n.x < 0 ==> -3 * h <= after.x <= h
            &&& n.y < 0 ==> -3 * h <= after.y <= h
            &&& n.z < 0 ==> -3 * h <= after.z <= h
            &&& n.x > 0 ==> -h <= after.x <= 3 * h && (before.x <= h ==> after.x <= h)
            &&& n.y > 0 ==> -h <= after.y <= 3 * h && (before.y <= h ==> after.y <= h)
            &&& n.z > 0 ==> -h <= after.z <= 3 * h && (before.z <= h ==> after.z <= h)
        }),
{
    lemma_dot_with_axis_unit(plane.normal, p.position);
    if plane.is_penetrated_at(p.position) {
        lemma_bounce_mirrors_position(plane, p, restitution);
        let after = plane.spec_resolved(p, restitution, (2 * SCALE) as i64).position;
        lemma_dot_with_axis_unit(plane.normal, after);
    }
}

/// What face `k` of the cube leaves of the particle, at a correction
/// factor of two.
#[verifier::opaque]
spec fn past_face(half_extent: i64, k: int, p: Particle, restitution: i64) -> Particle {
    cube_planes(half_extent)[k].spec_resolved(p, restitution, (2 * SCALE) as i64)
}

/// The collision step of the cube, written out face by face.
proof fn lemma_cube_face_by_face(half_extent: i64, p: Particle, restitution: i64)
    ensures
        ({
            let p1 = past_face(half_extent, 0, p, restitution);
            let p2 = past_face(half_extent, 1, p1, restitution);
            let p3 = past_face(half_extent, 2, p2, restitution);
            let p4 = past_face(half_extent, 3, p3, restitution);
            let p5 = past_face(half_extent, 4, p4, restitution);
            resolved_against(cube_planes(half_extent), p, restitution, (2 * SCALE) as i64)
                == past_face(half_extent, 5, p5, restitution)
        }),
{
    reveal(past_face);
    let planes = cube_planes(half_extent);
    let twice = (2 * SCALE) as i64;
    assert(resolved_against(planes.take(0), p, restitution, twice) == p);
    lemma_one_more_face(planes, 0, p, restitution, twice);
    lemma_one_more_face(planes, 1, p, restitution, twice);
    lemma_one_more_face(planes, 2, p, restitution, twice);
    lemma_one_more_face(planes, 3, p, restitution, twice);
    lemma_one_more_face(planes, 4, p, restitution, twice);
    lemma_one_more_face(planes, 5, p, restitution, twice);
    assert(planes.take(6) =~= planes);
}

/// What face `k` of the cube leaves of a position at most three half-widths
/// from the centre along every axis: the coordinates across the face as
/// they were, the one along it within the bound that the face sets.
proof fn lemma_past_face(half_extent: i64, k: int, p: Particle, restitution: i64)
    requires
        0 <= k < 6,
        0 <= half_extent <= 0x0400_0000_0000_0000,
        -3 * half_extent <= p.position.x <= 3 * half_extent,
        -3 * half_extent <= p.position.y <= 3 * half_extent,
        -3 * half_extent <= p.position.z <= 3 * half_extent,
    ensures
        ({
            let h = half_extent;
            let before = p.position;
            let after = past_face(half_extent, k, p, restitution).position;
            &&& k >= 2 ==> after.z == before.z
            &&& k < 2 || k >= 4 ==> after.y == before.y
            &&& k < 4 ==> after.x == before.x
            &&& k == 0 ==> -3 * h <= after.z <= h
            &&& k == 1 ==> -h <= after.z <= 3 * h && (before.z <= h ==> after.z <= h)
            &&& k == 2 ==> -3 * h <= after.y <= h
            &&& k == 3 ==> -h <= after.y <= 3 * h && (before.y <= h ==> after.y <= h)
            &&& k == 4 ==> -3 * h <= after.x <= h
            &&& k == 5 ==> -h <= after.x <= 3 * h && (before.x <= h ==> after.x <= h)
        }),
{
    reveal(past_face);
    lemma_cube_faces_oppose(half_extent);
    lemma_axis_face_takes_back(cube_planes(half_extent)[k], p, restitution);
}

/// With a correction factor of two the cube takes back every particle
/// that has strayed at most a full width beyond a face: after the
/// collision step its position lies in the cube, faces included.
pub proof fn lemma_cube_takes_back_the_strayed(half_extent: i64, p: Particle, restitution: i64)
    requires
        0 <= half_extent <= 0x0400_0000_0000_0000,
        -3 * half_extent <= p.position.x <= 3 * half_extent,
        -3 * half_extent <= p.position.y <= 3 * half_extent,
        -3 * half_extent <= p.position.z <= 3 * half_extent,
    ensures
        ({
            let after = resolved_against(
                cube_planes(half_extent),
                p,
                restitution,
                (2 * SCALE) as i64,
            ).position;
            &&& -half_extent <= after.x <= half_extent
            &&& -half_extent <= after.y <= half_extent
            &&& -half_extent <= after.z <= half_extent
        }),
{
    let p1 = past_face(half_extent, 0, p, restitution);
    let p2 = past_face(half_extent, 1, p1, restitution);
    let p3 = past_face(half_extent, 2, p2, restitution);
    let p4 = past_face(half_extent, 3, p3, restitution);
    let p5 = past_face(half_extent, 4, p4, restitution);
    lemma_past_face(half_extent, 0, p, restitution);
    lemma_past_face(half_extent, 1, p1, restitution);
    lemma_past_face(half_extent, 2, p2, restitution);
    lemma_past_face(half_extent, 3, p3, restitution);
    lemma_past_face(half_extent, 4, p4, restitution);
    lemma_past_face(half_extent, 5, p5, restitution);
    lemma_cube_face_by_face(half_extent, p, restitution);
}

} // verus!
