//! The container: half-spaces whose intersection holds the particles, and
//! the inelastic bounce off each of them.

use vstd::prelude::*;
use crate::fixed::{
    fx_add, fx_double, fx_mul, spec_fx_add, spec_fx_double, spec_fx_mul, SCALE,
};
use crate::laws::lemma_inside_is_untouched;
use crate::particle::Particle;
use crate::vector::Vec3;

verus! {

/// A face of the container: the points `p` with
/// `normal . p + offset >= 0` lie on its inner side.
#[derive(Clone, Copy, Debug, PartialEq, Eq, Structural)]
pub struct Plane {
    pub normal: Vec3,
    pub offset: i64,
}

impl Plane {
    /// The signed distance of `point` from the face; negative outside.
    pub open spec fn spec_signed_distance(self, point: Vec3) -> i64 {
        spec_fx_add(self.normal.spec_dot(point), self.offset)
    }

    /// Whether `point` lies strictly outside the face.
    pub open spec fn is_penetrated_at(self, point: Vec3) -> bool {
        self.spec_signed_distance(point) < 0
    }

    /// The particle thrown back by the face: the velocity loses
    /// `restitution * 2 * (normal . velocity)` along the normal, the
    /// position `correction * distance` along the normal.
    pub open spec fn spec_bounced(self, p: Particle, restitution: i64, correction: i64) -> Particle {
        let distance = self.spec_signed_distance(p.position);
        let d = self.normal.spec_dot(p.velocity);
        Particle {
            position: p.position.spec_minus(
                self.normal.spec_scaled(spec_fx_mul(correction, distance)),
            ),
            velocity: p.velocity.spec_minus(
                self.normal.spec_scaled(spec_fx_double(d)).spec_scaled(restitution),
            ),
        }
    }

    /// The particle after the face has been consulted: thrown back where it
    /// lies strictly outside, untouched on the face and inside.
    pub open spec fn spec_resolved(self, p: Particle, restitution: i64, correction: i64) -> Particle {
        if self.is_penetrated_at(p.position) {
            self.spec_bounced(p, restitution, correction)
        } else {
            p
        }
    }

    /// Computes the signed distance of `point` from the face.
    #[verifier::when_used_as_spec(spec_signed_distance)]
    pub fn signed_distance(self, point: Vec3) -> (distance: i64)
        ensures
            distance == self.spec_signed_distance(point),
    {
        fx_add(self.normal.dot(point), self.offset)
    }

    /// Resolves the particle against this face alone.
    #[verifier::when_used_as_spec(spec_resolved)]
    pub fn resolved(self, p: Particle, restitution: i64, correction: i64) -> (q: Particle)
        ensures
            q == self.spec_resolved(p, restitution, correction),
            !self.is_penetrated_at(p.position) ==> q == p,
    {
        let distance = self.signed_distance(p.position);
        if distance < 0 {
            let d = self.normal.dot(p.velocity);
            let kick = self.normal.scaled(fx_double(d)).scaled(restitution);
            let shift = self.normal.scaled(fx_mul(correction, distance));
            Particle { position: p.position.minus(shift), velocity: p.velocity.minus(kick) }
        } else {
            p
        }
    }
}

/// The particle after each face of `planes` has been consulted in turn,
/// every face seeing what the faces before it left.
pub open spec fn resolved_against(
    planes: Seq<Plane>,
    p: Particle,
    restitution: i64,
    correction: i64,
) -> Particle
    decreases planes.len(),
{
    if planes.len() == 0 {
        p
    } else {
        planes.last().spec_resolved(
            resolved_against(planes.drop_last(), p, restitution, correction),
            restitution,
            correction,
        )
    }
}

/// The six faces of the axis-aligned cube `[-h, h]^3`, normals inward:
/// the two across `z`, then `y`, then `x`, the negative normal first.
pub open spec fn cube_planes(half_extent: i64) -> Seq<Plane> {
    seq![
        Plane { normal: Vec3 { x: 0, y: 0, z: (-SCALE) as i64 }, offset: half_extent },
        Plane { normal: Vec3 { x: 0, y: 0, z: SCALE }, offset: half_extent },
        Plane { normal: Vec3 { x: 0, y: (-SCALE) as i64, z: 0 }, offset: half_extent },
        Plane { normal: Vec3 { x: 0, y: SCALE, z: 0 }, offset: half_extent },
        Plane { normal: Vec3 { x: (-SCALE) as i64, y: 0, z: 0 }, offset: half_extent },
        Plane { normal: Vec3 { x: SCALE, y: 0, z: 0 }, offset: half_extent },
    ]
}

/// Whether the faces are those of a box along the axes: six of them, each
/// with a unit normal along an axis, and every two in a row across one
/// axis, with opposite normals and the same offset.
pub open spec fn is_box(planes: Seq<Plane>) -> bool {
    &&& planes.len() == 6
    &&& forall|k: int| 0 <= k < 6 ==> (#[trigger] planes[k]).normal.is_axis_unit()
    &&& forall|k: int|
        0 <= k < 3 ==> {
            let near = #[trigger] planes[2 * k];
            let far = planes[2 * k + 1];
            &&& near.offset == far.offset
            &&& near.normal.x == -far.normal.x
            &&& near.normal.y == -far.normal.y
            &&& near.normal.z == -far.normal.z
        }
}

/// The fixed set of faces that bounds the particles.
pub struct ContainerBoundary {
    planes: Vec<Plane>,
}

impl View for ContainerBoundary {
    type V = Seq<Plane>;

    closed spec fn view(&self) -> Seq<Plane> {
        self.planes@
    }
}

impl ContainerBoundary {
    /// The boundary made of the given faces, in the given order.
    pub fn from_planes(planes: Vec<Plane>) -> (b: ContainerBoundary)
        ensures
            b@ == planes@,
    {
        ContainerBoundary { planes }
    }

    /// The cube of the given half-width about the origin.
    pub fn cube(half_extent: i64) -> (b: ContainerBoundary)
        ensures
            b@ == cube_planes(half_extent),
            is_box(b@),
    {
        let mut planes: Vec<Plane> = Vec::new();
        planes.push(Plane { normal: Vec3 { x: 0, y: 0, z: -SCALE }, offset: half_extent });
        planes.push(Plane { normal: Vec3 { x: 0, y: 0, z: SCALE }, offset: half_extent });
        planes.push(Plane { normal: Vec3 { x: 0, y: -SCALE, z: 0 }, offset: half_extent });
        planes.push(Plane { normal: Vec3 { x: 0, y: SCALE, z: 0 }, offset: half_extent });
        planes.push(Plane { normal: Vec3 { x: -SCALE, y: 0, z: 0 }, offset: half_extent });
        planes.push(Plane { normal: Vec3 { x: SCALE, y: 0, z: 0 }, offset: half_extent });
        assert(planes@ =~= cube_planes(half_extent));
        ContainerBoundary { planes }
    }

    /// The faces, in the order in which they are consulted.
    pub fn planes(&self) -> (planes: &Vec<Plane>)
        ensures
            planes@ == self@,
    {
        &self.planes
    }

    /// Resolves the particle against every face in turn. A particle that
    /// lies on or inside every face comes back as it went in.
    pub fn resolve(&self, p: Particle, restitution: i64, correction: i64) -> (q: Particle)
        ensures
            q == resolved_against(self@, p, restitution, correction),
            (forall|k: int| 0 <= k < self@.len() ==> !(#[trigger] self@[k]).is_penetrated_at(
                p.position,
            )) ==> q == p,
    {
        let mut q = p;
        let n = self.planes.len();
        let mut i: usize = 0;
        while i < n
            invariant
                i <= n,
                n == self.planes@.len(),
                q == resolved_against(self.planes@.take(i as int), p, restitution, correction),
            decreases n - i,
        {
            assert(self.planes@.take(i + 1).drop_last() =~= self.planes@.take(i as int));
            q = self.planes[i].resolved(q, restitution, correction);
            i += 1;
        }
        assert(self.planes@.take(n as int) =~= self.planes@);
        proof {
            if forall|k: int| 0 <= k < self@.len() ==> !(#[trigger] self@[k]).is_penetrated_at(
                p.position,
            ) {
                lemma_inside_is_untouched(self@, p, restitution, correction);
            }
        }
        q
    }
}

} // verus!
