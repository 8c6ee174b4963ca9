//! Scalar ray, hit and ray/hit records, and the layout-compatible extension
//! wrappers that attach caller-defined trailing data to them.
//!
//! Fields that hold IEEE 754 binary32 values carry their raw bit patterns in
//! `u32` members; identifier, mask and flag fields are plain `u32`.

use vstd::prelude::*;
use crate::{INF_BITS, INVALID_ID};

verus! {

/// A single ray: origin, direction (not required to be normalized), the
/// valid parametric interval `[tnear, tfar]`, a time value for motion blur,
/// a visibility mask, a caller-assigned id, and flags.
///
/// `org_*`, `dir_*`, `tnear`, `tfar` and `time` hold IEEE 754 binary32 bit
/// patterns; `mask`, `id` and `flags` are plain integers.
#[derive(Clone, Copy, Debug, PartialEq, Eq, Structural)]
pub struct Ray {
    pub org_x: u32,
    pub org_y: u32,
    pub org_z: u32,
    pub tnear: u32,
    pub dir_x: u32,
    pub dir_y: u32,
    pub dir_z: u32,
    pub time: u32,
    pub tfar: u32,
    pub mask: u32,
    pub id: u32,
    pub flags: u32,
}

impl Ray {
    /// Creates a new ray starting at `origin` and heading in direction `dir`,
    /// with the default interval `[0, +inf)`, mask all ones, id 0, flags 0
    /// and time 0.
    pub fn new(origin: [u32; 3], direction: [u32; 3]) -> (r: Ray)
        ensures
            r == Ray::defaults_with(origin@, direction@, 0u32, INF_BITS, 0u32),
    {
        Ray::segment(origin, direction, 0u32, INF_BITS)
    }

    /// As [`Ray::new`], with a caller-assigned ray identifier.
    pub fn new_with_id(origin: [u32; 3], direction: [u32; 3], id: u32) -> (r: Ray)
        ensures
            r == (Ray { id, ..Ray::defaults_with(origin@, direction@, 0u32, INF_BITS, 0u32) }),
    {
        Ray {
            org_x: origin[0],
            org_y: origin[1],
            org_z: origin[2],
            tnear: 0,
            dir_x: direction[0],
            dir_y: direction[1],
            dir_z: direction[2],
            tfar: INF_BITS,
            time: 0,
            mask: u32::MAX,
            id,
            flags: 0,
        }
    }

    /// Creates a new ray starting at `origin` and heading in direction `dir`
    /// with a parametric interval starting at `tnear` and ending at `tfar`.
    pub fn segment(origin: [u32; 3], direction: [u32; 3], tnear: u32, tfar: u32) -> (r: Ray)
        ensures
            r == Ray::defaults_with(origin@, direction@, tnear, tfar, 0u32),
    {
        Ray {
            org_x: origin[0],
            org_y: origin[1],
            org_z: origin[2],
            tnear,
            dir_x: direction[0],
            dir_y: direction[1],
            dir_z: direction[2],
            tfar,
            time: 0,
            mask: u32::MAX,
            id: 0,
            flags: 0,
        }
    }

    /// The ray the constructors build: the given origin, direction and
    /// interval, with time 0, mask all ones, flags 0 and the given id.
    pub open spec fn defaults_with(
        origin: Seq<u32>,
        direction: Seq<u32>,
        tnear: u32,
        tfar: u32,
        id: u32,
    ) -> Ray {
        Ray {
            org_x: origin[0],
            org_y: origin[1],
            org_z: origin[2],
            tnear,
            dir_x: direction[0],
            dir_y: direction[1],
            dir_z: direction[2],
            tfar,
            time: 0u32,
            mask: u32::MAX,
            id,
            flags: 0u32,
        }
    }

    /// Returns the origin of the ray.
    pub fn org(&self) -> (r: [u32; 3])
        ensures
            r@ == seq![self.org_x, self.org_y, self.org_z],
    {
        [self.org_x, self.org_y, self.org_z]
    }

    /// Returns the direction (un-normalized) of the ray.
    pub fn dir(&self) -> (r: [u32; 3])
        ensures
            r@ == seq![self.dir_x, self.dir_y, self.dir_z],
    {
        [self.dir_x, self.dir_y, self.dir_z]
    }
}

/// The result of a ray/primitive intersection: the un-normalized geometric
/// normal at the hit, the barycentric coordinates `u`/`v`, the primitive id,
/// the geometry id, and a one-element instance-id stack.
///
/// A hit whose `geom_id` equals [`INVALID_ID`] records no intersection; that
/// is the state [`Hit::default`] produces. The parametric hit distance is not
/// stored in the hit but in the `tfar` member of the ray it answers.
///
/// `ng_*`, `u` and `v` hold IEEE 754 binary32 bit patterns.
#[derive(Clone, Copy, Debug, PartialEq, Eq, Structural)]
pub struct Hit {
    pub ng_x: u32,
    pub ng_y: u32,
    pub ng_z: u32,
    pub u: u32,
    pub v: u32,
    pub prim_id: u32,
    pub geom_id: u32,
    pub inst_id: u32,
}

impl Hit {
    /// The canonical "no intersection" hit: both ids invalid, every other
    /// field zero.
    pub open spec fn spec_default() -> Hit {
        Hit {
            ng_x: 0u32,
            ng_y: 0u32,
            ng_z: 0u32,
            u: 0u32,
            v: 0u32,
            prim_id: INVALID_ID,
            geom_id: INVALID_ID,
            inst_id: INVALID_ID,
        }
    }

    /// Returns the normal at the hit point (un-normalized).
    pub fn normal(&self) -> (r: [u32; 3])
        ensures
            r@ == seq![self.ng_x, self.ng_y, self.ng_z],
    {
        [self.ng_x, self.ng_y, self.ng_z]
    }

    /// Returns the barycentric u/v coordinates of the hit.
    pub fn barycentric(&self) -> (r: [u32; 2])
        ensures
            r@ == seq![self.u, self.v],
    {
        [self.u, self.v]
    }
}

impl Default for Hit {
    /// Produces the canonical "no intersection" hit.
    fn default() -> (r: Hit)
        ensures
            r == Hit::spec_default(),
    {
        Hit {
            ng_x: 0,
            ng_y: 0,
            ng_z: 0,
            u: 0,
            v: 0,
            prim_id: INVALID_ID,
            geom_id: INVALID_ID,
            inst_id: INVALID_ID,
        }
    }
}

/// A ray paired with a hit: the unit of an intersection query. The engine
/// fills `hit` (and the ray's `tfar`) in place; afterwards validity is
/// decidable purely from `hit.geom_id`.
#[derive(Clone, Copy, Debug, PartialEq, Eq, Structural)]
pub struct RayHit {
    pub ray: Ray,
    pub hit: Hit,
}

impl RayHit {
    /// Creates a new [`RayHit`] ready to be used in an intersection query:
    /// the given ray, paired with the default (invalid) hit.
    pub fn new(ray: Ray) -> (r: RayHit)
        ensures
            r.ray == ray,
            r.hit == Hit::spec_default(),
    {
        RayHit { ray, hit: Hit::default() }
    }

    /// Returns true if the hit is valid (i.e. the ray hit something).
    pub fn is_valid(&self) -> (r: bool)
        ensures
            r == (self.hit.geom_id != INVALID_ID),
    {
        self.hit.geom_id != INVALID_ID
    }
}

/// A freshly constructed ray/hit pair is never a valid hit: its geometry id
/// is the invalid sentinel.
pub proof fn lemma_fresh_ray_hit_invalid(ray: Ray)
    ensures
        (RayHit { ray, hit: Hit::spec_default() }).hit.geom_id == INVALID_ID,
{
}

/// Types that carry a [`Ray`] as their layout prefix and may carry trailing
/// extension data after it.
///
/// The plain [`Ray`] implements this with no extension; [`RayExt`] wraps a
/// ray together with caller-defined trailing data. Projection to the base
/// never copies, and mutating the base through [`AsRay::as_ray_mut`] leaves
/// the extension untouched — that is stated in its contract.
pub trait AsRay: Sized {
    type RayExt;

    /// The base ray this value carries.
    spec fn spec_ray(&self) -> Ray;

    /// The trailing extension data, if this value carries any.
    spec fn spec_ray_ext(&self) -> Option<Self::RayExt>;

    /// Projects to the base ray.
    fn as_ray(&self) -> (r: &Ray)
        ensures
            *r == self.spec_ray();

    /// Projects to the base ray for mutation. Whatever the caller writes
    /// through the returned reference changes the base ray alone: the
    /// extension data is left exactly as it was.
    fn as_ray_mut(&mut self) -> (r: &mut Ray)
        ensures
            *r == old(self).spec_ray(),
            final(self).spec_ray() == *final(r),
            final(self).spec_ray_ext() == old(self).spec_ray_ext();

    /// Returns the extension data, or `None` when this value is the bare
    /// base record. `None` is the one representable "no extension" outcome;
    /// it comes in exactly those cases.
    fn as_ext(&self) -> (r: Option<&Self::RayExt>)
        ensures
            (match r {
                Some(e) => self.spec_ray_ext() == Some(*e),
                None => self.spec_ray_ext() is None,
            });

    /// Returns the extension data for mutation, or `None` when this value is
    /// the bare base record. Writes through the returned reference change
    /// the extension alone: the base ray is left exactly as it was.
    fn as_ext_mut(&mut self) -> (r: Option<&mut Self::RayExt>)
        ensures
            (match r {
                Some(e) => old(self).spec_ray_ext() == Some(*e)
                    && final(self).spec_ray_ext() == Some(*final(e))
                    && final(self).spec_ray() == old(self).spec_ray(),
                None => old(self).spec_ray_ext() is None && *final(self) == *old(self),
            });
}

impl AsRay for Ray {
    type RayExt = ();

    open spec fn spec_ray(&self) -> Ray {
        *self
    }

    open spec fn spec_ray_ext(&self) -> Option<()> {
        None
    }

    fn as_ray(&self) -> (r: &Ray) {
        self
    }

    fn as_ray_mut(&mut self) -> (r: &mut Ray) {
        self
    }

    fn as_ext(&self) -> (r: Option<&()>) {
        None
    }

    fn as_ext_mut(&mut self) -> (r: Option<&mut ()>) {
        None
    }
}

/// A ray followed by caller-defined trailing data.
///
/// The base ray is the first field, so the record begins with the exact
/// layout the intersection engine expects; the extension lives after it and
/// is recovered through [`AsRay::as_ext`].
pub struct RayExt<E: Sized> {
    pub ray: Ray,
    pub ext: E,
}

impl<E: Sized> AsRay for RayExt<E> {
    type RayExt = E;

    open spec fn spec_ray(&self) -> Ray {
        self.ray
    }

    open spec fn spec_ray_ext(&self) -> Option<E> {
        Some(self.ext)
    }

    fn as_ray(&self) -> (r: &Ray) {
        &self.ray
    }

    fn as_ray_mut(&mut self) -> (r: &mut Ray) {
        &mut self.ray
    }

    fn as_ext(&self) -> (r: Option<&E>) {
        Some(&self.ext)
    }

    fn as_ext_mut(&mut self) -> (r: Option<&mut E>) {
        Some(&mut self.ext)
    }
}

/// Types that carry a [`RayHit`] as their layout prefix and may carry
/// trailing extension data after it.
///
/// Since a [`RayHit`] itself begins with a [`Ray`], every implementor also
/// implements [`AsRay`]; `lemma_ray_is_prefix` obliges each implementor to
/// prove that the two projections agree on the ray.
pub trait AsRayHit: AsRay {
    type RayHitExt;

    /// The base ray/hit record this value carries.
    spec fn spec_ray_hit(&self) -> RayHit;

    /// The trailing extension data, if this value carries any.
    spec fn spec_ray_hit_ext(&self) -> Option<Self::RayHitExt>;

    /// The ray seen through [`AsRay`] is the ray member of the ray/hit
    /// record seen through this trait: the base record really is the layout
    /// prefix.
    proof fn lemma_ray_is_prefix(&self)
        ensures
            self.spec_ray() == self.spec_ray_hit().ray;

    /// Projects to the base ray/hit record.
    fn as_ray_hit(&self) -> (r: &RayHit)
        ensures
            *r == self.spec_ray_hit();

    /// Projects to the base ray/hit record for mutation. Whatever the caller
    /// writes through the returned reference changes the base record alone:
    /// the extension data is left exactly as it was.
    fn as_ray_hit_mut(&mut self) -> (r: &mut RayHit)
        ensures
            *r == old(self).spec_ray_hit(),
            final(self).spec_ray_hit() == *final(r),
            final(self).spec_ray_hit_ext() == old(self).spec_ray_hit_ext();

    /// Returns the extension data, or `None` when this value is the bare
    /// base record.
    fn as_ray_hit_ext(&self) -> (r: Option<&Self::RayHitExt>)
        ensures
            (match r {
                Some(e) => self.spec_ray_hit_ext() == Some(*e),
                None => self.spec_ray_hit_ext() is None,
            });

    /// Returns the extension data for mutation, or `None` when this value is
    /// the bare base record. Writes through the returned reference change
    /// the extension alone: the base record is left exactly as it was.
    fn as_ray_hit_ext_mut(&mut self) -> (r: Option<&mut Self::RayHitExt>)
        ensures
            (match r {
                Some(e) => old(self).spec_ray_hit_ext() == Some(*e)
                    && final(self).spec_ray_hit_ext() == Some(*final(e))
                    && final(self).spec_ray_hit() == old(self).spec_ray_hit(),
                None => old(self).spec_ray_hit_ext() is None && *final(self) == *old(self),
            });
}

impl AsRay for RayHit {
    type RayExt = Hit;

    open spec fn spec_ray(&self) -> Ray {
        self.ray
    }

    open spec fn spec_ray_ext(&self) -> Option<Hit> {
        Some(self.hit)
    }

    fn as_ray(&self) -> (r: &Ray) {
        &self.ray
    }

    fn as_ray_mut(&mut self) -> (r: &mut Ray) {
        &mut self.ray
    }

    fn as_ext(&self) -> (r: Option<&Hit>) {
        Some(&self.hit)
    }

    fn as_ext_mut(&mut self) -> (r: Option<&mut Hit>) {
        Some(&mut self.hit)
    }
}

impl AsRayHit for RayHit {
    type RayHitExt = ();

    open spec fn spec_ray_hit(&self) -> RayHit {
        *self
    }

    open spec fn spec_ray_hit_ext(&self) -> Option<()> {
        None
    }

    proof fn lemma_ray_is_prefix(&self) {
    }

    fn as_ray_hit(&self) -> (r: &RayHit) {
        self
    }

    fn as_ray_hit_mut(&mut self) -> (r: &mut RayHit) {
        self
    }

    fn as_ray_hit_ext(&self) -> (r: Option<&()>) {
        None
    }

    fn as_ray_hit_ext_mut(&mut self) -> (r: Option<&mut ()>) {
        None
    }
}

/// A ray/hit record followed by caller-defined trailing data.
///
/// The base record is the first field, so the record begins with the exact
/// layout the intersection engine expects; the extension lives after it and
/// is recovered through [`AsRayHit::as_ray_hit_ext`].
pub struct RayHitExt<E: Sized> {
    pub ray: RayHit,
    pub ext: E,
}

impl<E: Sized> AsRay for RayHitExt<E> {
    type RayExt = Hit;

    open spec fn spec_ray(&self) -> Ray {
        self.ray.ray
    }

    open spec fn spec_ray_ext(&self) -> Option<Hit> {
        Some(self.ray.hit)
    }

    fn as_ray(&self) -> (r: &Ray) {
        &self.ray.ray
    }

    fn as_ray_mut(&mut self) -> (r: &mut Ray) {
        &mut self.ray.ray
    }

    fn as_ext(&self) -> (r: Option<&Hit>) {
        Some(&self.ray.hit)
    }

    fn as_ext_mut(&mut self) -> (r: Option<&mut Hit>) {
        Some(&mut self.ray.hit)
    }
}

impl<E: Sized> AsRayHit for RayHitExt<E> {
    type RayHitExt = E;

    open spec fn spec_ray_hit(&self) -> RayHit {
        self.ray
    }

    open spec fn spec_ray_hit_ext(&self) -> Option<E> {
        Some(self.ext)
    }

    proof fn lemma_ray_is_prefix(&self) {
    }

    fn as_ray_hit(&self) -> (r: &RayHit) {
        &self.ray
    }

    fn as_ray_hit_mut(&mut self) -> (r: &mut RayHit) {
        &mut self.ray
    }

    fn as_ray_hit_ext(&self) -> (r: Option<&E>) {
        Some(&self.ext)
    }

    fn as_ray_hit_ext_mut(&mut self) -> (r: Option<&mut E>) {
        Some(&mut self.ext)
    }
}

} // verus!
