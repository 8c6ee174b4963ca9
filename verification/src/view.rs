//! Ray, hit and ray/hit packets of runtime width.
//!
//! A callback invoked by the intersection engine receives buffers whose lane
//! count — 1, 4, 8 or 16 — is known only at the call site; the engine
//! reports it alongside the buffer and the caller must construct the packet
//! with exactly that width, never an inferred one. These types carry such a
//! buffer together with its width and decode the same structure-of-arrays
//! layout as the fixed-width packets; every access is bounds-checked against
//! the supplied width. In a combined ray/hit buffer the hit region starts
//! twelve words per lane after the ray region: the width-independent shape
//! of a combined record, fixed by the engine's ABI.

use vstd::prelude::*;
use crate::layout::{
    get_word, copy_range, hit_lane, lane_has_hit, ray_lane, region_wf, set_hit_field,
    set_ray_field, valid_width, HIT_FIELDS, HIT_GEOM_ID, HIT_INST_ID, HIT_NG_X, HIT_NG_Y,
    HIT_NG_Z, HIT_PRIM_ID, HIT_U, HIT_V, RAY_DIR_X, RAY_DIR_Y, RAY_DIR_Z, RAY_FIELDS, RAY_FLAGS,
    RAY_ID, RAY_MASK, RAY_ORG_X, RAY_ORG_Y, RAY_ORG_Z, RAY_TFAR, RAY_TIME, RAY_TNEAR,
};
use crate::packet::{HitNt, RayNt};
use crate::ray::{Hit, Ray};
use crate::soa_iter::{SoAHitIter, SoARayIter};

verus! {

/// A ray packet of runtime width: 1, 4, 8 or 16 lanes.
pub struct RayN {
    pub(crate) data: Vec<u32>,
    pub(crate) width: usize,
}

impl RayN {
    /// The flat words of the packet's region.
    pub closed spec fn words(&self) -> Seq<u32> {
        self.data@
    }

    /// The packet's lane count.
    pub closed spec fn spec_width(&self) -> int {
        self.width as int
    }

    /// The lane count is one the engine supports and the region holds the
    /// twelve ray fields over it.
    pub open spec fn wf(&self) -> bool {
        valid_width(self.spec_width()) && region_wf(
            self.words(),
            RAY_FIELDS as int,
            self.spec_width(),
        )
    }

    /// Lane `i`, read back as a scalar ray.
    pub open spec fn lane(&self, i: int) -> Ray {
        ray_lane(self.words(), self.spec_width(), i)
    }

    /// Wraps an engine-supplied buffer under the width the engine reported
    /// for it.
    pub fn from_words(data: Vec<u32>, width: usize) -> (r: RayN)
        requires
            valid_width(width as int),
            region_wf(data@, RAY_FIELDS as int, width as int),
        ensures
            r.wf(),
            r.words() == data@,
            r.spec_width() == width as int,
    {
        RayN { data, width }
    }

    /// The packet's flat buffer.
    pub fn as_words(&self) -> (r: &Vec<u32>)
        ensures
            r@ == self.words(),
    {
        &self.data
    }

    /// Returns the number of rays in the packet: 1, 4, 8 or 16.
    pub fn len(&self) -> (r: usize)
        ensures
            r as int == self.spec_width(),
    {
        self.width
    }

    /// Returns true if the packet has no lanes.
    pub fn is_empty(&self) -> (r: bool)
        ensures
            r == (self.spec_width() == 0),
    {
        self.width == 0
    }

    /// Iterates over the lanes, yielding each as a scalar ray.
    pub fn iter(&self) -> (it: SoARayIter<'_>)
        requires
            self.wf(),
        ensures
            it.wf(),
            it.region() == self.words(),
            it.spec_width() == self.spec_width(),
            it.pos() == 0,
    {
        SoARayIter::new(&self.data, self.width)
    }

    /// Returns the origin of lane `i`.
    pub fn org(&self, i: usize) -> (r: [u32; 3])
        requires
            self.wf(),
            i < self.spec_width(),
        ensures
            r@ == seq![
                self.lane(i as int).org_x,
                self.lane(i as int).org_y,
                self.lane(i as int).org_z,
            ],
    {
        let r = [
            get_word(&self.data, RAY_FIELDS, self.width, RAY_ORG_X, i),
            get_word(&self.data, RAY_FIELDS, self.width, RAY_ORG_Y, i),
            get_word(&self.data, RAY_FIELDS, self.width, RAY_ORG_Z, i),
        ];
        proof {
            assert(r@ =~= seq![
                self.lane(i as int).org_x,
                self.lane(i as int).org_y,
                self.lane(i as int).org_z,
            ]);
        }
        r
    }

    /// Sets the origin of lane `i`; no other field of any lane changes.
    pub fn set_org(&mut self, i: usize, o: [u32; 3])
        requires
            old(self).wf(),
            i < old(self).spec_width(),
        ensures
            final(self).wf(),
            final(self).spec_width() == old(self).spec_width(),
            final(self).lane(i as int) == (Ray {
                org_x: o@[0],
                org_y: o@[1],
                org_z: o@[2],
                ..old(self).lane(i as int)
            }),
            forall|j: int|
                0 <= j < old(self).spec_width() && j != i ==> final(self).lane(j) == old(
                    self,
                ).lane(j),
    {
        let w = self.width;
        set_ray_field(&mut self.data, w, RAY_ORG_X, i, o[0]);
        set_ray_field(&mut self.data, w, RAY_ORG_Y, i, o[1]);
        set_ray_field(&mut self.data, w, RAY_ORG_Z, i, o[2]);
    }

    /// Returns the direction of lane `i`.
    pub fn dir(&self, i: usize) -> (r: [u32; 3])
        requires
            self.wf(),
            i < self.spec_width(),
        ensures
            r@ == seq![
                self.lane(i as int).dir_x,
                self.lane(i as int).dir_y,
                self.lane(i as int).dir_z,
            ],
    {
        let r = [
            get_word(&self.data, RAY_FIELDS, self.width, RAY_DIR_X, i),
            get_word(&self.data, RAY_FIELDS, self.width, RAY_DIR_Y, i),
            get_word(&self.data, RAY_FIELDS, self.width, RAY_DIR_Z, i),
        ];
        proof {
            assert(r@ =~= seq![
                self.lane(i as int).dir_x,
                self.lane(i as int).dir_y,
                self.lane(i as int).dir_z,
            ]);
        }
        r
    }

    /// Sets the direction of lane `i`; no other field of any lane changes.
    pub fn set_dir(&mut self, i: usize, d: [u32; 3])
        requires
            old(self).wf(),
            i < old(self).spec_width(),
        ensures
            final(self).wf(),
            final(self).spec_width() == old(self).spec_width(),
            final(self).lane(i as int) == (Ray {
                dir_x: d@[0],
                dir_y: d@[1],
                dir_z: d@[2],
                ..old(self).lane(i as int)
            }),
            forall|j: int|
                0 <= j < old(self).spec_width() && j != i ==> final(self).lane(j) == old(
                    self,
                ).lane(j),
    {
        let w = self.width;
        set_ray_field(&mut self.data, w, RAY_DIR_X, i, d[0]);
        set_ray_field(&mut self.data, w, RAY_DIR_Y, i, d[1]);
        set_ray_field(&mut self.data, w, RAY_DIR_Z, i, d[2]);
    }

    /// Returns the interval start of lane `i`.
    pub fn tnear(&self, i: usize) -> (r: u32)
        requires
            self.wf(),
            i < self.spec_width(),
        ensures
            r == self.lane(i as int).tnear,
    {
        get_word(&self.data, RAY_FIELDS, self.width, RAY_TNEAR, i)
    }

    /// Sets the interval start of lane `i`; no other field of any lane
    /// changes.
    pub fn set_tnear(&mut self, i: usize, t: u32)
        requires
            old(self).wf(),
            i < old(self).spec_width(),
        ensures
            final(self).wf(),
            final(self).spec_width() == old(self).spec_width(),
            final(self).lane(i as int) == (Ray { tnear: t, ..old(self).lane(i as int) }),
            forall|j: int|
                0 <= j < old(self).spec_width() && j != i ==> final(self).lane(j) == old(
                    self,
                ).lane(j),
    {
        let w = self.width;
        set_ray_field(&mut self.data, w, RAY_TNEAR, i, t);
    }

    /// Returns the interval end of lane `i`: after an intersect query, the
    /// distance of the nearest hit.
    pub fn tfar(&self, i: usize) -> (r: u32)
        requires
            self.wf(),
            i < self.spec_width(),
        ensures
            r == self.lane(i as int).tfar,
    {
        get_word(&self.data, RAY_FIELDS, self.width, RAY_TFAR, i)
    }

    /// Sets the interval end of lane `i`; no other field of any lane
    /// changes.
    pub fn set_tfar(&mut self, i: usize, t: u32)
        requires
            old(self).wf(),
            i < old(self).spec_width(),
        ensures
            final(self).wf(),
            final(self).spec_width() == old(self).spec_width(),
            final(self).lane(i as int) == (Ray { tfar: t, ..old(self).lane(i as int) }),
            forall|j: int|
                0 <= j < old(self).spec_width() && j != i ==> final(self).lane(j) == old(
                    self,
                ).lane(j),
    {
        let w = self.width;
        set_ray_field(&mut self.data, w, RAY_TFAR, i, t);
    }

    /// Returns the time of lane `i`.
    pub fn time(&self, i: usize) -> (r: u32)
        requires
            self.wf(),
            i < self.spec_width(),
        ensures
            r == self.lane(i as int).time,
    {
        get_word(&self.data, RAY_FIELDS, self.width, RAY_TIME, i)
    }

    /// Sets the time of lane `i`; no other field of any lane changes.
    pub fn set_time(&mut self, i: usize, t: u32)
        requires
            old(self).wf(),
            i < old(self).spec_width(),
        ensures
            final(self).wf(),
            final(self).spec_width() == old(self).spec_width(),
            final(self).lane(i as int) == (Ray { time: t, ..old(self).lane(i as int) }),
            forall|j: int|
                0 <= j < old(self).spec_width() && j != i ==> final(self).lane(j) == old(
                    self,
                ).lane(j),
    {
        let w = self.width;
        set_ray_field(&mut self.data, w, RAY_TIME, i, t);
    }

    /// Returns the visibility mask of lane `i`.
    pub fn mask(&self, i: usize) -> (r: u32)
        requires
            self.wf(),
            i < self.spec_width(),
        ensures
            r == self.lane(i as int).mask,
    {
        get_word(&self.data, RAY_FIELDS, self.width, RAY_MASK, i)
    }

    /// Sets the visibility mask of lane `i`; no other field of any lane
    /// changes.
    pub fn set_mask(&mut self, i: usize, m: u32)
        requires
            old(self).wf(),
            i < old(self).spec_width(),
        ensures
            final(self).wf(),
            final(self).spec_width() == old(self).spec_width(),
            final(self).lane(i as int) == (Ray { mask: m, ..old(self).lane(i as int) }),
            forall|j: int|
                0 <= j < old(self).spec_width() && j != i ==> final(self).lane(j) == old(
                    self,
                ).lane(j),
    {
        let w = self.width;
        set_ray_field(&mut self.data, w, RAY_MASK, i, m);
    }

    /// Returns the caller-assigned id of lane `i`.
    pub fn id(&self, i: usize) -> (r: u32)
        requires
            self.wf(),
            i < self.spec_width(),
        ensures
            r == self.lane(i as int).id,
    {
        get_word(&self.data, RAY_FIELDS, self.width, RAY_ID, i)
    }

    /// Sets the caller-assigned id of lane `i`; no other field of any lane
    /// changes.
    pub fn set_id(&mut self, i: usize, id: u32)
        requires
            old(self).wf(),
            i < old(self).spec_width(),
        ensures
            final(self).wf(),
            final(self).spec_width() == old(self).spec_width(),
            final(self).lane(i as int) == (Ray { id, ..old(self).lane(i as int) }),
            forall|j: int|
                0 <= j < old(self).spec_width() && j != i ==> final(self).lane(j) == old(
                    self,
                ).lane(j),
    {
        let w = self.width;
        set_ray_field(&mut self.data, w, RAY_ID, i, id);
    }

    /// Returns the flags of lane `i`.
    pub fn flags(&self, i: usize) -> (r: u32)
        requires
            self.wf(),
            i < self.spec_width(),
        ensures
            r == self.lane(i as int).flags,
    {
        get_word(&self.data, RAY_FIELDS, self.width, RAY_FLAGS, i)
    }

    /// Sets the flags of lane `i`; no other field of any lane changes.
    pub fn set_flags(&mut self, i: usize, f: u32)
        requires
            old(self).wf(),
            i < old(self).spec_width(),
        ensures
            final(self).wf(),
            final(self).spec_width() == old(self).spec_width(),
            final(self).lane(i as int) == (Ray { flags: f, ..old(self).lane(i as int) }),
            forall|j: int|
                0 <= j < old(self).spec_width() && j != i ==> final(self).lane(j) == old(
                    self,
                ).lane(j),
    {
        let w = self.width;
        set_ray_field(&mut self.data, w, RAY_FLAGS, i, f);
    }
}

/// A hit packet of runtime width: 1, 4, 8 or 16 lanes.
pub struct HitN {
    pub(crate) data: Vec<u32>,
    pub(crate) width: usize,
}

impl HitN {
    /// The flat words of the packet's region.
    pub closed spec fn words(&self) -> Seq<u32> {
        self.data@
    }

    /// The packet's lane count.
    pub closed spec fn spec_width(&self) -> int {
        self.width as int
    }

    /// The lane count is one the engine supports and the region holds the
    /// eight hit fields over it.
    pub open spec fn wf(&self) -> bool {
        valid_width(self.spec_width()) && region_wf(
            self.words(),
            HIT_FIELDS as int,
            self.spec_width(),
        )
    }

    /// Lane `i`, read back as a scalar hit.
    pub open spec fn lane(&self, i: int) -> Hit {
        hit_lane(self.words(), self.spec_width(), i)
    }

    /// Lane `i` records an intersection.
    pub open spec fn lane_hit(&self, i: int) -> bool {
        lane_has_hit(self.words(), self.spec_width(), i)
    }

    /// Wraps an engine-supplied buffer under the width the engine reported
    /// for it.
    pub fn from_words(data: Vec<u32>, width: usize) -> (r: HitN)
        requires
            valid_width(width as int),
            region_wf(data@, HIT_FIELDS as int, width as int),
        ensures
            r.wf(),
            r.words() == data@,
            r.spec_width() == width as int,
    {
        HitN { data, width }
    }

    /// The packet's flat buffer.
    pub fn as_words(&self) -> (r: &Vec<u32>)
        ensures
            r@ == self.words(),
    {
        &self.data
    }

    /// Returns the number of hits in the packet: 1, 4, 8 or 16.
    pub fn len(&self) -> (r: usize)
        ensures
            r as int == self.spec_width(),
    {
        self.width
    }

    /// Returns true if the packet has no lanes.
    pub fn is_empty(&self) -> (r: bool)
        ensures
            r == (self.spec_width() == 0),
    {
        self.width == 0
    }

    /// Iterates over the lanes, yielding each as a scalar hit.
    pub fn iter(&self) -> (it: SoAHitIter<'_>)
        requires
            self.wf(),
        ensures
            it.wf(),
            it.region() == self.words(),
            it.spec_width() == self.spec_width(),
            it.pos() == 0,
    {
        SoAHitIter::new(&self.data, self.width)
    }

    /// Returns the un-normalized geometric normal of lane `i`.
    pub fn normal(&self, i: usize) -> (r: [u32; 3])
        requires
            self.wf(),
            i < self.spec_width(),
        ensures
            r@ == seq![
                self.lane(i as int).ng_x,
                self.lane(i as int).ng_y,
                self.lane(i as int).ng_z,
            ],
    {
        let r = [
            get_word(&self.data, HIT_FIELDS, self.width, HIT_NG_X, i),
            get_word(&self.data, HIT_FIELDS, self.width, HIT_NG_Y, i),
            get_word(&self.data, HIT_FIELDS, self.width, HIT_NG_Z, i),
        ];
        proof {
            assert(r@ =~= seq![
                self.lane(i as int).ng_x,
                self.lane(i as int).ng_y,
                self.lane(i as int).ng_z,
            ]);
        }
        r
    }

    /// Sets the geometric normal of lane `i`; no other field of any lane
    /// changes.
    pub fn set_normal(&mut self, i: usize, n: [u32; 3])
        requires
            old(self).wf(),
            i < old(self).spec_width(),
        ensures
            final(self).wf(),
            final(self).spec_width() == old(self).spec_width(),
            final(self).lane(i as int) == (Hit {
                ng_x: n@[0],
                ng_y: n@[1],
                ng_z: n@[2],
                ..old(self).lane(i as int)
            }),
            forall|j: int|
                0 <= j < old(self).spec_width() && j != i ==> final(self).lane(j) == old(
                    self,
                ).lane(j),
    {
        let w = self.width;
        set_hit_field(&mut self.data, w, HIT_NG_X, i, n[0]);
        set_hit_field(&mut self.data, w, HIT_NG_Y, i, n[1]);
        set_hit_field(&mut self.data, w, HIT_NG_Z, i, n[2]);
    }

    /// Returns the barycentric u/v coordinates of lane `i`.
    pub fn uv(&self, i: usize) -> (r: [u32; 2])
        requires
            self.wf(),
            i < self.spec_width(),
        ensures
            r@ == seq![self.lane(i as int).u, self.lane(i as int).v],
    {
        let r = [
            get_word(&self.data, HIT_FIELDS, self.width, HIT_U, i),
            get_word(&self.data, HIT_FIELDS, self.width, HIT_V, i),
        ];
        proof {
            assert(r@ =~= seq![self.lane(i as int).u, self.lane(i as int).v]);
        }
        r
    }

    /// Sets the barycentric u coordinate of lane `i`; no other field of any
    /// lane changes.
    pub fn set_u(&mut self, i: usize, u: u32)
        requires
            old(self).wf(),
            i < old(self).spec_width(),
        ensures
            final(self).wf(),
            final(self).spec_width() == old(self).spec_width(),
            final(self).lane(i as int) == (Hit { u, ..old(self).lane(i as int) }),
            forall|j: int|
                0 <= j < old(self).spec_width() && j != i ==> final(self).lane(j) == old(
                    self,
                ).lane(j),
    {
        let w = self.width;
        set_hit_field(&mut self.data, w, HIT_U, i, u);
    }

    /// Sets the barycentric v coordinate of lane `i`; no other field of any
    /// lane changes.
    pub fn set_v(&mut self, i: usize, v: u32)
        requires
            old(self).wf(),
            i < old(self).spec_width(),
        ensures
            final(self).wf(),
            final(self).spec_width() == old(self).spec_width(),
            final(self).lane(i as int) == (Hit { v, ..old(self).lane(i as int) }),
            forall|j: int|
                0 <= j < old(self).spec_width() && j != i ==> final(self).lane(j) == old(
                    self,
                ).lane(j),
    {
        let w = self.width;
        set_hit_field(&mut self.data, w, HIT_V, i, v);
    }

    /// Returns the primitive id of lane `i`.
    pub fn prim_id(&self, i: usize) -> (r: u32)
        requires
            self.wf(),
            i < self.spec_width(),
        ensures
            r == self.lane(i as int).prim_id,
    {
        get_word(&self.data, HIT_FIELDS, self.width, HIT_PRIM_ID, i)
    }

    /// Sets the primitive id of lane `i`; no other field of any lane
    /// changes.
    pub fn set_prim_id(&mut self, i: usize, id: u32)
        requires
            old(self).wf(),
            i < old(self).spec_width(),
        ensures
            final(self).wf(),
            final(self).spec_width() == old(self).spec_width(),
            final(self).lane(i as int) == (Hit { prim_id: id, ..old(self).lane(i as int) }),
            forall|j: int|
                0 <= j < old(self).spec_width() && j != i ==> final(self).lane(j) == old(
                    self,
                ).lane(j),
    {
        let w = self.width;
        set_hit_field(&mut self.data, w, HIT_PRIM_ID, i, id);
    }

    /// Returns the geometry id of lane `i`.
    pub fn geom_id(&self, i: usize) -> (r: u32)
        requires
            self.wf(),
            i < self.spec_width(),
        ensures
            r == self.lane(i as int).geom_id,
    {
        get_word(&self.data, HIT_FIELDS, self.width, HIT_GEOM_ID, i)
    }

    /// Sets the geometry id of lane `i`; no other field of any lane changes.
    pub fn set_geom_id(&mut self, i: usize, id: u32)
        requires
            old(self).wf(),
            i < old(self).spec_width(),
        ensures
            final(self).wf(),
            final(self).spec_width() == old(self).spec_width(),
            final(self).lane(i as int) == (Hit { geom_id: id, ..old(self).lane(i as int) }),
            forall|j: int|
                0 <= j < old(self).spec_width() && j != i ==> final(self).lane(j) == old(
                    self,
                ).lane(j),
    {
        let w = self.width;
        set_hit_field(&mut self.data, w, HIT_GEOM_ID, i, id);
    }

    /// Returns the instance id of lane `i`.
    pub fn inst_id(&self, i: usize) -> (r: u32)
        requires
            self.wf(),
            i < self.spec_width(),
        ensures
            r == self.lane(i as int).inst_id,
    {
        get_word(&self.data, HIT_FIELDS, self.width, HIT_INST_ID, i)
    }

    /// Sets the instance id of lane `i`; no other field of any lane changes.
    pub fn set_inst_id(&mut self, i: usize, id: u32)
        requires
            old(self).wf(),
            i < old(self).spec_width(),
        ensures
            final(self).wf(),
            final(self).spec_width() == old(self).spec_width(),
            final(self).lane(i as int) == (Hit { inst_id: id, ..old(self).lane(i as int) }),
            forall|j: int|
                0 <= j < old(self).spec_width() && j != i ==> final(self).lane(j) == old(
                    self,
                ).lane(j),
    {
        let w = self.width;
        set_hit_field(&mut self.data, w, HIT_INST_ID, i, id);
    }
}

/// A combined ray/hit packet of runtime width: 1, 4, 8 or 16 lanes. The ray
/// region spans the first `RAY_FIELDS * width` words; the hit region the
/// `HIT_FIELDS * width` words after it.
pub struct RayHitN {
    pub(crate) data: Vec<u32>,
    pub(crate) width: usize,
}

impl RayHitN {
    /// The flat words of the combined region.
    pub closed spec fn words(&self) -> Seq<u32> {
        self.data@
    }

    /// The packet's lane count.
    pub closed spec fn spec_width(&self) -> int {
        self.width as int
    }

    /// The lane count is one the engine supports and the region holds the
    /// twelve ray fields followed by the eight hit fields over it.
    pub open spec fn wf(&self) -> bool {
        valid_width(self.spec_width()) && region_wf(
            self.words(),
            (RAY_FIELDS + HIT_FIELDS) as int,
            self.spec_width(),
        )
    }

    /// Wraps an engine-supplied combined buffer under the width the engine
    /// reported for it.
    pub fn from_words(data: Vec<u32>, width: usize) -> (r: RayHitN)
        requires
            valid_width(width as int),
            region_wf(data@, (RAY_FIELDS + HIT_FIELDS) as int, width as int),
        ensures
            r.wf(),
            r.words() == data@,
            r.spec_width() == width as int,
    {
        RayHitN { data, width }
    }

    /// The packet's flat buffer.
    pub fn as_words(&self) -> (r: &Vec<u32>)
        ensures
            r@ == self.words(),
    {
        &self.data
    }

    /// Returns the number of lanes in the packet: 1, 4, 8 or 16.
    pub fn len(&self) -> (r: usize)
        ensures
            r as int == self.spec_width(),
    {
        self.width
    }

    /// Returns true if the packet has no lanes.
    pub fn is_empty(&self) -> (r: bool)
        ensures
            r == (self.spec_width() == 0),
    {
        self.width == 0
    }

    /// Returns the ray packet: the first `RAY_FIELDS * width` words of the
    /// combined region, under the same width.
    pub fn ray_n(&self) -> (r: RayN)
        requires
            self.wf(),
        ensures
            r.wf(),
            r.spec_width() == self.spec_width(),
            r.words() == self.words().subrange(0, RAY_FIELDS as int * self.spec_width()),
    {
        let data = copy_range(&self.data, 0, RAY_FIELDS * self.width);
        RayN { data, width: self.width }
    }

    /// Returns the hit packet: the `HIT_FIELDS * width` words that start
    /// `RAY_FIELDS * width` words into the combined region — the
    /// width-independent offset of the hit region inside a combined record —
    /// under the same width.
    pub fn hit_n(&self) -> (r: HitN)
        requires
            self.wf(),
        ensures
            r.wf(),
            r.spec_width() == self.spec_width(),
            r.words() == self.words().subrange(
                RAY_FIELDS as int * self.spec_width(),
                (RAY_FIELDS + HIT_FIELDS) as int * self.spec_width(),
            ),
    {
        let data = copy_range(
            &self.data,
            RAY_FIELDS * self.width,
            (RAY_FIELDS + HIT_FIELDS) * self.width,
        );
        proof {
            RayHitN::lemma_region_split(self.width);
        }
        HitN { data, width: self.width }
    }

    /// The arithmetic of the combined region's split: over any of the
    /// supported widths, the ray and hit regions lie back to back inside it.
    proof fn lemma_region_split(width: usize)
        requires
            valid_width(width as int),
        ensures
            RAY_FIELDS as int * width as int + HIT_FIELDS as int * width as int == (RAY_FIELDS
                + HIT_FIELDS) as int * width as int,
            RAY_FIELDS * width + HIT_FIELDS * width == (RAY_FIELDS + HIT_FIELDS) * width,
    {
        assert(RAY_FIELDS as int * width as int + HIT_FIELDS as int * width as int == (RAY_FIELDS
            + HIT_FIELDS) as int * width as int) by (nonlinear_arith);
        assert(RAY_FIELDS * width + HIT_FIELDS * width == (RAY_FIELDS + HIT_FIELDS) * width)
            by (nonlinear_arith);
    }
}

/// A fixed-width ray packet and a runtime-width ray packet over the same
/// words and the same width read every lane — and so every field of every
/// lane — identically.
pub proof fn lemma_ray_packet_view_agree<const N: usize>(p: &RayNt<N>, v: &RayN, i: int)
    requires
        p.wf(),
        v.wf(),
        v.words() == p.words(),
        v.spec_width() == N as int,
        0 <= i < N,
    ensures
        v.lane(i) == p.lane(i),
{
}

/// A fixed-width hit packet and a runtime-width hit packet over the same
/// words and the same width read every lane — and so every field of every
/// lane — identically.
pub proof fn lemma_hit_packet_view_agree<const N: usize>(p: &HitNt<N>, v: &HitN, i: int)
    requires
        p.wf(),
        v.wf(),
        v.words() == p.words(),
        v.spec_width() == N as int,
        0 <= i < N,
    ensures
        v.lane(i) == p.lane(i),
{
}

/// The three representations of a ray — scalar, fixed-width packet lane and
/// runtime-width packet lane — agree bit for bit on the stored fields that
/// determine the hit point: origin, direction and `tfar`. Any computation on
/// those fields therefore gives the same result on all three.
pub proof fn lemma_hit_point_inputs_agree<const N: usize>(r: Ray, p: &RayNt<N>, v: &RayN, i: int)
    requires
        p.wf(),
        v.wf(),
        v.words() == p.words(),
        v.spec_width() == N as int,
        0 <= i < N,
        p.lane(i) == r,
    ensures
        v.lane(i).org_x == r.org_x,
        v.lane(i).org_y == r.org_y,
        v.lane(i).org_z == r.org_z,
        v.lane(i).dir_x == r.dir_x,
        v.lane(i).dir_y == r.dir_y,
        v.lane(i).dir_z == r.dir_z,
        v.lane(i).tfar == r.tfar,
{
}

} // verus!
