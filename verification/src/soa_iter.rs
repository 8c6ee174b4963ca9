//! Per-lane iteration over packets and runtime views.
//!
//! Each iterator walks the lanes of a borrowed structure-of-arrays region in
//! lane order and yields every lane as a scalar record, so code written
//! against the scalar types operates per-lane over fixed-width packets and
//! runtime views alike. The iterators are finite (one item per lane) and
//! restartable (a fresh one starts at lane zero).

use vstd::prelude::*;
use crate::layout::{
    hit_lane, ray_lane, read_hit_lane, read_ray_lane, region_wf, HIT_FIELDS, RAY_FIELDS,
};
use crate::ray::{Hit, Ray};

verus! {

/// Lane-by-lane iterator over a ray region: yields each lane as a scalar
/// [`Ray`], in lane order, one item per lane.
#[derive(Clone, Copy)]
pub struct SoARayIter<'a> {
    pub(crate) data: &'a Vec<u32>,
    pub(crate) width: usize,
    pub(crate) cur: usize,
}

impl<'a> SoARayIter<'a> {
    /// The words of the region being walked.
    pub closed spec fn region(&self) -> Seq<u32> {
        self.data@
    }

    /// The lane count of the region being walked.
    pub closed spec fn spec_width(&self) -> int {
        self.width as int
    }

    /// The next lane to yield.
    pub closed spec fn pos(&self) -> int {
        self.cur as int
    }

    /// The region has twelve fields over `spec_width` lanes and the cursor
    /// has not run past the end.
    pub open spec fn wf(&self) -> bool {
        region_wf(self.region(), RAY_FIELDS as int, self.spec_width()) && 0 <= self.pos()
            <= self.spec_width()
    }

    /// Starts iteration over the `width` lanes of the region.
    pub fn new(data: &'a Vec<u32>, width: usize) -> (r: SoARayIter<'a>)
        requires
            region_wf(data@, RAY_FIELDS as int, width as int),
        ensures
            r.wf(),
            r.region() == data@,
            r.spec_width() == width as int,
            r.pos() == 0,
    {
        SoARayIter { data, width, cur: 0 }
    }

    /// Yields the lane at the cursor as a scalar ray and advances, or yields
    /// `None` once every lane has been yielded.
    pub fn next(&mut self) -> (r: Option<Ray>)
        requires
            old(self).wf(),
        ensures
            final(self).wf(),
            final(self).region() == old(self).region(),
            final(self).spec_width() == old(self).spec_width(),
            old(self).pos() < old(self).spec_width() ==> r == Some(
                ray_lane(old(self).region(), old(self).spec_width(), old(self).pos()),
            ) && final(self).pos() == old(self).pos() + 1,
            old(self).pos() == old(self).spec_width() ==> r is None && final(self).pos() == old(
                self,
            ).pos(),
    {
        if self.cur < self.width {
            let ray = read_ray_lane(self.data, self.width, self.cur);
            self.cur = self.cur + 1;
            Some(ray)
        } else {
            None
        }
    }
}

/// Lane-by-lane iterator over a hit region: yields each lane as a scalar
/// [`Hit`], in lane order, one item per lane.
#[derive(Clone, Copy)]
pub struct SoAHitIter<'a> {
    pub(crate) data: &'a Vec<u32>,
    pub(crate) width: usize,
    pub(crate) cur: usize,
}

impl<'a> SoAHitIter<'a> {
    /// The words of the region being walked.
    pub closed spec fn region(&self) -> Seq<u32> {
        self.data@
    }

    /// The lane count of the region being walked.
    pub closed spec fn spec_width(&self) -> int {
        self.width as int
    }

    /// The next lane to yield.
    pub closed spec fn pos(&self) -> int {
        self.cur as int
    }

    /// The region has eight fields over `spec_width` lanes and the cursor
    /// has not run past the end.
    pub open spec fn wf(&self) -> bool {
        region_wf(self.region(), HIT_FIELDS as int, self.spec_width()) && 0 <= self.pos()
            <= self.spec_width()
    }

    /// Starts iteration over the `width` lanes of the region.
    pub fn new(data: &'a Vec<u32>, width: usize) -> (r: SoAHitIter<'a>)
        requires
            region_wf(data@, HIT_FIELDS as int, width as int),
        ensures
            r.wf(),
            r.region() == data@,
            r.spec_width() == width as int,
            r.pos() == 0,
    {
        SoAHitIter { data, width, cur: 0 }
    }

    /// Yields the lane at the cursor as a scalar hit and advances, or yields
    /// `None` once every lane has been yielded.
    pub fn next(&mut self) -> (r: Option<Hit>)
        requires
            old(self).wf(),
        ensures
            final(self).wf(),
            final(self).region() == old(self).region(),
            final(self).spec_width() == old(self).spec_width(),
            old(self).pos() < old(self).spec_width() ==> r == Some(
                hit_lane(old(self).region(), old(self).spec_width(), old(self).pos()),
            ) && final(self).pos() == old(self).pos() + 1,
            old(self).pos() == old(self).spec_width() ==> r is None && final(self).pos() == old(
                self,
            ).pos(),
    {
        if self.cur < self.width {
            let hit = read_hit_lane(self.data, self.width, self.cur);
            self.cur = self.cur + 1;
            Some(hit)
        } else {
            None
        }
    }
}

/// Zipped, index-synchronized iteration over a ray region and a hit region
/// of the same lane count: yields one `(ray, hit)` pair per lane, in lane
/// order, both sides read from the same lane index.
#[derive(Clone, Copy)]
pub struct SoARayHitIter<'a> {
    pub(crate) ray_data: &'a Vec<u32>,
    pub(crate) hit_data: &'a Vec<u32>,
    pub(crate) width: usize,
    pub(crate) cur: usize,
}

impl<'a> SoARayHitIter<'a> {
    /// The words of the ray region being walked.
    pub closed spec fn ray_region(&self) -> Seq<u32> {
        self.ray_data@
    }

    /// The words of the hit region being walked.
    pub closed spec fn hit_region(&self) -> Seq<u32> {
        self.hit_data@
    }

    /// The lane count of the two regions being walked.
    pub closed spec fn spec_width(&self) -> int {
        self.width as int
    }

    /// The next lane to yield.
    pub closed spec fn pos(&self) -> int {
        self.cur as int
    }

    /// Both regions span `spec_width` lanes and the cursor has not run past
    /// the end.
    pub open spec fn wf(&self) -> bool {
        region_wf(self.ray_region(), RAY_FIELDS as int, self.spec_width()) && region_wf(
            self.hit_region(),
            HIT_FIELDS as int,
            self.spec_width(),
        ) && 0 <= self.pos() <= self.spec_width()
    }

    /// Starts zipped iteration over the `width` lanes of the two regions.
    pub fn new(ray_data: &'a Vec<u32>, hit_data: &'a Vec<u32>, width: usize) -> (r: SoARayHitIter<
        'a,
    >)
        requires
            region_wf(ray_data@, RAY_FIELDS as int, width as int),
            region_wf(hit_data@, HIT_FIELDS as int, width as int),
        ensures
            r.wf(),
            r.ray_region() == ray_data@,
            r.hit_region() == hit_data@,
            r.spec_width() == width as int,
            r.pos() == 0,
    {
        SoARayHitIter { ray_data, hit_data, width, cur: 0 }
    }

    /// Yields the ray and the hit of the lane at the cursor — the same lane
    /// index on both sides — and advances, or yields `None` once every lane
    /// has been yielded.
    pub fn next(&mut self) -> (r: Option<(Ray, Hit)>)
        requires
            old(self).wf(),
        ensures
            final(self).wf(),
            final(self).ray_region() == old(self).ray_region(),
            final(self).hit_region() == old(self).hit_region(),
            final(self).spec_width() == old(self).spec_width(),
            old(self).pos() < old(self).spec_width() ==> r == Some(
                (
                    ray_lane(old(self).ray_region(), old(self).spec_width(), old(self).pos()),
                    hit_lane(old(self).hit_region(), old(self).spec_width(), old(self).pos()),
                ),
            ) && final(self).pos() == old(self).pos() + 1,
            old(self).pos() == old(self).spec_width() ==> r is None && final(self).pos() == old(
                self,
            ).pos(),
    {
        if self.cur < self.width {
            let ray = read_ray_lane(self.ray_data, self.width, self.cur);
            let hit = read_hit_lane(self.hit_data, self.width, self.cur);
            self.cur = self.cur + 1;
            Some((ray, hit))
        } else {
            None
        }
    }
}

} // verus!
