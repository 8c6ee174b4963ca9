//! Fixed-width ray, hit and ray/hit packets.
//!
//! A packet of width `N` stores its lanes in structure-of-arrays order: the
//! words of each field sit contiguously across all lanes, as the
//! intersection engine's SIMD conventions require. One generic packet type
//! per record kind serves every width; `Ray4`, `Hit8`, `RayHit16` and the
//! other fixed names are aliases of it at the widths the engine supports.

use vstd::prelude::*;
use crate::layout::{
    hit_lane, lane_has_hit, lemma_no_hits_no_valid_lanes, lemma_valid_lanes_upto_ascending,
    lemma_valid_lanes_upto_complete, ray_lane, read_hit_lane, region_wf,
    get_word, set_ray_field, set_hit_field, uniform_region, valid_lanes, valid_lanes_upto, word,
    HIT_FIELDS, HIT_GEOM_ID, HIT_INST_ID, HIT_NG_X, HIT_NG_Y, HIT_NG_Z, HIT_PRIM_ID, HIT_U, HIT_V,
    RAY_DIR_X, RAY_DIR_Y, RAY_DIR_Z, RAY_FIELDS, RAY_FLAGS, RAY_ID, RAY_MASK, RAY_ORG_X,
    RAY_ORG_Y, RAY_ORG_Z, RAY_TFAR, RAY_TIME, RAY_TNEAR,
};
use crate::ray::{Hit, Ray, RayHit};
use crate::soa_iter::{SoAHitIter, SoARayHitIter, SoARayIter};
use crate::{INF_BITS, INVALID_ID};

verus! {

/// Types that are a packet of rays: one or more lanes of ray fields.
pub trait RayPacket: Sized {
    /// Number of lanes of the packet type.
    spec fn width() -> int;

    /// Returns the number of lanes of the packet type.
    fn len() -> (r: usize)
        ensures
            r as int == Self::width(),
    ;
}

/// Types that are a packet of hits: one or more lanes of hit fields.
pub trait HitPacket: Sized {
    /// Number of lanes of the packet type.
    spec fn width() -> int;

    /// Returns the number of lanes of the packet type.
    fn len() -> (r: usize)
        ensures
            r as int == Self::width(),
    ;
}

/// Types that pair a packet of rays with a packet of hits of the same
/// width.
pub trait RayHitPacket: Sized {
    type Ray: RayPacket;

    type Hit: HitPacket;

    /// Number of lanes of the packet type.
    spec fn width() -> int;

    /// The ray and hit packet types have exactly as many lanes as the pair.
    proof fn lemma_widths_agree()
        ensures
            Self::width() == Self::Ray::width(),
            Self::width() == Self::Hit::width(),
    ;

    /// Returns the number of lanes of the packet type.
    fn len() -> (r: usize)
        ensures
            r as int == Self::width(),
    ;
}

impl RayPacket for Ray {
    open spec fn width() -> int {
        1
    }

    fn len() -> (r: usize) {
        1
    }
}

impl HitPacket for Hit {
    open spec fn width() -> int {
        1
    }

    fn len() -> (r: usize) {
        1
    }
}

impl RayHitPacket for RayHit {
    type Ray = Ray;

    type Hit = Hit;

    open spec fn width() -> int {
        1
    }

    proof fn lemma_widths_agree() {
    }

    fn len() -> (r: usize) {
        1
    }
}

/// A ray the constructors use as the blank lane: everything zero but for the
/// mask, which starts all ones.
spec fn blank_ray() -> Ray {
    Ray {
        org_x: 0u32,
        org_y: 0u32,
        org_z: 0u32,
        tnear: 0u32,
        dir_x: 0u32,
        dir_y: 0u32,
        dir_z: 0u32,
        time: 0u32,
        tfar: 0u32,
        mask: u32::MAX,
        id: 0u32,
        flags: 0u32,
    }
}

/// A ray packet of `N` lanes in structure-of-arrays layout.
pub struct RayNt<const N: usize> {
    pub(crate) data: Vec<u32>,
}

/// Writes origin, direction and interval of lane `i`; the lane's remaining
/// fields and every other lane stay as they were.
fn write_ray_lane_segment(
    ws: &mut Vec<u32>,
    w: usize,
    i: usize,
    o: [u32; 3],
    d: [u32; 3],
    tn: u32,
    tf: u32,
)
    requires
        region_wf(old(ws)@, RAY_FIELDS as int, w as int),
        i < w,
    ensures
        region_wf(final(ws)@, RAY_FIELDS as int, w as int),
        ray_lane(final(ws)@, w as int, i as int) == (Ray {
            org_x: o@[0],
            org_y: o@[1],
            org_z: o@[2],
            tnear: tn,
            dir_x: d@[0],
            dir_y: d@[1],
            dir_z: d@[2],
            tfar: tf,
            ..ray_lane(old(ws)@, w as int, i as int)
        }),
        forall|j: int|
            0 <= j < w && j != i ==> ray_lane(final(ws)@, w as int, j) == ray_lane(
                old(ws)@,
                w as int,
                j,
            ),
{
    set_ray_field(ws, w, RAY_ORG_X, i, o[0]);
    set_ray_field(ws, w, RAY_ORG_Y, i, o[1]);
    set_ray_field(ws, w, RAY_ORG_Z, i, o[2]);
    set_ray_field(ws, w, RAY_TNEAR, i, tn);
    set_ray_field(ws, w, RAY_DIR_X, i, d[0]);
    set_ray_field(ws, w, RAY_DIR_Y, i, d[1]);
    set_ray_field(ws, w, RAY_DIR_Z, i, d[2]);
    set_ray_field(ws, w, RAY_TFAR, i, tf);
}

impl<const N: usize> RayNt<N> {
    /// The flat words of the packet's region.
    pub closed spec fn words(&self) -> Seq<u32> {
        self.data@
    }

    /// The packet's region holds the twelve ray fields over `N` lanes.
    pub open spec fn wf(&self) -> bool {
        region_wf(self.words(), RAY_FIELDS as int, N as int)
    }

    /// Lane `i`, read back as a scalar ray.
    pub open spec fn lane(&self, i: int) -> Ray {
        ray_lane(self.words(), N as int, i)
    }

    /// Constructs a packet whose lane `i` starts at `origin[i]`, heads in
    /// direction `dir[i]` and spans the interval `[tnear[i], tfar[i]]`, with
    /// time 0, mask all ones, id 0 and flags 0. For the engine to consider a
    /// lane, its `tnear` must be at or above zero; that is the engine's
    /// documented precondition, not checked here.
    pub fn segment(
        origin: [[u32; 3]; N],
        dir: [[u32; 3]; N],
        tnear: [u32; N],
        tfar: [u32; N],
    ) -> (r: RayNt<N>)
        ensures
            r.wf(),
            forall|i: int|
                0 <= i < N ==> r.lane(i) == Ray::defaults_with(
                    origin@[i]@,
                    dir@[i]@,
                    tnear@[i],
                    tfar@[i],
                    0u32,
                ),
    {
        let mut vals: Vec<u32> = Vec::new();
        vals.push(0);  // org_x
        vals.push(0);  // org_y
        vals.push(0);  // org_z
        vals.push(0);  // tnear
        vals.push(0);  // dir_x
        vals.push(0);  // dir_y
        vals.push(0);  // dir_z
        vals.push(0);  // time
        vals.push(0);  // tfar
        vals.push(u32::MAX);  // mask
        vals.push(0);  // id
        vals.push(0);  // flags
        let mut data = uniform_region(&vals, N);
        proof {
            assert forall|j: int|
                0 <= j < N implies (#[trigger] ray_lane(data@, N as int, j)) == blank_ray() by {
                assert(word(data@, N as int, RAY_ORG_X as int, j) == vals@[RAY_ORG_X as int]);
                assert(word(data@, N as int, RAY_ORG_Y as int, j) == vals@[RAY_ORG_Y as int]);
                assert(word(data@, N as int, RAY_ORG_Z as int, j) == vals@[RAY_ORG_Z as int]);
                assert(word(data@, N as int, RAY_TNEAR as int, j) == vals@[RAY_TNEAR as int]);
                assert(word(data@, N as int, RAY_DIR_X as int, j) == vals@[RAY_DIR_X as int]);
                assert(word(data@, N as int, RAY_DIR_Y as int, j) == vals@[RAY_DIR_Y as int]);
                assert(word(data@, N as int, RAY_DIR_Z as int, j) == vals@[RAY_DIR_Z as int]);
                assert(word(data@, N as int, RAY_TIME as int, j) == vals@[RAY_TIME as int]);
                assert(word(data@, N as int, RAY_TFAR as int, j) == vals@[RAY_TFAR as int]);
                assert(word(data@, N as int, RAY_MASK as int, j) == vals@[RAY_MASK as int]);
                assert(word(data@, N as int, RAY_ID as int, j) == vals@[RAY_ID as int]);
                assert(word(data@, N as int, RAY_FLAGS as int, j) == vals@[RAY_FLAGS as int]);
            }
        }
        let mut i: usize = 0;
        while i < N
            invariant
                i <= N,
                region_wf(data@, RAY_FIELDS as int, N as int),
                forall|j: int|
                    0 <= j < i ==> (#[trigger] ray_lane(data@, N as int, j)) == Ray::defaults_with(
                        origin@[j]@,
                        dir@[j]@,
                        tnear@[j],
                        tfar@[j],
                        0u32,
                    ),
                forall|j: int|
                    i <= j < N ==> (#[trigger] ray_lane(data@, N as int, j)) == blank_ray(),
            decreases N - i,
        {
            write_ray_lane_segment(&mut data, N, i, origin[i], dir[i], tnear[i], tfar[i]);
            i = i + 1;
        }
        RayNt { data }
    }

    /// Constructs a packet whose lane `i` starts at `origin[i]` and heads in
    /// direction `dir[i]`, with the default interval `[0, +inf)`, time 0,
    /// mask all ones, id 0 and flags 0.
    pub fn new(origin: [[u32; 3]; N], dir: [[u32; 3]; N]) -> (r: RayNt<N>)
        ensures
            r.wf(),
            forall|i: int|
                0 <= i < N ==> r.lane(i) == Ray::defaults_with(
                    origin@[i]@,
                    dir@[i]@,
                    0u32,
                    INF_BITS,
                    0u32,
                ),
    {
        RayNt::segment(origin, dir, [0u32; N], [INF_BITS; N])
    }

    /// Constructs the packet every lane of which is the default ray at the
    /// origin: zero origin and direction, the interval `[0, +inf)`, time 0,
    /// mask all ones, id 0 and flags 0.
    pub fn empty() -> (r: RayNt<N>)
        ensures
            r.wf(),
            forall|i: int|
                0 <= i < N ==> r.lane(i) == Ray::defaults_with(
                    seq![0u32, 0u32, 0u32],
                    seq![0u32, 0u32, 0u32],
                    0u32,
                    INF_BITS,
                    0u32,
                ),
    {
        let mut vals: Vec<u32> = Vec::new();
        vals.push(0);  // org_x
        vals.push(0);  // org_y
        vals.push(0);  // org_z
        vals.push(0);  // tnear
        vals.push(0);  // dir_x
        vals.push(0);  // dir_y
        vals.push(0);  // dir_z
        vals.push(0);  // time
        vals.push(INF_BITS);  // tfar
        vals.push(u32::MAX);  // mask
        vals.push(0);  // id
        vals.push(0);  // flags
        let data = uniform_region(&vals, N);
        proof {
            assert forall|j: int|
                0 <= j < N implies (#[trigger] ray_lane(data@, N as int, j)) == Ray::defaults_with(
                seq![0u32, 0u32, 0u32],
                seq![0u32, 0u32, 0u32],
                0u32,
                INF_BITS,
                0u32,
            ) by {
                assert(word(data@, N as int, RAY_ORG_X as int, j) == vals@[RAY_ORG_X as int]);
                assert(word(data@, N as int, RAY_ORG_Y as int, j) == vals@[RAY_ORG_Y as int]);
                assert(word(data@, N as int, RAY_ORG_Z as int, j) == vals@[RAY_ORG_Z as int]);
                assert(word(data@, N as int, RAY_TNEAR as int, j) == vals@[RAY_TNEAR as int]);
                assert(word(data@, N as int, RAY_DIR_X as int, j) == vals@[RAY_DIR_X as int]);
                assert(word(data@, N as int, RAY_DIR_Y as int, j) == vals@[RAY_DIR_Y as int]);
                assert(word(data@, N as int, RAY_DIR_Z as int, j) == vals@[RAY_DIR_Z as int]);
                assert(word(data@, N as int, RAY_TIME as int, j) == vals@[RAY_TIME as int]);
                assert(word(data@, N as int, RAY_TFAR as int, j) == vals@[RAY_TFAR as int]);
                assert(word(data@, N as int, RAY_MASK as int, j) == vals@[RAY_MASK as int]);
                assert(word(data@, N as int, RAY_ID as int, j) == vals@[RAY_ID as int]);
                assert(word(data@, N as int, RAY_FLAGS as int, j) == vals@[RAY_FLAGS as int]);
            }
        }
        RayNt { data }
    }

    /// Wraps an engine-filled buffer of `N` lanes as a packet.
    pub fn from_words(data: Vec<u32>) -> (r: RayNt<N>)
        requires
            region_wf(data@, RAY_FIELDS as int, N as int),
        ensures
            r.wf(),
            r.words() == data@,
    {
        RayNt { data }
    }

    /// The packet's flat buffer, as handed to the engine.
    pub fn as_words(&self) -> (r: &Vec<u32>)
        ensures
            r@ == self.words(),
    {
        &self.data
    }

    /// Iterates over the lanes, yielding each as a scalar ray.
    pub fn iter(&self) -> (it: SoARayIter<'_>)
        requires
            self.wf(),
        ensures
            it.wf(),
            it.region() == self.words(),
            it.spec_width() == N as int,
            it.pos() == 0,
    {
        SoARayIter::new(&self.data, N)
    }

    /// Returns the origin of lane `i`.
    pub fn org(&self, i: usize) -> (r: [u32; 3])
        requires
            self.wf(),
            i < N,
        ensures
            r@ == seq![
                self.lane(i as int).org_x,
                self.lane(i as int).org_y,
                self.lane(i as int).org_z,
            ],
    {
        let r = [
            get_word(&self.data, RAY_FIELDS, N, RAY_ORG_X, i),
            get_word(&self.data, RAY_FIELDS, N, RAY_ORG_Y, i),
            get_word(&self.data, RAY_FIELDS, N, RAY_ORG_Z, i),
        ];
        proof {
            assert(r@ =~= seq![
                self.lane(i as int).org_x,
                self.lane(i as int).org_y,
                self.lane(i as int).org_z,
            ]);
        }
        r
    }

    /// Sets the origin of lane `i`; no other field of any lane changes.
    pub fn set_org(&mut self, i: usize, o: [u32; 3])
        requires
            old(self).wf(),
            i < N,
        ensures
            final(self).wf(),
            final(self).lane(i as int) == (Ray {
                org_x: o@[0],
                org_y: o@[1],
                org_z: o@[2],
                ..old(self).lane(i as int)
            }),
            forall|j: int| 0 <= j < N && j != i ==> final(self).lane(j) == old(self).lane(j),
    {
        set_ray_field(&mut self.data, N, RAY_ORG_X, i, o[0]);
        set_ray_field(&mut self.data, N, RAY_ORG_Y, i, o[1]);
        set_ray_field(&mut self.data, N, RAY_ORG_Z, i, o[2]);
    }

    /// Returns the direction of lane `i`.
    pub fn dir(&self, i: usize) -> (r: [u32; 3])
        requires
            self.wf(),
            i < N,
        ensures
            r@ == seq![
                self.lane(i as int).dir_x,
                self.lane(i as int).dir_y,
                self.lane(i as int).dir_z,
            ],
    {
        let r = [
            get_word(&self.data, RAY_FIELDS, N, RAY_DIR_X, i),
            get_word(&self.data, RAY_FIELDS, N, RAY_DIR_Y, i),
            get_word(&self.data, RAY_FIELDS, N, RAY_DIR_Z, i),
        ];
        proof {
            assert(r@ =~= seq![
                self.lane(i as int).dir_x,
                self.lane(i as int).dir_y,
                self.lane(i as int).dir_z,
            ]);
        }
        r
    }

    /// Sets the direction of lane `i`; no other field of any lane changes.
    pub fn set_dir(&mut self, i: usize, d: [u32; 3])
        requires
            old(self).wf(),
            i < N,
        ensures
            final(self).wf(),
            final(self).lane(i as int) == (Ray {
                dir_x: d@[0],
                dir_y: d@[1],
                dir_z: d@[2],
                ..old(self).lane(i as int)
            }),
            forall|j: int| 0 <= j < N && j != i ==> final(self).lane(j) == old(self).lane(j),
    {
        set_ray_field(&mut self.data, N, RAY_DIR_X, i, d[0]);
        set_ray_field(&mut self.data, N, RAY_DIR_Y, i, d[1]);
        set_ray_field(&mut self.data, N, RAY_DIR_Z, i, d[2]);
    }

    /// Returns the interval start of lane `i`.
    pub fn tnear(&self, i: usize) -> (r: u32)
        requires
            self.wf(),
            i < N,
        ensures
            r == self.lane(i as int).tnear,
    {
        get_word(&self.data, RAY_FIELDS, N, RAY_TNEAR, i)
    }

    /// Sets the interval start of lane `i`; no other field of any lane
    /// changes.
    pub fn set_tnear(&mut self, i: usize, t: u32)
        requires
            old(self).wf(),
            i < N,
        ensures
            final(self).wf(),
            final(self).lane(i as int) == (Ray { tnear: t, ..old(self).lane(i as int) }),
            forall|j: int| 0 <= j < N && j != i ==> final(self).lane(j) == old(self).lane(j),
    {
        set_ray_field(&mut self.data, N, RAY_TNEAR, i, t);
    }

    /// Returns the interval end of lane `i`: after an intersect query, the
    /// distance of the nearest hit.
    pub fn tfar(&self, i: usize) -> (r: u32)
        requires
            self.wf(),
            i < N,
        ensures
            r == self.lane(i as int).tfar,
    {
        get_word(&self.data, RAY_FIELDS, N, RAY_TFAR, i)
    }

    /// Sets the interval end of lane `i`; no other field of any lane
    /// changes.
    pub fn set_tfar(&mut self, i: usize, t: u32)
        requires
            old(self).wf(),
            i < N,
        ensures
            final(self).wf(),
            final(self).lane(i as int) == (Ray { tfar: t, ..old(self).lane(i as int) }),
            forall|j: int| 0 <= j < N && j != i ==> final(self).lane(j) == old(self).lane(j),
    {
        set_ray_field(&mut self.data, N, RAY_TFAR, i, t);
    }

    /// Returns the time of lane `i`.
    pub fn time(&self, i: usize) -> (r: u32)
        requires
            self.wf(),
            i < N,
        ensures
            r == self.lane(i as int).time,
    {
        get_word(&self.data, RAY_FIELDS, N, RAY_TIME, i)
    }

    /// Sets the time of lane `i`; no other field of any lane changes.
    pub fn set_time(&mut self, i: usize, t: u32)
        requires
            old(self).wf(),
            i < N,
        ensures
            final(self).wf(),
            final(self).lane(i as int) == (Ray { time: t, ..old(self).lane(i as int) }),
            forall|j: int| 0 <= j < N && j != i ==> final(self).lane(j) == old(self).lane(j),
    {
        set_ray_field(&mut self.data, N, RAY_TIME, i, t);
    }

    /// Returns the visibility mask of lane `i`.
    pub fn mask(&self, i: usize) -> (r: u32)
        requires
            self.wf(),
            i < N,
        ensures
            r == self.lane(i as int).mask,
    {
        get_word(&self.data, RAY_FIELDS, N, RAY_MASK, i)
    }

    /// Sets the visibility mask of lane `i`; no other field of any lane
    /// changes.
    pub fn set_mask(&mut self, i: usize, m: u32)
        requires
            old(self).wf(),
            i < N,
        ensures
            final(self).wf(),
            final(self).lane(i as int) == (Ray { mask: m, ..old(self).lane(i as int) }),
            forall|j: int| 0 <= j < N && j != i ==> final(self).lane(j) == old(self).lane(j),
    {
        set_ray_field(&mut self.data, N, RAY_MASK, i, m);
    }

    /// Returns the caller-assigned id of lane `i`.
    pub fn id(&self, i: usize) -> (r: u32)
        requires
            self.wf(),
            i < N,
        ensures
            r == self.lane(i as int).id,
    {
        get_word(&self.data, RAY_FIELDS, N, RAY_ID, i)
    }

    /// Sets the caller-assigned id of lane `i`; no other field of any lane
    /// changes.
    pub fn set_id(&mut self, i: usize, id: u32)
        requires
            old(self).wf(),
            i < N,
        ensures
            final(self).wf(),
            final(self).lane(i as int) == (Ray { id, ..old(self).lane(i as int) }),
            forall|j: int| 0 <= j < N && j != i ==> final(self).lane(j) == old(self).lane(j),
    {
        set_ray_field(&mut self.data, N, RAY_ID, i, id);
    }

    /// Returns the flags of lane `i`.
    pub fn flags(&self, i: usize) -> (r: u32)
        requires
            self.wf(),
            i < N,
        ensures
            r == self.lane(i as int).flags,
    {
        get_word(&self.data, RAY_FIELDS, N, RAY_FLAGS, i)
    }

    /// Sets the flags of lane `i`; no other field of any lane changes.
    pub fn set_flags(&mut self, i: usize, f: u32)
        requires
            old(self).wf(),
            i < N,
        ensures
            final(self).wf(),
            final(self).lane(i as int) == (Ray { flags: f, ..old(self).lane(i as int) }),
            forall|j: int| 0 <= j < N && j != i ==> final(self).lane(j) == old(self).lane(j),
    {
        set_ray_field(&mut self.data, N, RAY_FLAGS, i, f);
    }
}

impl<const N: usize> Default for RayNt<N> {
    /// Produces [`RayNt::empty`].
    fn default() -> (r: RayNt<N>)
        ensures
            r.wf(),
            forall|i: int|
                0 <= i < N ==> r.lane(i) == Ray::defaults_with(
                    seq![0u32, 0u32, 0u32],
                    seq![0u32, 0u32, 0u32],
                    0u32,
                    INF_BITS,
                    0u32,
                ),
    {
        RayNt::empty()
    }
}

impl<const N: usize> RayPacket for RayNt<N> {
    open spec fn width() -> int {
        N as int
    }

    fn len() -> (r: usize) {
        N
    }
}

/// A ray packet of four lanes.
pub type Ray4 = RayNt<4>;

/// A ray packet of eight lanes.
pub type Ray8 = RayNt<8>;

/// A ray packet of sixteen lanes.
pub type Ray16 = RayNt<16>;

/// A hit packet of `N` lanes in structure-of-arrays layout.
pub struct HitNt<const N: usize> {
    pub(crate) data: Vec<u32>,
}

impl<const N: usize> HitNt<N> {
    /// The flat words of the packet's region.
    pub closed spec fn words(&self) -> Seq<u32> {
        self.data@
    }

    /// The packet's region holds the eight hit fields over `N` lanes.
    pub open spec fn wf(&self) -> bool {
        region_wf(self.words(), HIT_FIELDS as int, N as int)
    }

    /// Lane `i`, read back as a scalar hit.
    pub open spec fn lane(&self, i: int) -> Hit {
        hit_lane(self.words(), N as int, i)
    }

    /// Lane `i` records an intersection.
    pub open spec fn lane_hit(&self, i: int) -> bool {
        lane_has_hit(self.words(), N as int, i)
    }

    /// Constructs the packet every lane of which is the default hit: no
    /// intersection recorded anywhere.
    pub fn new() -> (r: HitNt<N>)
        ensures
            r.wf(),
            forall|i: int| 0 <= i < N ==> r.lane(i) == Hit::spec_default(),
            forall|i: int| 0 <= i < N ==> !#[trigger] r.lane_hit(i),
    {
        let mut vals: Vec<u32> = Vec::new();
        vals.push(0);  // ng_x
        vals.push(0);  // ng_y
        vals.push(0);  // ng_z
        vals.push(0);  // u
        vals.push(0);  // v
        vals.push(INVALID_ID);  // prim_id
        vals.push(INVALID_ID);  // geom_id
        vals.push(INVALID_ID);  // inst_id
        let data = uniform_region(&vals, N);
        proof {
            assert forall|j: int|
                0 <= j < N implies (#[trigger] hit_lane(data@, N as int, j))
                == Hit::spec_default() by {
                assert(word(data@, N as int, HIT_NG_X as int, j) == vals@[HIT_NG_X as int]);
                assert(word(data@, N as int, HIT_NG_Y as int, j) == vals@[HIT_NG_Y as int]);
                assert(word(data@, N as int, HIT_NG_Z as int, j) == vals@[HIT_NG_Z as int]);
                assert(word(data@, N as int, HIT_U as int, j) == vals@[HIT_U as int]);
                assert(word(data@, N as int, HIT_V as int, j) == vals@[HIT_V as int]);
                assert(word(data@, N as int, HIT_PRIM_ID as int, j) == vals@[HIT_PRIM_ID as int]);
                assert(word(data@, N as int, HIT_GEOM_ID as int, j) == vals@[HIT_GEOM_ID as int]);
                assert(word(data@, N as int, HIT_INST_ID as int, j) == vals@[HIT_INST_ID as int]);
            }
        }
        HitNt { data }
    }

    /// Wraps an engine-filled buffer of `N` lanes as a packet.
    pub fn from_words(data: Vec<u32>) -> (r: HitNt<N>)
        requires
            region_wf(data@, HIT_FIELDS as int, N as int),
        ensures
            r.wf(),
            r.words() == data@,
    {
        HitNt { data }
    }

    /// The packet's flat buffer, as handed to the engine.
    pub fn as_words(&self) -> (r: &Vec<u32>)
        ensures
            r@ == self.words(),
    {
        &self.data
    }

    /// True exactly when some lane records an intersection.
    pub fn any_hit(&self) -> (r: bool)
        requires
            self.wf(),
        ensures
            r == exists|i: int| 0 <= i < N && #[trigger] self.lane_hit(i),
    {
        let mut i: usize = 0;
        while i < N
            invariant
                i <= N,
                self.wf(),
                forall|j: int| 0 <= j < i ==> !#[trigger] self.lane_hit(j),
            decreases N - i,
        {
            if get_word(&self.data, HIT_FIELDS, N, HIT_GEOM_ID, i) != INVALID_ID {
                proof {
                    assert(self.lane_hit(i as int));
                }
                return true;
            }
            i = i + 1;
        }
        false
    }

    /// The validity of each lane, in lane order: true exactly where the lane
    /// records an intersection.
    pub fn iter_validity(&self) -> (r: Vec<bool>)
        requires
            self.wf(),
        ensures
            r@.len() == N,
            forall|i: int| 0 <= i < N ==> r@[i] == self.lane_hit(i),
    {
        let mut r: Vec<bool> = Vec::new();
        let mut i: usize = 0;
        while i < N
            invariant
                i <= N,
                self.wf(),
                r@.len() == i,
                forall|j: int| 0 <= j < i ==> r@[j] == self.lane_hit(j),
            decreases N - i,
        {
            r.push(get_word(&self.data, HIT_FIELDS, N, HIT_GEOM_ID, i) != INVALID_ID);
            i = i + 1;
        }
        r
    }

    /// Iterates over the lanes, yielding each as a scalar hit.
    pub fn iter(&self) -> (it: SoAHitIter<'_>)
        requires
            self.wf(),
        ensures
            it.wf(),
            it.region() == self.words(),
            it.spec_width() == N as int,
            it.pos() == 0,
    {
        SoAHitIter::new(&self.data, N)
    }

    /// The lanes that record an intersection, as scalar hits, in ascending
    /// lane order — exactly the lanes whose geometry id is not the invalid
    /// sentinel, and no others.
    pub fn iter_hits(&self) -> (r: Vec<Hit>)
        requires
            self.wf(),
        ensures
            r@ == valid_lanes(self.words(), N as int).map_values(
                |j: int| hit_lane(self.words(), N as int, j),
            ),
    {
        let mut r: Vec<Hit> = Vec::new();
        let mut i: usize = 0;
        while i < N
            invariant
                i <= N,
                self.wf(),
                r@ == valid_lanes_upto(self.words(), N as int, i as int).map_values(
                    |j: int| hit_lane(self.words(), N as int, j),
                ),
            decreases N - i,
        {
            let ghost lanes = valid_lanes_upto(self.words(), N as int, i as int);
            if get_word(&self.data, HIT_FIELDS, N, HIT_GEOM_ID, i) != INVALID_ID {
                r.push(read_hit_lane(&self.data, N, i));
                proof {
                    assert(valid_lanes_upto(self.words(), N as int, i + 1) == lanes.push(i as int));
                    assert(r@ =~= lanes.push(i as int).map_values(
                        |j: int| hit_lane(self.words(), N as int, j),
                    ));
                }
            } else {
                proof {
                    assert(valid_lanes_upto(self.words(), N as int, i + 1) == lanes);
                }
            }
            i = i + 1;
        }
        r
    }

    /// Returns the un-normalized geometric normal of lane `i`.
    pub fn normal(&self, i: usize) -> (r: [u32; 3])
        requires
            self.wf(),
            i < N,
        ensures
            r@ == seq![
                self.lane(i as int).ng_x,
                self.lane(i as int).ng_y,
                self.lane(i as int).ng_z,
            ],
    {
        let r = [
            get_word(&self.data, HIT_FIELDS, N, HIT_NG_X, i),
            get_word(&self.data, HIT_FIELDS, N, HIT_NG_Y, i),
            get_word(&self.data, HIT_FIELDS, N, HIT_NG_Z, i),
        ];
        proof {
            assert(r@ =~= seq![
                self.lane(i as int).ng_x,
                self.lane(i as int).ng_y,
                self.lane(i as int).ng_z,
            ]);
        }
        r
    }

    /// Sets the geometric normal of lane `i`; no other field of any lane
    /// changes.
    pub fn set_normal(&mut self, i: usize, n: [u32; 3])
        requires
            old(self).wf(),
            i < N,
        ensures
            final(self).wf(),
            final(self).lane(i as int) == (Hit {
                ng_x: n@[0],
                ng_y: n@[1],
                ng_z: n@[2],
                ..old(self).lane(i as int)
            }),
            forall|j: int| 0 <= j < N && j != i ==> final(self).lane(j) == old(self).lane(j),
    {
        set_hit_field(&mut self.data, N, HIT_NG_X, i, n[0]);
        set_hit_field(&mut self.data, N, HIT_NG_Y, i, n[1]);
        set_hit_field(&mut self.data, N, HIT_NG_Z, i, n[2]);
    }

    /// Returns the barycentric u/v coordinates of lane `i`.
    pub fn uv(&self, i: usize) -> (r: [u32; 2])
        requires
            self.wf(),
            i < N,
        ensures
            r@ == seq![self.lane(i as int).u, self.lane(i as int).v],
    {
        let r = [
            get_word(&self.data, HIT_FIELDS, N, HIT_U, i),
            get_word(&self.data, HIT_FIELDS, N, HIT_V, i),
        ];
        proof {
            assert(r@ =~= seq![self.lane(i as int).u, self.lane(i as int).v]);
        }
        r
    }

    /// Sets the barycentric u coordinate of lane `i`; no other field of any
    /// lane changes.
    pub fn set_u(&mut self, i: usize, u: u32)
        requires
            old(self).wf(),
            i < N,
        ensures
            final(self).wf(),
            final(self).lane(i as int) == (Hit { u, ..old(self).lane(i as int) }),
            forall|j: int| 0 <= j < N && j != i ==> final(self).lane(j) == old(self).lane(j),
    {
        set_hit_field(&mut self.data, N, HIT_U, i, u);
    }

    /// Sets the barycentric v coordinate of lane `i`; no other field of any
    /// lane changes.
    pub fn set_v(&mut self, i: usize, v: u32)
        requires
            old(self).wf(),
            i < N,
        ensures
            final(self).wf(),
            final(self).lane(i as int) == (Hit { v, ..old(self).lane(i as int) }),
            forall|j: int| 0 <= j < N && j != i ==> final(self).lane(j) == old(self).lane(j),
    {
        set_hit_field(&mut self.data, N, HIT_V, i, v);
    }

    /// Returns the primitive id of lane `i`.
    pub fn prim_id(&self, i: usize) -> (r: u32)
        requires
            self.wf(),
            i < N,
        ensures
            r == self.lane(i as int).prim_id,
    {
        get_word(&self.data, HIT_FIELDS, N, HIT_PRIM_ID, i)
    }

    /// Sets the primitive id of lane `i`; no other field of any lane
    /// changes.
    pub fn set_prim_id(&mut self, i: usize, id: u32)
        requires
            old(self).wf(),
            i < N,
        ensures
            final(self).wf(),
            final(self).lane(i as int) == (Hit { prim_id: id, ..old(self).lane(i as int) }),
            forall|j: int| 0 <= j < N && j != i ==> final(self).lane(j) == old(self).lane(j),
    {
        set_hit_field(&mut self.data, N, HIT_PRIM_ID, i, id);
    }

    /// Returns the geometry id of lane `i`.
    pub fn geom_id(&self, i: usize) -> (r: u32)
        requires
            self.wf(),
            i < N,
        ensures
            r == self.lane(i as int).geom_id,
    {
        get_word(&self.data, HIT_FIELDS, N, HIT_GEOM_ID, i)
    }

    /// Sets the geometry id of lane `i`; no other field of any lane changes.
    pub fn set_geom_id(&mut self, i: usize, id: u32)
        requires
            old(self).wf(),
            i < N,
        ensures
            final(self).wf(),
            final(self).lane(i as int) == (Hit { geom_id: id, ..old(self).lane(i as int) }),
            forall|j: int| 0 <= j < N && j != i ==> final(self).lane(j) == old(self).lane(j),
    {
        set_hit_field(&mut self.data, N, HIT_GEOM_ID, i, id);
    }

    /// Returns the instance id of lane `i`.
    pub fn inst_id(&self, i: usize) -> (r: u32)
        requires
            self.wf(),
            i < N,
        ensures
            r == self.lane(i as int).inst_id,
    {
        get_word(&self.data, HIT_FIELDS, N, HIT_INST_ID, i)
    }

    /// Sets the instance id of lane `i`; no other field of any lane changes.
    pub fn set_inst_id(&mut self, i: usize, id: u32)
        requires
            old(self).wf(),
            i < N,
        ensures
            final(self).wf(),
            final(self).lane(i as int) == (Hit { inst_id: id, ..old(self).lane(i as int) }),
            forall|j: int| 0 <= j < N && j != i ==> final(self).lane(j) == old(self).lane(j),
    {
        set_hit_field(&mut self.data, N, HIT_INST_ID, i, id);
    }
}

impl<const N: usize> Default for HitNt<N> {
    /// Produces [`HitNt::new`]: no intersection recorded anywhere.
    fn default() -> (r: HitNt<N>)
        ensures
            r.wf(),
            forall|i: int| 0 <= i < N ==> r.lane(i) == Hit::spec_default(),
            forall|i: int| 0 <= i < N ==> !#[trigger] r.lane_hit(i),
    {
        HitNt::new()
    }
}

impl<const N: usize> HitPacket for HitNt<N> {
    open spec fn width() -> int {
        N as int
    }

    fn len() -> (r: usize) {
        N
    }
}

/// A hit packet of four lanes.
pub type Hit4 = HitNt<4>;

/// A hit packet of eight lanes.
pub type Hit8 = HitNt<8>;

/// A hit packet of sixteen lanes.
pub type Hit16 = HitNt<16>;

/// A ray packet paired with a hit packet of the same `N` lanes: the unit of
/// a non-occlusion query over `N` rays.
pub struct RayHitNt<const N: usize> {
    pub ray: RayNt<N>,
    pub hit: HitNt<N>,
}

impl<const N: usize> RayHitNt<N> {
    /// Both packets are well-formed regions of `N` lanes.
    pub open spec fn wf(&self) -> bool {
        self.ray.wf() && self.hit.wf()
    }

    /// Creates a packet ready to be used in an intersection query: the given
    /// ray packet, paired with a hit packet recording no intersection on any
    /// lane.
    pub fn new(ray: RayNt<N>) -> (r: RayHitNt<N>)
        ensures
            r.ray == ray,
            r.hit.wf(),
            forall|i: int| 0 <= i < N ==> r.hit.lane(i) == Hit::spec_default(),
            forall|i: int| 0 <= i < N ==> !#[trigger] r.hit.lane_hit(i),
    {
        RayHitNt { ray, hit: HitNt::new() }
    }

    /// Iterates over the lanes, yielding each as a scalar `(ray, hit)` pair,
    /// the two sides index-aligned: exactly `N` pairs, pair `i` read from
    /// lane `i` of both packets.
    pub fn iter(&self) -> (it: SoARayHitIter<'_>)
        requires
            self.wf(),
        ensures
            it.wf(),
            it.ray_region() == self.ray.words(),
            it.hit_region() == self.hit.words(),
            it.spec_width() == N as int,
            it.pos() == 0,
    {
        SoARayHitIter::new(&self.ray.data, &self.hit.data, N)
    }
}

impl<const N: usize> RayHitPacket for RayHitNt<N> {
    type Ray = RayNt<N>;

    type Hit = HitNt<N>;

    open spec fn width() -> int {
        N as int
    }

    proof fn lemma_widths_agree() {
    }

    fn len() -> (r: usize) {
        N
    }
}

/// A ray/hit packet of four lanes.
pub type RayHit4 = RayHitNt<4>;

/// A ray/hit packet of eight lanes.
pub type RayHit8 = RayHitNt<8>;

/// A ray/hit packet of sixteen lanes.
pub type RayHit16 = RayHitNt<16>;

/// What [`HitNt::iter_hits`] walks is exact: the sequence of valid lanes
/// holds a lane exactly when that lane records an intersection, and its
/// lanes come in strictly ascending order.
pub proof fn lemma_iter_hits_lanes_exact<const N: usize>(h: &HitNt<N>, j: int)
    requires
        h.wf(),
    ensures
        valid_lanes(h.words(), N as int).contains(j) <==> (0 <= j < N && h.lane_hit(j)),
        forall|a: int, b: int|
            0 <= a < b < valid_lanes(h.words(), N as int).len() ==> (#[trigger] valid_lanes(
                h.words(),
                N as int,
            )[a]) < (#[trigger] valid_lanes(h.words(), N as int)[b]),
{
    lemma_valid_lanes_upto_complete(h.words(), N as int, N as int, j);
    lemma_valid_lanes_upto_ascending(h.words(), N as int, N as int);
}

/// [`HitNt::any_hit`] answers true exactly when [`HitNt::iter_hits`] yields
/// anything: some lane records an intersection if and only if the sequence
/// of valid lanes is non-empty.
pub proof fn lemma_any_hit_iff_hits_yielded<const N: usize>(h: &HitNt<N>)
    requires
        h.wf(),
    ensures
        (exists|i: int| 0 <= i < N && #[trigger] h.lane_hit(i)) <==> valid_lanes(
            h.words(),
            N as int,
        ).len() > 0,
{
    let lanes = valid_lanes(h.words(), N as int);
    if exists|i: int| 0 <= i < N && #[trigger] h.lane_hit(i) {
        let i = choose|i: int| 0 <= i < N && #[trigger] h.lane_hit(i);
        lemma_valid_lanes_upto_complete(h.words(), N as int, N as int, i);
        assert(lanes.contains(i));
    }
    if lanes.len() > 0 {
        let j = lanes[0];
        assert(lanes.contains(j));
        lemma_valid_lanes_upto_complete(h.words(), N as int, N as int, j);
        assert(h.lane_hit(j));
    }
}

/// A hit packet in which every lane is the default hit — as
/// [`HitNt::new`] and [`RayHitNt::new`] build it — has no lane that records
/// an intersection, and no valid lanes reachable through [`HitNt::iter_hits`]:
/// its sequence of valid lanes is empty.
pub proof fn lemma_fresh_hit_packet_no_hits<const N: usize>(h: &HitNt<N>)
    requires
        h.wf(),
        forall|i: int| 0 <= i < N ==> h.lane(i) == Hit::spec_default(),
    ensures
        forall|i: int| 0 <= i < N ==> !#[trigger] h.lane_hit(i),
        valid_lanes(h.words(), N as int) == Seq::<int>::empty(),
{
    assert forall|i: int| 0 <= i < N implies !#[trigger] h.lane_hit(i) by {
        assert(h.lane(i).geom_id == word(h.words(), N as int, HIT_GEOM_ID as int, i));
    }
    assert forall|i: int| 0 <= i < N implies !#[trigger] lane_has_hit(h.words(), N as int, i) by {
        assert(!h.lane_hit(i));
    }
    lemma_no_hits_no_valid_lanes(h.words(), N as int);
}

} // verus!
