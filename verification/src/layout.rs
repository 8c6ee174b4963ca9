//! The flat structure-of-arrays layout shared by every packet and view.
//!
//! A region of `w` lanes stores each field as `w` contiguous 32-bit words,
//! field after field in the fixed order the intersection engine's ABI
//! prescribes: word `f * w + i` is field `f` of lane `i`. All offset
//! arithmetic of the crate is centralized here, together with the laws that
//! govern it.

use vstd::prelude::*;
use crate::ray::{Hit, Ray};
use crate::INVALID_ID;

verus! {

// Field indices within the ray region, in the engine's fixed order.
pub const RAY_ORG_X: usize = 0;

pub const RAY_ORG_Y: usize = 1;

pub const RAY_ORG_Z: usize = 2;

pub const RAY_TNEAR: usize = 3;

pub const RAY_DIR_X: usize = 4;

pub const RAY_DIR_Y: usize = 5;

pub const RAY_DIR_Z: usize = 6;

pub const RAY_TIME: usize = 7;

pub const RAY_TFAR: usize = 8;

pub const RAY_MASK: usize = 9;

pub const RAY_ID: usize = 10;

pub const RAY_FLAGS: usize = 11;

/// Number of 32-bit fields in the ray region. In a combined ray/hit region
/// the hit region starts `RAY_FIELDS * w` words in: the width-independent
/// shape of a combined record.
pub const RAY_FIELDS: usize = 12;

// Field indices within the hit region, in the engine's fixed order.
pub const HIT_NG_X: usize = 0;

pub const HIT_NG_Y: usize = 1;

pub const HIT_NG_Z: usize = 2;

pub const HIT_U: usize = 3;

pub const HIT_V: usize = 4;

pub const HIT_PRIM_ID: usize = 5;

pub const HIT_GEOM_ID: usize = 6;

pub const HIT_INST_ID: usize = 7;

/// Number of 32-bit fields in the hit region.
pub const HIT_FIELDS: usize = 8;

/// A lane count an engine callback may supply.
pub open spec fn valid_width(w: int) -> bool {
    w == 1 || w == 4 || w == 8 || w == 16
}

/// The word index of field `f` of lane `i` in a region of `w` lanes.
pub open spec fn slot(w: int, f: int, i: int) -> int {
    f * w + i
}

/// The words `ws` form a region of `fields` fields over `w` lanes.
pub open spec fn region_wf(ws: Seq<u32>, fields: int, w: int) -> bool {
    ws.len() == fields * w
}

/// The word stored for field `f` of lane `i`.
pub open spec fn word(ws: Seq<u32>, w: int, f: int, i: int) -> u32 {
    ws[slot(w, f, i)]
}

/// The region, with field `f` of lane `i` set to `v` and every other word
/// unchanged.
pub open spec fn word_set(ws: Seq<u32>, w: int, f: int, i: int, v: u32) -> Seq<u32> {
    ws.update(slot(w, f, i), v)
}

/// Each (field, lane) pair of a region has a word index of its own: two
/// distinct pairs never collide.
pub proof fn lemma_slot_injective(w: int, f: int, i: int, f2: int, i2: int)
    requires
        0 <= f,
        0 <= f2,
        0 <= i < w,
        0 <= i2 < w,
        f != f2 || i != i2,
    ensures
        slot(w, f, i) != slot(w, f2, i2),
{
    if f != f2 {
        assert(f * w + i != f2 * w + i2) by (nonlinear_arith)
            requires
                0 <= i < w,
                0 <= i2 < w,
                f != f2,
        ;
    }
}

/// Every (field, lane) pair of a region indexes inside it.
pub proof fn lemma_slot_in_range(fields: int, w: int, f: int, i: int)
    requires
        0 <= f < fields,
        0 <= i < w,
    ensures
        0 <= slot(w, f, i) < fields * w,
{
    assert(0 <= f * w + i < fields * w) by (nonlinear_arith)
        requires
            0 <= f < fields,
            0 <= i < w,
    ;
}

/// Writing field `f` of lane `i` and reading any (field, lane) pair back
/// gives the written value at that pair and the old value everywhere else:
/// the set/get round trip, for every field, lane and width.
pub proof fn lemma_word_set_get(
    ws: Seq<u32>,
    fields: int,
    w: int,
    f: int,
    i: int,
    v: u32,
    f2: int,
    i2: int,
)
    requires
        region_wf(ws, fields, w),
        0 <= f < fields,
        0 <= i < w,
        0 <= f2 < fields,
        0 <= i2 < w,
    ensures
        word(word_set(ws, w, f, i, v), w, f, i) == v,
        f != f2 || i != i2 ==> word(word_set(ws, w, f, i, v), w, f2, i2) == word(ws, w, f2, i2),
        region_wf(word_set(ws, w, f, i, v), fields, w),
{
    lemma_slot_in_range(fields, w, f, i);
    lemma_slot_in_range(fields, w, f2, i2);
    if f != f2 || i != i2 {
        lemma_slot_injective(w, f, i, f2, i2);
    }
}

/// Reads the word of field `f` of lane `i` from a region of `w` lanes.
pub fn get_word(ws: &Vec<u32>, fields: usize, w: usize, f: usize, i: usize) -> (r: u32)
    requires
        region_wf(ws@, fields as int, w as int),
        f < fields,
        i < w,
    ensures
        r == word(ws@, w as int, f as int, i as int),
{
    let n = ws.len();
    proof {
        lemma_slot_in_range(fields as int, w as int, f as int, i as int);
        assert(f * w + i < n as int);
    }
    ws[f * w + i]
}

/// Writes `v` to the word of field `f` of lane `i` in a region of `w`
/// lanes; no other word changes.
pub fn set_word(ws: &mut Vec<u32>, fields: usize, w: usize, f: usize, i: usize, v: u32)
    requires
        region_wf(old(ws)@, fields as int, w as int),
        f < fields,
        i < w,
    ensures
        final(ws)@ == word_set(old(ws)@, w as int, f as int, i as int, v),
{
    let n = ws.len();
    proof {
        lemma_slot_in_range(fields as int, w as int, f as int, i as int);
        assert(f * w + i < n as int);
    }
    ws[f * w + i] = v;
}

/// A region of `vals.len()` fields over `w` lanes in which every lane of
/// field `f` holds `vals[f]`: the uniform region the packet constructors
/// start from.
pub fn uniform_region(vals: &Vec<u32>, w: usize) -> (r: Vec<u32>)
    ensures
        region_wf(r@, vals@.len() as int, w as int),
        forall|f: int, i: int|
            0 <= f < vals@.len() && 0 <= i < w ==> #[trigger] word(r@, w as int, f, i) == vals@[f],
{
    let mut r: Vec<u32> = Vec::new();
    let mut f: usize = 0;
    while f < vals.len()
        invariant
            f <= vals@.len(),
            r@.len() == f * w,
            forall|f2: int, i2: int|
                0 <= f2 < f && 0 <= i2 < w ==> #[trigger] word(r@, w as int, f2, i2) == vals@[f2],
        decreases vals@.len() - f,
    {
        let v = vals[f];
        let mut i: usize = 0;
        while i < w
            invariant
                i <= w,
                f < vals@.len(),
                v == vals@[f as int],
                r@.len() == f * w + i,
                forall|f2: int, i2: int|
                    0 <= f2 < f && 0 <= i2 < w ==> #[trigger] word(r@, w as int, f2, i2)
                        == vals@[f2],
                forall|i2: int| 0 <= i2 < i ==> #[trigger] word(r@, w as int, f as int, i2) == v,
            decreases w - i,
        {
            let ghost prev = r@;
            r.push(v);
            i = i + 1;
            proof {
                assert forall|f2: int, i2: int|
                    0 <= f2 < f && 0 <= i2 < w implies #[trigger] word(r@, w as int, f2, i2)
                    == vals@[f2] by {
                    lemma_slot_in_range(f as int, w as int, f2, i2);
                    assert(word(prev, w as int, f2, i2) == vals@[f2]);
                    assert(slot(w as int, f2, i2) < prev.len());
                    assert(r@[slot(w as int, f2, i2)] == prev[slot(w as int, f2, i2)]);
                }
                assert forall|i2: int| 0 <= i2 < i implies #[trigger] word(
                    r@,
                    w as int,
                    f as int,
                    i2,
                ) == v by {
                    if i2 < i - 1 {
                        assert(word(prev, w as int, f as int, i2) == v);
                        assert(slot(w as int, f as int, i2) < prev.len());
                        assert(r@[slot(w as int, f as int, i2)] == prev[slot(
                            w as int,
                            f as int,
                            i2,
                        )]);
                    } else {
                        assert(slot(w as int, f as int, i2) == prev.len());
                        assert(r@[prev.len() as int] == v);
                    }
                }
            }
        }
        f = f + 1;
        proof {
            assert(f * w == (f - 1) * w + w) by (nonlinear_arith);
        }
    }
    r
}

/// Copies the words `from .. to` out of a region.
pub fn copy_range(ws: &Vec<u32>, from: usize, to: usize) -> (r: Vec<u32>)
    requires
        from <= to <= ws@.len(),
    ensures
        r@ == ws@.subrange(from as int, to as int),
{
    let mut r: Vec<u32> = Vec::new();
    let mut k: usize = from;
    while k < to
        invariant
            from <= k <= to <= ws@.len(),
            r@ == ws@.subrange(from as int, k as int),
        decreases to - k,
    {
        r.push(ws[k]);
        k = k + 1;
        proof {
            assert(r@ =~= ws@.subrange(from as int, k as int));
        }
    }
    r
}

/// Lane `i` of a ray region, read back as a scalar ray.
pub open spec fn ray_lane(ws: Seq<u32>, w: int, i: int) -> Ray {
    Ray {
        org_x: word(ws, w, RAY_ORG_X as int, i),
        org_y: word(ws, w, RAY_ORG_Y as int, i),
        org_z: word(ws, w, RAY_ORG_Z as int, i),
        tnear: word(ws, w, RAY_TNEAR as int, i),
        dir_x: word(ws, w, RAY_DIR_X as int, i),
        dir_y: word(ws, w, RAY_DIR_Y as int, i),
        dir_z: word(ws, w, RAY_DIR_Z as int, i),
        time: word(ws, w, RAY_TIME as int, i),
        tfar: word(ws, w, RAY_TFAR as int, i),
        mask: word(ws, w, RAY_MASK as int, i),
        id: word(ws, w, RAY_ID as int, i),
        flags: word(ws, w, RAY_FLAGS as int, i),
    }
}

/// Lane `i` of a hit region, read back as a scalar hit.
pub open spec fn hit_lane(ws: Seq<u32>, w: int, i: int) -> Hit {
    Hit {
        ng_x: word(ws, w, HIT_NG_X as int, i),
        ng_y: word(ws, w, HIT_NG_Y as int, i),
        ng_z: word(ws, w, HIT_NG_Z as int, i),
        u: word(ws, w, HIT_U as int, i),
        v: word(ws, w, HIT_V as int, i),
        prim_id: word(ws, w, HIT_PRIM_ID as int, i),
        geom_id: word(ws, w, HIT_GEOM_ID as int, i),
        inst_id: word(ws, w, HIT_INST_ID as int, i),
    }
}

/// The given ray with the 32-bit field of index `f` replaced by `v`.
pub open spec fn ray_with_field(r: Ray, f: int, v: u32) -> Ray {
    if f == RAY_ORG_X as int {
        Ray { org_x: v, ..r }
    } else if f == RAY_ORG_Y as int {
        Ray { org_y: v, ..r }
    } else if f == RAY_ORG_Z as int {
        Ray { org_z: v, ..r }
    } else if f == RAY_TNEAR as int {
        Ray { tnear: v, ..r }
    } else if f == RAY_DIR_X as int {
        Ray { dir_x: v, ..r }
    } else if f == RAY_DIR_Y as int {
        Ray { dir_y: v, ..r }
    } else if f == RAY_DIR_Z as int {
        Ray { dir_z: v, ..r }
    } else if f == RAY_TIME as int {
        Ray { time: v, ..r }
    } else if f == RAY_TFAR as int {
        Ray { tfar: v, ..r }
    } else if f == RAY_MASK as int {
        Ray { mask: v, ..r }
    } else if f == RAY_ID as int {
        Ray { id: v, ..r }
    } else {
        Ray { flags: v, ..r }
    }
}

/// The given hit with the 32-bit field of index `f` replaced by `v`.
pub open spec fn hit_with_field(h: Hit, f: int, v: u32) -> Hit {
    if f == HIT_NG_X as int {
        Hit { ng_x: v, ..h }
    } else if f == HIT_NG_Y as int {
        Hit { ng_y: v, ..h }
    } else if f == HIT_NG_Z as int {
        Hit { ng_z: v, ..h }
    } else if f == HIT_U as int {
        Hit { u: v, ..h }
    } else if f == HIT_V as int {
        Hit { v: v, ..h }
    } else if f == HIT_PRIM_ID as int {
        Hit { prim_id: v, ..h }
    } else if f == HIT_GEOM_ID as int {
        Hit { geom_id: v, ..h }
    } else {
        Hit { inst_id: v, ..h }
    }
}

/// Writing one field of one lane of a ray region updates that lane's ray at
/// exactly that field and leaves every other lane's ray unchanged.
pub proof fn lemma_ray_lane_after_set(ws: Seq<u32>, w: int, f: int, i: int, v: u32, j: int)
    requires
        region_wf(ws, RAY_FIELDS as int, w),
        0 <= f < RAY_FIELDS,
        0 <= i < w,
        0 <= j < w,
    ensures
        j == i ==> ray_lane(word_set(ws, w, f, i, v), w, i) == ray_with_field(
            ray_lane(ws, w, i),
            f,
            v,
        ),
        j != i ==> ray_lane(word_set(ws, w, f, i, v), w, j) == ray_lane(ws, w, j),
{
    assert forall|f2: int| 0 <= f2 < RAY_FIELDS && (f2 != f || j != i) implies word(
        word_set(ws, w, f, i, v),
        w,
        f2,
        j,
    ) == word(ws, w, f2, j) by {
        lemma_word_set_get(ws, RAY_FIELDS as int, w, f, i, v, f2, j);
    }
    lemma_word_set_get(ws, RAY_FIELDS as int, w, f, i, v, f, i);
}

/// Writing one field of one lane of a hit region updates that lane's hit at
/// exactly that field and leaves every other lane's hit unchanged.
pub proof fn lemma_hit_lane_after_set(ws: Seq<u32>, w: int, f: int, i: int, v: u32, j: int)
    requires
        region_wf(ws, HIT_FIELDS as int, w),
        0 <= f < HIT_FIELDS,
        0 <= i < w,
        0 <= j < w,
    ensures
        j == i ==> hit_lane(word_set(ws, w, f, i, v), w, i) == hit_with_field(
            hit_lane(ws, w, i),
            f,
            v,
        ),
        j != i ==> hit_lane(word_set(ws, w, f, i, v), w, j) == hit_lane(ws, w, j),
{
    assert forall|f2: int| 0 <= f2 < HIT_FIELDS && (f2 != f || j != i) implies word(
        word_set(ws, w, f, i, v),
        w,
        f2,
        j,
    ) == word(ws, w, f2, j) by {
        lemma_word_set_get(ws, HIT_FIELDS as int, w, f, i, v, f2, j);
    }
    lemma_word_set_get(ws, HIT_FIELDS as int, w, f, i, v, f, i);
}

/// Writes field `f` of lane `i` of a ray region: that lane's ray changes at
/// exactly that field, every other lane's ray stays as it was.
pub fn set_ray_field(ws: &mut Vec<u32>, w: usize, f: usize, i: usize, v: u32)
    requires
        region_wf(old(ws)@, RAY_FIELDS as int, w as int),
        f < RAY_FIELDS,
        i < w,
    ensures
        region_wf(final(ws)@, RAY_FIELDS as int, w as int),
        ray_lane(final(ws)@, w as int, i as int) == ray_with_field(
            ray_lane(old(ws)@, w as int, i as int),
            f as int,
            v,
        ),
        forall|j: int|
            0 <= j < w && j != i ==> ray_lane(final(ws)@, w as int, j) == ray_lane(
                old(ws)@,
                w as int,
                j,
            ),
{
    set_word(ws, RAY_FIELDS, w, f, i, v);
    proof {
        assert forall|j: int| 0 <= j < w && j != i implies ray_lane(ws@, w as int, j) == ray_lane(
            old(ws)@,
            w as int,
            j,
        ) by {
            lemma_ray_lane_after_set(old(ws)@, w as int, f as int, i as int, v, j);
        }
        lemma_ray_lane_after_set(old(ws)@, w as int, f as int, i as int, v, i as int);
    }
}

/// Writes field `f` of lane `i` of a hit region: that lane's hit changes at
/// exactly that field, every other lane's hit stays as it was.
pub fn set_hit_field(ws: &mut Vec<u32>, w: usize, f: usize, i: usize, v: u32)
    requires
        region_wf(old(ws)@, HIT_FIELDS as int, w as int),
        f < HIT_FIELDS,
        i < w,
    ensures
        region_wf(final(ws)@, HIT_FIELDS as int, w as int),
        hit_lane(final(ws)@, w as int, i as int) == hit_with_field(
            hit_lane(old(ws)@, w as int, i as int),
            f as int,
            v,
        ),
        forall|j: int|
            0 <= j < w && j != i ==> hit_lane(final(ws)@, w as int, j) == hit_lane(
                old(ws)@,
                w as int,
                j,
            ),
{
    set_word(ws, HIT_FIELDS, w, f, i, v);
    proof {
        assert forall|j: int| 0 <= j < w && j != i implies hit_lane(ws@, w as int, j) == hit_lane(
            old(ws)@,
            w as int,
            j,
        ) by {
            lemma_hit_lane_after_set(old(ws)@, w as int, f as int, i as int, v, j);
        }
        lemma_hit_lane_after_set(old(ws)@, w as int, f as int, i as int, v, i as int);
    }
}

/// Reads lane `i` of a ray region back as a scalar ray.
pub fn read_ray_lane(ws: &Vec<u32>, w: usize, i: usize) -> (r: Ray)
    requires
        region_wf(ws@, RAY_FIELDS as int, w as int),
        i < w,
    ensures
        r == ray_lane(ws@, w as int, i as int),
{
    Ray {
        org_x: get_word(ws, RAY_FIELDS, w, RAY_ORG_X, i),
        org_y: get_word(ws, RAY_FIELDS, w, RAY_ORG_Y, i),
        org_z: get_word(ws, RAY_FIELDS, w, RAY_ORG_Z, i),
        tnear: get_word(ws, RAY_FIELDS, w, RAY_TNEAR, i),
        dir_x: get_word(ws, RAY_FIELDS, w, RAY_DIR_X, i),
        dir_y: get_word(ws, RAY_FIELDS, w, RAY_DIR_Y, i),
        dir_z: get_word(ws, RAY_FIELDS, w, RAY_DIR_Z, i),
        time: get_word(ws, RAY_FIELDS, w, RAY_TIME, i),
        tfar: get_word(ws, RAY_FIELDS, w, RAY_TFAR, i),
        mask: get_word(ws, RAY_FIELDS, w, RAY_MASK, i),
        id: get_word(ws, RAY_FIELDS, w, RAY_ID, i),
        flags: get_word(ws, RAY_FIELDS, w, RAY_FLAGS, i),
    }
}

/// Reads lane `i` of a hit region back as a scalar hit.
pub fn read_hit_lane(ws: &Vec<u32>, w: usize, i: usize) -> (r: Hit)
    requires
        region_wf(ws@, HIT_FIELDS as int, w as int),
        i < w,
    ensures
        r == hit_lane(ws@, w as int, i as int),
{
    Hit {
        ng_x: get_word(ws, HIT_FIELDS, w, HIT_NG_X, i),
        ng_y: get_word(ws, HIT_FIELDS, w, HIT_NG_Y, i),
        ng_z: get_word(ws, HIT_FIELDS, w, HIT_NG_Z, i),
        u: get_word(ws, HIT_FIELDS, w, HIT_U, i),
        v: get_word(ws, HIT_FIELDS, w, HIT_V, i),
        prim_id: get_word(ws, HIT_FIELDS, w, HIT_PRIM_ID, i),
        geom_id: get_word(ws, HIT_FIELDS, w, HIT_GEOM_ID, i),
        inst_id: get_word(ws, HIT_FIELDS, w, HIT_INST_ID, i),
    }
}

/// Lane `i` of a hit region records an intersection: its geometry id is not
/// the invalid sentinel.
pub open spec fn lane_has_hit(ws: Seq<u32>, w: int, i: int) -> bool {
    word(ws, w, HIT_GEOM_ID as int, i) != INVALID_ID
}

/// The lanes among `0 .. upto` that record an intersection, in ascending
/// lane order.
pub open spec fn valid_lanes_upto(ws: Seq<u32>, w: int, upto: int) -> Seq<int>
    decreases upto,
{
    if upto <= 0 {
        Seq::empty()
    } else if lane_has_hit(ws, w, upto - 1) {
        valid_lanes_upto(ws, w, upto - 1).push(upto - 1)
    } else {
        valid_lanes_upto(ws, w, upto - 1)
    }
}

/// The lanes of a hit region of `w` lanes that record an intersection, in
/// ascending lane order.
pub open spec fn valid_lanes(ws: Seq<u32>, w: int) -> Seq<int> {
    valid_lanes_upto(ws, w, w)
}

/// A lane stands among `valid_lanes_upto(ws, w, upto)` exactly when it lies
/// below `upto` and records an intersection.
pub proof fn lemma_valid_lanes_upto_complete(ws: Seq<u32>, w: int, upto: int, j: int)
    ensures
        valid_lanes_upto(ws, w, upto).contains(j) <==> (0 <= j < upto && lane_has_hit(ws, w, j)),
    decreases upto,
{
    let cur = valid_lanes_upto(ws, w, upto);
    if upto > 0 {
        lemma_valid_lanes_upto_complete(ws, w, upto - 1, j);
        let prev = valid_lanes_upto(ws, w, upto - 1);
        if lane_has_hit(ws, w, upto - 1) {
            assert(cur == prev.push(upto - 1));
            if cur.contains(j) {
                let k = choose|k: int| 0 <= k < cur.len() && #[trigger] cur[k] == j;
                if k < prev.len() {
                    assert(prev[k] == j);
                    assert(prev.contains(j));
                } else {
                    assert(j == upto - 1);
                }
            }
            if 0 <= j < upto && lane_has_hit(ws, w, j) {
                if j == upto - 1 {
                    assert(cur[prev.len() as int] == j);
                    assert(cur.contains(j));
                } else {
                    assert(prev.contains(j));
                    let k = choose|k: int| 0 <= k < prev.len() && #[trigger] prev[k] == j;
                    assert(cur[k] == j);
                    assert(cur.contains(j));
                }
            }
        } else {
            assert(cur == prev);
        }
    }
}

/// The valid lanes come in strictly ascending order, each below `upto`.
pub proof fn lemma_valid_lanes_upto_ascending(ws: Seq<u32>, w: int, upto: int)
    ensures
        forall|a: int, b: int|
            0 <= a < b < valid_lanes_upto(ws, w, upto).len()
                ==> valid_lanes_upto(ws, w, upto)[a] < valid_lanes_upto(ws, w, upto)[b],
        forall|a: int|
            0 <= a < valid_lanes_upto(ws, w, upto).len()
                ==> valid_lanes_upto(ws, w, upto)[a] < upto,
    decreases upto,
{
    if upto > 0 {
        lemma_valid_lanes_upto_ascending(ws, w, upto - 1);
        let prev = valid_lanes_upto(ws, w, upto - 1);
        let cur = valid_lanes_upto(ws, w, upto);
        if lane_has_hit(ws, w, upto - 1) {
            assert(cur == prev.push(upto - 1));
            assert forall|a: int, b: int| 0 <= a < b < cur.len() implies cur[a] < cur[b] by {
                if b < prev.len() {
                    assert(prev[a] < prev[b]);
                } else {
                    assert(cur[b] == upto - 1);
                    assert(cur[a] == prev[a]);
                }
            }
        }
    }
}

/// A hit region in which no lane records an intersection has no valid lanes
/// at all.
pub proof fn lemma_no_hits_no_valid_lanes(ws: Seq<u32>, w: int)
    requires
        forall|i: int| 0 <= i < w ==> !lane_has_hit(ws, w, i),
    ensures
        valid_lanes(ws, w) == Seq::<int>::empty(),
{
    lemma_valid_lanes_upto_empty(ws, w, w);
}

proof fn lemma_valid_lanes_upto_empty(ws: Seq<u32>, w: int, upto: int)
    requires
        upto <= w,
        forall|i: int| 0 <= i < w ==> !lane_has_hit(ws, w, i),
    ensures
        valid_lanes_upto(ws, w, upto) == Seq::<int>::empty(),
    decreases upto,
{
    if upto > 0 {
        lemma_valid_lanes_upto_empty(ws, w, upto - 1);
    }
}

} // verus!
