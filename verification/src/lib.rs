//! Typed, verified views over the flat structure-of-arrays records that a
//! native ray-tracing kernel produces and consumes.
//!
//! Every 32-bit field of a record is carried as its raw bit pattern in a
//! `u32`; the fields that hold IEEE 754 binary32 values (origins, directions,
//! ray intervals, normals, barycentric coordinates) are stored and moved
//! bit-for-bit, never interpreted arithmetically here. This keeps the whole
//! layout layer — lane indexing, per-field offsets, packet construction,
//! validity predicates, extension wrappers — inside verified code, while the
//! numeric interpretation of those bit patterns stays with the caller.

use vstd::prelude::*;

pub mod ray;
pub mod layout;
pub mod packet;
pub mod view;
pub mod soa_iter;
pub mod context;

pub use crate::ray::{AsRay, AsRayHit, Hit, Ray, RayExt, RayHit, RayHitExt};
pub use crate::packet::{
    Hit16, Hit4, Hit8, HitNt, HitPacket, Ray16, Ray4, Ray8, RayHit16, RayHit4, RayHit8, RayHitNt,
    RayHitPacket, RayNt, RayPacket,
};
pub use crate::view::{HitN, RayHitN, RayN};
pub use crate::soa_iter::{SoAHitIter, SoARayHitIter, SoARayIter};
pub use crate::context::{
    AsIntersectContext, IntersectContext, IntersectContextExt, IntersectContextFlags,
};

verus! {

/// Sentinel identifier marking "no geometry" / "no instance": a hit whose
/// geometry id equals this value records no intersection.
pub const INVALID_ID: u32 = u32::MAX;

/// Bit pattern of the IEEE 754 binary32 value +infinity, the default upper
/// bound of a ray's parametric interval.
pub const INF_BITS: u32 = 0x7f80_0000;

} // verus!
