use raypack::{AsRay, AsRayHit, Hit, Ray, RayExt, RayHit, RayHitExt, INF_BITS, INVALID_ID};

fn b(x: f32) -> u32 {
    x.to_bits()
}

fn f(x: u32) -> f32 {
    f32::from_bits(x)
}

#[test]
fn scalar_new_defaults() {
    let r = Ray::new([b(1.0), b(2.0), b(3.0)], [b(4.0), b(5.0), b(6.0)]);
    assert_eq!(r.org(), [b(1.0), b(2.0), b(3.0)]);
    assert_eq!(r.dir(), [b(4.0), b(5.0), b(6.0)]);
    assert_eq!(r.tnear, b(0.0));
    assert_eq!(r.tfar, INF_BITS);
    assert_eq!(f(r.tfar), f32::INFINITY);
    assert_eq!(r.time, b(0.0));
    assert_eq!(r.mask, u32::MAX);
    assert_eq!(r.id, 0);
    assert_eq!(r.flags, 0);
}

#[test]
fn scalar_new_with_id() {
    let r = Ray::new_with_id([b(1.0), b(2.0), b(3.0)], [b(4.0), b(5.0), b(6.0)], 42);
    assert_eq!(r.id, 42);
    assert_eq!(r.org(), [b(1.0), b(2.0), b(3.0)]);
    assert_eq!(r.tfar, INF_BITS);
    assert_eq!(r.mask, u32::MAX);
}

#[test]
fn scalar_segment() {
    let r = Ray::segment([0, 0, 0], [b(1.0), 0, 0], b(0.5), b(9.0));
    assert_eq!(r.tnear, b(0.5));
    assert_eq!(r.tfar, b(9.0));
    assert_eq!(r.id, 0);
}

#[test]
fn hit_default_is_invalid() {
    let h = Hit::default();
    assert_eq!(h.geom_id, INVALID_ID);
    assert_eq!(h.prim_id, INVALID_ID);
    assert_eq!(h.inst_id, INVALID_ID);
    assert_eq!(h.normal(), [0, 0, 0]);
    assert_eq!(h.barycentric(), [0, 0]);
}

#[test]
fn ray_hit_validity_tracks_geom_id() {
    let mut rh = RayHit::new(Ray::new([0, 0, 0], [b(1.0), 0, 0]));
    assert!(!rh.is_valid());
    rh.hit.geom_id = 0;
    assert!(rh.is_valid());
    rh.hit.geom_id = 7;
    assert!(rh.is_valid());
    rh.hit.geom_id = INVALID_ID;
    assert!(!rh.is_valid());
}

#[test]
fn scalar_hit_point() {
    let mut rh = RayHit::new(Ray::new([b(0.0), b(0.0), b(0.0)], [b(1.0), b(0.0), b(0.0)]));
    rh.ray.tfar = b(2.0);
    let t = f(rh.ray.tfar);
    let p = [
        f(rh.ray.org_x) + f(rh.ray.dir_x) * t,
        f(rh.ray.org_y) + f(rh.ray.dir_y) * t,
        f(rh.ray.org_z) + f(rh.ray.dir_z) * t,
    ];
    assert_eq!(p, [2.0, 0.0, 0.0]);
}

#[test]
fn ray_ext_round_trip() {
    let mut e = RayExt { ray: Ray::new([0, 0, 0], [b(1.0), 0, 0]), ext: (7u32, 9u32) };
    let base = e.as_ray_mut();
    base.tfar = b(2.0);
    assert_eq!(e.as_ext(), Some(&(7u32, 9u32)));
    assert_eq!(e.as_ray().tfar, b(2.0));
    assert_eq!(e.ext, (7, 9));
}

#[test]
fn bare_ray_has_no_ext() {
    let r = Ray::new([0, 0, 0], [b(1.0), 0, 0]);
    assert_eq!(AsRay::as_ext(&r), None::<&()>);
    assert_eq!(r.as_ray().org(), r.org());
}

#[test]
fn ray_hit_ext_round_trip() {
    let rh = RayHit::new(Ray::new([0, 0, 0], [b(1.0), 0, 0]));
    let mut e = RayHitExt { ray: rh, ext: [10u64, 11u64] };
    let base = e.as_ray_hit_mut();
    base.ray.tfar = b(3.0);
    base.hit.geom_id = 1;
    assert_eq!(e.as_ray_hit_ext(), Some(&[10u64, 11u64]));
    assert!(e.ray.is_valid());
    assert_eq!(e.as_ray().tfar, b(3.0));
    assert_eq!(AsRay::as_ext(&e), Some(&e.ray.hit));
}

#[test]
fn ray_hit_projects_hit_as_ray_ext() {
    let mut rh = RayHit::new(Ray::new([0, 0, 0], [b(1.0), 0, 0]));
    rh.hit.geom_id = 3;
    let h = AsRay::as_ext(&rh).unwrap();
    assert_eq!(h.geom_id, 3);
    assert_eq!(AsRayHit::as_ray_hit_ext(&rh), None::<&()>);
}
