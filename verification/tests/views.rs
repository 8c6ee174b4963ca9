use raypack::{HitN, HitNt, RayHitN, RayN, RayNt, INF_BITS, INVALID_ID};

fn b(x: f32) -> u32 {
    x.to_bits()
}

fn f(x: u32) -> f32 {
    f32::from_bits(x)
}

fn lane_origin(i: usize) -> [u32; 3] {
    [b(i as f32), b(i as f32 + 0.25), b(i as f32 + 0.5)]
}

fn lane_dir(i: usize) -> [u32; 3] {
    [b(1.0), b(-(i as f32)), b(i as f32 * 4.0)]
}

fn filled_ray_packet<const N: usize>() -> RayNt<N> {
    let mut p: RayNt<N> = RayNt::empty();
    for i in 0..N {
        let k = i as u32;
        p.set_org(i, lane_origin(i));
        p.set_dir(i, lane_dir(i));
        p.set_tnear(i, b(0.25 * i as f32));
        p.set_tfar(i, b(10.0 + i as f32));
        p.set_time(i, k + 1);
        p.set_mask(i, k + 2);
        p.set_id(i, k + 3);
        p.set_flags(i, k + 4);
    }
    p
}

fn filled_hit_packet<const N: usize>() -> HitNt<N> {
    let mut h: HitNt<N> = HitNt::new();
    for i in 0..N {
        let k = i as u32;
        h.set_normal(i, [k, k + 10, k + 20]);
        h.set_u(i, k + 30);
        h.set_v(i, k + 40);
        h.set_prim_id(i, k + 50);
        if i % 2 == 0 {
            h.set_geom_id(i, k + 60);
        }
        h.set_inst_id(i, k + 70);
    }
    h
}

fn check_ray_view_matches_packet<const N: usize>() {
    let p: RayNt<N> = filled_ray_packet();
    let v = RayN::from_words(p.as_words().clone(), N);
    assert_eq!(v.len(), N);
    assert!(!v.is_empty());
    for i in 0..N {
        assert_eq!(v.org(i), p.org(i));
        assert_eq!(v.dir(i), p.dir(i));
        assert_eq!(v.tnear(i), p.tnear(i));
        assert_eq!(v.tfar(i), p.tfar(i));
        assert_eq!(v.time(i), p.time(i));
        assert_eq!(v.mask(i), p.mask(i));
        assert_eq!(v.id(i), p.id(i));
        assert_eq!(v.flags(i), p.flags(i));
    }
}

fn check_hit_view_matches_packet<const N: usize>() {
    let h: HitNt<N> = filled_hit_packet();
    let v = HitN::from_words(h.as_words().clone(), N);
    assert_eq!(v.len(), N);
    for i in 0..N {
        assert_eq!(v.normal(i), h.normal(i));
        assert_eq!(v.uv(i), h.uv(i));
        assert_eq!(v.prim_id(i), h.prim_id(i));
        assert_eq!(v.geom_id(i), h.geom_id(i));
        assert_eq!(v.inst_id(i), h.inst_id(i));
    }
}

#[test]
fn view_matches_packet_width_4() {
    check_ray_view_matches_packet::<4>();
    check_hit_view_matches_packet::<4>();
}

#[test]
fn view_matches_packet_width_8() {
    check_ray_view_matches_packet::<8>();
    check_hit_view_matches_packet::<8>();
}

#[test]
fn view_matches_packet_width_16() {
    check_ray_view_matches_packet::<16>();
    check_hit_view_matches_packet::<16>();
}

#[test]
fn view_round_trip_setters() {
    let p: RayNt<4> = RayNt::empty();
    let mut v = RayN::from_words(p.as_words().clone(), 4);
    v.set_org(2, [1, 2, 3]);
    v.set_dir(2, [4, 5, 6]);
    v.set_tnear(2, 7);
    v.set_tfar(2, 8);
    v.set_time(2, 9);
    v.set_mask(2, 10);
    v.set_id(2, 11);
    v.set_flags(2, 12);
    assert_eq!(v.org(2), [1, 2, 3]);
    assert_eq!(v.dir(2), [4, 5, 6]);
    assert_eq!(v.tnear(2), 7);
    assert_eq!(v.tfar(2), 8);
    assert_eq!(v.time(2), 9);
    assert_eq!(v.mask(2), 10);
    assert_eq!(v.id(2), 11);
    assert_eq!(v.flags(2), 12);
    assert_eq!(v.tfar(1), INF_BITS);
    assert_eq!(v.org(0), [0, 0, 0]);
    let h: HitNt<4> = HitNt::new();
    let mut hv = HitN::from_words(h.as_words().clone(), 4);
    hv.set_normal(1, [1, 2, 3]);
    hv.set_u(1, 4);
    hv.set_v(1, 5);
    hv.set_prim_id(1, 6);
    hv.set_geom_id(1, 7);
    hv.set_inst_id(1, 8);
    assert_eq!(hv.normal(1), [1, 2, 3]);
    assert_eq!(hv.uv(1), [4, 5]);
    assert_eq!(hv.prim_id(1), 6);
    assert_eq!(hv.geom_id(1), 7);
    assert_eq!(hv.inst_id(1), 8);
    assert_eq!(hv.geom_id(0), INVALID_ID);
}

#[test]
fn combined_view_splits_at_twelve_words_per_lane() {
    let p: RayNt<4> = filled_ray_packet();
    let h: HitNt<4> = filled_hit_packet();
    let mut words = p.as_words().clone();
    words.extend_from_slice(h.as_words());
    let rhv = RayHitN::from_words(words, 4);
    assert_eq!(rhv.len(), 4);
    assert!(!rhv.is_empty());
    let rv = rhv.ray_n();
    let hv = rhv.hit_n();
    for i in 0..4 {
        assert_eq!(rv.org(i), p.org(i));
        assert_eq!(rv.tfar(i), p.tfar(i));
        assert_eq!(rv.flags(i), p.flags(i));
        assert_eq!(hv.normal(i), h.normal(i));
        assert_eq!(hv.geom_id(i), h.geom_id(i));
        assert_eq!(hv.inst_id(i), h.inst_id(i));
    }
}

#[test]
fn view_iterates_lanes_in_order() {
    let p: RayNt<4> = filled_ray_packet();
    let v = RayN::from_words(p.as_words().clone(), 4);
    let mut it = v.iter();
    for i in 0..4 {
        let ray = it.next().unwrap();
        assert_eq!([ray.org_x, ray.org_y, ray.org_z], lane_origin(i));
    }
    assert_eq!(it.next(), None);
}

#[test]
fn hit_point_agrees_across_representations() {
    // One ray — origin (0,0,0), direction (1,0,0), tfar 2.0 — seen as a
    // scalar, as lane 1 of a fixed-width packet, and as lane 1 of a
    // runtime-width view over the same buffer. All three must hand back the
    // same bits, so the derived hit point is (2,0,0) for all three.
    let org = [b(0.0), b(0.0), b(0.0)];
    let dir = [b(1.0), b(0.0), b(0.0)];
    let mut scalar = raypack::Ray::new(org, dir);
    scalar.tfar = b(2.0);

    let mut p: RayNt<4> = RayNt::empty();
    p.set_org(1, org);
    p.set_dir(1, dir);
    p.set_tfar(1, b(2.0));

    let v = RayN::from_words(p.as_words().clone(), 4);

    let reps: [([u32; 3], [u32; 3], u32); 3] = [
        (scalar.org(), scalar.dir(), scalar.tfar),
        (p.org(1), p.dir(1), p.tfar(1)),
        (v.org(1), v.dir(1), v.tfar(1)),
    ];
    for (o, d, tf) in reps.iter() {
        assert_eq!(*o, org);
        assert_eq!(*d, dir);
        assert_eq!(*tf, b(2.0));
        let t = f(*tf);
        let hp = [
            f(o[0]) + f(d[0]) * t,
            f(o[1]) + f(d[1]) * t,
            f(o[2]) + f(d[2]) * t,
        ];
        assert_eq!(hp, [2.0, 0.0, 0.0]);
        assert_eq!(
            [hp[0].to_bits(), hp[1].to_bits(), hp[2].to_bits()],
            [b(2.0), b(0.0), b(0.0)]
        );
    }
}
