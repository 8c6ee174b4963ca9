use raypack::{HitNt, HitPacket, Ray, RayHit, RayHit4, RayHitNt, RayHitPacket, RayNt, RayPacket,
    INF_BITS, INVALID_ID};

fn b(x: f32) -> u32 {
    x.to_bits()
}

fn lane_origin(i: usize) -> [u32; 3] {
    [b(i as f32), b(i as f32 + 0.25), b(i as f32 + 0.5)]
}

fn lane_dir(i: usize) -> [u32; 3] {
    [b(-(i as f32)), b(1.0), b(i as f32 * 2.0)]
}

fn check_new_defaults<const N: usize>(p: &RayNt<N>) {
    for i in 0..N {
        assert_eq!(p.org(i), lane_origin(i));
        assert_eq!(p.dir(i), lane_dir(i));
        assert_eq!(p.tnear(i), b(0.0));
        assert_eq!(p.tfar(i), INF_BITS);
        assert_eq!(p.time(i), b(0.0));
        assert_eq!(p.mask(i), u32::MAX);
        assert_eq!(p.id(i), 0);
        assert_eq!(p.flags(i), 0);
    }
}

#[test]
fn packet_new_reads_back_width_1() {
    let p: RayNt<1> = RayNt::new([lane_origin(0)], [lane_dir(0)]);
    check_new_defaults(&p);
}

#[test]
fn packet_new_reads_back_width_4() {
    let o = [lane_origin(0), lane_origin(1), lane_origin(2), lane_origin(3)];
    let d = [lane_dir(0), lane_dir(1), lane_dir(2), lane_dir(3)];
    let p: RayNt<4> = RayNt::new(o, d);
    check_new_defaults(&p);
}

#[test]
fn packet_new_reads_back_width_8() {
    let mut o = [[0u32; 3]; 8];
    let mut d = [[0u32; 3]; 8];
    for i in 0..8 {
        o[i] = lane_origin(i);
        d[i] = lane_dir(i);
    }
    let p: RayNt<8> = RayNt::new(o, d);
    check_new_defaults(&p);
}

#[test]
fn packet_new_reads_back_width_16() {
    let mut o = [[0u32; 3]; 16];
    let mut d = [[0u32; 3]; 16];
    for i in 0..16 {
        o[i] = lane_origin(i);
        d[i] = lane_dir(i);
    }
    let p: RayNt<16> = RayNt::new(o, d);
    check_new_defaults(&p);
}

#[test]
fn packet_segment_intervals() {
    let o = [lane_origin(0), lane_origin(1), lane_origin(2), lane_origin(3)];
    let d = [lane_dir(0), lane_dir(1), lane_dir(2), lane_dir(3)];
    let tn = [b(0.0), b(0.5), b(1.0), b(1.5)];
    let tf = [b(10.0), b(20.0), b(30.0), b(40.0)];
    let p: RayNt<4> = RayNt::segment(o, d, tn, tf);
    for i in 0..4 {
        assert_eq!(p.tnear(i), tn[i]);
        assert_eq!(p.tfar(i), tf[i]);
        assert_eq!(p.org(i), o[i]);
        assert_eq!(p.dir(i), d[i]);
    }
}

#[test]
fn packet_empty_defaults() {
    let p: RayNt<4> = RayNt::empty();
    for i in 0..4 {
        assert_eq!(p.org(i), [0, 0, 0]);
        assert_eq!(p.dir(i), [0, 0, 0]);
        assert_eq!(p.tnear(i), b(0.0));
        assert_eq!(p.tfar(i), INF_BITS);
        assert_eq!(p.mask(i), u32::MAX);
    }
    let q: RayNt<8> = Default::default();
    assert_eq!(q.tfar(7), INF_BITS);
}

fn round_trip_ray_packet<const N: usize>() {
    let mut p: RayNt<N> = RayNt::empty();
    for i in 0..N {
        let k = i as u32;
        p.set_org(i, [k, k + 1, k + 2]);
        p.set_dir(i, [k + 3, k + 4, k + 5]);
        p.set_tnear(i, k + 6);
        p.set_tfar(i, k + 7);
        p.set_time(i, k + 8);
        p.set_mask(i, k + 9);
        p.set_id(i, k + 10);
        p.set_flags(i, k + 11);
    }
    for i in 0..N {
        let k = i as u32;
        assert_eq!(p.org(i), [k, k + 1, k + 2]);
        assert_eq!(p.dir(i), [k + 3, k + 4, k + 5]);
        assert_eq!(p.tnear(i), k + 6);
        assert_eq!(p.tfar(i), k + 7);
        assert_eq!(p.time(i), k + 8);
        assert_eq!(p.mask(i), k + 9);
        assert_eq!(p.id(i), k + 10);
        assert_eq!(p.flags(i), k + 11);
    }
}

fn round_trip_hit_packet<const N: usize>() {
    let mut h: HitNt<N> = HitNt::new();
    for i in 0..N {
        let k = i as u32;
        h.set_normal(i, [k, k + 1, k + 2]);
        h.set_u(i, k + 3);
        h.set_v(i, k + 4);
        h.set_prim_id(i, k + 5);
        h.set_geom_id(i, k + 6);
        h.set_inst_id(i, k + 7);
    }
    for i in 0..N {
        let k = i as u32;
        assert_eq!(h.normal(i), [k, k + 1, k + 2]);
        assert_eq!(h.uv(i), [k + 3, k + 4]);
        assert_eq!(h.prim_id(i), k + 5);
        assert_eq!(h.geom_id(i), k + 6);
        assert_eq!(h.inst_id(i), k + 7);
    }
}

#[test]
fn set_get_round_trip_every_width() {
    round_trip_ray_packet::<1>();
    round_trip_ray_packet::<4>();
    round_trip_ray_packet::<8>();
    round_trip_ray_packet::<16>();
    round_trip_hit_packet::<1>();
    round_trip_hit_packet::<4>();
    round_trip_hit_packet::<8>();
    round_trip_hit_packet::<16>();
}

#[test]
fn setter_leaves_other_lanes_alone() {
    let mut p: RayNt<4> = RayNt::empty();
    p.set_tfar(2, 77);
    assert_eq!(p.tfar(2), 77);
    assert_eq!(p.tfar(0), INF_BITS);
    assert_eq!(p.tfar(1), INF_BITS);
    assert_eq!(p.tfar(3), INF_BITS);
    assert_eq!(p.tnear(2), 0);
}

#[test]
fn fresh_hit_packet_has_no_hits() {
    let h: HitNt<4> = HitNt::new();
    assert!(!h.any_hit());
    assert_eq!(h.iter_hits().len(), 0);
    assert_eq!(h.iter_validity(), vec![false, false, false, false]);
    for i in 0..4 {
        assert_eq!(h.geom_id(i), INVALID_ID);
        assert_eq!(h.prim_id(i), INVALID_ID);
        assert_eq!(h.inst_id(i), INVALID_ID);
    }
    let mut it = h.iter();
    let mut yielded = 0;
    while let Some(hit) = it.next() {
        assert_eq!(hit.geom_id, INVALID_ID);
        yielded += 1;
    }
    assert_eq!(yielded, 4);
}

#[test]
fn any_hit_iff_some_lane_valid() {
    let mut h: HitNt<8> = HitNt::new();
    assert!(!h.any_hit());
    h.set_geom_id(5, 0);
    assert!(h.any_hit());
    h.set_geom_id(5, INVALID_ID);
    assert!(!h.any_hit());
    h.set_geom_id(0, 3);
    h.set_geom_id(7, 4);
    assert!(h.any_hit());
}

#[test]
fn iter_hits_yields_valid_lanes_ascending() {
    let mut h: HitNt<8> = HitNt::new();
    h.set_geom_id(6, 60);
    h.set_geom_id(1, 10);
    h.set_geom_id(3, 30);
    h.set_prim_id(1, 100);
    h.set_prim_id(3, 300);
    h.set_prim_id(6, 600);
    let hits = h.iter_hits();
    assert_eq!(hits.len(), 3);
    assert_eq!(hits[0].geom_id, 10);
    assert_eq!(hits[0].prim_id, 100);
    assert_eq!(hits[1].geom_id, 30);
    assert_eq!(hits[1].prim_id, 300);
    assert_eq!(hits[2].geom_id, 60);
    assert_eq!(hits[2].prim_id, 600);
    let validity = h.iter_validity();
    assert_eq!(validity, vec![false, true, false, true, false, false, true, false]);
}

#[test]
fn ray_iter_yields_each_lane_and_restarts() {
    let o = [lane_origin(0), lane_origin(1), lane_origin(2), lane_origin(3)];
    let d = [lane_dir(0), lane_dir(1), lane_dir(2), lane_dir(3)];
    let p: RayNt<4> = RayNt::new(o, d);
    for _round in 0..2 {
        let mut it = p.iter();
        for i in 0..4 {
            let ray = it.next().unwrap();
            assert_eq!([ray.org_x, ray.org_y, ray.org_z], o[i]);
            assert_eq!([ray.dir_x, ray.dir_y, ray.dir_z], d[i]);
            assert_eq!(ray.tfar, INF_BITS);
        }
        assert_eq!(it.next(), None);
        assert_eq!(it.next(), None);
    }
}

#[test]
fn ray_hit4_new_pairs_fresh_hits() {
    let o = [lane_origin(0), lane_origin(1), lane_origin(2), lane_origin(3)];
    let d = [lane_dir(0), lane_dir(1), lane_dir(2), lane_dir(3)];
    let rh: RayHit4 = RayHitNt::new(RayNt::new(o, d));
    assert!(!rh.hit.any_hit());
    assert_eq!(rh.ray.org(2), lane_origin(2));
}

#[test]
fn ray_hit4_iter_yields_four_aligned_pairs() {
    let o = [lane_origin(0), lane_origin(1), lane_origin(2), lane_origin(3)];
    let d = [lane_dir(0), lane_dir(1), lane_dir(2), lane_dir(3)];
    let mut rh: RayHit4 = RayHitNt::new(RayNt::new(o, d));
    for i in 0..4 {
        rh.hit.set_geom_id(i, 100 + i as u32);
    }
    let mut it = rh.iter();
    let mut count = 0;
    for i in 0..4 {
        let (ray, hit) = it.next().unwrap();
        assert_eq!([ray.org_x, ray.org_y, ray.org_z], o[i]);
        assert_eq!(hit.geom_id, 100 + i as u32);
        count += 1;
    }
    assert_eq!(count, 4);
    assert_eq!(it.next(), None);
}

#[test]
fn packet_trait_widths() {
    assert_eq!(<Ray as RayPacket>::len(), 1);
    assert_eq!(<RayNt<4> as RayPacket>::len(), 4);
    assert_eq!(<RayNt<8> as RayPacket>::len(), 8);
    assert_eq!(<RayNt<16> as RayPacket>::len(), 16);
    assert_eq!(<HitNt<4> as HitPacket>::len(), 4);
    assert_eq!(<RayHit4 as RayHitPacket>::len(), 4);
    assert_eq!(<RayHit as RayHitPacket>::len(), 1);
}
