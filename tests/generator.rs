use aribas_rand::c_rand::{CRandomLinux, CRandomWindows};
use aribas_rand::{AribasRandom, Platform};

fn seeded_linux(t: u32) -> AribasRandom {
    let mut g = AribasRandom::new_linux();
    g.random_seed_by_timestamp(t);
    g
}

#[test]
fn new_generators_start_at_zero() {
    assert_eq!(AribasRandom::new_linux().get_current_seed(), 0);
    assert_eq!(AribasRandom::new_windows().get_current_seed(), 0);
}

#[test]
fn glibc_rand_stream_for_seed_one() {
    let mut r = CRandomLinux::new();
    r.srand(1);
    assert_eq!(r.rand(), 1804289383);
    assert_eq!(r.rand(), 846930886);
    assert_eq!(r.rand(), 1681692777);
}

#[test]
fn glibc_seed_zero_acts_as_one() {
    let mut r = CRandomLinux::new();
    r.srand(0);
    assert_eq!(r.rand(), 1804289383);
}

#[test]
fn msvc_rand_stream_for_seed_one() {
    let mut r = CRandomWindows::new();
    r.srand(1);
    assert_eq!(r.rand(), 41);
    assert_eq!(r.rand(), 18467);
    assert_eq!(r.rand(), 6334);
}

#[test]
fn platform_first_draws_for_timestamp() {
    let l = AribasRandom::new_linux();
    let w = AribasRandom::new_windows();
    assert_eq!(l.sysrand_timestamp(1000000000), 1168042403);
    assert_eq!(w.sysrand_timestamp(1000000000), 18686);
    assert_eq!(AribasRandom::sysrand_timestamp_linux(12345), 383100999);
    assert_eq!(AribasRandom::sysrand_timestamp_linux(0xFFFF_FFFF), 254925627);
}

#[test]
fn seeding_by_timestamp_states() {
    let mut l = AribasRandom::new_linux();
    assert_eq!(l.random_seed_by_timestamp(1000000000), 0x1_f67e_6e77_b334);
    assert_eq!(l.get_current_seed(), 0x1_f67e_6e77_b334);
    let mut w = AribasRandom::new_windows();
    assert_eq!(w.random_seed_by_timestamp(1000000000), 0x1_2a6f_6443_ed17);
    assert_eq!(l.random_seed_by_timestamp(12345), 0x1_307d_9427_8938);
    assert_eq!(w.random_seed_by_timestamp(0xFFFF_FFFF), 0x1_01d9_9263_e5b4);
}

#[test]
fn platforms_diverge_for_same_timestamp() {
    for t in [0u32, 12345, 1000000000, 0xFFFF_FFFF] {
        let mut l = AribasRandom::new_linux();
        let mut w = AribasRandom::new_windows();
        assert_ne!(l.random_seed_by_timestamp(t), w.random_seed_by_timestamp(t));
    }
}

#[test]
fn seeding_twice_gives_the_same_draws() {
    let moduli: Vec<Vec<u32>> = vec![vec![1000], vec![1661992960, 1808227885, 5], vec![7], vec![0, 256]];
    let mut a = AribasRandom::new_linux();
    a.random_seed(0xDEAD_BEEF);
    a.random_seed_by_timestamp(1000000000);
    let mut b = seeded_linux(1000000000);
    let mut outs = Vec::new();
    for m in &moduli {
        let x = a.random(m);
        assert_eq!(x, b.random(m));
        outs.push(x);
    }
    assert_eq!(outs, vec![vec![269], vec![1466652222, 2429709236, 2], vec![], vec![3039435341, 214]]);
    assert_eq!(a.get_current_seed(), 0x1_33ec_e1d6_fccb);
    assert_eq!(a.get_current_seed(), b.get_current_seed());
}

#[test]
fn lane_three_is_one_after_every_operation() {
    let mut g = AribasRandom::new_windows();
    let lane3 = |x: u64| (x >> 48) & 0xFFFF;
    assert_eq!(lane3(g.random_seed(u64::MAX)), 1);
    assert_eq!(lane3(g.random_seed(0)), 1);
    for m in [vec![], vec![9], vec![0, 0, 1], vec![u32::MAX, u32::MAX]] {
        g.random(&m);
        assert_eq!(lane3(g.get_current_seed()), 1);
    }
    assert_eq!(lane3(g.random_seed_by_timestamp(77)), 1);
}

#[test]
fn draws_are_below_the_modulus() {
    let g0 = seeded_linux(1000000000);
    let cases: Vec<(Vec<u32>, Vec<u32>)> = vec![
        (vec![1], vec![]),
        (vec![255], vec![64]),
        (vec![65535], vec![23269]),
        (vec![65536], vec![23269]),
        (vec![16777215], vec![2448101]),
        (vec![4294967295], vec![3055901413]),
        (vec![0, 1], vec![3055901413]),
        (vec![3567587328, 232], vec![2383071973, 138]),
        (vec![1661992960, 1808227885, 5], vec![4090845925, 3610977430, 4]),
        (vec![7, 0, 0, 16], vec![2226477699, 779703870, 3265544103, 10]),
    ];
    for (m, expected) in cases {
        let mut g = AribasRandom::new_linux();
        g.random_seed(g0.get_current_seed());
        assert_eq!(g.random(&m), expected);
    }
}

#[test]
fn zero_modulus_gives_zero_and_still_steps() {
    let mut g = seeded_linux(1000000000);
    assert_eq!(g.random(&vec![]), Vec::<u32>::new());
    assert_eq!(g.get_current_seed(), 0x1_5fd7_5ae5_205d);
    let mut h = seeded_linux(1000000000);
    assert_eq!(h.random(&vec![0, 0]), Vec::<u32>::new());
    assert_eq!(h.get_current_seed(), 0x1_5fd7_5ae5_205d);
}

#[test]
fn small_and_large_draws_take_different_steps() {
    let mut g = seeded_linux(1000000000);
    g.random(&vec![65535]);
    assert_eq!(g.get_current_seed(), 0x1_5fd7_5ae5_205d);
    let mut g = seeded_linux(1000000000);
    g.random(&vec![65536]);
    assert_eq!(g.get_current_seed(), 0x1_b625_5ae5_205d);
    let mut g = seeded_linux(1000000000);
    g.random(&vec![0, 1]);
    assert_eq!(g.get_current_seed(), 0x1_2e79_563e_575e);
}

#[test]
fn carry_escapes_into_wide_field() {
    let mut g = AribasRandom::new_linux();
    assert_eq!(g.random_seed(0x1234_FFFF_FFFF), 0x1_1234_FFFF_FFFF);
    assert_eq!(g.random(&vec![100]), vec![24]);
    let s = g.get_current_seed();
    assert_eq!(s, 0x1_0001_c3cc_aa30);
    // a truncating step would have kept lane 2 as it was
    assert_ne!((s >> 32) & 0xFFFF, 0x1234);
    let mut g = AribasRandom::new_linux();
    g.random_seed(0x0001_0000_FFFF_0000);
    assert_eq!(g.random(&vec![100]), vec![4]);
    assert_eq!(g.get_current_seed(), 0x1_de18_e5b4_8849);
}

#[test]
fn explicit_seed_round_trip() {
    let mut g = AribasRandom::new_windows();
    for s in [0u64, 0x1234_FFFF_FFFF, 0xABCD_0000_FFFF_FFFF, u64::MAX, 0x0001_0000_0000_0000] {
        let r = g.random_seed(s);
        assert_eq!(r, (s & !(0xFFFFu64 << 48)) | (1u64 << 48));
        assert_eq!(g.get_current_seed(), r);
    }
}

#[test]
fn linux_timestamp_one_billion_modulus_thousand() {
    let mut g = AribasRandom::new_linux();
    g.random_seed_by_timestamp(1000000000);
    assert_eq!(g.random(&vec![1000]), vec![269]);
}

#[test]
fn platform_is_comparable() {
    assert_eq!(Platform::Linux, Platform::Linux);
    assert_ne!(Platform::Linux, Platform::Windows);
}
