use gm_game::rng::MersenneTwister;

#[test]
fn same_seed_gives_same_words() {
    let mut a = MersenneTwister::from(12345);
    let mut b = MersenneTwister::new();
    b.next_u32();
    b.set_seed(12345);
    for _ in 0..2000 {
        assert_eq!(a.next_u32(), b.next_u32());
    }
}

#[test]
fn seed_one_gives_the_known_words() {
    let mut g = MersenneTwister::from(1);
    assert_eq!(g.next_u32(), 1791095845);
    assert_eq!(g.next_u32(), 4282876139);
    assert_eq!(g.next_u32(), 3093770124);
    assert_eq!(g.next_u32(), 4005303368);
    assert_eq!(g.next_u32(), 491263);
}

#[test]
fn default_seed_gives_the_known_ten_thousandth_word() {
    let mut g = MersenneTwister::from(5489);
    assert_eq!(g.next_u32(), 3499211612);
    let mut last = 0;
    for _ in 1..10000 {
        last = g.next_u32();
    }
    assert_eq!(last, 4123659995);
}

#[test]
fn from_zero_ignores_its_argument() {
    let mut a = MersenneTwister::from_zero(77);
    let mut b = MersenneTwister::from(0);
    assert_eq!(a.next_u32(), 2357136044);
    assert_eq!(b.next_u32(), 2357136044);
    assert_eq!(a.next_u32(), b.next_u32());
}

#[test]
fn seeding_sets_the_cursors() {
    let g = MersenneTwister::from(9);
    assert_eq!(g.p, 0);
    assert_eq!(g.q, 1);
    assert_eq!(g.r, 397);
    assert_eq!(g.x[0], 9);
    assert_eq!(g.x[1], 1812433253u32.wrapping_mul(9).wrapping_add(1));
}

#[test]
fn unseeded_generator_is_all_zero() {
    let g = MersenneTwister::new();
    assert_eq!((g.p, g.q, g.r), (0, 0, 0));
    assert!(g.x.iter().all(|w| *w == 0));
}

#[test]
fn cursors_wrap_around_the_state() {
    let mut g = MersenneTwister::from(3);
    for _ in 0..624 {
        g.next_u32();
    }
    assert_eq!((g.p, g.q, g.r), (0, 1, 397));
    for _ in 0..227 {
        g.next_u32();
    }
    assert_eq!((g.p, g.q, g.r), (227, 228, 0));
}

#[test]
fn imul_keeps_the_low_32_bits() {
    assert_eq!(MersenneTwister::imul(0, 12345), 0);
    assert_eq!(MersenneTwister::imul(1, 0xdeadbeef), 0xdeadbeef);
    assert_eq!(MersenneTwister::imul(0xffffffff, 0xffffffff), 1);
    assert_eq!(MersenneTwister::imul(0x10000, 0x10000), 0);
    assert_eq!(MersenneTwister::imul(0xffff, 0xffff), 0xfffe0001);
    assert_eq!(MersenneTwister::imul(1812433253, 7), 1812433253u32.wrapping_mul(7));
    let mut a: u32 = 0x12345678;
    let mut b: u32 = 0x9abcdef1;
    for _ in 0..1000 {
        assert_eq!(MersenneTwister::imul(a, b), a.wrapping_mul(b));
        a = a.wrapping_mul(1664525).wrapping_add(1013904223);
        b = b.wrapping_mul(22695477).wrapping_add(1);
    }
}

#[test]
fn next_range_stays_in_range() {
    let mut g = MersenneTwister::from(2024);
    for _ in 0..5000 {
        let n = g.next_range(-480, 480);
        assert!((-480..=480).contains(&n));
    }
    for _ in 0..100 {
        assert_eq!(g.next_range(7, 7), 7);
    }
}

#[test]
fn next_range_reduces_the_raw_word() {
    let mut g = MersenneTwister::from(1);
    // the raw words are 1791095845 and 4282876139
    assert_eq!(g.next_range(10, 19), 10 + (1791095845u32 % 10) as i32);
    assert_eq!(g.next_range(-5, 5), -5 + (4282876139u32 % 11) as i32);
}

#[test]
fn next_from_zero_reduces_the_raw_word() {
    let mut g = MersenneTwister::from(1);
    assert_eq!(g.next_from_zero(1999), 1845);
    assert_eq!(g.next_from_zero(11), 11);
    assert_eq!(g.next_from_zero(0), 0);
    let mut h = MersenneTwister::from(1);
    let mut raw = MersenneTwister::from(1);
    for _ in 0..1000 {
        let n = h.next_from_zero(49);
        assert_eq!(n, (raw.next_u32() % 50) as i32);
        assert!((0..=49).contains(&n));
    }
}

#[test]
fn next_u32_bits_keeps_the_high_bits() {
    let mut g = MersenneTwister::from(1);
    assert_eq!(g.next_u32_bits(32), 1791095845);
    assert_eq!(g.next_u32_bits(8), 4282876139u32 >> 24);
    assert_eq!(g.next_u32_bits(1), 3093770124u32 >> 31);
}

#[test]
fn copies_draw_the_same_words() {
    let mut a = MersenneTwister::from(42);
    for _ in 0..700 {
        a.next_u32();
    }
    let mut b = a;
    for _ in 0..700 {
        assert_eq!(a.next_u32(), b.next_u32());
    }
}
