use dove_checks::xorshift::Xorshift;

fn reference_step(x: u64) -> u64 {
    let mut x = x;
    x ^= x << 13;
    x ^= x >> 7;
    x ^= x << 17;
    x
}

#[test]
fn step_is_xorshift64() {
    let mut r = Xorshift(1);
    let a = r.step();
    assert_eq!(a, 1082269761);
    assert_eq!(r.0, a);
    let b = r.step();
    assert_eq!(b, reference_step(1082269761));
}

#[test]
fn zero_seed_stays_at_zero() {
    let mut r = Xorshift(0);
    for _ in 0..10 {
        assert_eq!(r.step(), 0);
    }
}

#[test]
fn nonzero_seed_never_reaches_zero() {
    let mut r = Xorshift(0x1234_5678_9abc_def0);
    for _ in 0..10_000 {
        assert_ne!(r.step(), 0);
    }
}

#[test]
fn next_u32_is_the_low_half_of_next_u64() {
    let mut a = Xorshift(42);
    let mut b = Xorshift(42);
    let x = a.try_next_u64().unwrap();
    let y = b.try_next_u32().unwrap();
    assert_eq!(y, x as u32);
    assert_eq!(a.0, b.0);
}

#[test]
fn sampling_is_deterministic_for_equal_seeds() {
    let mut a = Xorshift(7);
    let mut b = Xorshift(7);
    for _ in 0..100 {
        assert_eq!(a.try_next_u64().unwrap(), b.try_next_u64().unwrap());
    }
    let mut c = Xorshift(8);
    assert_ne!(Xorshift(7).step(), c.step());
}

#[test]
fn fill_bytes_is_little_endian_outputs() {
    let mut r = Xorshift(0xdead_beef_cafe_babe);
    let mut buf = [0u8; 19];
    r.try_fill_bytes(&mut buf).unwrap();
    let mut s = Xorshift(0xdead_beef_cafe_babe);
    let w0 = s.step().to_le_bytes();
    let w1 = s.step().to_le_bytes();
    let w2 = s.step().to_le_bytes();
    assert_eq!(&buf[0..8], &w0);
    assert_eq!(&buf[8..16], &w1);
    assert_eq!(&buf[16..19], &w2[..3]);
    // three outputs were used for 19 bytes
    assert_eq!(r.0, s.0);
}

#[test]
fn fill_bytes_of_nothing_leaves_the_state() {
    let mut r = Xorshift(99);
    let mut buf: [u8; 0] = [];
    r.try_fill_bytes(&mut buf).unwrap();
    assert_eq!(r.0, 99);
}

#[test]
fn shorter_fill_is_a_prefix_of_longer_fill() {
    let mut long = [0u8; 40];
    Xorshift(5).try_fill_bytes(&mut long).unwrap();
    for m in 0..=40 {
        let mut short = vec![0u8; m];
        Xorshift(5).try_fill_bytes(&mut short).unwrap();
        assert_eq!(&short[..], &long[..m]);
    }
}

#[test]
fn exact_eight_bytes_is_one_output() {
    let mut r = Xorshift(3);
    let mut buf = [0u8; 8];
    r.try_fill_bytes(&mut buf).unwrap();
    assert_eq!(u64::from_le_bytes(buf), reference_step(3));
    assert_eq!(r.0, reference_step(3));
}
