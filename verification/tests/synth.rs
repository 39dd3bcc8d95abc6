use linkclihost::synth::Noise;

#[test]
fn noise_is_xorshift32_from_fixed_seed() {
    let mut n = Noise::new();
    assert_eq!(n.0, 0x9E37_79B9);
    let mut x: u32 = 0x9E37_79B9;
    for _ in 0..100 {
        x ^= x << 13;
        x ^= x >> 17;
        x ^= x << 5;
        assert_eq!(n.next_bits(), x);
    }
    let mut a = Noise::new();
    let mut b = Noise::new();
    assert_eq!(a.next_bits(), b.next_bits());
}
