use qwartz::entropy::{EntropyEngine, EntropySource};
use qwartz::init;

#[test]
fn test_entropy_generation() {
    let seed1 = EntropyEngine::generate_seed();
    let seed2 = EntropyEngine::generate_seed();

    // Seeds should be different (with very high probability)
    assert_ne!(seed1[..], seed2[..]);
}

#[test]
fn test_micro_timing() {
    let t1 = EntropyEngine::cpu_micro_timing();
    let t2 = EntropyEngine::cpu_micro_timing();

    // Should produce non-zero values
    assert_ne!(t1, 0);
    assert_ne!(t2, 0);
}

#[test]
fn init_succeeds() {
    assert!(init().is_ok());
    assert!(EntropyEngine::init().is_ok());
}

#[test]
fn mix_timing_folds_positions() {
    // 0 ^ (5 * 0) ^ (7 * 1) ^ (3 * 2) = 7 ^ 6 = 1; then ^ (2 * spread)
    let deltas = vec![5u64, 7, 3];
    let spread: u64 = 0x9e3779b97f4a7c15;
    let expected = 1u64 ^ 2u64.wrapping_mul(spread);
    assert_eq!(EntropyEngine::mix_timing(&deltas, 2), expected);
    assert_eq!(EntropyEngine::mix_timing(&vec![], 0), 0);
    assert_eq!(EntropyEngine::mix_timing(&vec![u64::MAX, u64::MAX], 0), u64::MAX);
}

#[test]
fn energy_takes_shifted_bytes() {
    let mut timings = [0u64; 32];
    timings[0] = 0x1234;
    timings[1] = 0x1234;
    timings[4] = 0xFF00;
    let e = EntropyEngine::energy_from(&timings);
    assert_eq!(e[0], 0x34);
    assert_eq!(e[1], 0x8D); // 0x1234 >> 2 = 0x48D
    assert_eq!(e[4], 0xFF); // position 4 shifts by 8: 0xFF00 >> 8 = 0xFF
    assert_eq!(e[2], 0);
}

#[test]
fn lattice_byte_mixes_timing_and_energy() {
    let mut e = [0u8; 32];
    e[1] = 0x0F;
    // i = 33 uses energy[33 & 31] = energy[1]; timing * 34
    let b = EntropyEngine::lattice_byte(3, &e, 33);
    assert_eq!(b, ((3u64 * 34) ^ 0x0F) as u8);
    assert_eq!(EntropyEngine::lattice_byte(1, &e, 0), 1);
}

#[test]
fn fingerprint_is_timestamp_timing_then_zeros() {
    let f = EntropyEngine::fingerprint_from(0x0102030405060708, 0x1112131415161718);
    assert_eq!(f[..8], 0x0102030405060708u64.to_le_bytes());
    assert_eq!(f[8..16], 0x1112131415161718u64.to_le_bytes());
    assert!(f[16..].iter().all(|b| *b == 0));
}

#[test]
fn seed_layout() {
    let software = [7u8; 32];
    let mut energy = [0u8; 32];
    energy[0] = 0xF0;
    let mut lattice = [0u8; 64];
    lattice[0] = 0x0F;
    lattice[32] = 0x01;
    let s = EntropyEngine::seed_from(0xAABB, &software, &energy, &lattice);
    assert_eq!(s[..8], 0xAABBu64.to_le_bytes());
    assert_eq!(s[8..40], [7u8; 32]);
    assert_eq!(s[40], 0xF0 ^ 0x0F ^ 0x01);
    assert_eq!(s[41], 0);
    assert_eq!(s[63], 0);
}

#[test]
fn gather_lengths() {
    assert_eq!(EntropyEngine::gather(EntropySource::CpuMicroTiming).len(), 8);
    assert_eq!(EntropyEngine::gather(EntropySource::SoftwareFingerprint).len(), 32);
    assert_eq!(EntropyEngine::gather(EntropySource::EnergySignature).len(), 32);
}
