//! The entropy engine: randomness gathered from clock jitter and mixed into seeds.
//!
//! Every source reads the clocks, so what a source returns is stated as what
//! holds of every reading; the mixing that follows each reading stands in a
//! function of its own with an exact contract.

use crate::clock::{duration_nanos, instant_elapsed, instant_now, instant_span, unix_nanos};
use crate::frame::push_all;
use crate::QwartzError;
use vstd::bytes::*;
use vstd::prelude::*;

verus! {

/// The sources of entropy.
#[derive(Debug, Clone, Copy, PartialEq, Eq)]
pub enum EntropySource {
    /// CPU micro-timing variations.
    CpuMicroTiming,
    /// Software fingerprint (timestamp and timing).
    SoftwareFingerprint,
    /// Energy signature pattern.
    EnergySignature,
    /// Lattice noise.
    LatticeNoise,
}

/// The entropy engine.
pub struct EntropyEngine;

/// The multiplier that spreads the total elapsed time over the word.
pub const ELAPSED_SPREAD: u64 = 0x9e3779b97f4a7c15;

/// The clock deltas folded together: each delta, multiplied (wrapping) by its
/// position, is xor-ed into the accumulator.
pub open spec fn timing_fold(deltas: Seq<u64>) -> u64
    decreases deltas.len(),
{
    if deltas.len() == 0 {
        0
    } else {
        timing_fold(deltas.drop_last()) ^ deltas.last().wrapping_mul((deltas.len() - 1) as u64)
    }
}

/// The timing value of the given clock deltas and total elapsed time.
pub open spec fn timing_value(deltas: Seq<u64>, elapsed: u64) -> u64 {
    timing_fold(deltas) ^ elapsed.wrapping_mul(ELAPSED_SPREAD)
}

/// A value that a timing measurement can give: 1000 deltas and an elapsed time mixed.
/// Since the clock readings can be anything, so can this: with every delta zero,
/// the elapsed time alone reaches every `u64`, `ELAPSED_SPREAD` being odd.
pub open spec fn timing_outcome(t: u64) -> bool {
    exists|deltas: Seq<u64>, elapsed: u64| deltas.len() == 1000 && t == timing_value(deltas, elapsed)
}

/// The energy signature of 32 timing values: byte `i` is bits `2i..2i+8` of value `i`.
pub open spec fn energy_of(timings: Seq<u64>) -> Seq<u8> {
    Seq::new(32, |i: int| ((timings[i] >> ((2 * i) as u64)) & 0xff) as u8)
}

/// A value that an energy signature can have. As a timing value can be any
/// `u64`, this holds of every 32 bytes.
pub open spec fn energy_outcome(e: Seq<u8>) -> bool {
    exists|timings: Seq<u64>|
        timings.len() == 32 && (forall|k: int| 0 <= k < 32 ==> timing_outcome(#[trigger] timings[k]))
            && e == energy_of(timings)
}

/// Byte `i` of lattice noise, made of a timing value and an energy signature.
pub open spec fn lattice_byte_of(timing: u64, energy: Seq<u8>, i: int) -> u8 {
    (timing.wrapping_mul((i + 1) as u64) ^ (energy[i % 32] as u64)) as u8
}

/// A value that byte `i` of lattice noise can have.
pub open spec fn lattice_byte_outcome(b: u8, i: int) -> bool {
    exists|t: u64, e: Seq<u8>| timing_outcome(t) && energy_outcome(e) && b == lattice_byte_of(t, e, i)
}

/// A value that lattice noise can have: 64 bytes, each from its own timing value
/// and energy signature. As a timing value can be any `u64`, this holds of every
/// 64 bytes.
pub open spec fn lattice_outcome(l: Seq<u8>) -> bool {
    l.len() == 64 && forall|i: int| 0 <= i < 64 ==> lattice_byte_outcome(#[trigger] l[i], i)
}

/// The software fingerprint of a wall-clock reading (nanoseconds) and a timing
/// value: both little-endian, then sixteen zero bytes.
pub open spec fn fingerprint_of(now_nanos: u64, timing: u64) -> Seq<u8> {
    spec_u64_to_le_bytes(now_nanos) + spec_u64_to_le_bytes(timing) + Seq::new(16, |i: int| 0u8)
}

/// A value that a software fingerprint can have: any clock reading and timing
/// value in the first 16 bytes, zeros in the last 16.
pub open spec fn fingerprint_outcome(f: Seq<u8>) -> bool {
    exists|now: u64, t: u64| timing_outcome(t) && f == fingerprint_of(now, t)
}

/// The seed made of the four sources: the timing value (little-endian), the
/// fingerprint, then `energy[i] ^ lattice[i] ^ lattice[i + 32]` for `i < 24`.
pub open spec fn seed_of(micro: u64, software: Seq<u8>, energy: Seq<u8>, lattice: Seq<u8>) -> Seq<
    u8,
> {
    spec_u64_to_le_bytes(micro) + software + Seq::new(
        24,
        |i: int| energy[i] ^ lattice[i] ^ lattice[i + 32],
    )
}

/// A value that a seed can have. With the sources above this comes to: 64 bytes
/// whose bytes 24 to 39 (the fingerprint's zero tail) are zero; the rest can be
/// anything.
pub open spec fn seed_outcome(s: Seq<u8>) -> bool {
    exists|micro: u64, software: Seq<u8>, energy: Seq<u8>, lattice: Seq<u8>|
        timing_outcome(micro) && fingerprint_outcome(software) && energy_outcome(energy)
            && lattice_outcome(lattice) && s == seed_of(micro, software, energy, lattice)
}

impl EntropyEngine {
    /// Warms the sources up with 100 timing measurements; always succeeds.
    pub fn init() -> (r: Result<(), QwartzError>)
        ensures
            r is Ok,
    {
        let mut i: usize = 0;
        while i < 100
            invariant
                i <= 100,
            decreases 100 - i,
        {
            let _ = Self::cpu_micro_timing();
            i += 1;
        }
        Ok(())
    }

    /// Mixes clock deltas and the total elapsed time into a timing value.
    pub fn mix_timing(deltas: &Vec<u64>, elapsed: u64) -> (t: u64)
        ensures
            t == timing_value(deltas@, elapsed),
    {
        let mut acc: u64 = 0;
        let mut i: usize = 0;
        while i < deltas.len()
            invariant
                i <= deltas@.len(),
                acc == timing_fold(deltas@.subrange(0, i as int)),
            decreases deltas.len() - i,
        {
            let d: u64 = deltas[i];
            acc = acc ^ d.wrapping_mul(i as u64);
            proof {
                let s = deltas@.subrange(0, i + 1);
                assert(s.drop_last() =~= deltas@.subrange(0, i as int));
            }
            i += 1;
        }
        assert(deltas@.subrange(0, deltas@.len() as int) =~= deltas@);
        acc ^ elapsed.wrapping_mul(ELAPSED_SPREAD)
    }

    /// Measures 1000 clock deltas between two back-to-back readings of the
    /// monotonic clock, and the total time taken, and mixes them (`mix_timing`).
    pub fn cpu_micro_timing() -> (t: u64)
        ensures
            timing_outcome(t),
    {
        let start = instant_now();
        let mut deltas: Vec<u64> = Vec::new();
        let mut i: usize = 0;
        while i < 1000
            invariant
                i <= 1000,
                deltas@.len() == i,
            decreases 1000 - i,
        {
            let t1 = instant_now();
            let t2 = instant_now();
            let d: u64 = duration_nanos(&instant_span(t2, t1)) as u64;
            deltas.push(d);
            i += 1;
        }
        let elapsed: u64 = duration_nanos(&instant_elapsed(&start)) as u64;
        let t = Self::mix_timing(&deltas, elapsed);
        assert(deltas@.len() == 1000 && t == timing_value(deltas@, elapsed));
        t
    }

    /// The software fingerprint of a wall-clock reading and a timing value (see
    /// `fingerprint_of`). The operating system and architecture are not part of
    /// it: the timestamp covers the bytes where they would stand.
    pub fn fingerprint_from(now_nanos: u64, timing: u64) -> (f: [u8; 32])
        ensures
            f@ == fingerprint_of(now_nanos, timing),
    {
        let mut out: Vec<u8> = Vec::new();
        let a = u64_to_le_bytes(now_nanos);
        push_all(&mut out, a.as_slice());
        let b = u64_to_le_bytes(timing);
        push_all(&mut out, b.as_slice());
        let mut f: [u8; 32] = [0u8; 32];
        let mut i: usize = 0;
        while i < 16
            invariant
                i <= 16,
                out@.len() == 16,
                forall|j: int| 0 <= j < i ==> f@[j] == out@[j],
                forall|j: int| 16 <= j < 32 ==> f@[j] == 0,
            decreases 16 - i,
        {
            f[i] = out[i];
            i += 1;
        }
        assert(f@ =~= fingerprint_of(now_nanos, timing));
        f
    }

    /// The software fingerprint: the wall clock in nanoseconds and a timing value.
    pub fn software_fingerprint() -> (f: [u8; 32])
        ensures
            fingerprint_outcome(f@),
    {
        let now = unix_nanos();
        let timing = Self::cpu_micro_timing();
        Self::fingerprint_from(now, timing)
    }

    /// The energy signature of 32 timing values (see `energy_of`).
    pub fn energy_from(timings: &[u64; 32]) -> (e: [u8; 32])
        ensures
            e@ == energy_of(timings@),
    {
        let mut e: [u8; 32] = [0u8; 32];
        let mut i: usize = 0;
        while i < 32
            invariant
                i <= 32,
                forall|j: int| 0 <= j < i ==> e@[j] == energy_of(timings@)[j],
            decreases 32 - i,
        {
            let t: u64 = timings[i];
            let shift: u64 = (i * 2) as u64;
            e[i] = ((t >> shift) & 0xff) as u8;
            i += 1;
        }
        assert(e@ =~= energy_of(timings@));
        e
    }

    /// The energy signature of 32 fresh timing values.
    pub fn energy_signature() -> (e: [u8; 32])
        ensures
            energy_outcome(e@),
    {
        let mut timings: [u64; 32] = [0u64; 32];
        let mut i: usize = 0;
        while i < 32
            invariant
                i <= 32,
                forall|j: int| 0 <= j < i ==> timing_outcome(#[trigger] timings@[j]),
            decreases 32 - i,
        {
            timings[i] = Self::cpu_micro_timing();
            i += 1;
        }
        let e = Self::energy_from(&timings);
        assert(timings@.len() == 32);
        e
    }

    /// Byte `i` of lattice noise (see `lattice_byte_of`).
    pub fn lattice_byte(timing: u64, energy: &[u8; 32], i: usize) -> (b: u8)
        requires
            i < 64,
        ensures
            b == lattice_byte_of(timing, energy@, i as int),
    {
        let k: usize = i & 31;
        assert(i & 31 == i % 32) by (bit_vector);
        ((timing.wrapping_mul((i + 1) as u64)) ^ (energy[k] as u64)) as u8
    }

    /// Lattice noise: 64 bytes, each from a fresh timing value and energy signature.
    pub fn lattice_noise() -> (l: [u8; 64])
        ensures
            lattice_outcome(l@),
    {
        let mut l: [u8; 64] = [0u8; 64];
        let mut i: usize = 0;
        while i < 64
            invariant
                i <= 64,
                forall|j: int| 0 <= j < i ==> lattice_byte_outcome(#[trigger] l@[j], j),
            decreases 64 - i,
        {
            let t = Self::cpu_micro_timing();
            let e = Self::energy_signature();
            l[i] = Self::lattice_byte(t, &e, i);
            assert(lattice_byte_outcome(l@[i as int], i as int));
            i += 1;
        }
        assert(l@.len() == 64);
        l
    }

    /// The seed made of the four sources (see `seed_of`).
    pub fn seed_from(micro: u64, software: &[u8; 32], energy: &[u8; 32], lattice: &[u8; 64]) -> (s: [u8; 64])
        ensures
            s@ == seed_of(micro, software@, energy@, lattice@),
    {
        let ghost want = seed_of(micro, software@, energy@, lattice@);
        proof {
            lemma_auto_spec_u64_to_from_le_bytes();
            assert(spec_u64_to_le_bytes(micro).len() == 8);
            assert(want.len() == 64);
            assert forall|j: int| 0 <= j < 8 implies want[j] == spec_u64_to_le_bytes(micro)[j] by {}
            assert forall|j: int| 8 <= j < 40 implies want[j] == software@[j - 8] by {}
            assert forall|j: int| 40 <= j < 64 implies want[j] == (energy@[j - 40] ^ lattice@[j - 40]
                ^ lattice@[j - 8]) by {}
        }
        let m = u64_to_le_bytes(micro);
        let mut s: [u8; 64] = [0u8; 64];
        let mut i: usize = 0;
        while i < 8
            invariant
                i <= 8,
                m@ == spec_u64_to_le_bytes(micro),
                m@.len() == 8,
                want.len() == 64,
                forall|j: int| 0 <= j < 8 ==> want[j] == spec_u64_to_le_bytes(micro)[j],
                forall|j: int| 0 <= j < i ==> s@[j] == want[j],
            decreases 8 - i,
        {
            s[i] = m[i];
            i += 1;
        }
        while i < 40
            invariant
                8 <= i <= 40,
                want.len() == 64,
                forall|j: int| 8 <= j < 40 ==> want[j] == software@[j - 8],
                forall|j: int| 0 <= j < i ==> s@[j] == want[j],
            decreases 40 - i,
        {
            s[i] = software[i - 8];
            i += 1;
        }
        while i < 64
            invariant
                40 <= i <= 64,
                want.len() == 64,
                forall|j: int|
                    40 <= j < 64 ==> want[j] == (energy@[j - 40] ^ lattice@[j - 40] ^ lattice@[j - 8]),
                forall|j: int| 0 <= j < i ==> s@[j] == want[j],
            decreases 64 - i,
        {
            let k: usize = i - 40;
            s[i] = energy[k] ^ lattice[k] ^ lattice[k + 32];
            i += 1;
        }
        assert(s@ =~= want);
        s
    }

    /// A fresh seed from all four sources.
    pub fn generate_seed() -> (s: [u8; 64])
        ensures
            seed_outcome(s@),
    {
        let micro = Self::cpu_micro_timing();
        let software = Self::software_fingerprint();
        let energy = Self::energy_signature();
        let lattice = Self::lattice_noise();
        Self::seed_from(micro, &software, &energy, &lattice)
    }

    /// The bytes of one source: the timing value little-endian (8 bytes), or the
    /// fingerprint (32), the energy signature (32) or the lattice noise (64).
    pub fn gather(source: EntropySource) -> (out: Vec<u8>)
        ensures
            source is CpuMicroTiming ==> exists|t: u64| timing_outcome(t) && out@ == spec_u64_to_le_bytes(t),
            source is SoftwareFingerprint ==> out@.len() == 32 && fingerprint_outcome(out@),
            source is EnergySignature ==> out@.len() == 32 && energy_outcome(out@),
            source is LatticeNoise ==> lattice_outcome(out@),
            out@.len() == gathered_len(source),
    {
        match source {
            EntropySource::CpuMicroTiming => {
                let mut bytes: Vec<u8> = Vec::new();
                let val = Self::cpu_micro_timing();
                let le = u64_to_le_bytes(val);
                push_all(&mut bytes, le.as_slice());
                bytes
            },
            EntropySource::SoftwareFingerprint => {
                let f = Self::software_fingerprint();
                let mut bytes: Vec<u8> = Vec::new();
                push_all(&mut bytes, f.as_slice());
                bytes
            },
            EntropySource::EnergySignature => {
                let e = Self::energy_signature();
                let mut bytes: Vec<u8> = Vec::new();
                push_all(&mut bytes, e.as_slice());
                bytes
            },
            EntropySource::LatticeNoise => {
                let l = Self::lattice_noise();
                let mut bytes: Vec<u8> = Vec::new();
                push_all(&mut bytes, l.as_slice());
                bytes
            },
        }
    }
}

/// The number of bytes that `gather` returns for a source.
pub open spec fn gathered_len(source: EntropySource) -> nat {
    match source {
        EntropySource::CpuMicroTiming => 8,
        EntropySource::SoftwareFingerprint => 32,
        EntropySource::EnergySignature => 32,
        EntropySource::LatticeNoise => 64,
    }
}

} // verus!
