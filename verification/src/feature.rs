//! Capability identifiers: the instruction-set extensions and base
//! architecture variants that can be detected on a RISC-V processor.

use vstd::prelude::*;

verus! {

/// Number of capability identifiers. The identifiers are the numbers
/// below this one.
pub const FEATURE_COUNT: u32 = 88;

/// One independently detectable instruction-set feature.
///
/// The variants are named as the extensions are written in an ISA string.
#[allow(non_camel_case_types)]
#[derive(Clone, Copy, Debug, PartialEq, Eq, Hash, Structural)]
pub enum Feature {
    /// RV32I base integer instruction set.
    rv32i,
    /// RV32E base integer instruction set with sixteen registers.
    rv32e,
    /// RV64I base integer instruction set.
    rv64i,
    /// RV128I base integer instruction set.
    rv128i,
    /// Fast misaligned scalar memory accesses.
    unaligned_scalar_mem,
    /// Fast misaligned vector memory accesses.
    unaligned_vector_mem,
    /// Control and status register (CSR) instructions.
    zicsr,
    /// Base counters and timers.
    zicntr,
    /// Hardware performance counters.
    zihpm,
    /// Instruction-fetch fence.
    zifencei,
    /// Non-temporal locality hints.
    zihintntl,
    /// Pause hint.
    zihintpause,
    /// May-be-operations.
    zimop,
    /// Cache-block management instructions.
    zicbom,
    /// Cache-block zero instruction.
    zicboz,
    /// Integer conditional operations.
    zicond,
    /// Integer multiplication and division.
    m,
    /// Atomic instructions.
    a,
    /// Load-reserved/store-conditional instructions.
    zalrsc,
    /// Atomic memory operations.
    zaamo,
    /// Wait-on-reservation-set instructions.
    zawrs,
    /// Byte and halfword atomic memory operations.
    zabha,
    /// Atomic compare-and-swap instructions.
    zacas,
    /// Misaligned atomics.
    zam,
    /// Total store ordering.
    ztso,
    /// Single-precision floating point.
    f,
    /// Double-precision floating point.
    d,
    /// Quad-precision floating point.
    q,
    /// Half-precision floating point.
    zfh,
    /// Minimal half-precision floating point.
    zfhmin,
    /// Additional floating-point instructions.
    zfa,
    /// Scalar BF16 converts.
    zfbfmin,
    /// Single-precision floating point in integer registers.
    zfinx,
    /// Double-precision floating point in integer registers.
    zdinx,
    /// Half-precision floating point in integer registers.
    zhinx,
    /// Minimal half-precision floating point in integer registers.
    zhinxmin,
    /// Compressed instructions.
    c,
    /// Compressed instructions without floating-point loads and stores.
    zca,
    /// Compressed single-precision floating-point loads and stores.
    zcf,
    /// Compressed double-precision floating-point loads and stores.
    zcd,
    /// Simple compressed code-size saving instructions.
    zcb,
    /// Compressed may-be-operations.
    zcmop,
    /// Bit manipulation.
    b,
    /// Address generation.
    zba,
    /// Basic bit manipulation.
    zbb,
    /// Carry-less multiplication.
    zbc,
    /// Single-bit instructions.
    zbs,
    /// Bit manipulation for cryptography.
    zbkb,
    /// Carry-less multiplication for cryptography.
    zbkc,
    /// Crossbar permutations.
    zbkx,
    /// NIST suite: AES decryption.
    zknd,
    /// NIST suite: AES encryption.
    zkne,
    /// NIST suite: hash function instructions.
    zknh,
    /// ShangMi suite: SM4 block cipher instructions.
    zksed,
    /// ShangMi suite: SM3 hash function instructions.
    zksh,
    /// Entropy source.
    zkr,
    /// NIST algorithm suite.
    zkn,
    /// ShangMi algorithm suite.
    zks,
    /// Standard scalar cryptography.
    zk,
    /// Data-independent execution latency.
    zkt,
    /// Vector operations.
    v,
    /// Vector extension for embedded processors: 32-bit integers.
    zve32x,
    /// Vector extension for embedded processors: 32-bit integers and single-precision floats.
    zve32f,
    /// Vector extension for embedded processors: 64-bit integers.
    zve64x,
    /// Vector extension for embedded processors: 64-bit integers and single-precision floats.
    zve64f,
    /// Vector extension for embedded processors: 64-bit integers and double-precision floats.
    zve64d,
    /// Vector half-precision floating point.
    zvfh,
    /// Minimal vector half-precision floating point.
    zvfhmin,
    /// Vector BF16 converts.
    zvfbfmin,
    /// Vector BF16 widening multiply-add.
    zvfbfwma,
    /// Vector basic bit manipulation.
    zvbb,
    /// Vector carry-less multiplication.
    zvbc,
    /// Vector bit manipulation for cryptography.
    zvkb,
    /// Vector GCM/GMAC.
    zvkg,
    /// NIST suite: vector AES block cipher.
    zvkned,
    /// NIST suite: vector SHA-2 secure hash (SHA-256 only).
    zvknha,
    /// NIST suite: vector SHA-2 secure hash (SHA-256 and SHA-512).
    zvknhb,
    /// ShangMi suite: vector SM4 block cipher.
    zvksed,
    /// ShangMi suite: vector SM3 secure hash.
    zvksh,
    /// NIST algorithm suite for vectors.
    zvkn,
    /// NIST algorithm suite for vectors with carry-less multiply.
    zvknc,
    /// NIST algorithm suite for vectors with GCM.
    zvkng,
    /// ShangMi algorithm suite for vectors.
    zvks,
    /// ShangMi algorithm suite for vectors with carry-less multiply.
    zvksc,
    /// ShangMi algorithm suite for vectors with GCM.
    zvksg,
    /// Vector data-independent execution latency.
    zvkt,
    /// Supervisor mode.
    s,
    /// Hypervisor extension.
    h,
}

impl Feature {
    /// The number that names this feature in a bit-set.
    pub open spec fn id(self) -> nat {
        match self {
            Feature::rv32i => 0,
            Feature::rv32e => 1,
            Feature::rv64i => 2,
            Feature::rv128i => 3,
            Feature::unaligned_scalar_mem => 4,
            Feature::unaligned_vector_mem => 5,
            Feature::zicsr => 6,
            Feature::zicntr => 7,
            Feature::zihpm => 8,
            Feature::zifencei => 9,
            Feature::zihintntl => 10,
            Feature::zihintpause => 11,
            Feature::zimop => 12,
            Feature::zicbom => 13,
            Feature::zicboz => 14,
            Feature::zicond => 15,
            Feature::m => 16,
            Feature::a => 17,
            Feature::zalrsc => 18,
            Feature::zaamo => 19,
            Feature::zawrs => 20,
            Feature::zabha => 21,
            Feature::zacas => 22,
            Feature::zam => 23,
            Feature::ztso => 24,
            Feature::f => 25,
            Feature::d => 26,
            Feature::q => 27,
            Feature::zfh => 28,
            Feature::zfhmin => 29,
            Feature::zfa => 30,
            Feature::zfbfmin => 31,
            Feature::zfinx => 32,
            Feature::zdinx => 33,
            Feature::zhinx => 34,
            Feature::zhinxmin => 35,
            Feature::c => 36,
            Feature::zca => 37,
            Feature::zcf => 38,
            Feature::zcd => 39,
            Feature::zcb => 40,
            Feature::zcmop => 41,
            Feature::b => 42,
            Feature::zba => 43,
            Feature::zbb => 44,
            Feature::zbc => 45,
            Feature::zbs => 46,
            Feature::zbkb => 47,
            Feature::zbkc => 48,
            Feature::zbkx => 49,
            Feature::zknd => 50,
            Feature::zkne => 51,
            Feature::zknh => 52,
            Feature::zksed => 53,
            Feature::zksh => 54,
            Feature::zkr => 55,
            Feature::zkn => 56,
            Feature::zks => 57,
            Feature::zk => 58,
            Feature::zkt => 59,
            Feature::v => 60,
            Feature::zve32x => 61,
            Feature::zve32f => 62,
            Feature::zve64x => 63,
            Feature::zve64f => 64,
            Feature::zve64d => 65,
            Feature::zvfh => 66,
            Feature::zvfhmin => 67,
            Feature::zvfbfmin => 68,
            Feature::zvfbfwma => 69,
            Feature::zvbb => 70,
            Feature::zvbc => 71,
            Feature::zvkb => 72,
            Feature::zvkg => 73,
            Feature::zvkned => 74,
            Feature::zvknha => 75,
            Feature::zvknhb => 76,
            Feature::zvksed => 77,
            Feature::zvksh => 78,
            Feature::zvkn => 79,
            Feature::zvknc => 80,
            Feature::zvkng => 81,
            Feature::zvks => 82,
            Feature::zvksc => 83,
            Feature::zvksg => 84,
            Feature::zvkt => 85,
            Feature::s => 86,
            Feature::h => 87,
        }
    }

    /// The position of this feature's flag in a bit-set.
    pub fn index(self) -> (bit: u32)
        ensures
            bit == self.id(),
            bit < FEATURE_COUNT,
    {
        match self {
            Feature::rv32i => 0,
            Feature::rv32e => 1,
            Feature::rv64i => 2,
            Feature::rv128i => 3,
            Feature::unaligned_scalar_mem => 4,
            Feature::unaligned_vector_mem => 5,
            Feature::zicsr => 6,
            Feature::zicntr => 7,
            Feature::zihpm => 8,
            Feature::zifencei => 9,
            Feature::zihintntl => 10,
            Feature::zihintpause => 11,
            Feature::zimop => 12,
            Feature::zicbom => 13,
            Feature::zicboz => 14,
            Feature::zicond => 15,
            Feature::m => 16,
            Feature::a => 17,
            Feature::zalrsc => 18,
            Feature::zaamo => 19,
            Feature::zawrs => 20,
            Feature::zabha => 21,
            Feature::zacas => 22,
            Feature::zam => 23,
            Feature::ztso => 24,
            Feature::f => 25,
            Feature::d => 26,
            Feature::q => 27,
            Feature::zfh => 28,
            Feature::zfhmin => 29,
            Feature::zfa => 30,
            Feature::zfbfmin => 31,
            Feature::zfinx => 32,
            Feature::zdinx => 33,
            Feature::zhinx => 34,
            Feature::zhinxmin => 35,
            Feature::c => 36,
            Feature::zca => 37,
            Feature::zcf => 38,
            Feature::zcd => 39,
            Feature::zcb => 40,
            Feature::zcmop => 41,
            Feature::b => 42,
            Feature::zba => 43,
            Feature::zbb => 44,
            Feature::zbc => 45,
            Feature::zbs => 46,
            Feature::zbkb => 47,
            Feature::zbkc => 48,
            Feature::zbkx => 49,
            Feature::zknd => 50,
            Feature::zkne => 51,
            Feature::zknh => 52,
            Feature::zksed => 53,
            Feature::zksh => 54,
            Feature::zkr => 55,
            Feature::zkn => 56,
            Feature::zks => 57,
            Feature::zk => 58,
            Feature::zkt => 59,
            Feature::v => 60,
            Feature::zve32x => 61,
            Feature::zve32f => 62,
            Feature::zve64x => 63,
            Feature::zve64f => 64,
            Feature::zve64d => 65,
            Feature::zvfh => 66,
            Feature::zvfhmin => 67,
            Feature::zvfbfmin => 68,
            Feature::zvfbfwma => 69,
            Feature::zvbb => 70,
            Feature::zvbc => 71,
            Feature::zvkb => 72,
            Feature::zvkg => 73,
            Feature::zvkned => 74,
            Feature::zvknha => 75,
            Feature::zvknhb => 76,
            Feature::zvksed => 77,
            Feature::zvksh => 78,
            Feature::zvkn => 79,
            Feature::zvknc => 80,
            Feature::zvkng => 81,
            Feature::zvks => 82,
            Feature::zvksc => 83,
            Feature::zvksg => 84,
            Feature::zvkt => 85,
            Feature::s => 86,
            Feature::h => 87,
        }
    }
}

/// The identifiers of the features in a list.
pub open spec fn ids_of(features: Seq<Feature>) -> Set<nat> {
    Set::new(|id: nat| exists|i: int| 0 <= i < features.len() && (#[trigger] features[i]).id() == id)
}

/// The identifiers of the first `n + 1` features of a list are those of
/// the first `n`, and that of the feature at `n`.
pub proof fn lemma_ids_of_one_more(features: Seq<Feature>, n: int)
    requires
        0 <= n < features.len(),
    ensures
        ids_of(features.take(n + 1)) == ids_of(features.take(n)).insert(features[n].id()),
{
    let before = features.take(n);
    let after = features.take(n + 1);
    assert forall|id: nat| ids_of(after).contains(id) == ids_of(before).insert(
        features[n].id(),
    ).contains(id) by {
        if ids_of(before).contains(id) {
            let i = choose|i: int| 0 <= i < before.len() && (#[trigger] before[i]).id() == id;
            assert(after[i].id() == id);
        }
        if ids_of(after).contains(id) {
            let i = choose|i: int| 0 <= i < after.len() && (#[trigger] after[i]).id() == id;
            if i < n {
                assert(before[i].id() == id);
            }
        }
        assert(after[n] == features[n]);
    }
    assert(ids_of(after) =~= ids_of(before).insert(features[n].id()));
}

} // verus!
