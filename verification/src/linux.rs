//! Detection of RISC-V extensions on Linux, from the hardware-capability
//! word that the kernel hands to every process in the auxiliary vector.
//!
//! The word has one bit for each single-letter extension: bit 0 for `a`,
//! bit 1 for `b`, and so on.

use crate::bit;
use crate::cache::Initializer;
use crate::closure::closure;
use crate::feature::Feature;
use crate::riscv::{imply_features, riscv_rules};
use vstd::prelude::*;

verus! {

/// The architecture that the program was built for.
#[derive(Clone, Copy, Debug, PartialEq, Eq, Structural)]
pub enum TargetArch {
    /// 32-bit RISC-V.
    Riscv32,
    /// 64-bit RISC-V.
    Riscv64,
}

/// The capability that a letter of the hardware-capability word stands
/// for, if it stands for one.
///
/// The letter `i` is the base integer ISA of the target's width. The
/// letter `e` is read on 32-bit targets only.
pub open spec fn letter_feature(letter: char, arch: TargetArch) -> Option<Feature> {
    if letter == 'a' {
        Some(Feature::a)
    } else if letter == 'c' {
        Some(Feature::c)
    } else if letter == 'd' {
        Some(Feature::d)
    } else if letter == 'f' {
        Some(Feature::f)
    } else if letter == 'h' {
        Some(Feature::h)
    } else if letter == 'm' {
        Some(Feature::m)
    } else if letter == 'i' {
        match arch {
            TargetArch::Riscv32 => Some(Feature::rv32i),
            TargetArch::Riscv64 => Some(Feature::rv64i),
        }
    } else if letter == 'e' {
        match arch {
            TargetArch::Riscv32 => Some(Feature::rv32e),
            TargetArch::Riscv64 => None,
        }
    } else {
        None
    }
}

/// Whether the hardware-capability word reports the extension `letter`.
pub open spec fn reports(hwcap: usize, letter: char) -> bool {
    'a' <= letter <= 'z' && bit::is_set(hwcap, (letter as u32 - 'a' as u32) as u32)
}

/// The capabilities that the hardware-capability word shows directly.
pub open spec fn observed(hwcap: usize, arch: TargetArch) -> Set<nat> {
    Set::new(
        |id: nat|
            exists|letter: char|
                #![trigger letter_feature(letter, arch)]
                reports(hwcap, letter) && (letter_feature(letter, arch) matches Some(feature)
                    && feature.id() == id),
    )
}

/// Whether the hardware-capability word reports the extension `letter`.
fn hwcap_reports(hwcap: usize, letter: char) -> (reported: bool)
    requires
        'a' <= letter <= 'z',
    ensures
        reported == reports(hwcap, letter),
{
    bit::test(hwcap, letter as u32 - 'a' as u32)
}

/// Sets the flag of `feature` where `enable` holds.
fn enable_feature(value: &mut Initializer, feature: Feature, enable: bool)
    ensures
        final(value)@ == if enable {
            old(value)@.insert(feature.id())
        } else {
            old(value)@
        },
{
    if enable {
        value.set(feature.index());
    }
}

/// Reads the directly observable capabilities off the
/// hardware-capability word.
pub fn observe(hwcap: usize, arch: TargetArch) -> (value: Initializer)
    ensures
        value@ == observed(hwcap, arch),
{
    let mut value = Initializer::default();
    enable_feature(&mut value, Feature::a, hwcap_reports(hwcap, 'a'));
    enable_feature(&mut value, Feature::c, hwcap_reports(hwcap, 'c'));
    enable_feature(&mut value, Feature::d, hwcap_reports(hwcap, 'd'));
    enable_feature(&mut value, Feature::f, hwcap_reports(hwcap, 'f'));
    enable_feature(&mut value, Feature::h, hwcap_reports(hwcap, 'h'));
    enable_feature(&mut value, Feature::m, hwcap_reports(hwcap, 'm'));

    let has_i = hwcap_reports(hwcap, 'i');
    match arch {
        TargetArch::Riscv64 => {
            enable_feature(&mut value, Feature::rv64i, has_i);
        },
        TargetArch::Riscv32 => {
            enable_feature(&mut value, Feature::rv32i, has_i);
            enable_feature(&mut value, Feature::rv32e, hwcap_reports(hwcap, 'e'));
        },
    }
    proof {
        assert(letter_feature('a', arch) == Some(Feature::a));
        assert(letter_feature('c', arch) == Some(Feature::c));
        assert(letter_feature('d', arch) == Some(Feature::d));
        assert(letter_feature('f', arch) == Some(Feature::f));
        assert(letter_feature('h', arch) == Some(Feature::h));
        assert(letter_feature('m', arch) == Some(Feature::m));
        assert(letter_feature('i', arch) is Some);
        assert(letter_feature('e', arch) is Some <==> arch == TargetArch::Riscv32);
        assert(value@ =~= observed(hwcap, arch));
    }
    value
}

/// Detects the capabilities of the processor from the
/// hardware-capability word: what the word shows directly, resolved under
/// the relations between RISC-V extensions.
pub fn detect_features(hwcap: usize, arch: TargetArch) -> (resolved: Initializer)
    ensures
        resolved@ == closure(riscv_rules(), observed(hwcap, arch)),
{
    imply_features(observe(hwcap, arch))
}

} // verus!
