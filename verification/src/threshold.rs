//! Similarity thresholds: what separates a duplicate, a merge and a relation.

use vstd::prelude::*;
use vstd::arithmetic::power2::*;
use crate::real32;
use crate::real32::{Real32, ONE_BITS, ZERO_BITS};

verus! {

/// Pattern of 0.92: from here on an incoming fact is merged.
pub const DEFAULT_THRESHOLD_MERGE: u32 = 0x3f6b_851f;

/// Pattern of 0.75: from here on an incoming fact is related.
pub const DEFAULT_THRESHOLD_RELATE: u32 = 0x3f40_0000;

/// Pattern of 0.985: from here on an incoming fact with the same text is discarded.
pub const DEFAULT_THRESHOLD_DUPLICATE: u32 = 0x3f7c_28f6;

/// `setting` brought into the interval from 0 to 1. A NaN stays what it is.
pub open spec fn clamped_to_unit(setting: Real32) -> Real32 {
    if setting.is_nan() {
        setting
    } else if setting.rank() < 0 {
        Real32 { bits: ZERO_BITS }
    } else if setting.rank() > (Real32 { bits: ONE_BITS }).rank() {
        Real32 { bits: ONE_BITS }
    } else {
        setting
    }
}

/// The threshold that a setting asks for: clamped to the interval from 0 to 1, or `default`
/// where there is no setting that reads as a number.
pub open spec fn spec_env_threshold(setting: Option<Real32>, default: Real32) -> Real32 {
    match setting {
        Some(number) => clamped_to_unit(number),
        None => default,
    }
}

/// The threshold that a setting asks for. `setting` is what the environment variable reads
/// as; `None` where the variable is missing or is no number.
pub fn env_threshold(setting: Option<Real32>, default: Real32) -> (threshold: Real32)
    ensures
        threshold == spec_env_threshold(setting, default),
{
    match setting {
        None => default,
        Some(number) => {
            let zero = Real32 { bits: ZERO_BITS };
            let one = Real32 { bits: ONE_BITS };
            if !number.at_least(number) {
                number
            } else if !number.at_least(zero) {
                zero
            } else if !one.at_least(number) {
                one
            } else {
                number
            }
        },
    }
}

/// The three limits that decide what becomes of an incoming fact.
#[derive(Clone, Copy, PartialEq, Eq, Structural, Debug)]
pub struct Thresholds {
    pub merge: Real32,
    pub relate: Real32,
    pub duplicate: Real32,
}

/// The limits in force under the given settings.
pub fn thresholds(
    merge: Option<Real32>,
    relate: Option<Real32>,
    duplicate: Option<Real32>,
) -> (limits: Thresholds)
    ensures
        limits.merge == spec_env_threshold(merge, Real32 { bits: DEFAULT_THRESHOLD_MERGE }),
        limits.relate == spec_env_threshold(relate, Real32 { bits: DEFAULT_THRESHOLD_RELATE }),
        limits.duplicate == spec_env_threshold(
            duplicate,
            Real32 { bits: DEFAULT_THRESHOLD_DUPLICATE },
        ),
{
    Thresholds {
        merge: env_threshold(merge, Real32 { bits: DEFAULT_THRESHOLD_MERGE }),
        relate: env_threshold(relate, Real32 { bits: DEFAULT_THRESHOLD_RELATE }),
        duplicate: env_threshold(duplicate, Real32 { bits: DEFAULT_THRESHOLD_DUPLICATE }),
    }
}

/// A threshold that is a number lies between 0 and 1, whatever the setting, as long as the
/// default does.
pub proof fn law_threshold_in_unit_interval(setting: Option<Real32>, default: Real32)
    requires
        !default.is_nan(),
        0 <= default.value() <= (Real32 { bits: ONE_BITS }).value(),
        setting is Some ==> !setting->0.is_nan(),
    ensures
        !spec_env_threshold(setting, default).is_nan(),
        0 <= spec_env_threshold(setting, default).value() <= (Real32 {
            bits: ONE_BITS,
        }).value(),
{
    let zero = Real32 { bits: ZERO_BITS };
    let one = Real32 { bits: ONE_BITS };
    real32::law_at_least_compares_the_numbers(zero, one);
    if let Some(number) = setting {
        real32::law_at_least_compares_the_numbers(number, zero);
        real32::law_at_least_compares_the_numbers(number, one);
    }
}

/// A setting between 0 and 1 is taken as it is.
pub proof fn law_setting_in_unit_interval_is_kept(setting: Real32, default: Real32)
    requires
        !setting.is_nan(),
        0 <= setting.value() <= (Real32 { bits: ONE_BITS }).value(),
    ensures
        spec_env_threshold(Some(setting), default) == setting,
{
    real32::law_at_least_compares_the_numbers(setting, Real32 { bits: ZERO_BITS });
    real32::law_at_least_compares_the_numbers(setting, Real32 { bits: ONE_BITS });
}

/// The default limits are numbers between 0 and 1, and they are ordered: relating asks for
/// less than merging, and merging for less than discarding.
pub proof fn law_default_thresholds_are_ordered()
    ensures
        !(Real32 { bits: DEFAULT_THRESHOLD_RELATE }).is_nan(),
        !(Real32 { bits: DEFAULT_THRESHOLD_MERGE }).is_nan(),
        !(Real32 { bits: DEFAULT_THRESHOLD_DUPLICATE }).is_nan(),
        0 < (Real32 { bits: DEFAULT_THRESHOLD_RELATE }).value(),
        (Real32 { bits: DEFAULT_THRESHOLD_RELATE }).value() < (Real32 {
            bits: DEFAULT_THRESHOLD_MERGE,
        }).value(),
        (Real32 { bits: DEFAULT_THRESHOLD_MERGE }).value() < (Real32 {
            bits: DEFAULT_THRESHOLD_DUPLICATE,
        }).value(),
        (Real32 { bits: DEFAULT_THRESHOLD_DUPLICATE }).value() < (Real32 {
            bits: ONE_BITS,
        }).value(),
{
    real32::lemma_magnitude_order(0, DEFAULT_THRESHOLD_RELATE as int);
    real32::lemma_magnitude_order(DEFAULT_THRESHOLD_RELATE as int, DEFAULT_THRESHOLD_MERGE as int);
    real32::lemma_magnitude_order(DEFAULT_THRESHOLD_MERGE as int, DEFAULT_THRESHOLD_DUPLICATE as int);
    real32::lemma_magnitude_order(DEFAULT_THRESHOLD_DUPLICATE as int, ONE_BITS as int);
}

/// The default limits are 0.75 and the single-precision numbers nearest to 0.92 and 0.985: they
/// differ from these by at most half the distance to the next number.
pub proof fn law_default_thresholds_are_the_documented_numbers()
    ensures
        ({
            let one = (Real32 { bits: ONE_BITS }).value();
            let merge = (Real32 { bits: DEFAULT_THRESHOLD_MERGE }).value();
            let relate = (Real32 { bits: DEFAULT_THRESHOLD_RELATE }).value();
            let duplicate = (Real32 { bits: DEFAULT_THRESHOLD_DUPLICATE }).value();
            let half_step = pow2(124);
            &&& one == pow2(149)
            &&& 100 * relate == 75 * one
            &&& 92 * one - 100 * half_step <= 100 * merge <= 92 * one + 100 * half_step
            &&& 985 * one - 1000 * half_step <= 1000 * duplicate <= 985 * one + 1000 * half_step
        }),
{
    lemma2_to64();
    lemma_pow2_unfold(125);
    lemma_pow2_unfold(126);
    lemma_pow2_adds(23, 126);
    let step = pow2(125) as int;
    assert((Real32 { bits: ONE_BITS }).value() == 0x0080_0000 * pow2(126));
    assert((Real32 { bits: DEFAULT_THRESHOLD_MERGE }).value() == 0x00eb_851f * step);
    assert((Real32 { bits: DEFAULT_THRESHOLD_RELATE }).value() == 0x00c0_0000 * step);
    assert((Real32 { bits: DEFAULT_THRESHOLD_DUPLICATE }).value() == 0x00fc_28f6 * step);
}

/// A setting above 1 asks for 1 and one below 0 for 0; without a setting the default holds as it is;
/// a NaN is kept.
pub proof fn law_setting_outside_takes_the_nearest_bound(setting: Real32, default: Real32)
    ensures
        spec_env_threshold(None, default) == default,
        setting.is_nan() ==> spec_env_threshold(Some(setting), default) == setting,
        !setting.is_nan() && setting.value() < 0 ==> spec_env_threshold(
            Some(setting),
            default,
        ).value() == 0,
        !setting.is_nan() && setting.value() > pow2(149) ==> spec_env_threshold(
            Some(setting),
            default,
        ).value() == pow2(149),
{
    law_default_thresholds_are_the_documented_numbers();
    real32::law_at_least_compares_the_numbers(setting, Real32 { bits: ZERO_BITS });
    real32::law_at_least_compares_the_numbers(setting, Real32 { bits: ONE_BITS });
}

/// A larger setting never gives a smaller threshold, and the default plays no part in it.
pub proof fn law_threshold_grows_with_the_setting(
    a: Real32,
    b: Real32,
    default: Real32,
    other: Real32,
)
    requires
        !a.is_nan(),
        !b.is_nan(),
        a.value() <= b.value(),
    ensures
        spec_env_threshold(Some(a), default).value() <= spec_env_threshold(
            Some(b),
            other,
        ).value(),
{
    let zero = Real32 { bits: ZERO_BITS };
    let one = Real32 { bits: ONE_BITS };
    real32::law_at_least_compares_the_numbers(zero, one);
    real32::law_at_least_compares_the_numbers(a, zero);
    real32::law_at_least_compares_the_numbers(a, one);
    real32::law_at_least_compares_the_numbers(b, zero);
    real32::law_at_least_compares_the_numbers(b, one);
}

} // verus!
