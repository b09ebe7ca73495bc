//! Price tiers and the alert decision.
//!
//! Prices are classified on their base-unit (wei) value. The tier bounds
//! correspond to 10, 30 and 100 gwei: each band includes its lower bound
//! and excludes its upper one, and the last band is unbounded above.

use vstd::prelude::*;

verus! {

/// Wei per gwei.
pub const WEI_PER_GWEI: u128 = 1_000_000_000;

/// Lower bound of the normal tier: 10 gwei, in wei.
pub const NORMAL_FLOOR_WEI: u128 = 10_000_000_000;

/// Lower bound of the high tier: 30 gwei, in wei.
pub const HIGH_FLOOR_WEI: u128 = 30_000_000_000;

/// Lower bound of the very-high tier: 100 gwei, in wei.
pub const VERY_HIGH_FLOOR_WEI: u128 = 100_000_000_000;

/// The ordered price tiers.
#[derive(Clone, Copy, Debug, PartialEq, Eq, Structural)]
pub enum Tier {
    Low,
    Normal,
    High,
    VeryHigh,
}

/// The tier of a base-unit price.
pub open spec fn spec_classify(wei: int) -> Tier {
    if wei < NORMAL_FLOOR_WEI {
        Tier::Low
    } else if wei < HIGH_FLOOR_WEI {
        Tier::Normal
    } else if wei < VERY_HIGH_FLOOR_WEI {
        Tier::High
    } else {
        Tier::VeryHigh
    }
}

/// Classifies a base-unit price into its tier.
pub fn classify_wei(wei: u128) -> (t: Tier)
    ensures
        t == spec_classify(wei as int),
{
    if wei < NORMAL_FLOOR_WEI {
        Tier::Low
    } else if wei < HIGH_FLOOR_WEI {
        Tier::Normal
    } else if wei < VERY_HIGH_FLOOR_WEI {
        Tier::High
    } else {
        Tier::VeryHigh
    }
}

/// Decides whether a price exceeds an alert threshold.
///
/// The threshold is given in hundredths of a gwei, the same resolution the
/// display uses; a price exceeds it exactly when the price in wei is larger
/// than the threshold scaled to wei.
pub fn alert_exceeded(wei: u128, threshold_centi_gwei: u64) -> (b: bool)
    ensures
        b == (wei > threshold_centi_gwei * 10_000_000),
{
    wei > (threshold_centi_gwei as u128) * 10_000_000
}

} // verus!
