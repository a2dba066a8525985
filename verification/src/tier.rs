//! Dataset tiers and the per-category refresh interval table.
//!
//! The tier is derived from the current banned-address record count each
//! poll; it is never stored. Timing policy is keyed on it: the bigger the
//! dataset, the rarer the refreshes, and in the massive tier every category
//! except the banned addresses themselves is suppressed outright.

use vstd::prelude::*;

verus! {

/// Size class of the banned-address collection.
#[derive(Debug, Clone, Copy, PartialEq, Eq, Structural)]
pub enum DatasetTier {
    /// At most 10,000 records.
    Normal,
    /// More than 10,000 and at most 15,000 records.
    Large,
    /// More than 15,000 records.
    Massive,
}

/// One of the four refreshable data categories.
#[derive(Debug, Clone, Copy, PartialEq, Eq, Structural)]
pub enum Category {
    ServiceStatus,
    JailList,
    BannedAddresses,
    Logs,
}

/// Tier of a banned-address collection of `count` records.
pub open spec fn spec_classify(count: nat) -> DatasetTier {
    if count <= 10000 {
        DatasetTier::Normal
    } else if count <= 15000 {
        DatasetTier::Large
    } else {
        DatasetTier::Massive
    }
}

/// Classifies a record count into its dataset tier. The boundaries are
/// exact: 10,000 is still normal and 15,000 is still large.
pub fn classify(count: usize) -> (t: DatasetTier)
    ensures
        t == spec_classify(count as nat),
        (t == DatasetTier::Normal) <==> count <= 10000,
        (t == DatasetTier::Large) <==> (10000 < count && count <= 15000),
        (t == DatasetTier::Massive) <==> count > 15000,
{
    if count <= 10000 {
        DatasetTier::Normal
    } else if count <= 15000 {
        DatasetTier::Large
    } else {
        DatasetTier::Massive
    }
}

/// Refresh interval in milliseconds for a category at a tier.
pub open spec fn spec_interval_ms(tier: DatasetTier, cat: Category) -> int {
    match cat {
        Category::ServiceStatus => match tier {
            DatasetTier::Normal => 10_000,
            DatasetTier::Large => 60_000,
            DatasetTier::Massive => 300_000,
        },
        Category::JailList => match tier {
            DatasetTier::Normal => 10_000,
            DatasetTier::Large => 60_000,
            DatasetTier::Massive => 300_000,
        },
        Category::BannedAddresses => match tier {
            DatasetTier::Normal => 30_000,
            DatasetTier::Large => 60_000,
            DatasetTier::Massive => 120_000,
        },
        Category::Logs => match tier {
            DatasetTier::Normal => 10_000,
            DatasetTier::Large => 30_000,
            DatasetTier::Massive => 30_000,
        },
    }
}

/// Interval table lookup.
pub fn interval_ms(tier: DatasetTier, cat: Category) -> (r: i64)
    ensures
        r == spec_interval_ms(tier, cat),
{
    match cat {
        Category::ServiceStatus => match tier {
            DatasetTier::Normal => 10_000,
            DatasetTier::Large => 60_000,
            DatasetTier::Massive => 300_000,
        },
        Category::JailList => match tier {
            DatasetTier::Normal => 10_000,
            DatasetTier::Large => 60_000,
            DatasetTier::Massive => 300_000,
        },
        Category::BannedAddresses => match tier {
            DatasetTier::Normal => 30_000,
            DatasetTier::Large => 60_000,
            DatasetTier::Massive => 120_000,
        },
        Category::Logs => match tier {
            DatasetTier::Normal => 10_000,
            DatasetTier::Large => 30_000,
            DatasetTier::Massive => 30_000,
        },
    }
}

/// Whether refreshes of a category are suppressed outright at a tier.
/// Only the banned-address category is never suppressed.
pub open spec fn spec_suppressed(tier: DatasetTier, cat: Category) -> bool {
    tier == DatasetTier::Massive && cat != Category::BannedAddresses
}

/// Suppression lookup: in the massive tier everything but the
/// banned-address category is skipped entirely, not merely slowed.
pub fn suppressed(tier: DatasetTier, cat: Category) -> (r: bool)
    ensures
        r == spec_suppressed(tier, cat),
{
    match tier {
        DatasetTier::Massive => !matches!(cat, Category::BannedAddresses),
        _ => false,
    }
}

} // verus!
