//! The record kept of each operator and the rules by which it changes.

use vstd::prelude::*;
use super::types::RestakeInfo;

verus! {

/// The reliability score of an operator nobody has complained about.
pub const PERFECT_SCORE: u8 = 100;

/// What is known of an operator.
#[derive(Clone, Debug, PartialEq, Eq)]
pub struct OperatorInfo {
    /// Basic restaking information.
    pub restake_info: RestakeInfo,
    /// When this record was last updated, in seconds since the epoch.
    pub last_updated: u64,
    /// Reliability score, from 0 to 100.
    pub reliability_score: u8,
    /// Number of blocks validated.
    pub blocks_validated: u64,
    /// Number of slashes received.
    pub slashes: u32,
}

/// The score after one more validated block: one higher, unless it is perfect
/// already.
pub open spec fn score_after_validation(score: u8) -> u8 {
    if score < 100 {
        (score + 1) as u8
    } else {
        score
    }
}

/// The score after a slash: lower by the severity, which counts as 100 at
/// most, and never below zero.
pub open spec fn score_after_slash(score: u8, severity: u8) -> u8 {
    let decrease = if severity > 100 {
        100
    } else {
        severity as int
    };
    if score >= decrease {
        (score - decrease) as u8
    } else {
        0
    }
}

impl OperatorInfo {
    /// The record of an operator seen for the first time at `now`: a perfect
    /// score, no blocks, no slashes.
    pub fn first_seen(restake_info: RestakeInfo, now: u64) -> (info: Self)
        ensures
            info.restake_info == restake_info,
            info.last_updated == now,
            info.reliability_score == PERFECT_SCORE,
            info.blocks_validated == 0,
            info.slashes == 0,
    {
        OperatorInfo {
            restake_info,
            last_updated: now,
            reliability_score: PERFECT_SCORE,
            blocks_validated: 0,
            slashes: 0,
        }
    }

    /// The record of a known operator after its restaking information was
    /// fetched anew at `now`: the new information, the old statistics.
    pub fn seen_again(&self, restake_info: RestakeInfo, now: u64) -> (info: Self)
        ensures
            info.restake_info == restake_info,
            info.last_updated == now,
            info.reliability_score == self.reliability_score,
            info.blocks_validated == self.blocks_validated,
            info.slashes == self.slashes,
    {
        OperatorInfo {
            restake_info,
            last_updated: now,
            reliability_score: self.reliability_score,
            blocks_validated: self.blocks_validated,
            slashes: self.slashes,
        }
    }

    /// Records one more validated block at `now`.
    pub fn record_successful_validation(&mut self, now: u64)
        requires
            old(self).blocks_validated < u64::MAX,
        ensures
            final(self).blocks_validated == old(self).blocks_validated + 1,
            final(self).reliability_score == score_after_validation(old(self).reliability_score),
            final(self).last_updated == now,
            final(self).slashes == old(self).slashes,
            final(self).restake_info == old(self).restake_info,
    {
        self.blocks_validated = self.blocks_validated + 1;
        if self.reliability_score < PERFECT_SCORE {
            self.reliability_score = self.reliability_score + 1;
        }
        self.last_updated = now;
    }

    /// Records a slash of the given severity at `now`.
    pub fn record_slash(&mut self, severity: u8, now: u64)
        requires
            old(self).slashes < u32::MAX,
        ensures
            final(self).slashes == old(self).slashes + 1,
            final(self).reliability_score == score_after_slash(
                old(self).reliability_score,
                severity,
            ),
            final(self).last_updated == now,
            final(self).blocks_validated == old(self).blocks_validated,
            final(self).restake_info == old(self).restake_info,
    {
        self.slashes = self.slashes + 1;
        let decrease: u8 = if severity > 100 {
            100
        } else {
            severity
        };
        self.reliability_score = if self.reliability_score >= decrease {
            self.reliability_score - decrease
        } else {
            0
        };
        self.last_updated = now;
    }
}

/// Whether a cache last refreshed at `last_refresh` is older at `now` than
/// `max_cache_age` seconds.
pub fn needs_refresh(now: u64, last_refresh: u64, max_cache_age: u64) -> (stale: bool)
    requires
        last_refresh <= now,
    ensures
        stale == (now - last_refresh > max_cache_age),
{
    now - last_refresh > max_cache_age
}

} // verus!
