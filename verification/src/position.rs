//! Position-related type definitions. Ledger account addresses are carried
//! as plain text identifiers.

use vstd::prelude::*;

use crate::math::{div_tz, div_trunc_i64, SCALE};

verus! {

/// Time bucket for position allocation: a half-open interval of Unix
/// seconds.
#[derive(Debug, Clone, Copy, PartialEq, Eq, Structural)]
pub struct TimeBucket {
    /// Start timestamp, inclusive.
    pub start: i64,
    /// End timestamp, exclusive.
    pub end: i64,
}

impl TimeBucket {
    /// Create a new time bucket; rejected unless the start precedes the end.
    pub fn new(start: i64, end: i64) -> (r: Result<Self, String>)
        ensures
            r is Ok <==> start < end,
            r matches Ok(b) ==> b == (TimeBucket { start, end }),
    {
        if start >= end {
            return Err("Start time must be before end time".to_string());
        }
        Ok(TimeBucket { start, end })
    }

    /// Create a time bucket from a start and a duration.
    pub fn from_duration(start: i64, duration: u64) -> (r: Self)
        requires
            duration <= i64::MAX,
            start + duration <= i64::MAX,
        ensures
            r == (TimeBucket { start, end: (start + duration) as i64 }),
    {
        TimeBucket { start, end: start + (duration as i64) }
    }

    /// Check if a timestamp falls within this bucket.
    pub fn contains(&self, timestamp: i64) -> (r: bool)
        ensures
            r == (self.start <= timestamp < self.end),
    {
        timestamp >= self.start && timestamp < self.end
    }

    /// The bucket duration in seconds.
    pub fn duration(&self) -> (r: u64)
        requires
            self.start <= self.end,
        ensures
            r == self.end - self.start,
    {
        let d: i128 = (self.end as i128) - (self.start as i128);
        d as u64
    }

    /// The bucket midpoint, rounded toward zero.
    pub fn midpoint(&self) -> (r: i64)
        requires
            -0x8000_0000_0000_0000 < self.start + self.end <= 0x7fff_ffff_ffff_ffff,
        ensures
            r == div_tz(self.start + self.end, 2),
    {
        div_trunc_i64(self.start + self.end, 2)
    }

    /// Check if this bucket overlaps another.
    pub fn overlaps(&self, other: &TimeBucket) -> (r: bool)
        ensures
            r == (self.start < other.end && other.start < self.end),
    {
        self.start < other.end && other.start < self.end
    }

    /// Distance in seconds from a timestamp to the bucket; zero inside it.
    pub fn distance_from(&self, timestamp: i64) -> (r: i64)
        requires
            self.start - timestamp <= i64::MAX,
            timestamp - self.end <= i64::MAX,
        ensures
            r == (if self.start <= timestamp < self.end {
                0int
            } else if timestamp < self.start {
                self.start - timestamp
            } else {
                timestamp - self.end
            }),
    {
        if timestamp >= self.start && timestamp < self.end {
            0
        } else if timestamp < self.start {
            self.start - timestamp
        } else {
            timestamp - self.end
        }
    }
}

/// Position status in its lifecycle.
#[derive(Debug, Clone, Copy, PartialEq, Eq, Structural)]
pub enum PositionStatus {
    /// Position is active.
    Active,
    /// Position won: the inflection fell in its time bucket.
    Won,
    /// Position lost: the inflection fell outside its time bucket.
    Lost,
    /// Position partially won (volatility-adjusted).
    PartialWin,
    /// Position withdrawn before resolution.
    Withdrawn,
    /// Market expired without resolution.
    Expired,
}

/// Return on investment, micro-percent: the relative gain over the stake,
/// scaled so that `100_000_000` stands for a 100% return; zero for a zero
/// stake.
pub open spec fn spec_roi(amount: u64, payout: u64) -> int {
    if amount == 0 {
        0
    } else {
        div_tz((payout - amount) * 100 * SCALE, amount as int)
    }
}

/// User position in a time-shifted prediction market.
#[derive(Debug, Clone)]
pub struct Position {
    /// Position account address.
    pub address: String,
    /// Market account address.
    pub market: String,
    /// Position owner's address.
    pub owner: String,
    /// Time bucket this position targets.
    pub time_bucket: TimeBucket,
    /// Amount staked, lamports.
    pub amount: u64,
    /// Position status.
    pub status: PositionStatus,
    /// Creation timestamp, Unix seconds.
    pub created_at: i64,
    /// Settlement timestamp, if settled.
    pub settled_at: Option<i64>,
    /// Payout amount, if settled.
    pub payout: Option<u64>,
}

impl Position {
    /// Check if the position is active.
    pub fn is_active(&self) -> (r: bool)
        ensures
            r == (self.status == PositionStatus::Active),
    {
        self.status == PositionStatus::Active
    }

    /// Check if the position has been settled.
    pub fn is_settled(&self) -> (r: bool)
        ensures
            r == (self.status == PositionStatus::Won || self.status == PositionStatus::Lost
                || self.status == PositionStatus::PartialWin),
    {
        match self.status {
            PositionStatus::Won => true,
            PositionStatus::Lost => true,
            PositionStatus::PartialWin => true,
            _ => false,
        }
    }

    /// Check if the position won.
    pub fn is_winner(&self) -> (r: bool)
        ensures
            r == (self.status == PositionStatus::Won || self.status == PositionStatus::PartialWin),
    {
        match self.status {
            PositionStatus::Won => true,
            PositionStatus::PartialWin => true,
            _ => false,
        }
    }

    /// Return on investment in micro-percent, if settled with a payout.
    pub fn roi(&self) -> (r: Option<i64>)
        requires
            self.payout matches Some(p) ==> -0x7fff_ffff_ffff_ffff <= spec_roi(self.amount, p)
                <= 0x7fff_ffff_ffff_ffff,
        ensures
            r is Some <==> self.payout is Some,
            r matches Some(v) ==> self.payout matches Some(p) && v == spec_roi(self.amount, p),
    {
        match self.payout {
            None => None,
            Some(payout) => {
                if self.amount == 0 {
                    Some(0)
                } else {
                    let gain: i128 = (payout as i128) - (self.amount as i128);
                    let scaled: i128 = gain * 100 * (SCALE as i128);
                    proof {
                        let prod = (payout as int - self.amount as int) * 100 * (SCALE as int);
                        assert(-170_141_183_460_469_231_731_687_303_715_884_105_728int < prod
                            && prod < 170_141_183_460_469_231_731_687_303_715_884_105_728int)
                            by (nonlinear_arith)
                            requires 0 <= payout <= 18_446_744_073_709_551_615u64,
                                0 <= self.amount <= 18_446_744_073_709_551_615u64,
                                prod == (payout as int - self.amount as int) * 100 * (SCALE as int)
                        {}
                    }
                    let v = crate::math::div_trunc_i128(scaled, self.amount as i128);
                    proof {
                        assert(v == spec_roi(self.amount, payout));
                    }
                    Some(v as i64)
                }
            },
        }
    }

    /// The position's age in seconds at the given time.
    pub fn age(&self, current_time: i64) -> (r: i64)
        requires
            -0x8000_0000_0000_0000 <= current_time - self.created_at <= 0x7fff_ffff_ffff_ffff,
        ensures
            r == current_time - self.created_at,
    {
        current_time - self.created_at
    }
}

/// Aggregated position data for one time bucket.
#[derive(Debug, Clone, Copy, PartialEq, Eq, Structural)]
pub struct TimeBucketAggregate {
    /// The time bucket.
    pub time_bucket: TimeBucket,
    /// Total amount staked in this bucket, lamports.
    pub total_staked: u64,
    /// Number of positions in this bucket.
    pub position_count: u32,
    /// Implied probability from the stake distribution, micro-units.
    pub implied_probability: i64,
    /// Average position size, lamports.
    pub avg_position_size: u64,
}

impl TimeBucketAggregate {
    /// The probability implied by a bucket's share of the market's stake,
    /// micro-units; zero when the market holds no stake.
    pub fn calculate_implied_probability(bucket_stake: u64, total_market_stake: u64) -> (r: i64)
        requires
            bucket_stake <= total_market_stake,
        ensures
            r == (if total_market_stake == 0 {
                0int
            } else {
                bucket_stake * SCALE / (total_market_stake as int)
            }),
            0 <= r <= SCALE,
    {
        if total_market_stake == 0 {
            return 0;
        }
        let scaled: u128 = (bucket_stake as u128) * (SCALE as u128);
        let r = scaled / (total_market_stake as u128);
        proof {
            let b = bucket_stake as int;
            let t = total_market_stake as int;
            assert(b * SCALE <= t * SCALE) by (nonlinear_arith)
                requires b <= t, 0 <= b
            {}
            assert(t * SCALE / t == SCALE) by {
                vstd::arithmetic::div_mod::lemma_div_multiples_vanish(SCALE as int, t);
            }
            vstd::arithmetic::div_mod::lemma_div_is_ordered(b * SCALE, t * SCALE, t);
            vstd::arithmetic::div_mod::lemma_div_pos_is_pos(b * SCALE, t);
        }
        r as i64
    }

    /// Check whether this bucket carries a significant share of the stake.
    pub fn is_significant(&self, threshold: i64) -> (r: bool)
        ensures
            r == (self.implied_probability >= threshold),
    {
        self.implied_probability >= threshold
    }
}

} // verus!
