//! Interest-bearing mint configuration: the integer side of continuous
//! compounding, and the folding of a rate change into a time-weighted
//! average rate.

use crate::error::ProgramError;
use crate::pubkey::Pubkey;
use crate::wire::{
    is_storable_key, lemma_concat_split, lemma_stored_fields, pack_i16, pack_i64,
    pack_stored_key, read_i16, read_i64, read_stored_key, spec_i16_bytes, spec_i64_bytes,
    spec_stored_key_bytes,
};
use vstd::slice::slice_subrange;
use vstd::arithmetic::div_mod::{lemma_div_is_ordered, lemma_div_multiples_vanish};
use vstd::prelude::*;

verus! {

/// Annual interest rate, in basis points.
pub type BasisPoints = i16;

/// Seconds since the Unix epoch.
pub type UnixTimestamp = i64;

/// One whole rate, in basis points.
pub const ONE_IN_BASIS_POINTS: i64 = 10_000;

/// Byte length of a stored `InterestBearingConfig`.
pub const INTEREST_BEARING_CONFIG_LEN: usize = 52;

/// Length of the interest year in seconds: 365.24 days.
pub const SECONDS_PER_YEAR: i64 = 31_556_736;

/// `x / d` rounded toward zero, for a positive `d`.
pub open spec fn trunc_div(x: int, d: int) -> int {
    if x >= 0 {
        x / d
    } else {
        -((-x) / d)
    }
}

/// The lesser of two rates.
pub open spec fn min_rate(a: i16, b: i16) -> i16 {
    if a <= b {
        a
    } else {
        b
    }
}

/// The greater of two rates.
pub open spec fn max_rate(a: i16, b: i16) -> i16 {
    if a <= b {
        b
    } else {
        a
    }
}

/// `Some(v)` where `v` fits an `i64`, else `None`.
pub open spec fn fit_i64(v: int) -> Option<i64> {
    if i64::MIN <= v <= i64::MAX {
        Some(v as i64)
    } else {
        None
    }
}

/// Interest-bearing extension data of a mint.
///
/// Tokens accrue interest at the annual rate `current_rate`, compounded
/// continuously. `pre_update_average_rate` is the average rate in force from
/// initialization until `last_update_timestamp`.
#[derive(Clone, Copy, Debug, PartialEq, Eq)]
pub struct InterestBearingConfig {
    /// Authority that can set the interest rate, if any.
    pub rate_authority: Option<Pubkey>,
    /// Timestamp of initialization, from which interest is computed.
    pub initialization_timestamp: UnixTimestamp,
    /// Average rate from initialization until the last update.
    pub pre_update_average_rate: BasisPoints,
    /// Timestamp of the last rate update.
    pub last_update_timestamp: UnixTimestamp,
    /// Current rate, since the last update.
    pub current_rate: BasisPoints,
}

impl InterestBearingConfig {
    /// The last update does not come before initialization.
    pub open spec fn well_formed(self) -> bool {
        self.initialization_timestamp <= self.last_update_timestamp
    }

    /// The time-weighted average of the pre-update rate over
    /// `[initialization, last update)` and the current rate over
    /// `[last update, now)`; `None` where a timespan is negative or the
    /// average does not fit a rate.
    pub open spec fn spec_time_weighted_average_rate(self, now: i64) -> Option<i16> {
        let t_1 = self.last_update_timestamp - self.initialization_timestamp;
        let t_2 = now - self.last_update_timestamp;
        let r_1 = self.pre_update_average_rate as int;
        let r_2 = self.current_rate as int;
        if t_1 < 0 || t_2 < 0 {
            None
        } else if t_1 + t_2 == 0 {
            Some(self.current_rate)
        } else {
            let average = trunc_div(r_1 * t_1 + r_2 * t_2, t_1 + t_2);
            if i16::MIN <= average <= i16::MAX {
                Some(average as i16)
            } else {
                None
            }
        }
    }

    /// A new configuration at time `now`: both rates set to `rate`, both
    /// timestamps set to `now`.
    pub fn new(rate_authority: Option<Pubkey>, rate: BasisPoints, now: UnixTimestamp) -> (r: Self)
        ensures
            r == (InterestBearingConfig {
                rate_authority,
                initialization_timestamp: now,
                pre_update_average_rate: rate,
                last_update_timestamp: now,
                current_rate: rate,
            }),
            r.well_formed(),
    {
        InterestBearingConfig {
            rate_authority,
            initialization_timestamp: now,
            pre_update_average_rate: rate,
            last_update_timestamp: now,
            current_rate: rate,
        }
    }

    /// Seconds from initialization to the last update, if that fits an `i64`.
    pub fn pre_update_timespan(&self) -> (r: Option<i64>)
        ensures
            r == fit_i64(self.last_update_timestamp - self.initialization_timestamp),
    {
        self.last_update_timestamp.checked_sub(self.initialization_timestamp)
    }

    /// Seconds from the last update to `unix_timestamp`, if that fits an `i64`.
    pub fn post_update_timespan(&self, unix_timestamp: i64) -> (r: Option<i64>)
        ensures
            r == fit_i64(unix_timestamp - self.last_update_timestamp),
    {
        unix_timestamp.checked_sub(self.last_update_timestamp)
    }

    /// Rate times time before the last update, in basis-point seconds: the
    /// exponent of the pre-update growth factor is this over
    /// `SECONDS_PER_YEAR * ONE_IN_BASIS_POINTS`.
    pub fn pre_update_exponent_numerator(&self) -> (r: Option<i128>)
        ensures
            r == match fit_i64(self.last_update_timestamp - self.initialization_timestamp) {
                Some(t) => Some((self.pre_update_average_rate * t) as i128),
                None => None::<i128>,
            },
    {
        let timespan = self.pre_update_timespan()?;
        let rate = self.pre_update_average_rate as i128;
        assert(-0x8000 * 0x8000_0000_0000_0000 <= rate * (timespan as i128) <= 0x8000
            * 0x8000_0000_0000_0000) by (nonlinear_arith)
            requires
                -0x8000 <= rate <= 0x8000,
                -0x8000_0000_0000_0000 <= timespan <= 0x8000_0000_0000_0000,
        ;
        Some(rate * (timespan as i128))
    }

    /// Rate times time since the last update, in basis-point seconds.
    pub fn post_update_exponent_numerator(&self, unix_timestamp: i64) -> (r: Option<i128>)
        ensures
            r == match fit_i64(unix_timestamp - self.last_update_timestamp) {
                Some(t) => Some((self.current_rate * t) as i128),
                None => None::<i128>,
            },
    {
        let timespan = self.post_update_timespan(unix_timestamp)?;
        let rate = self.current_rate as i128;
        assert(-0x8000 * 0x8000_0000_0000_0000 <= rate * (timespan as i128) <= 0x8000
            * 0x8000_0000_0000_0000) by (nonlinear_arith)
            requires
                -0x8000 <= rate <= 0x8000,
                -0x8000_0000_0000_0000 <= timespan <= 0x8000_0000_0000_0000,
        ;
        Some(rate * (timespan as i128))
    }

    /// The new average rate is the time-weighted average of the average
    /// rate before the last update and the current rate since, the `r` with
    /// `exp(r_1 * t_1) * exp(r_2 * t_2) = exp(r * (t_1 + t_2))`, so
    /// `r = (r_1 * t_1 + r_2 * t_2) / (t_1 + t_2)`, rounded toward zero.
    pub fn time_weighted_average_rate(&self, current_timestamp: i64) -> (r: Option<i16>)
        ensures
            r == self.spec_time_weighted_average_rate(current_timestamp),
    {
        let initialization_timestamp = self.initialization_timestamp as i128;
        let last_update_timestamp = self.last_update_timestamp as i128;
        let r_1 = self.pre_update_average_rate as i128;
        let t_1 = last_update_timestamp - initialization_timestamp;
        let r_2 = self.current_rate as i128;
        let t_2 = current_timestamp as i128 - last_update_timestamp;
        if t_1 < 0 || t_2 < 0 {
            return None;
        }
        let total_timespan = t_1 + t_2;
        let average_rate: i128 = if total_timespan == 0 {
            r_2
        } else {
            assert(-0x8000 * 0x1_0000_0000_0000_0000 <= r_1 * t_1 <= 0x8000
                * 0x1_0000_0000_0000_0000) by (nonlinear_arith)
                requires
                    -0x8000 <= r_1 <= 0x8000,
                    0 <= t_1 <= 0x1_0000_0000_0000_0000,
            ;
            assert(-0x8000 * 0x1_0000_0000_0000_0000 <= r_2 * t_2 <= 0x8000
                * 0x1_0000_0000_0000_0000) by (nonlinear_arith)
                requires
                    -0x8000 <= r_2 <= 0x8000,
                    0 <= t_2 <= 0x1_0000_0000_0000_0000,
            ;
            let numerator = r_1 * t_1 + r_2 * t_2;
            if numerator >= 0 {
                numerator / total_timespan
            } else {
                -((-numerator) / total_timespan)
            }
        };
        if average_rate < i16::MIN as i128 || average_rate > i16::MAX as i128 {
            None
        } else {
            Some(average_rate as i16)
        }
    }

    /// Sets a new current rate at time `now`, first folding the rates so far
    /// into the pre-update average. Fails with `ArithmeticOverflow`, leaving
    /// the configuration as it was, where that average is undefined.
    pub fn update_rate(&mut self, new_rate: BasisPoints, now: UnixTimestamp) -> (r: Result<
        (),
        ProgramError,
    >)
        ensures
            match old(self).spec_time_weighted_average_rate(now) {
                Some(average) => r is Ok && *final(self) == (InterestBearingConfig {
                    pre_update_average_rate: average,
                    last_update_timestamp: now,
                    current_rate: new_rate,
                    ..*old(self)
                }),
                None => r == Err::<(), ProgramError>(ProgramError::ArithmeticOverflow)
                    && *final(self) == *old(self),
            },
            old(self).well_formed() ==> final(self).well_formed(),
    {
        match self.time_weighted_average_rate(now) {
            Some(average) => {
                self.pre_update_average_rate = average;
                self.last_update_timestamp = now;
                self.current_rate = new_rate;
                Ok(())
            },
            None => Err(ProgramError::ArithmeticOverflow),
        }
    }
}

impl InterestBearingConfig {
    /// Whether the configuration can be stored: a present rate authority is
    /// not the all-zero address, which the stored form uses for none.
    pub open spec fn is_storable(self) -> bool {
        is_storable_key(self.rate_authority)
    }

    /// The stored form: the rate authority (zeros for none), then the
    /// timestamps and rates in field order, little-endian, no padding.
    pub open spec fn spec_to_bytes(self) -> Seq<u8> {
        spec_stored_key_bytes(self.rate_authority) + spec_i64_bytes(self.initialization_timestamp)
            + spec_i16_bytes(self.pre_update_average_rate) + spec_i64_bytes(
            self.last_update_timestamp,
        ) + spec_i16_bytes(self.current_rate)
    }

    /// The stored form of the configuration.
    pub fn to_bytes(&self) -> (r: Vec<u8>)
        ensures
            r@ == self.spec_to_bytes(),
    {
        let mut r: Vec<u8> = Vec::new();
        pack_stored_key(&self.rate_authority, &mut r);
        pack_i64(self.initialization_timestamp, &mut r);
        pack_i16(self.pre_update_average_rate, &mut r);
        pack_i64(self.last_update_timestamp, &mut r);
        pack_i16(self.current_rate, &mut r);
        assert(r@ =~= self.spec_to_bytes());
        r
    }

    /// Reads a stored configuration. Any 52 bytes hold one; other lengths
    /// fail with `InvalidAccountData`.
    pub fn from_bytes(bytes: &[u8]) -> (r: Result<Self, ProgramError>)
        ensures
            bytes@.len() != INTEREST_BEARING_CONFIG_LEN ==> r == Err::<Self, ProgramError>(
                ProgramError::InvalidAccountData,
            ),
            bytes@.len() == INTEREST_BEARING_CONFIG_LEN ==> r is Ok,
            r matches Ok(c) ==> c.is_storable() && c.spec_to_bytes() == bytes@,
            forall|c: Self|
                c.is_storable() && #[trigger] c.spec_to_bytes() == bytes@ ==> r == Ok::<
                    Self,
                    ProgramError,
                >(c),
    {
        proof {
            lemma_stored_fields();
        }
        if bytes.len() != INTEREST_BEARING_CONFIG_LEN {
            return Err(ProgramError::InvalidAccountData);
        }
        let c = InterestBearingConfig {
            rate_authority: read_stored_key(slice_subrange(bytes, 0, 32)),
            initialization_timestamp: read_i64(slice_subrange(bytes, 32, 40)),
            pre_update_average_rate: read_i16(slice_subrange(bytes, 40, 42)),
            last_update_timestamp: read_i64(slice_subrange(bytes, 42, 50)),
            current_rate: read_i16(slice_subrange(bytes, 50, 52)),
        };
        assert(c.spec_to_bytes() =~= bytes@);
        proof {
            assert forall|d: Self| d.is_storable() && #[trigger] d.spec_to_bytes() == bytes@ implies d
                == c by {
                lemma_config_bytes_unique(c, d);
            }
        }
        Ok(c)
    }
}

/// Two storable configurations with the same stored form are equal.
pub proof fn lemma_config_bytes_unique(c: InterestBearingConfig, d: InterestBearingConfig)
    requires
        c.is_storable(),
        d.is_storable(),
        c.spec_to_bytes() == d.spec_to_bytes(),
    ensures
        c == d,
{
    lemma_stored_fields();
    let c1 = spec_stored_key_bytes(c.rate_authority);
    let d1 = spec_stored_key_bytes(d.rate_authority);
    let c2 = c1 + spec_i64_bytes(c.initialization_timestamp);
    let d2 = d1 + spec_i64_bytes(d.initialization_timestamp);
    let c3 = c2 + spec_i16_bytes(c.pre_update_average_rate);
    let d3 = d2 + spec_i16_bytes(d.pre_update_average_rate);
    let c4 = c3 + spec_i64_bytes(c.last_update_timestamp);
    let d4 = d3 + spec_i64_bytes(d.last_update_timestamp);
    lemma_concat_split(c4, spec_i16_bytes(c.current_rate), d4, spec_i16_bytes(d.current_rate));
    lemma_concat_split(
        c3,
        spec_i64_bytes(c.last_update_timestamp),
        d3,
        spec_i64_bytes(d.last_update_timestamp),
    );
    lemma_concat_split(
        c2,
        spec_i16_bytes(c.pre_update_average_rate),
        d2,
        spec_i16_bytes(d.pre_update_average_rate),
    );
    lemma_concat_split(
        c1,
        spec_i64_bytes(c.initialization_timestamp),
        d1,
        spec_i64_bytes(d.initialization_timestamp),
    );
}

/// A weighted average with non-negative weights, rounded toward zero, lies
/// between the two values averaged.
pub proof fn lemma_weighted_average_between(r_1: int, t_1: int, r_2: int, t_2: int)
    requires
        t_1 >= 0,
        t_2 >= 0,
        t_1 + t_2 > 0,
    ensures
        r_1 <= r_2 ==> r_1 <= trunc_div(r_1 * t_1 + r_2 * t_2, t_1 + t_2) <= r_2,
        r_2 <= r_1 ==> r_2 <= trunc_div(r_1 * t_1 + r_2 * t_2, t_1 + t_2) <= r_1,
{
    let d = t_1 + t_2;
    let n = r_1 * t_1 + r_2 * t_2;
    let lo = if r_1 <= r_2 { r_1 } else { r_2 };
    let hi = if r_1 <= r_2 { r_2 } else { r_1 };
    assert(lo * d <= n <= hi * d) by (nonlinear_arith)
        requires
            lo <= r_1 <= hi,
            lo <= r_2 <= hi,
            t_1 >= 0,
            t_2 >= 0,
            d == t_1 + t_2,
            n == r_1 * t_1 + r_2 * t_2,
    ;
    if n >= 0 {
        lemma_div_is_ordered(lo * d, n, d);
        lemma_div_is_ordered(n, hi * d, d);
        lemma_div_multiples_vanish(lo, d);
        lemma_div_multiples_vanish(hi, d);
    } else {
        assert((-hi) * d <= -n <= (-lo) * d) by (nonlinear_arith)
            requires
                lo * d <= n <= hi * d,
        ;
        lemma_div_is_ordered((-hi) * d, -n, d);
        lemma_div_is_ordered(-n, (-lo) * d, d);
        lemma_div_multiples_vanish(-lo, d);
        lemma_div_multiples_vanish(-hi, d);
    }
}

/// Monotonic interpolation: for timestamps in order (initialization, last
/// update, now), the time-weighted average rate exists and lies between the
/// pre-update average rate and the current rate, whatever their signs.
pub proof fn lemma_time_weighted_average_rate_between(config: InterestBearingConfig, now: i64)
    requires
        config.initialization_timestamp <= config.last_update_timestamp <= now,
    ensures
        config.spec_time_weighted_average_rate(now) matches Some(rate) && min_rate(
            config.pre_update_average_rate,
            config.current_rate,
        ) <= rate <= max_rate(config.pre_update_average_rate, config.current_rate),
{
    let t_1 = config.last_update_timestamp - config.initialization_timestamp;
    let t_2 = now - config.last_update_timestamp;
    if t_1 + t_2 != 0 {
        lemma_weighted_average_between(
            config.pre_update_average_rate as int,
            t_1,
            config.current_rate as int,
            t_2,
        );
    }
}

} // verus!
