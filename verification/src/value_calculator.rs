//! Monetary value estimation.
//!
//! Money is measured in integer cents, effort in units of 1/30000 hour
//! and rate multipliers in tenths, so every figure is exact.  The five
//! seniority levels carry fixed multipliers {1.0, 1.5, 2.0, 2.5, 3.0},
//! each scaled by one complexity factor derived from the total change
//! volume.
use vstd::prelude::*;
use vstd::arithmetic::mul::lemma_mul_upper_bound;
use vstd::arithmetic::div_mod::lemma_div_is_ordered;

verus! {

/// Largest effort input the calculator accepts, so products fit.
pub const UNITS_CAP: u128 = 0x4000_0000_0000_0000;

/// Largest base hourly rate in cents the calculator accepts.
pub const RATE_CAP: u64 = 0x1_0000_0000;

/// No value figure exceeds this, given the two caps above.
pub const VALUE_CAP: u128 = 0x100_0000_0000_0000_0000_0000;

/// Complexity factor in tenths, from the total change volume: 0.8 under
/// 100 changed lines, 1.0 under 500, 1.2 under 2000, 1.4 beyond.
pub open spec fn spec_complexity_factor_tenths(total_changes: int) -> int {
    if total_changes < 100 {
        8
    } else if total_changes < 500 {
        10
    } else if total_changes < 2000 {
        12
    } else {
        14
    }
}

/// Multiplier in tenths of seniority level `i` (0 = Junior .. 4 =
/// Principal).
pub open spec fn spec_level_multiplier_tenths(i: int) -> int {
    if i == 0 { 10 }
    else if i == 1 { 15 }
    else if i == 2 { 20 }
    else if i == 3 { 25 }
    else { 30 }
}

pub open spec fn spec_level_name(i: int) -> Seq<char> {
    if i == 0 { "Junior"@ }
    else if i == 1 { "Mid-level"@ }
    else if i == 2 { "Senior"@ }
    else if i == 3 { "Lead"@ }
    else { "Principal"@ }
}

/// Hourly rate in cents for a base rate, a level multiplier (tenths)
/// and a complexity factor (tenths), rounded down.
pub open spec fn spec_hourly_rate(base_cents: int, mult_tenths: int, cf_tenths: int) -> int {
    base_cents * mult_tenths * cf_tenths / 100
}

/// Total value in cents of `units` effort units at an hourly rate,
/// rounded down.
pub open spec fn spec_total_value(units: int, rate_cents: int) -> int {
    units * rate_cents / 30000
}

/// One row of the value table.
#[derive(Clone, Debug)]
pub struct DeveloperLevel {
    pub level: String,
    pub multiplier_tenths: u32,
    pub hourly_rate_cents: u64,
    pub total_value_cents: u128,
}

/// The tiered value table plus the recommended (Mid-level) figure.
#[derive(Clone, Debug)]
pub struct ValueEstimate {
    pub estimated_units: u128,
    pub base_hourly_rate_cents: u64,
    pub developer_levels: Vec<DeveloperLevel>,
    pub recommended_value_cents: u128,
}

/// Does one table row hold exactly the figures of level `i`?
pub open spec fn level_ok(
    l: DeveloperLevel,
    i: int,
    units: int,
    base_cents: int,
    cf_tenths: int,
) -> bool {
    &&& l.level@ == spec_level_name(i)
    &&& l.multiplier_tenths == spec_level_multiplier_tenths(i)
    &&& l.hourly_rate_cents == spec_hourly_rate(base_cents, spec_level_multiplier_tenths(i), cf_tenths)
    &&& l.total_value_cents == spec_total_value(units, l.hourly_rate_cents as int)
}

impl ValueEstimate {
    /// Build the value table for an effort figure, a base hourly rate
    /// and a total change volume.
    pub fn calculate(estimated_units: u128, base_hourly_rate_cents: u64, total_changes: u64) -> (r:
        ValueEstimate)
        requires
            estimated_units <= UNITS_CAP,
            base_hourly_rate_cents <= RATE_CAP,
        ensures
            r.estimated_units == estimated_units,
            r.base_hourly_rate_cents == base_hourly_rate_cents,
            r.developer_levels@.len() == 5,
            forall|i: int|
                0 <= i < 5 ==> level_ok(
                    #[trigger] r.developer_levels@[i],
                    i,
                    estimated_units as int,
                    base_hourly_rate_cents as int,
                    spec_complexity_factor_tenths(total_changes as int),
                ),
            r.recommended_value_cents == r.developer_levels@[1].total_value_cents,
            r.recommended_value_cents <= VALUE_CAP,
    {
        let cf: u32 = if total_changes < 100 {
            8
        } else if total_changes < 500 {
            10
        } else if total_changes < 2000 {
            12
        } else {
            14
        };
        let mut developer_levels: Vec<DeveloperLevel> = Vec::new();
        let l0 = Self::make_level("Junior", 10, estimated_units, base_hourly_rate_cents, cf);
        let l1 = Self::make_level("Mid-level", 15, estimated_units, base_hourly_rate_cents, cf);
        let l2 = Self::make_level("Senior", 20, estimated_units, base_hourly_rate_cents, cf);
        let l3 = Self::make_level("Lead", 25, estimated_units, base_hourly_rate_cents, cf);
        let l4 = Self::make_level("Principal", 30, estimated_units, base_hourly_rate_cents, cf);
        let recommended_value_cents = l1.total_value_cents;
        developer_levels.push(l0);
        developer_levels.push(l1);
        developer_levels.push(l2);
        developer_levels.push(l3);
        developer_levels.push(l4);
        ValueEstimate {
            estimated_units,
            base_hourly_rate_cents,
            developer_levels,
            recommended_value_cents,
        }
    }

    /// One row: `base * multiplier * complexity / 100` cents per hour,
    /// `units * rate / 30000` cents in total.
    fn make_level(name: &str, mult_tenths: u32, units: u128, base_cents: u64, cf_tenths: u32) -> (r:
        DeveloperLevel)
        requires
            units <= UNITS_CAP,
            base_cents <= RATE_CAP,
            mult_tenths <= 30,
            cf_tenths <= 14,
        ensures
            r.level@ == name@,
            r.multiplier_tenths == mult_tenths,
            r.hourly_rate_cents == spec_hourly_rate(
                base_cents as int,
                mult_tenths as int,
                cf_tenths as int,
            ),
            r.total_value_cents == spec_total_value(units as int, r.hourly_rate_cents as int),
            r.total_value_cents <= VALUE_CAP,
    {
        proof {
            lemma_mul_upper_bound(base_cents as int, RATE_CAP as int, mult_tenths as int, 30);
            assert(base_cents * mult_tenths <= 0x1E_0000_0000);
            lemma_mul_upper_bound(
                (base_cents * mult_tenths) as int,
                0x1E_0000_0000,
                cf_tenths as int,
                14,
            );
            assert(base_cents * mult_tenths * cf_tenths <= 0x1A4_0000_0000);
        }
        let product: u64 = base_cents * (mult_tenths as u64) * (cf_tenths as u64);
        let hourly_rate_cents: u64 = product / 100;
        proof {
            lemma_mul_upper_bound(
                units as int,
                UNITS_CAP as int,
                hourly_rate_cents as int,
                0x1A4_0000_0000,
            );
            lemma_div_is_ordered(
                (units * hourly_rate_cents) as int,
                0x4000_0000_0000_0000int * 0x1A4_0000_0000,
                30000,
            );
        }
        let total: u128 = (units * (hourly_rate_cents as u128)) / 30000;
        DeveloperLevel {
            level: name.to_owned(),
            multiplier_tenths: mult_tenths,
            hourly_rate_cents,
            total_value_cents: total,
        }
    }
}

} // verus!
