//! Temporal work patterns.
//!
//! All calendar arithmetic is done directly on Unix timestamps (seconds,
//! UTC): the hour of day is the timestamp modulo one day, the day index
//! is the floor division by one day, and the weekday follows from the
//! epoch falling on a Thursday.  Weekday 0 is Monday.
use vstd::prelude::*;
use vstd::arithmetic::div_mod::{
    lemma_fundamental_div_mod,
    lemma_fundamental_div_mod_converse_div,
    lemma_fundamental_div_mod_converse_mod,
    lemma_mod_multiples_vanish,
};
use crate::commit::{CommitInfo, MAX_COMMITS};

verus! {

/// Shift added to a timestamp so day/hour arithmetic runs on
/// non-negative numbers: a whole number of weeks, so it changes neither
/// the hour, nor the weekday, nor any difference of day indices.
pub const TS_SHIFT_DAYS: i128 = 106751991167304;

/// The same shift in seconds.
pub const TS_SHIFT_SECONDS: i128 = 106751991167304 * 86400;

/// Hour of day (0..24) of a timestamp, using Euclidean arithmetic.
pub open spec fn spec_hour_of(ts: int) -> int {
    (ts % 86400) / 3600
}

/// Day index of a timestamp: whole days since the epoch, rounded down.
pub open spec fn spec_day_of(ts: int) -> int {
    ts / 86400
}

/// Weekday index of a timestamp, 0 = Monday (the epoch day, day 0, was
/// a Thursday, index 3).
pub open spec fn spec_weekday_of(ts: int) -> int {
    (spec_day_of(ts) + 3) % 7
}

/// Hour of day, day index and weekday index of one timestamp.
pub fn calendar_of(ts: i64) -> (r: (u32, i64, u32))
    ensures
        r.0 == spec_hour_of(ts as int),
        r.1 == spec_day_of(ts as int),
        r.2 == spec_weekday_of(ts as int),
        r.0 < 24,
        r.2 < 7,
{
    let shifted: u128 = (ts as i128 + TS_SHIFT_SECONDS) as u128;
    let day_sh: u128 = shifted / 86400;
    let rem: u128 = shifted % 86400;
    let hour: u32 = (rem / 3600) as u32;
    let day: i64 = (day_sh as i128 - TS_SHIFT_DAYS) as i64;
    let wd: u32 = ((day_sh + 3) % 7) as u32;
    proof {
        let t = ts as int;
        lemma_fundamental_div_mod(shifted as int, 86400);
        assert(t == 86400 * (day_sh - TS_SHIFT_DAYS) + rem);
        lemma_fundamental_div_mod_converse_div(t, 86400, day_sh as int - TS_SHIFT_DAYS, rem as int);
        lemma_fundamental_div_mod_converse_mod(t, 86400, day_sh as int - TS_SHIFT_DAYS, rem as int);
        // The shift is a whole number of weeks, so the weekday survives.
        lemma_mod_multiples_vanish(15250284452472, t / 86400 + 3, 7);
        assert(day_sh as int + 3 == 7 * 15250284452472 + (t / 86400 + 3));
    }
    (hour, day, wd)
}

/// Number of commits whose timestamp falls in hour `h`.
pub open spec fn spec_hour_count(s: Seq<CommitInfo>, h: int) -> int
    decreases s.len(),
{
    if s.len() == 0 {
        0
    } else {
        spec_hour_count(s.drop_last(), h) + if spec_hour_of(s.last().timestamp as int) == h {
            1int
        } else {
            0
        }
    }
}

/// Number of commits whose timestamp falls on weekday `w`.
pub open spec fn spec_weekday_count(s: Seq<CommitInfo>, w: int) -> int
    decreases s.len(),
{
    if s.len() == 0 {
        0
    } else {
        spec_weekday_count(s.drop_last(), w) + if spec_weekday_of(s.last().timestamp as int) == w {
            1int
        } else {
            0
        }
    }
}

/// Number of commits on calendar day `d`.
pub open spec fn spec_day_count(s: Seq<CommitInfo>, d: int) -> int
    decreases s.len(),
{
    if s.len() == 0 {
        0
    } else {
        spec_day_count(s.drop_last(), d) + if spec_day_of(s.last().timestamp as int) == d {
            1int
        } else {
            0
        }
    }
}

/// Whether some commit of `s` falls on day `d`.
pub open spec fn spec_has_day(s: Seq<CommitInfo>, d: int) -> bool {
    exists|i: int| 0 <= i < s.len() && spec_day_of(s[i].timestamp as int) == d
}

/// Number of distinct calendar days with at least one commit, counted by
/// first appearance.
pub open spec fn spec_active_days(s: Seq<CommitInfo>) -> int
    decreases s.len(),
{
    if s.len() == 0 {
        0
    } else {
        spec_active_days(s.drop_last()) + if spec_has_day(
            s.drop_last(),
            spec_day_of(s.last().timestamp as int),
        ) {
            0int
        } else {
            1
        }
    }
}

/// Covered span in whole days: difference of the newest and oldest
/// timestamps, truncated toward zero, plus one.  Zero for an empty
/// history.
pub open spec fn spec_total_days(s: Seq<CommitInfo>) -> int {
    if s.len() == 0 {
        0
    } else {
        let diff = s[0].timestamp - s[s.len() - 1].timestamp;
        (if diff >= 0 {
            diff / 86400
        } else {
            -((-diff) / 86400)
        }) + 1
    }
}

/// Average commits per day in thousandths: `len * 1000 / total_days`,
/// 0 when the span is empty or inverted.
pub open spec fn spec_avg_milli(s: Seq<CommitInfo>) -> int {
    if spec_total_days(s) > 0 {
        (s.len() as int) * 1000 / spec_total_days(s)
    } else {
        0
    }
}

/// Day-level commit frequency figures.
#[derive(Clone, Debug)]
pub struct CommitFrequency {
    /// Average commits per day, in thousandths.
    pub average_commits_per_day_milli: u64,
    pub max_commits_per_day: u64,
    pub active_days: u64,
    pub total_days: i64,
}

/// Hourly and daily histograms, peak hours and frequency figures of a
/// commit history.
#[derive(Debug)]
pub struct WorkPatterns {
    /// Commits per hour of day; 24 entries.
    pub hourly_distribution: Vec<u64>,
    /// Commits per weekday, Monday first; 7 entries.
    pub daily_distribution: Vec<u64>,
    /// Up to three busiest hours, busiest first; ties favor the earlier
    /// hour.
    pub peak_hours: Vec<u32>,
    /// Name of the weekday with the most commits, "Unknown" when empty;
    /// ties favor the earlier weekday.
    pub most_active_day: String,
    pub commit_frequency: CommitFrequency,
}

proof fn lemma_day_count_zero(s: Seq<CommitInfo>, d: int)
    requires
        !spec_has_day(s, d),
    ensures
        spec_day_count(s, d) == 0,
    decreases s.len(),
{
    if s.len() > 0 {
        assert(forall|i: int|
            0 <= i < s.len() - 1 ==> s.drop_last()[i] == s[i]);
        lemma_day_count_zero(s.drop_last(), d);
    }
}

/// Everything `analyze` promises of its result, as one predicate.
pub open spec fn spec_patterns_ok(p: WorkPatterns, s: Seq<CommitInfo>) -> bool {
    // Histograms: exact counts per hour of day and per weekday.
    &&& p.hourly_distribution@.len() == 24
    &&& forall|h: int| 0 <= h < 24 ==> p.hourly_distribution@[h] == spec_hour_count(s, h)
    &&& p.daily_distribution@.len() == 7
    &&& forall|w: int| 0 <= w < 7 ==> p.daily_distribution@[w] == spec_weekday_count(s, w)
    // Busiest weekday, the earlier one on ties; "Unknown" when empty.
    &&& (s.len() == 0 ==> p.most_active_day@ == "Unknown"@)
    &&& (s.len() > 0 ==> exists|w: int|
        #![trigger spec_weekday_name(w)]
        {
            &&& 0 <= w < 7
            &&& p.most_active_day@ == spec_weekday_name(w)
            &&& forall|v: int|
                0 <= v < 7 ==> spec_weekday_count(s, v) <= spec_weekday_count(s, w)
            &&& forall|v: int|
                0 <= v < w ==> spec_weekday_count(s, v) < spec_weekday_count(s, w)
        })
    // Frequency: span, distinct active days, busiest day, average.
    &&& p.commit_frequency.total_days == spec_total_days(s)
    &&& p.commit_frequency.active_days == spec_active_days(s)
    &&& p.commit_frequency.average_commits_per_day_milli == spec_avg_milli(s)
    &&& forall|d: int| spec_day_count(s, d) <= p.commit_frequency.max_commits_per_day
    &&& (s.len() == 0 ==> p.commit_frequency.max_commits_per_day == 0)
    &&& (s.len() > 0 ==> exists|d: int|
        spec_day_count(s, d) == p.commit_frequency.max_commits_per_day)
    // Peak hours: distinct hours with commits, busiest first, ties to
    // the earlier hour, and nothing busier left out.
    &&& p.peak_hours@.len() <= 3
    &&& forall|a: int|
        0 <= a < p.peak_hours@.len() ==> (#[trigger] p.peak_hours@[a]) < 24 && spec_hour_count(
            s,
            p.peak_hours@[a] as int,
        ) > 0
    &&& forall|a: int, b: int|
        0 <= a < b < p.peak_hours@.len() ==> p.peak_hours@[a] != p.peak_hours@[b]
    &&& forall|a: int, b: int|
        #![trigger p.peak_hours@[a], p.peak_hours@[b]]
        0 <= a < b < p.peak_hours@.len() ==> spec_hour_count(s, p.peak_hours@[a] as int)
            > spec_hour_count(s, p.peak_hours@[b] as int) || (spec_hour_count(
            s,
            p.peak_hours@[a] as int,
        ) == spec_hour_count(s, p.peak_hours@[b] as int) && p.peak_hours@[a] < p.peak_hours@[b])
    &&& forall|h: int, a: int|
        #![trigger spec_hour_count(s, h), p.peak_hours@[a]]
        0 <= h < 24 && spec_hour_count(s, h) > 0 && (forall|b: int|
            0 <= b < p.peak_hours@.len() ==> p.peak_hours@[b] != h) && 0 <= a
            < p.peak_hours@.len() ==> spec_hour_count(s, h) < spec_hour_count(
            s,
            p.peak_hours@[a] as int,
        ) || (spec_hour_count(s, h) == spec_hour_count(s, p.peak_hours@[a] as int) && h
            > p.peak_hours@[a])
    &&& (p.peak_hours@.len() == 3 || (forall|h: int|
        0 <= h < 24 && spec_hour_count(s, h) > 0 ==> exists|b: int|
            0 <= b < p.peak_hours@.len() && p.peak_hours@[b] == h))
}

impl WorkPatterns {
    /// Analyze the temporal pattern of a newest-first commit history.
    ///
    /// Histograms are exact counts per hour of day and per weekday; the
    /// busiest weekday and the up-to-three busiest hours are picked with
    /// ties going to the earlier hour or weekday; the frequency block
    /// counts distinct active days, the busiest day's commits, the
    /// covered span in days and the average commits per day in
    /// thousandths.
    pub fn analyze(commits: &Vec<CommitInfo>) -> (r: WorkPatterns)
        requires
            commits@.len() <= MAX_COMMITS,
        ensures
            spec_patterns_ok(r, commits@),
    {
        let n = commits.len();
        let mut hourly: Vec<u64> = Vec::new();
        let mut daily: Vec<u64> = Vec::new();
        let mut k: usize = 0;
        while k < 24
            invariant
                0 <= k <= 24,
                hourly@.len() == k,
                forall|j: int| 0 <= j < k ==> hourly@[j] == 0,
            decreases 24 - k,
        {
            hourly.push(0);
            k = k + 1;
        }
        let mut k: usize = 0;
        while k < 7
            invariant
                0 <= k <= 7,
                daily@.len() == k,
                forall|j: int| 0 <= j < k ==> daily@[j] == 0,
            decreases 7 - k,
        {
            daily.push(0);
            k = k + 1;
        }
        // Day table: (day index, commit count), in first-appearance order.
        let mut days: Vec<(i64, u64)> = Vec::new();
        let mut i: usize = 0;
        while i < n
            invariant
                n == commits@.len(),
                n <= MAX_COMMITS,
                0 <= i <= n,
                hourly@.len() == 24,
                daily@.len() == 7,
                forall|h: int|
                    0 <= h < 24 ==> hourly@[h] == spec_hour_count(commits@.take(i as int), h),
                forall|w: int|
                    0 <= w < 7 ==> daily@[w] == spec_weekday_count(commits@.take(i as int), w),
                forall|h: int| 0 <= h < 24 ==> hourly@[h] <= i,
                forall|w: int| 0 <= w < 7 ==> daily@[w] <= i,
                days@.len() <= i,
                forall|j: int, l: int|
                    0 <= j < l < days@.len() ==> (#[trigger] days@[j]).0 != (#[trigger] days@[l]).0,
                forall|j: int|
                    0 <= j < days@.len() ==> (#[trigger] days@[j]).1 == spec_day_count(
                        commits@.take(i as int),
                        days@[j].0 as int,
                    ) && days@[j].1 >= 1 && days@[j].1 <= i && spec_has_day(
                        commits@.take(i as int),
                        days@[j].0 as int,
                    ),
                forall|d: int|
                    spec_has_day(commits@.take(i as int), d) ==> exists|j: int|
                        0 <= j < days@.len() && (#[trigger] days@[j]).0 == d,
                days@.len() == spec_active_days(commits@.take(i as int)),
            decreases n - i,
        {
            let ghost prefix = commits@.take(i as int);
            proof {
                assert(commits@.take(i + 1).drop_last() =~= prefix);
                assert(commits@.take(i + 1).last() == commits@[i as int]);
            }
            let ts = commits[i].timestamp;
            let (hour, day, wd) = calendar_of(ts);
            let hc = hourly[hour as usize];
            hourly.set(hour as usize, hc + 1);
            let dc = daily[wd as usize];
            daily.set(wd as usize, dc + 1);
            // Update the day table.
            let mut j: usize = 0;
            let dlen = days.len();
            let mut found: bool = false;
            while j < dlen && !found
                invariant
                    dlen == days@.len(),
                    0 <= j <= dlen,
                    !found ==> forall|l: int| 0 <= l < j ==> (#[trigger] days@[l]).0 != day,
                    found ==> j < dlen && days@[j as int].0 == day,
                decreases dlen - j, (if found { 0int } else { 1int }),
            {
                if days[j].0 == day {
                    found = true;
                } else {
                    j = j + 1;
                }
            }
            let ghost new_prefix = commits@.take(i + 1);
            proof {
                assert forall|d: int| #[trigger]
                    spec_day_count(new_prefix, d) == spec_day_count(prefix, d) + (if spec_day_of(
                    ts as int,
                ) == d {
                    1int
                } else {
                    0
                }) by {}
                assert forall|d: int| #[trigger]
                    spec_has_day(new_prefix, d) == (spec_has_day(prefix, d) || spec_day_of(
                    ts as int,
                ) == d) by {
                    if spec_has_day(prefix, d) {
                        let wit = choose|w: int|
                            0 <= w < prefix.len() && spec_day_of(prefix[w].timestamp as int) == d;
                        assert(new_prefix[wit] == prefix[wit]);
                    }
                    if spec_has_day(new_prefix, d) && spec_day_of(ts as int) != d {
                        let wit = choose|w: int|
                            0 <= w < new_prefix.len() && spec_day_of(
                                new_prefix[w].timestamp as int,
                            ) == d;
                        assert(prefix[wit] == new_prefix[wit]);
                    }
                }
            }
            let ghost old_days = days@;
            if found {
                let entry = days[j];
                days.set(j, (day, entry.1 + 1));
                proof {
                    assert forall|d: int|
                        spec_has_day(new_prefix, d) implies exists|l: int|
                        0 <= l < days@.len() && (#[trigger] days@[l]).0 == d by {
                        if d == spec_day_of(ts as int) {
                            assert(days@[j as int].0 == d);
                        } else {
                            let l = choose|l: int|
                                0 <= l < old_days.len() && (#[trigger] old_days[l]).0 == d;
                            assert(l != j);
                            assert(days@[l].0 == d);
                        }
                    }
                }
            } else {
                days.push((day, 1));
                proof {
                    lemma_day_count_zero(prefix, day as int);
                    assert forall|d: int|
                        spec_has_day(new_prefix, d) implies exists|l: int|
                        0 <= l < days@.len() && (#[trigger] days@[l]).0 == d by {
                        if d == spec_day_of(ts as int) {
                            assert(days@[old_days.len() as int].0 == d);
                        } else {
                            let l = choose|l: int|
                                0 <= l < old_days.len() && (#[trigger] old_days[l]).0 == d;
                            assert(days@[l].0 == d);
                        }
                    }
                }
            }
            i = i + 1;
        }
        proof {
            assert(commits@.take(n as int) =~= commits@);
        }
        // Busiest weekday, earliest index on ties.
        let mut best_w: u32 = 0;
        let mut best_c: u64 = daily[0];
        let mut w: usize = 1;
        while w < 7
            invariant
                daily@.len() == 7,
                forall|v: int| 0 <= v < 7 ==> daily@[v] == spec_weekday_count(commits@, v),
                0 <= best_w < w <= 7,
                1 <= w,
                best_c == daily@[best_w as int],
                forall|v: int| 0 <= v < w ==> daily@[v] <= best_c,
                forall|v: int| 0 <= v < best_w ==> daily@[v] < best_c,
            decreases 7 - w,
        {
            if daily[w] > best_c {
                best_w = w as u32;
                best_c = daily[w];
            }
            w = w + 1;
        }
        let most_active_day: String = if n == 0 {
            "Unknown".to_owned()
        } else {
            weekday_name(best_w).to_owned()
        };
        // Busiest day of the calendar.
        let mut max_day: u64 = 0;
        let ghost mut max_witness: int = 0int;
        let mut j: usize = 0;
        let dlen = days.len();
        proof {
            if n > 0 {
                assert(spec_has_day(commits@, spec_day_of(commits@[n - 1].timestamp as int)));
            }
            if dlen == 0 {
                assert(forall|d: int|
                    !spec_has_day(commits@, d) ==> spec_day_count(commits@, d) == 0) by {
                    assert forall|d: int| !spec_has_day(commits@, d) implies spec_day_count(
                        commits@,
                        d,
                    ) == 0 by {
                        lemma_day_count_zero(commits@, d);
                    }
                }
            }
        }
        while j < dlen
            invariant
                dlen == days@.len(),
                0 <= j <= dlen,
                forall|l: int|
                    0 <= l < dlen ==> (#[trigger] days@[l]).1 == spec_day_count(
                        commits@,
                        days@[l].0 as int,
                    ) && days@[l].1 >= 1,
                forall|l: int| 0 <= l < j ==> (#[trigger] days@[l]).1 <= max_day,
                max_day == 0 || spec_day_count(commits@, max_witness) == max_day,
            decreases dlen - j,
        {
            if days[j].1 > max_day {
                max_day = days[j].1;
                proof {
                    max_witness = days@[j as int].0 as int;
                }
            }
            j = j + 1;
        }
        proof {
            assert forall|d: int| spec_day_count(commits@, d) <= max_day by {
                if spec_has_day(commits@, d) {
                    let l = choose|l: int| 0 <= l < days@.len() && (#[trigger] days@[l]).0 == d;
                    assert(days@[l].1 <= max_day);
                } else {
                    lemma_day_count_zero(commits@, d);
                }
            }
            if n > 0 {
                assert(days@.len() > 0);
                assert(days@[0].1 >= 1);
                assert(max_day > 0);
            }
        }
        // Covered span and average.
        let total_days: i64 = if n == 0 {
            0
        } else {
            let diff: i128 = commits[0].timestamp as i128 - commits[n - 1].timestamp as i128;
            if diff >= 0 {
                ((diff as u128) / 86400) as i64 + 1
            } else {
                -((((-diff) as u128) / 86400) as i64) + 1
            }
        };
        let avg_milli: u64 = if total_days > 0 && n > 0 {
            (n as u64 * 1000) / (total_days as u64)
        } else {
            0
        };
        proof {
            if n > 0 && total_days <= 0 {
                assert(spec_avg_milli(commits@) == 0);
            }
            if n == 0 {
                assert(spec_avg_milli(commits@) == 0);
            }
        }
        // Up to three busiest hours.
        let mut peaks: Vec<u32> = Vec::new();
        let mut round: usize = 0;
        let mut done: bool = false;
        while round < 3 && !done
            invariant
                hourly@.len() == 24,
                forall|h: int| 0 <= h < 24 ==> hourly@[h] == spec_hour_count(commits@, h),
                0 <= round <= 3,
                peaks@.len() == round || (done && peaks@.len() == round),
                peaks@.len() <= round,
                !done ==> peaks@.len() == round,
                forall|a: int|
                    0 <= a < peaks@.len() ==> (#[trigger] peaks@[a]) < 24 && hourly@[peaks@[a] as int]
                        > 0,
                forall|a: int, b: int|
                    0 <= a < b < peaks@.len() ==> peaks@[a] != peaks@[b],
                forall|a: int, b: int|
                    #![trigger peaks@[a], peaks@[b]]
                    0 <= a < b < peaks@.len() ==> hourly@[peaks@[a] as int]
                        > hourly@[peaks@[b] as int] || (hourly@[peaks@[a] as int]
                        == hourly@[peaks@[b] as int] && peaks@[a] < peaks@[b]),
                forall|h: int, a: int|
                    #![trigger hourly@[h], peaks@[a]]
                    0 <= h < 24 && hourly@[h] > 0 && (forall|b: int|
                        0 <= b < peaks@.len() ==> peaks@[b] != h) && 0 <= a < peaks@.len()
                        ==> hourly@[h] < hourly@[peaks@[a] as int] || (hourly@[h]
                        == hourly@[peaks@[a] as int] && h > peaks@[a]),
                done ==> forall|h: int|
                    0 <= h < 24 && hourly@[h] > 0 ==> exists|b: int|
                        0 <= b < peaks@.len() && peaks@[b] == h,
            decreases 3 - round, (if done { 0int } else { 1int }),
        {
            // One selection round: the busiest unpicked hour, earliest on
            // ties.
            let mut best: u32 = 24;
            let mut best_cnt: u64 = 0;
            let mut h: usize = 0;
            while h < 24
                invariant
                    hourly@.len() == 24,
                    0 <= h <= 24,
                    peaks@.len() <= 3,
                    forall|a: int| 0 <= a < peaks@.len() ==> (#[trigger] peaks@[a]) < 24,
                    best == 24 || (best < 24 && best < h && best_cnt == hourly@[best as int]
                        && best_cnt > 0 && (forall|b: int|
                        0 <= b < peaks@.len() ==> peaks@[b] != best)),
                    best == 24 ==> best_cnt == 0,
                    forall|g: int|
                        0 <= g < h && hourly@[g] > 0 && (forall|b: int|
                            0 <= b < peaks@.len() ==> peaks@[b] != g) ==> (best < 24 && (hourly@[g]
                            < best_cnt || (hourly@[g] == best_cnt && g >= best))),
                decreases 24 - h,
            {
                // Skip hours already picked.
                let mut picked: bool = false;
                let mut b: usize = 0;
                let plen = peaks.len();
                while b < plen && !picked
                    invariant
                        plen == peaks@.len(),
                        0 <= b <= plen,
                        h < 24,
                        !picked ==> forall|l: int| 0 <= l < b ==> (#[trigger] peaks@[l]) != h,
                        picked ==> exists|l: int| 0 <= l < plen && (#[trigger] peaks@[l]) == h,
                    decreases plen - b, (if picked { 0int } else { 1int }),
                {
                    if peaks[b] == h as u32 {
                        picked = true;
                    } else {
                        b = b + 1;
                    }
                }
                if !picked {
                    let cnt = hourly[h];
                    if cnt > 0 && (best == 24 || cnt > best_cnt) {
                        best = h as u32;
                        best_cnt = cnt;
                    }
                }
                h = h + 1;
            }
            let ghost old_peaks = peaks@;
            if best < 24 {
                peaks.push(best);
                proof {
                    assert forall|a: int, b: int|
                        #![trigger peaks@[a], peaks@[b]]
                        0 <= a < b < peaks@.len() implies hourly@[peaks@[a] as int]
                        > hourly@[peaks@[b] as int] || (hourly@[peaks@[a] as int]
                        == hourly@[peaks@[b] as int] && peaks@[a] < peaks@[b]) by {
                        if b == peaks@.len() - 1 {
                            assert(peaks@[a] == old_peaks[a]);
                            assert(peaks@[b] == best);
                            assert(hourly@[best as int] < hourly@[old_peaks[a] as int] || (
                            hourly@[best as int] == hourly@[old_peaks[a] as int] && best
                                > old_peaks[a]));
                        } else {
                            assert(peaks@[a] == old_peaks[a] && peaks@[b] == old_peaks[b]);
                        }
                    }
                    assert forall|h: int, a: int|
                        #![trigger hourly@[h], peaks@[a]]
                        0 <= h < 24 && hourly@[h] > 0 && (forall|b: int|
                            0 <= b < peaks@.len() ==> peaks@[b] != h) && 0 <= a < peaks@.len()
                        implies hourly@[h] < hourly@[peaks@[a] as int] || (hourly@[h]
                        == hourly@[peaks@[a] as int] && h > peaks@[a]) by {
                        assert(forall|b: int| 0 <= b < old_peaks.len() ==> old_peaks[b]
                            == peaks@[b]);
                        assert(peaks@[peaks@.len() - 1] == best);
                        assert(h != best);
                        if a < peaks@.len() - 1 {
                            assert(peaks@[a] == old_peaks[a]);
                        } else {
                            assert(peaks@[a] == best);
                        }
                    }
                }
                round = round + 1;
            } else {
                proof {
                    assert forall|h: int|
                        0 <= h < 24 && hourly@[h] > 0 implies exists|b: int|
                        0 <= b < peaks@.len() && peaks@[b] == h by {
                        if forall|b: int| 0 <= b < peaks@.len() ==> peaks@[b] != h {
                            assert(false);
                        }
                    }
                }
                done = true;
            }
        }
        WorkPatterns {
            hourly_distribution: hourly,
            daily_distribution: daily,
            peak_hours: peaks,
            most_active_day,
            commit_frequency: CommitFrequency {
                average_commits_per_day_milli: avg_milli,
                max_commits_per_day: max_day,
                active_days: days.len() as u64,
                total_days,
            },
        }
    }
}


// ---------------------------------------------------------------------------
// Determinism
// ---------------------------------------------------------------------------
proof fn lemma_peaks_agree_upto(p: WorkPatterns, q: WorkPatterns, s: Seq<CommitInfo>, k: int)
    requires
        spec_patterns_ok(p, s),
        spec_patterns_ok(q, s),
        0 <= k <= p.peak_hours@.len(),
        k <= q.peak_hours@.len(),
    ensures
        forall|j: int| 0 <= j < k ==> p.peak_hours@[j] == q.peak_hours@[j],
    decreases k,
{
    if k > 0 {
        lemma_peaks_agree_upto(p, q, s, k - 1);
        let a = p.peak_hours@;
        let b = q.peak_hours@;
        let i = k - 1;
        if a[i] != b[i] {
            // The hour at position i of one list beats the other's, both
            // ways round: a contradiction.
            assert(spec_hour_count(s, a[i] as int) > spec_hour_count(s, b[i] as int) || (
            spec_hour_count(s, a[i] as int) == spec_hour_count(s, b[i] as int) && a[i]
                < b[i])) by {
                assert(spec_hour_count(s, b[i] as int) > 0);
                if exists|j: int| 0 <= j < a.len() && a[j] == b[i] {
                    let j = choose|j: int| 0 <= j < a.len() && a[j] == b[i];
                    if j < i {
                        assert(a[j] == b[j]);
                        assert(false);
                    }
                } else {
                    assert(forall|j: int| 0 <= j < a.len() ==> a[j] != b[i]);
                }
            }
            assert(spec_hour_count(s, b[i] as int) > spec_hour_count(s, a[i] as int) || (
            spec_hour_count(s, b[i] as int) == spec_hour_count(s, a[i] as int) && b[i]
                < a[i])) by {
                assert(spec_hour_count(s, a[i] as int) > 0);
                if exists|j: int| 0 <= j < b.len() && b[j] == a[i] {
                    let j = choose|j: int| 0 <= j < b.len() && b[j] == a[i];
                    if j < i {
                        assert(b[j] == a[j]);
                        assert(false);
                    }
                } else {
                    assert(forall|j: int| 0 <= j < b.len() ==> b[j] != a[i]);
                }
            }
            assert(false);
        }
    }
}

/// The pattern analysis is a function of the history: any two results
/// satisfying [`spec_patterns_ok`] for the same commits agree in every
/// field.
pub proof fn lemma_patterns_deterministic(p: WorkPatterns, q: WorkPatterns, s: Seq<CommitInfo>)
    requires
        spec_patterns_ok(p, s),
        spec_patterns_ok(q, s),
    ensures
        p.hourly_distribution@ == q.hourly_distribution@,
        p.daily_distribution@ == q.daily_distribution@,
        p.peak_hours@ == q.peak_hours@,
        p.most_active_day@ == q.most_active_day@,
        p.commit_frequency.average_commits_per_day_milli
            == q.commit_frequency.average_commits_per_day_milli,
        p.commit_frequency.max_commits_per_day == q.commit_frequency.max_commits_per_day,
        p.commit_frequency.active_days == q.commit_frequency.active_days,
        p.commit_frequency.total_days == q.commit_frequency.total_days,
{
    assert forall|h: int| 0 <= h < 24 implies p.hourly_distribution@[h]
        == q.hourly_distribution@[h] by {
        assert(p.hourly_distribution@[h] == spec_hour_count(s, h));
        assert(q.hourly_distribution@[h] == spec_hour_count(s, h));
    }
    assert(p.hourly_distribution@ =~= q.hourly_distribution@);
    assert forall|w: int| 0 <= w < 7 implies p.daily_distribution@[w]
        == q.daily_distribution@[w] by {
        assert(p.daily_distribution@[w] == spec_weekday_count(s, w));
        assert(q.daily_distribution@[w] == spec_weekday_count(s, w));
    }
    assert(p.daily_distribution@ =~= q.daily_distribution@);
    if s.len() > 0 {
        // The busiest weekday is unique: each witness weakly dominates
        // everything and strictly dominates all lower indices.
        let w1 = choose|w: int|
            #![trigger spec_weekday_name(w)]
            {
                &&& 0 <= w < 7
                &&& p.most_active_day@ == spec_weekday_name(w)
                &&& forall|v: int|
                    0 <= v < 7 ==> spec_weekday_count(s, v) <= spec_weekday_count(s, w)
                &&& forall|v: int|
                    0 <= v < w ==> spec_weekday_count(s, v) < spec_weekday_count(s, w)
            };
        let w2 = choose|w: int|
            #![trigger spec_weekday_name(w)]
            {
                &&& 0 <= w < 7
                &&& q.most_active_day@ == spec_weekday_name(w)
                &&& forall|v: int|
                    0 <= v < 7 ==> spec_weekday_count(s, v) <= spec_weekday_count(s, w)
                &&& forall|v: int|
                    0 <= v < w ==> spec_weekday_count(s, v) < spec_weekday_count(s, w)
            };
        assert(w1 == w2) by {
            if w1 < w2 {
                assert(spec_weekday_count(s, w1) < spec_weekday_count(s, w2));
                assert(spec_weekday_count(s, w2) <= spec_weekday_count(s, w1));
            }
            if w2 < w1 {
                assert(spec_weekday_count(s, w2) < spec_weekday_count(s, w1));
                assert(spec_weekday_count(s, w1) <= spec_weekday_count(s, w2));
            }
        }
        // The busiest day's count is unique: both are the maximum.
        let d1 = choose|d: int|
            spec_day_count(s, d) == p.commit_frequency.max_commits_per_day;
        let d2 = choose|d: int|
            spec_day_count(s, d) == q.commit_frequency.max_commits_per_day;
        assert(spec_day_count(s, d1) <= q.commit_frequency.max_commits_per_day);
        assert(spec_day_count(s, d2) <= p.commit_frequency.max_commits_per_day);
    }
    // The peak lists agree position by position; a length difference
    // would leave a listed hour of the longer list out of the shorter
    // one, though the shorter list covers every busy hour.
    let a = p.peak_hours@;
    let b = q.peak_hours@;
    if a.len() <= b.len() {
        lemma_peaks_agree_upto(p, q, s, a.len() as int);
        if a.len() < b.len() {
            let h = b[a.len() as int];
            assert(spec_hour_count(s, h as int) > 0);
            assert(exists|j: int| 0 <= j < a.len() && a[j] == h);
            let j = choose|j: int| 0 <= j < a.len() && a[j] == h;
            assert(b[j] == a[j]);
            assert(false);
        }
    } else {
        lemma_peaks_agree_upto(p, q, s, b.len() as int);
        let h = a[b.len() as int];
        assert(spec_hour_count(s, h as int) > 0);
        assert(exists|j: int| 0 <= j < b.len() && b[j] == h);
        let j = choose|j: int| 0 <= j < b.len() && b[j] == h;
        assert(a[j] == b[j]);
        assert(false);
    }
    assert(a =~= b);
}

/// Weekday names, Monday first.
pub open spec fn spec_weekday_name(w: int) -> Seq<char> {
    if w == 0 { "Monday"@ }
    else if w == 1 { "Tuesday"@ }
    else if w == 2 { "Wednesday"@ }
    else if w == 3 { "Thursday"@ }
    else if w == 4 { "Friday"@ }
    else if w == 5 { "Saturday"@ }
    else { "Sunday"@ }
}

/// Weekday name for an index, Monday first.
pub fn weekday_name(w: u32) -> (r: &'static str)
    requires
        w < 7,
    ensures
        r@ == spec_weekday_name(w as int),
{
    if w == 0 { "Monday" }
    else if w == 1 { "Tuesday" }
    else if w == 2 { "Wednesday" }
    else if w == 3 { "Thursday" }
    else if w == 4 { "Friday" }
    else if w == 5 { "Saturday" }
    else { "Sunday" }
}

} // verus!
