//! Effort estimation over a commit history.
//!
//! Commits arrive newest first.  Each commit's effort blends a time-based
//! figure (the gap to the next older commit, truncated to whole minutes
//! and clamped to the session threshold) with a change-based figure
//! (weighted changed lines at a throughput of 20 lines per hour, scaled
//! by a file-count complexity factor).  To keep every result exact, all
//! effort is measured in integer units of 1/30000 hour: one minute of the
//! time-based figure is 500 units, so 60% of it is exactly 300 units, and
//! the change-based figure of a commit with weighted tenths `w` and
//! complexity tenths `cf` is exactly `15*w*cf` units, 40% of which is
//! exactly `6*w*cf`.
use vstd::prelude::*;
use vstd::arithmetic::mul::lemma_mul_upper_bound;
use vstd::arithmetic::div_mod::lemma_div_is_ordered;
use crate::commit::{CommitInfo, LanguageChange};
use crate::lang::{lang_of_tag, lang_weight_tenths, LANG_COUNT};

verus! {

/// Gaps longer than this start a new work session (4 hours).
pub const MAX_SESSION_GAP_SECONDS: i64 = 14400;

/// Effort units per hour: 1 unit is 1/30000 hour, the smallest grain at
/// which every figure of the heuristic is an integer.
pub const UNITS_PER_HOUR: u64 = 30000;

/// Assumed throughput for the change-based figure, lines per hour.
pub const LINES_PER_HOUR: u64 = 20;

/// Upper bound on changed lines recorded in one breakdown slot.
pub const SLOT_LINES_CAP: u64 = 0x2_0000_0000;

/// Upper bound on the weighted tenths of one commit.
pub const WEIGHTED_CAP: u64 = 0x800_0000_0000;

/// Upper bound on the effort units of one commit.
pub const COMMIT_UNITS_CAP: u64 = 0x8_0000_0000_0000;

// ---------------------------------------------------------------------------
// Specification
// ---------------------------------------------------------------------------
/// Changed lines recorded in one breakdown slot.
pub open spec fn slot_lines(o: Option<LanguageChange>) -> int {
    match o {
        Some(c) => c.insertions + c.deletions,
        None => 0,
    }
}

/// Weighted changed lines (in tenths) over the first `n` breakdown slots.
pub open spec fn spec_weighted_upto(s: Seq<Option<LanguageChange>>, n: int) -> int
    decreases n,
{
    if n <= 0 {
        0
    } else {
        spec_weighted_upto(s, n - 1) + slot_lines(s[n - 1]) * lang_weight_tenths(
            lang_of_tag(n - 1),
        )
    }
}

/// Total changed lines over the first `n` breakdown slots.
pub open spec fn spec_slot_total_upto(s: Seq<Option<LanguageChange>>, n: int) -> int
    decreases n,
{
    if n <= 0 {
        0
    } else {
        spec_slot_total_upto(s, n - 1) + slot_lines(s[n - 1])
    }
}

/// Weighted changed lines of a commit, in tenths.  When the breakdown
/// attributes no lines but the commit did change lines, the raw line
/// count falls back in with weight 1.0.
pub open spec fn spec_commit_weighted(c: CommitInfo) -> int {
    let w = spec_weighted_upto(c.language_changes@, LANG_COUNT as int);
    let tot = spec_slot_total_upto(c.language_changes@, LANG_COUNT as int);
    if tot == 0 && c.insertions + c.deletions > 0 {
        (c.insertions + c.deletions) * 10
    } else {
        w
    }
}

/// File-count complexity factor in tenths: 1.0 up to 5 files, 1.2 up to
/// 10, 1.4 beyond.
pub open spec fn spec_complexity_tenths(files_changed: int) -> int {
    if files_changed <= 5 {
        10
    } else if files_changed <= 10 {
        12
    } else {
        14
    }
}

/// Minutes of the time-based figure for a gap of `gap_secs` seconds:
/// whole minutes, never negative, clamped at 4 hours.
pub open spec fn spec_time_minutes(gap_secs: int) -> int {
    if gap_secs <= 0 {
        0
    } else if gap_secs / 60 > 240 {
        240
    } else {
        gap_secs / 60
    }
}

/// Effort units of commit `i` of the newest-first sequence `s`: the
/// hybrid of the time-based figure (gap to the next older commit; 0 for
/// the oldest) and the change-based figure, 60%/40% when a gap exists.
pub open spec fn spec_commit_units(s: Seq<CommitInfo>, i: int) -> int {
    let wc = spec_commit_weighted(s[i]) * spec_complexity_tenths(s[i].files_changed as int);
    let m = if i < s.len() - 1 {
        spec_time_minutes(s[i].timestamp - s[i + 1].timestamp)
    } else {
        0
    };
    if m > 0 {
        300 * m + 6 * wc
    } else {
        15 * wc
    }
}

/// Total effort units of the first `n` commits.
pub open spec fn spec_total_units_upto(s: Seq<CommitInfo>, n: int) -> int
    decreases n,
{
    if n <= 0 {
        0
    } else {
        spec_total_units_upto(s, n - 1) + spec_commit_units(s, n - 1)
    }
}

/// Total effort units of the whole sequence.
pub open spec fn spec_total_units(s: Seq<CommitInfo>) -> int {
    spec_total_units_upto(s, s.len() as int)
}

// ---------------------------------------------------------------------------
// Executable estimator
// ---------------------------------------------------------------------------
/// Converts a commit history into effort figures and work sessions.
pub struct TimeEstimator;

impl TimeEstimator {
    pub fn new() -> (r: Self) {
        TimeEstimator
    }

    /// Weighted tenths and complexity tenths of one commit.
    fn weighted_and_complexity(c: &CommitInfo) -> (r: (u64, u64))
        requires
            c.wf(),
        ensures
            r.0 == spec_commit_weighted(*c),
            r.0 <= WEIGHTED_CAP,
            r.1 == spec_complexity_tenths(c.files_changed as int),
            10 <= r.1 <= 14,
    {
        let ghost slots = c.language_changes@;
        let mut weighted: u64 = 0;
        let mut total: u64 = 0;
        let mut i: usize = 0;
        while i < LANG_COUNT
            invariant
                c.wf(),
                slots == c.language_changes@,
                0 <= i <= LANG_COUNT,
                weighted == spec_weighted_upto(slots, i as int),
                total == spec_slot_total_upto(slots, i as int),
                weighted <= i * 0x1E_0000_0000,
                total <= i * 0x2_0000_0000,
            decreases LANG_COUNT - i,
        {
            let l = crate::lang::language_of_index(i);
            match c.language_changes.get(l) {
                Some(ch) => {
                    let lines: u64 = ch.insertions as u64 + ch.deletions as u64;
                    let w: u64 = l.weight_tenths() as u64;
                    proof {
                        assert(lines < SLOT_LINES_CAP);
                        assert(w <= 15);
                        lemma_mul_upper_bound(
                            lines as int,
                            SLOT_LINES_CAP as int,
                            w as int,
                            15,
                        );
                    }
                    proof {
                        assert(lines * w <= 0x1E_0000_0000);
                    }
                    weighted = weighted + lines * w;
                    total = total + lines;
                },
                None => {},
            }
            i = i + 1;
        }
        let complexity: u64 = if c.files_changed <= 5 {
            10
        } else if c.files_changed <= 10 {
            12
        } else {
            14
        };
        if total == 0 && (c.insertions > 0 || c.deletions > 0) {
            let raw: u64 = c.insertions as u64 + c.deletions as u64;
            (raw * 10, complexity)
        } else {
            (weighted, complexity)
        }
    }

    /// Effort units of commit `i`, given the next older commit's
    /// timestamp when there is one.
    fn commit_units(c: &CommitInfo, older_ts: Option<i64>) -> (r: u64)
        requires
            c.wf(),
        ensures
            ({
                let wc = spec_commit_weighted(*c) * spec_complexity_tenths(
                    c.files_changed as int,
                );
                let m = match older_ts {
                    Some(t) => spec_time_minutes(c.timestamp - t),
                    None => 0int,
                };
                r == if m > 0 {
                    300 * m + 6 * wc
                } else {
                    15 * wc
                }
            }),
            r <= COMMIT_UNITS_CAP,
    {
        let (w, cf) = Self::weighted_and_complexity(c);
        proof {
            lemma_mul_upper_bound(w as int, WEIGHTED_CAP as int, cf as int, 14);
        }
        let wc: u64 = w * cf;
        let m: u64 = match older_ts {
            Some(t) => {
                let gap: i128 = c.timestamp as i128 - t as i128;
                if gap <= 0 {
                    0
                } else if gap > MAX_SESSION_GAP_SECONDS as i128 {
                    proof {
                        lemma_div_is_ordered(14400, gap as int, 60);
                    }
                    240
                } else {
                    (gap as u64) / 60
                }
            },
            None => 0,
        };
        if m > 0 {
            300 * m + 6 * wc
        } else {
            15 * wc
        }
    }

    /// Total estimated effort units of a newest-first commit sequence.
    ///
    /// The result is exactly [`spec_total_units`]; an empty history
    /// yields 0.
    pub fn estimate_work_hours(&self, commits: &Vec<CommitInfo>) -> (r: u128)
        requires
            forall|i: int| 0 <= i < commits@.len() ==> (#[trigger] commits@[i]).wf(),
        ensures
            r == spec_total_units(commits@),
            r <= commits@.len() * 0x8_0000_0000_0000,
    {
        let n = commits.len();
        let mut total: u128 = 0;
        let mut i: usize = 0;
        while i < n
            invariant
                n == commits@.len(),
                forall|j: int| 0 <= j < commits@.len() ==> (#[trigger] commits@[j]).wf(),
                0 <= i <= n,
                total == spec_total_units_upto(commits@, i as int),
                total <= i * 0x8_0000_0000_0000,
            decreases n - i,
        {
            let older_ts: Option<i64> = if i + 1 < n {
                Some(commits[i + 1].timestamp)
            } else {
                None
            };
            let u = Self::commit_units(&commits[i], older_ts);
            total = total + u as u128;
            i = i + 1;
        }
        total
    }
}

impl Default for TimeEstimator {
    fn default() -> (r: Self) {
        TimeEstimator::new()
    }
}

// ---------------------------------------------------------------------------
// Work sessions
// ---------------------------------------------------------------------------
/// A contiguous run of commits with no gap above the session threshold.
/// `start` is the newest commit's timestamp, `end` the oldest's.
#[derive(Debug)]
pub struct WorkSession {
    pub start: i64,
    pub end: i64,
    pub commits: Vec<CommitInfo>,
    pub estimated_units: u128,
}

/// Greedy partition of a newest-first history into sessions: each commit
/// joins the current session when its gap to the previous commit is at
/// most the threshold, and starts a new session otherwise.
pub open spec fn spec_partition(s: Seq<CommitInfo>) -> Seq<Seq<CommitInfo>>
    decreases s.len(),
{
    if s.len() == 0 {
        Seq::empty()
    } else if s.len() == 1 {
        seq![s]
    } else {
        let p = spec_partition(s.drop_last());
        let c = s.last();
        if s[s.len() - 2].timestamp - c.timestamp <= MAX_SESSION_GAP_SECONDS {
            p.update(p.len() - 1, p.last().push(c))
        } else {
            p.push(seq![c])
        }
    }
}

/// Structure of the partition: it is never empty for a non-empty history,
/// no session is empty, and the last session ends with the last commit.
pub proof fn lemma_partition_shape(s: Seq<CommitInfo>)
    requires
        s.len() > 0,
    ensures
        spec_partition(s).len() > 0,
        forall|j: int| 0 <= j < spec_partition(s).len() ==> (#[trigger] spec_partition(s)[j]).len() > 0,
        spec_partition(s).last().last() == s.last(),
    decreases s.len(),
{
    if s.len() > 1 {
        lemma_partition_shape(s.drop_last());
        let p = spec_partition(s.drop_last());
        let q = spec_partition(s);
        if s[s.len() - 2].timestamp - s.last().timestamp <= MAX_SESSION_GAP_SECONDS {
            assert(forall|j: int| 0 <= j < q.len() - 1 ==> q[j] == p[j]);
            assert(q.last() == p.last().push(s.last()));
        }
    }
}

/// A well-formed produced session: non-empty, boundaries taken from its
/// own commits, effort computed over exactly its commits.
pub open spec fn session_ok(ws: WorkSession) -> bool {
    &&& ws.commits@.len() > 0
    &&& ws.start == ws.commits@[0].timestamp
    &&& ws.end == ws.commits@.last().timestamp
    &&& ws.estimated_units == spec_total_units(ws.commits@)
    &&& forall|k: int| 0 <= k < ws.commits@.len() ==> (#[trigger] ws.commits@[k]).wf()
}

/// The commit sequences of a list of sessions.
pub open spec fn session_seqs(ws: Seq<WorkSession>) -> Seq<Seq<CommitInfo>> {
    ws.map_values(|w: WorkSession| w.commits@)
}

impl TimeEstimator {
    /// Split a newest-first history into work sessions.
    ///
    /// The sessions' commit sequences are exactly [`spec_partition`] of
    /// the input, each with its boundaries and its own effort figure.
    pub fn estimate_session_hours(&self, commits: Vec<CommitInfo>) -> (r: Vec<WorkSession>)
        requires
            forall|i: int| 0 <= i < commits@.len() ==> (#[trigger] commits@[i]).wf(),
        ensures
            ({
                let p = spec_partition(commits@);
                &&& r@.len() == p.len()
                &&& forall|j: int|
                    0 <= j < p.len() ==> (#[trigger] r@[j]).commits@ == p[j] && session_ok(r@[j])
            }),
    {
        let ghost orig = commits@;
        let mut remaining = commits;
        let mut sessions: Vec<WorkSession> = Vec::new();
        if remaining.len() == 0 {
            return sessions;
        }
        let total_n = remaining.len();
        let first = remaining.remove(0);
        proof {
            assert(remaining@ =~= orig.skip(1));
        }
        let mut cur_start = first.timestamp;
        let mut current: Vec<CommitInfo> = Vec::new();
        current.push(first);
        proof {
            assert(current@ =~= orig.take(1));
            assert(session_seqs(sessions@).push(current@) =~= seq![orig.take(1)]);
        }
        let mut i: usize = 1;
        while i < total_n
            invariant
                total_n == orig.len(),
                forall|k: int| 0 <= k < orig.len() ==> (#[trigger] orig[k]).wf(),
                1 <= i <= total_n,
                remaining@ == orig.skip(i as int),
                current@.len() >= 1,
                current@.len() <= i,
                current@ == orig.subrange(i - current@.len(), i as int),
                cur_start == current@[0].timestamp,
                spec_partition(orig.take(i as int)) == session_seqs(sessions@).push(current@),
                forall|j: int| 0 <= j < sessions@.len() ==> session_ok(#[trigger] sessions@[j]),
            decreases total_n - i,
        {
            let ghost part_before = spec_partition(orig.take(i as int));
            proof {
                assert(orig.take(i + 1).drop_last() =~= orig.take(i as int));
                assert(orig.take(i + 1).last() == orig[i as int]);
                assert(orig.take(i + 1)[i - 1] == orig[i - 1]);
                assert(current@.last() == orig[i - 1]);
            }
            let last_ts = current[current.len() - 1].timestamp;
            let ghost remaining_before = remaining@;
            let c = remaining.remove(0);
            proof {
                assert(remaining@ =~= orig.skip(i + 1));
                assert(c == orig[i as int]);
            }
            let gap: i128 = last_ts as i128 - c.timestamp as i128;
            if gap <= MAX_SESSION_GAP_SECONDS as i128 {
                current.push(c);
                proof {
                    assert(session_seqs(sessions@).push(current@) =~= part_before.update(
                        part_before.len() - 1,
                        part_before.last().push(orig[i as int]),
                    ));
                    assert(current@ =~= orig.subrange(i + 1 - current@.len(), i + 1));
                }
            } else {
                let units = self.estimate_work_hours(&current);
                let end_ts = current[current.len() - 1].timestamp;
                let ws = WorkSession {
                    start: cur_start,
                    end: end_ts,
                    commits: current,
                    estimated_units: units,
                };
                sessions.push(ws);
                cur_start = c.timestamp;
                current = Vec::new();
                current.push(c);
                proof {
                    assert(session_seqs(sessions@) =~= session_seqs(sessions@.drop_last()).push(
                        sessions@.last().commits@,
                    ));
                    assert(session_seqs(sessions@).push(current@) =~= part_before.push(
                        seq![orig[i as int]],
                    ));
                    assert(current@ =~= orig.subrange(i + 1 - current@.len(), i + 1));
                }
            }
            i = i + 1;
        }
        let units = self.estimate_work_hours(&current);
        let end_ts = current[current.len() - 1].timestamp;
        let ws = WorkSession {
            start: cur_start,
            end: end_ts,
            commits: current,
            estimated_units: units,
        };
        sessions.push(ws);
        proof {
            assert(orig.take(total_n as int) =~= orig);
            assert(session_seqs(sessions@) =~= session_seqs(sessions@.drop_last()).push(
                sessions@.last().commits@,
            ));
            assert forall|j: int| 0 <= j < spec_partition(orig).len() implies (#[trigger] sessions@[j]).commits@
                == spec_partition(orig)[j] && session_ok(sessions@[j]) by {
                assert(session_seqs(sessions@)[j] == sessions@[j].commits@);
            }
        }
        sessions
    }
}

// ---------------------------------------------------------------------------
// Laws of the partition
// ---------------------------------------------------------------------------
/// Within a session, adjacent commits are never more than the threshold
/// apart; across a session boundary, the gap always exceeds it.
#[verifier::rlimit(60)]
pub proof fn lemma_session_gap_bounds(s: Seq<CommitInfo>)
    ensures
        forall|j: int, k: int|
            #![trigger spec_partition(s)[j][k]]
            0 <= j < spec_partition(s).len() && 1 <= k < spec_partition(s)[j].len()
                ==> spec_partition(s)[j][k - 1].timestamp - spec_partition(s)[j][k].timestamp
                <= MAX_SESSION_GAP_SECONDS,
        forall|j: int|
            #![trigger spec_partition(s)[j]]
            1 <= j < spec_partition(s).len() ==> spec_partition(s)[j - 1].last().timestamp
                - spec_partition(s)[j][0].timestamp > MAX_SESSION_GAP_SECONDS,
    decreases s.len(),
{
    if s.len() <= 1 {
    } else {
        lemma_session_gap_bounds(s.drop_last());
        lemma_partition_shape(s.drop_last());
        let p = spec_partition(s.drop_last());
        let q = spec_partition(s);
        let c = s.last();
        if s[s.len() - 2].timestamp - c.timestamp <= MAX_SESSION_GAP_SECONDS {
            lemma_partition_shape(s.drop_last());
            assert(q.len() == p.len());
            assert(forall|j: int| 0 <= j < q.len() - 1 ==> q[j] == p[j]);
            assert(q.last() == p.last().push(c));
            assert(p.last().last() == s.drop_last().last());
            assert(s.drop_last().last() == s[s.len() - 2]);
            assert forall|j: int, k: int|
                #![trigger q[j][k]]
                0 <= j < q.len() && 1 <= k < q[j].len() implies q[j][k - 1].timestamp
                - q[j][k].timestamp <= MAX_SESSION_GAP_SECONDS by {
                if j < q.len() - 1 {
                    assert(q[j] == p[j]);
                } else {
                    if k < q[j].len() - 1 {
                        assert(q[j][k - 1] == p[j][k - 1] && q[j][k] == p[j][k]);
                    } else {
                        assert(q[j][k] == c);
                        assert(q[j][k - 1] == p.last().last());
                    }
                }
            }
            assert forall|j: int|
                #![trigger q[j]]
                1 <= j < q.len() implies q[j - 1].last().timestamp
                - q[j][0].timestamp > MAX_SESSION_GAP_SECONDS by {
                if j < q.len() - 1 {
                    assert(q[j - 1] == p[j - 1] && q[j] == p[j]);
                } else {
                    assert(q[j - 1] == p[j - 1]);
                    assert(q[j][0] == p[j][0]);
                }
            }
        } else {
            assert(forall|j: int| 0 <= j < p.len() ==> q[j] == p[j]);
            assert(q.last() == seq![c]);
            assert(p.last().last() == s[s.len() - 2]);
        }
    }
}

/// The sessions partition the history: concatenated in order, their
/// commit sequences give back exactly the input.
pub proof fn lemma_partition_covers(s: Seq<CommitInfo>)
    ensures
        spec_partition(s).flatten() == s,
    decreases s.len(),
{
    if s.len() == 0 {
        assert(spec_partition(s).flatten() =~= s);
    } else if s.len() == 1 {
        let q = spec_partition(s);
        assert(q == seq![s]);
        q.lemma_flatten_one_element();
    } else {
        lemma_partition_covers(s.drop_last());
        lemma_partition_shape(s.drop_last());
        let p = spec_partition(s.drop_last());
        let q = spec_partition(s);
        let c = s.last();
        p.lemma_flatten_and_flatten_alt_are_equivalent();
        q.lemma_flatten_and_flatten_alt_are_equivalent();
        if s[s.len() - 2].timestamp - c.timestamp <= MAX_SESSION_GAP_SECONDS {
            assert(q.drop_last() =~= p.drop_last());
            assert(q.last() == p.last().push(c));
            assert(q.flatten_alt() == q.drop_last().flatten_alt() + q.last());
            assert(p.flatten_alt() == p.drop_last().flatten_alt() + p.last());
            assert(q.flatten_alt() =~= p.flatten_alt().push(c));
            assert(q.flatten() =~= s.drop_last().push(c));
        } else {
            assert(q == p.push(seq![c]));
            Seq::lemma_flatten_push(p, seq![c]);
            assert(q.flatten() =~= s.drop_last().push(c));
        }
        assert(s.drop_last().push(c) =~= s);
    }
}

/// Total effort units of a list of sessions.
pub open spec fn spec_session_units_sum(p: Seq<Seq<CommitInfo>>) -> int
    decreases p.len(),
{
    if p.len() == 0 {
        0
    } else {
        spec_session_units_sum(p.drop_last()) + spec_total_units(p.last())
    }
}

/// A history whose gaps never exceed the threshold forms one single
/// session.
pub proof fn lemma_partition_single(s: Seq<CommitInfo>)
    requires
        s.len() >= 1,
        forall|i: int|
            #![trigger s[i]]
            1 <= i < s.len() ==> s[i - 1].timestamp - s[i].timestamp <= MAX_SESSION_GAP_SECONDS,
    ensures
        spec_partition(s) == seq![s],
    decreases s.len(),
{
    if s.len() == 1 {
    } else {
        lemma_partition_single(s.drop_last());
        assert(s[s.len() - 2].timestamp - s.last().timestamp <= MAX_SESSION_GAP_SECONDS);
        assert(spec_partition(s) =~= seq![s.drop_last().push(s.last())]);
        assert(s.drop_last().push(s.last()) =~= s);
    }
}

/// When the whole history fits in one session, the sessions' effort
/// figures add up to exactly the history's total.
pub proof fn lemma_dense_history_units(s: Seq<CommitInfo>)
    requires
        forall|i: int|
            #![trigger s[i]]
            1 <= i < s.len() ==> s[i - 1].timestamp - s[i].timestamp <= MAX_SESSION_GAP_SECONDS,
    ensures
        spec_session_units_sum(spec_partition(s)) == spec_total_units(s),
{
    if s.len() == 0 {
        assert(spec_partition(s) =~= Seq::<Seq<CommitInfo>>::empty());
    } else {
        lemma_partition_single(s);
        let p = seq![s];
        assert(p.drop_last() =~= Seq::<Seq<CommitInfo>>::empty());
        assert(spec_session_units_sum(Seq::<Seq<CommitInfo>>::empty()) == 0);
        assert(p.last() == s);
        assert(spec_session_units_sum(p) == spec_session_units_sum(p.drop_last())
            + spec_total_units(p.last()));
    }
}

} // verus!
