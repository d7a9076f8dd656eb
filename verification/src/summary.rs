//! Per-repository and overall summaries.
//!
//! A repository summary bundles the commit list with its period, its
//! work analysis and its temporal patterns; a total summary adds up
//! several repositories and counts distinct contributors across all of
//! them.
use vstd::prelude::*;
use vstd::string::StringExecFns;
use crate::commit::{CommitInfo, MAX_COMMITS};
use crate::analyzer::{WorkAnalysis, spec_analysis_ok, spec_analysis_agree};
use crate::analyzer::lemma_analysis_deterministic;
use crate::patterns::{WorkPatterns, spec_patterns_ok, spec_day_of, calendar_of};
use crate::patterns::lemma_patterns_deterministic;
use crate::value_calculator::{UNITS_CAP, RATE_CAP, VALUE_CAP};
use crate::dates::{civil_from_days, format_ymd, spec_civil_ok, spec_ymd_seq, MAX_CIVIL_TS};
use crate::dates::lemma_civil_unique;
use crate::strutil::str_eq;

verus! {

/// Largest number of repositories one total summary accepts.
pub const MAX_REPOS: usize = 0x8000_0000;

/// The time period covered by an analysis, with a rendered description.
#[derive(Clone, Debug)]
pub struct Period {
    /// Oldest analyzed commit (the later of the two bounds is `end`).
    pub start: i64,
    /// Newest analyzed commit.
    pub end: i64,
    pub description: String,
}

/// The description of a non-empty period: the two dates of the bounds,
/// joined by " ~ ".
pub open spec fn spec_period_desc(start_day: int, end_day: int, s: Seq<char>) -> bool {
    exists|sy: int, sm: int, sd: int, ey: int, em: int, ed: int|
        #![trigger spec_civil_ok(start_day, sy, sm, sd), spec_civil_ok(end_day, ey, em, ed)]
        {
            &&& spec_civil_ok(start_day, sy, sm, sd)
            &&& spec_civil_ok(end_day, ey, em, ed)
            &&& s == spec_ymd_seq(sy, sm, sd) + " ~ "@ + spec_ymd_seq(ey, em, ed)
        }
}

/// Everything one analyzed repository carries.
#[derive(Debug)]
pub struct RepositorySummary {
    pub path: String,
    pub period: Period,
    pub commits: Vec<CommitInfo>,
    pub analysis: WorkAnalysis,
    pub patterns: WorkPatterns,
}

/// Everything `RepositorySummary::new` promises of its result.
pub open spec fn spec_summary_ok(
    r: RepositorySummary,
    commits: Seq<CommitInfo>,
    estimated_units: u128,
    hourly_rate_cents: u64,
    now_ts: i64,
) -> bool {
    &&& r.commits@ == commits
    &&& spec_analysis_ok(r.analysis, commits, estimated_units, hourly_rate_cents)
    &&& spec_patterns_ok(r.patterns, commits)
    &&& (commits.len() == 0 ==> r.period.start == now_ts && r.period.end == now_ts
        && r.period.description@ == "No commits"@)
    &&& (commits.len() > 0 ==> {
        &&& r.period.start == commits[commits.len() - 1].timestamp
        &&& r.period.end == commits[0].timestamp
        &&& spec_period_desc(
            spec_day_of(r.period.start as int),
            spec_day_of(r.period.end as int),
            r.period.description@,
        )
    })
}

impl RepositorySummary {
    /// Bundle a repository's commits with their analysis.  `now_ts`
    /// stands in for both period bounds when there are no commits.
    pub fn new(
        path: String,
        commits: Vec<CommitInfo>,
        estimated_units: u128,
        hourly_rate_cents: u64,
        now_ts: i64,
    ) -> (r: RepositorySummary)
        requires
            commits@.len() <= MAX_COMMITS,
            forall|i: int| 0 <= i < commits@.len() ==> (#[trigger] commits@[i]).wf(),
            forall|i: int|
                0 <= i < commits@.len() ==> 0 <= (#[trigger] commits@[i]).timestamp
                    <= MAX_CIVIL_TS,
            estimated_units <= UNITS_CAP,
            hourly_rate_cents <= RATE_CAP,
        ensures
            r.path == path,
            spec_summary_ok(r, commits@, estimated_units, hourly_rate_cents, now_ts),
    {
        let n = commits.len();
        let period = if n == 0 {
            Period { start: now_ts, end: now_ts, description: "No commits".to_owned() }
        } else {
            let start = commits[n - 1].timestamp;
            let end = commits[0].timestamp;
            let (_, sday, _) = calendar_of(start);
            let (_, eday, _) = calendar_of(end);
            let (sy, sm, sd) = civil_from_days(sday);
            let (ey, em, ed) = civil_from_days(eday);
            let mut description = format_ymd(sy, sm, sd);
            description.append(" ~ ");
            let end_text = format_ymd(ey, em, ed);
            description.append(end_text.as_str());
            Period { start, end, description }
        };
        let analysis = WorkAnalysis::from_commits(&commits, estimated_units, hourly_rate_cents);
        let patterns = WorkPatterns::analyze(&commits);
        RepositorySummary { path, period, commits, analysis, patterns }
    }
}

/// Re-running the pipeline reproduces every figure: any two summaries
/// satisfying [`spec_summary_ok`] for the same history, effort figure,
/// rate and clock stand-in agree in every field (strings compared by
/// content).
pub proof fn lemma_summary_deterministic(
    a: RepositorySummary,
    b: RepositorySummary,
    commits: Seq<CommitInfo>,
    estimated_units: u128,
    hourly_rate_cents: u64,
    now_ts: i64,
)
    requires
        spec_summary_ok(a, commits, estimated_units, hourly_rate_cents, now_ts),
        spec_summary_ok(b, commits, estimated_units, hourly_rate_cents, now_ts),
    ensures
        a.commits@ == b.commits@,
        a.period.start == b.period.start,
        a.period.end == b.period.end,
        a.period.description@ == b.period.description@,
        spec_analysis_agree(a.analysis, b.analysis),
        a.patterns.hourly_distribution@ == b.patterns.hourly_distribution@,
        a.patterns.daily_distribution@ == b.patterns.daily_distribution@,
        a.patterns.peak_hours@ == b.patterns.peak_hours@,
        a.patterns.most_active_day@ == b.patterns.most_active_day@,
        a.patterns.commit_frequency.average_commits_per_day_milli
            == b.patterns.commit_frequency.average_commits_per_day_milli,
        a.patterns.commit_frequency.max_commits_per_day
            == b.patterns.commit_frequency.max_commits_per_day,
        a.patterns.commit_frequency.active_days == b.patterns.commit_frequency.active_days,
        a.patterns.commit_frequency.total_days == b.patterns.commit_frequency.total_days,
{
    lemma_analysis_deterministic(
        a.analysis,
        b.analysis,
        commits,
        estimated_units,
        hourly_rate_cents,
    );
    lemma_patterns_deterministic(a.patterns, b.patterns, commits);
    if commits.len() > 0 {
        // The description is determined because a day number has
        // exactly one valid date.
        let start_day = spec_day_of(a.period.start as int);
        let end_day = spec_day_of(a.period.end as int);
        let (sy1, sm1, sd1, ey1, em1, ed1) = choose|
            sy: int,
            sm: int,
            sd: int,
            ey: int,
            em: int,
            ed: int,
        |
            #![trigger spec_civil_ok(start_day, sy, sm, sd), spec_civil_ok(end_day, ey, em, ed)]
            {
                &&& spec_civil_ok(start_day, sy, sm, sd)
                &&& spec_civil_ok(end_day, ey, em, ed)
                &&& a.period.description@ == spec_ymd_seq(sy, sm, sd) + " ~ "@ + spec_ymd_seq(
                    ey,
                    em,
                    ed,
                )
            };
        let (sy2, sm2, sd2, ey2, em2, ed2) = choose|
            sy: int,
            sm: int,
            sd: int,
            ey: int,
            em: int,
            ed: int,
        |
            #![trigger spec_civil_ok(start_day, sy, sm, sd), spec_civil_ok(end_day, ey, em, ed)]
            {
                &&& spec_civil_ok(start_day, sy, sm, sd)
                &&& spec_civil_ok(end_day, ey, em, ed)
                &&& b.period.description@ == spec_ymd_seq(sy, sm, sd) + " ~ "@ + spec_ymd_seq(
                    ey,
                    em,
                    ed,
                )
            };
        lemma_civil_unique(start_day, sy1, sm1, sd1, sy2, sm2, sd2);
        lemma_civil_unique(end_day, ey1, em1, ed1, ey2, em2, ed2);
    }
}

/// The author emails of a commit list, in order.
pub open spec fn spec_commit_emails(cs: Seq<CommitInfo>) -> Seq<Seq<char>> {
    cs.map_values(|c: CommitInfo| c.email@)
}

/// The author emails of all repositories, concatenated.
pub open spec fn spec_all_emails(rs: Seq<RepositorySummary>) -> Seq<Seq<char>>
    decreases rs.len(),
{
    if rs.len() == 0 {
        Seq::empty()
    } else {
        spec_all_emails(rs.drop_last()) + spec_commit_emails(rs.last().commits@)
    }
}

/// Number of distinct entries, counted at first appearance.
pub open spec fn spec_distinct_count(es: Seq<Seq<char>>) -> int
    decreases es.len(),
{
    if es.len() == 0 {
        0
    } else {
        spec_distinct_count(es.drop_last()) + if es.drop_last().contains(es.last()) {
            0int
        } else {
            1
        }
    }
}

/// Totals over several analyzed repositories.
#[derive(Debug)]
pub struct TotalSummary {
    pub repositories: Vec<RepositorySummary>,
    pub total_commits: u64,
    pub total_units: u128,
    pub total_value_cents: u128,
    pub total_contributors: u64,
}

/// Sum of commit counts over repositories.
pub open spec fn spec_repo_commits_sum(rs: Seq<RepositorySummary>) -> int
    decreases rs.len(),
{
    if rs.len() == 0 {
        0
    } else {
        spec_repo_commits_sum(rs.drop_last()) + rs.last().commits@.len()
    }
}

/// Sum of effort figures over repositories.
pub open spec fn spec_repo_units_sum(rs: Seq<RepositorySummary>) -> int
    decreases rs.len(),
{
    if rs.len() == 0 {
        0
    } else {
        spec_repo_units_sum(rs.drop_last()) + rs.last().analysis.estimated_units
    }
}

/// Sum of recommended values over repositories.
pub open spec fn spec_repo_value_sum(rs: Seq<RepositorySummary>) -> int
    decreases rs.len(),
{
    if rs.len() == 0 {
        0
    } else {
        spec_repo_value_sum(rs.drop_last())
            + rs.last().analysis.value_estimate.recommended_value_cents
    }
}

impl TotalSummary {
    /// Add up several repository summaries.
    pub fn from_repositories(repositories: Vec<RepositorySummary>) -> (r: TotalSummary)
        requires
            repositories@.len() <= MAX_REPOS,
            forall|i: int|
                0 <= i < repositories@.len() ==> {
                    &&& (#[trigger] repositories@[i]).commits@.len() <= MAX_COMMITS
                    &&& repositories@[i].analysis.estimated_units <= UNITS_CAP
                    &&& repositories@[i].analysis.value_estimate.recommended_value_cents
                        <= VALUE_CAP
                },
        ensures
            r.repositories@ == repositories@,
            r.total_commits == spec_repo_commits_sum(repositories@),
            r.total_units == spec_repo_units_sum(repositories@),
            r.total_value_cents == spec_repo_value_sum(repositories@),
            r.total_contributors == spec_distinct_count(spec_all_emails(repositories@)),
    {
        let n = repositories.len();
        let mut total_commits: u64 = 0;
        let mut total_units: u128 = 0;
        let mut total_value_cents: u128 = 0;
        let mut seen: Vec<String> = Vec::new();
        let mut count: u64 = 0;
        let mut i: usize = 0;
        while i < n
            invariant
                n == repositories@.len(),
                n <= MAX_REPOS,
                forall|k: int|
                    0 <= k < repositories@.len() ==> {
                        &&& (#[trigger] repositories@[k]).commits@.len() <= MAX_COMMITS
                        &&& repositories@[k].analysis.estimated_units <= UNITS_CAP
                        &&& repositories@[k].analysis.value_estimate.recommended_value_cents
                            <= VALUE_CAP
                    },
                0 <= i <= n,
                total_commits == spec_repo_commits_sum(repositories@.take(i as int)),
                total_units == spec_repo_units_sum(repositories@.take(i as int)),
                total_value_cents == spec_repo_value_sum(repositories@.take(i as int)),
                total_commits <= i * 0x8000_0000,
                total_units <= i * 0x4000_0000_0000_0000,
                total_value_cents <= i * 0x100_0000_0000_0000_0000_0000,
                count <= i * 0x8000_0000,
                count == spec_distinct_count(spec_all_emails(repositories@.take(i as int))),
                count == seen@.len(),
                forall|a: int, b: int|
                    0 <= a < b < seen@.len() ==> (#[trigger] seen@[a])@ != (#[trigger] seen@[b])@,
                forall|v: Seq<char>|
                    spec_all_emails(repositories@.take(i as int)).contains(v) <==> exists|a: int|
                        0 <= a < seen@.len() && (#[trigger] seen@[a])@ == v,
            decreases n - i,
        {
            let ghost prefix = repositories@.take(i as int);
            let ghost base = spec_all_emails(prefix);
            proof {
                assert(repositories@.take(i + 1).drop_last() =~= prefix);
                assert(repositories@.take(i + 1).last() == repositories@[i as int]);
            }
            let repo = &repositories[i];
            total_commits = total_commits + repo.commits.len() as u64;
            total_units = total_units + repo.analysis.estimated_units;
            total_value_cents = total_value_cents + repo.analysis.value_estimate.recommended_value_cents;
            let m = repo.commits.len();
            let mut j: usize = 0;
            while j < m
                invariant
                    n == repositories@.len(),
                    0 <= i < n,
                    repo == repositories@[i as int],
                    m == repo.commits@.len(),
                    prefix == repositories@.take(i as int),
                    base == spec_all_emails(prefix),
                    0 <= j <= m,
                    count == spec_distinct_count(
                        base + spec_commit_emails(repo.commits@.take(j as int)),
                    ),
                    count == seen@.len(),
                    forall|a: int, b: int|
                        0 <= a < b < seen@.len() ==> (#[trigger] seen@[a])@ != (
                        #[trigger] seen@[b])@,
                    forall|v: Seq<char>|
                        (base + spec_commit_emails(repo.commits@.take(j as int))).contains(v)
                            <==> exists|a: int| 0 <= a < seen@.len() && (#[trigger] seen@[a])@
                            == v,
                    count <= i * 0x8000_0000 + j,
                    i < 0x8000_0000,
                    m <= 0x8000_0000,
                decreases m - j,
            {
                let ghost cur = base + spec_commit_emails(repo.commits@.take(j as int));
                let ghost next = base + spec_commit_emails(repo.commits@.take(j + 1));
                let ghost em = repo.commits@[j as int].email@;
                proof {
                    assert(spec_commit_emails(repo.commits@.take(j + 1)) =~= spec_commit_emails(
                        repo.commits@.take(j as int),
                    ).push(em));
                    assert(next =~= cur.push(em));
                    assert(next.drop_last() =~= cur);
                    assert(next.last() == em);
                }
                let email: &String = &repo.commits[j].email;
                let mut found = false;
                let mut a: usize = 0;
                let slen = seen.len();
                while a < slen && !found
                    invariant
                        slen == seen@.len(),
                        0 <= a <= slen,
                        em == repositories@[i as int].commits@[j as int].email@,
                        email@ == em,
                        !found ==> forall|b: int| 0 <= b < a ==> (#[trigger] seen@[b])@ != em,
                        found ==> exists|b: int| 0 <= b < slen && (#[trigger] seen@[b])@ == em,
                    decreases slen - a, (if found { 0int } else { 1int }),
                {
                    if str_eq(seen[a].as_str(), email.as_str()) {
                        found = true;
                    } else {
                        a = a + 1;
                    }
                }
                if !found {
                    proof {
                        if cur.contains(em) {
                            let b = choose|b: int|
                                0 <= b < seen@.len() && (#[trigger] seen@[b])@ == em;
                            assert(false);
                        }
                    }
                    let ghost old_seen = seen@;
                    seen.push(email.clone());
                    count = count + 1;
                    proof {
                        assert(seen@[seen@.len() - 1] == email);
                        assert forall|v: Seq<char>| next.contains(v) implies exists|b: int|
                            0 <= b < seen@.len() && (#[trigger] seen@[b])@ == v by {
                            if v == em {
                                assert(seen@[seen@.len() - 1]@ == v);
                            } else {
                                let w = choose|w: int| 0 <= w < next.len() && next[w] == v;
                                assert(cur[w] == v);
                                assert(cur.contains(v));
                                let b = choose|b: int|
                                    0 <= b < old_seen.len() && (#[trigger] old_seen[b])@ == v;
                                assert(seen@[b] == old_seen[b]);
                                assert(seen@[b]@ == v);
                            }
                        }
                        assert forall|v: Seq<char>| (exists|b: int|
                            0 <= b < seen@.len() && (#[trigger] seen@[b])@ == v) implies
                            next.contains(v) by {
                            let b = choose|b: int|
                                0 <= b < seen@.len() && (#[trigger] seen@[b])@ == v;
                            if b < seen@.len() - 1 {
                                assert(old_seen[b]@ == v);
                                assert(cur.contains(v));
                                let w = choose|w: int| 0 <= w < cur.len() && cur[w] == v;
                                assert(next[w] == v);
                            } else {
                                assert(next[next.len() - 1] == v);
                            }
                        }
                    }
                } else {
                    proof {
                        assert(cur.contains(em));
                        assert forall|v: Seq<char>| next.contains(v) implies cur.contains(v) by {
                            let w = choose|w: int| 0 <= w < next.len() && next[w] == v;
                            if w < next.len() - 1 {
                                assert(cur[w] == v);
                            }
                        }
                        assert forall|v: Seq<char>| cur.contains(v) implies next.contains(v) by {
                            let w = choose|w: int| 0 <= w < cur.len() && cur[w] == v;
                            assert(next[w] == v);
                        }
                    }
                }
                j = j + 1;
            }
            proof {
                assert(repo.commits@.take(m as int) =~= repo.commits@);
                assert(base + spec_commit_emails(repo.commits@) =~= spec_all_emails(
                    repositories@.take(i + 1),
                ));
            }
            i = i + 1;
        }
        proof {
            assert(repositories@.take(n as int) =~= repositories@);
        }
        TotalSummary {
            repositories,
            total_commits,
            total_units,
            total_value_cents,
            total_contributors: count,
        }
    }
}

} // verus!
