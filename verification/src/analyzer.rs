//! Whole-history work analysis.
//!
//! Aggregates a commit history into global totals, a per-language
//! insertion/deletion table, the contributor table and a value estimate.
//! Shares are in basis points; effort stays in units of 1/30000 hour.
use vstd::prelude::*;
use crate::commit::{CommitInfo, MAX_COMMITS};
use crate::lang::{Language, lang_tag, LANG_COUNT, language_of_index};
use crate::contribution::{ContributorStats, contribs_match, spec_contributors, spec_grouped};
use crate::contribution::lemma_contributors_len;
use crate::value_calculator::{ValueEstimate, UNITS_CAP, RATE_CAP, level_ok};
use crate::value_calculator::spec_complexity_factor_tenths;

verus! {

/// Insertions attributed to language `tag` over the first `n` commits.
pub open spec fn spec_lang_ins(s: Seq<CommitInfo>, tag: int) -> int
    decreases s.len(),
{
    if s.len() == 0 {
        0
    } else {
        spec_lang_ins(s.drop_last(), tag) + match s.last().language_changes@[tag] {
            Some(c) => c.insertions as int,
            None => 0,
        }
    }
}

/// Deletions attributed to language `tag` over the first `n` commits.
pub open spec fn spec_lang_del(s: Seq<CommitInfo>, tag: int) -> int
    decreases s.len(),
{
    if s.len() == 0 {
        0
    } else {
        spec_lang_del(s.drop_last(), tag) + match s.last().language_changes@[tag] {
            Some(c) => c.deletions as int,
            None => 0,
        }
    }
}

/// Was language `tag` touched by any commit?
pub open spec fn spec_lang_touched(s: Seq<CommitInfo>, tag: int) -> bool {
    exists|i: int| 0 <= i < s.len() && (#[trigger] s[i].language_changes@[tag]) is Some
}

/// Total insertions over a history.
pub open spec fn spec_ins_total(s: Seq<CommitInfo>) -> int
    decreases s.len(),
{
    if s.len() == 0 {
        0
    } else {
        spec_ins_total(s.drop_last()) + s.last().insertions
    }
}

/// Total deletions over a history.
pub open spec fn spec_del_total(s: Seq<CommitInfo>) -> int
    decreases s.len(),
{
    if s.len() == 0 {
        0
    } else {
        spec_del_total(s.drop_last()) + s.last().deletions
    }
}

/// Total files changed over a history.
pub open spec fn spec_files_total(s: Seq<CommitInfo>) -> int
    decreases s.len(),
{
    if s.len() == 0 {
        0
    } else {
        spec_files_total(s.drop_last()) + s.last().files_changed
    }
}

/// Aggregate insertion/deletion figures of one language.
#[derive(Clone, Debug)]
pub struct LanguageStats {
    pub insertions: u64,
    pub deletions: u64,
    pub net_change: i64,
    /// Share of all changed lines, in basis points.  The per-language
    /// counts come from the commits' breakdown tables, the total from
    /// their global counters, so a table with inflated entries can push
    /// this beyond 10000.
    pub percentage_bp: u128,
}

/// One entry of the per-language breakdown.
#[derive(Clone, Debug)]
pub struct LanguageBreakdown {
    pub language: Language,
    pub stats: LanguageStats,
}

/// The aggregated analysis of one repository's history.
#[derive(Debug)]
pub struct WorkAnalysis {
    pub total_commits: u64,
    pub unique_contributors: u64,
    pub total_files_changed: u64,
    pub total_insertions: u64,
    pub total_deletions: u64,
    pub estimated_units: u128,
    /// Languages touched by at least one commit, in table order.
    pub language_breakdown: Vec<LanguageBreakdown>,
    pub value_estimate: ValueEstimate,
    pub contribution_breakdown: Vec<ContributorStats>,
}

/// The language tags touched by `s`, in table order.
pub open spec fn spec_touched_tags(s: Seq<CommitInfo>, n: int) -> Seq<int>
    decreases n,
{
    if n <= 0 {
        Seq::empty()
    } else {
        spec_touched_tags(s, n - 1) + if spec_lang_touched(s, n - 1) {
            seq![n - 1]
        } else {
            Seq::empty()
        }
    }
}

/// Does one breakdown entry hold exactly the figures of tag `t`?
pub open spec fn breakdown_ok(e: LanguageBreakdown, t: int, s: Seq<CommitInfo>) -> bool {
    &&& lang_tag(e.language) == t
    &&& e.stats.insertions == spec_lang_ins(s, t)
    &&& e.stats.deletions == spec_lang_del(s, t)
    &&& e.stats.net_change == spec_lang_ins(s, t) - spec_lang_del(s, t)
    &&& e.stats.percentage_bp == (if spec_ins_total(s) + spec_del_total(s) > 0 {
        (spec_lang_ins(s, t) + spec_lang_del(s, t)) * 10000 / (spec_ins_total(s) + spec_del_total(
            s,
        ))
    } else {
        0
    })
}

/// Everything `from_commits` promises of its result, as one predicate.
pub open spec fn spec_analysis_ok(
    r: WorkAnalysis,
    s: Seq<CommitInfo>,
    estimated_units: u128,
    hourly_rate_cents: u64,
) -> bool {
    &&& r.total_commits == s.len()
    &&& r.unique_contributors == spec_grouped(s).len()
    &&& r.total_files_changed == spec_files_total(s)
    &&& r.total_insertions == spec_ins_total(s)
    &&& r.total_deletions == spec_del_total(s)
    &&& r.estimated_units == estimated_units
    &&& contribs_match(r.contribution_breakdown@, spec_contributors(s))
    &&& ({
        let tags = spec_touched_tags(s, LANG_COUNT as int);
        &&& r.language_breakdown@.len() == tags.len()
        &&& forall|j: int|
            0 <= j < tags.len() ==> breakdown_ok(#[trigger] r.language_breakdown@[j], tags[j], s)
    })
    &&& r.value_estimate.estimated_units == estimated_units
    &&& r.value_estimate.base_hourly_rate_cents == hourly_rate_cents
    &&& r.value_estimate.developer_levels@.len() == 5
    &&& forall|i: int|
        0 <= i < 5 ==> level_ok(
            #[trigger] r.value_estimate.developer_levels@[i],
            i,
            estimated_units as int,
            hourly_rate_cents as int,
            spec_complexity_factor_tenths(spec_ins_total(s) + spec_del_total(s)),
        )
    &&& r.value_estimate.recommended_value_cents
        == r.value_estimate.developer_levels@[1].total_value_cents
}

/// Two analyses agree in every field (strings compared by content).
pub open spec fn spec_analysis_agree(a: WorkAnalysis, b: WorkAnalysis) -> bool {
    &&& a.total_commits == b.total_commits
    &&& a.unique_contributors == b.unique_contributors
    &&& a.total_files_changed == b.total_files_changed
    &&& a.total_insertions == b.total_insertions
    &&& a.total_deletions == b.total_deletions
    &&& a.estimated_units == b.estimated_units
    &&& a.language_breakdown@ == b.language_breakdown@
    &&& a.value_estimate.estimated_units == b.value_estimate.estimated_units
    &&& a.value_estimate.base_hourly_rate_cents == b.value_estimate.base_hourly_rate_cents
    &&& a.value_estimate.recommended_value_cents == b.value_estimate.recommended_value_cents
    &&& a.value_estimate.developer_levels@.len() == b.value_estimate.developer_levels@.len()
    &&& forall|i: int|
        0 <= i < a.value_estimate.developer_levels@.len() ==> {
            let x = #[trigger] a.value_estimate.developer_levels@[i];
            let y = #[trigger] b.value_estimate.developer_levels@[i];
            x.level@ == y.level@ && x.multiplier_tenths == y.multiplier_tenths
                && x.hourly_rate_cents == y.hourly_rate_cents && x.total_value_cents
                == y.total_value_cents
        }
    &&& a.contribution_breakdown@.len() == b.contribution_breakdown@.len()
    &&& forall|j: int|
        0 <= j < a.contribution_breakdown@.len() ==> {
            let x = #[trigger] a.contribution_breakdown@[j];
            let y = #[trigger] b.contribution_breakdown@[j];
            x.name@ == y.name@ && x.email@ == y.email@ && x.commit_count == y.commit_count
                && x.insertions == y.insertions && x.deletions == y.deletions
                && x.files_changed == y.files_changed && x.percentage_bp == y.percentage_bp
        }
}

/// The analysis is a function of its inputs: any two results satisfying
/// [`spec_analysis_ok`] for the same history, effort figure and rate
/// agree in every field.
pub proof fn lemma_analysis_deterministic(
    a: WorkAnalysis,
    b: WorkAnalysis,
    s: Seq<CommitInfo>,
    estimated_units: u128,
    hourly_rate_cents: u64,
)
    requires
        spec_analysis_ok(a, s, estimated_units, hourly_rate_cents),
        spec_analysis_ok(b, s, estimated_units, hourly_rate_cents),
    ensures
        spec_analysis_agree(a, b),
{
    let tags = spec_touched_tags(s, LANG_COUNT as int);
    assert forall|j: int|
        0 <= j < a.language_breakdown@.len() implies a.language_breakdown@[j]
        == b.language_breakdown@[j] by {
        assert(breakdown_ok(a.language_breakdown@[j], tags[j], s));
        assert(breakdown_ok(b.language_breakdown@[j], tags[j], s));
        crate::lang::lemma_lang_tag_injective(
            a.language_breakdown@[j].language,
            b.language_breakdown@[j].language,
        );
    }
    assert(a.language_breakdown@ =~= b.language_breakdown@);
    assert forall|i: int| 0 <= i < 5 implies {
        let x = #[trigger] a.value_estimate.developer_levels@[i];
        let y = #[trigger] b.value_estimate.developer_levels@[i];
        x.level@ == y.level@ && x.multiplier_tenths == y.multiplier_tenths
            && x.hourly_rate_cents == y.hourly_rate_cents && x.total_value_cents
            == y.total_value_cents
    } by {
        assert(level_ok(
            a.value_estimate.developer_levels@[i],
            i,
            estimated_units as int,
            hourly_rate_cents as int,
            spec_complexity_factor_tenths(spec_ins_total(s) + spec_del_total(s)),
        ));
        assert(level_ok(
            b.value_estimate.developer_levels@[i],
            i,
            estimated_units as int,
            hourly_rate_cents as int,
            spec_complexity_factor_tenths(spec_ins_total(s) + spec_del_total(s)),
        ));
    }
    let rows = spec_contributors(s);
    assert forall|j: int| 0 <= j < a.contribution_breakdown@.len() implies {
        let x = #[trigger] a.contribution_breakdown@[j];
        let y = #[trigger] b.contribution_breakdown@[j];
        x.name@ == y.name@ && x.email@ == y.email@ && x.commit_count == y.commit_count
            && x.insertions == y.insertions && x.deletions == y.deletions
            && x.files_changed == y.files_changed && x.percentage_bp == y.percentage_bp
    } by {
        assert(crate::contribution::contrib_matches(a.contribution_breakdown@[j], rows[j]));
        assert(crate::contribution::contrib_matches(b.contribution_breakdown@[j], rows[j]));
    }
}

impl WorkAnalysis {
    /// Aggregate a history with a precomputed effort figure and a base
    /// hourly rate.
    pub fn from_commits(
        commits: &Vec<CommitInfo>,
        estimated_units: u128,
        hourly_rate_cents: u64,
    ) -> (r: WorkAnalysis)
        requires
            commits@.len() <= MAX_COMMITS,
            forall|i: int| 0 <= i < commits@.len() ==> (#[trigger] commits@[i]).wf(),
            estimated_units <= UNITS_CAP,
            hourly_rate_cents <= RATE_CAP,
        ensures
            spec_analysis_ok(r, commits@, estimated_units, hourly_rate_cents),
    {
        let n = commits.len();
        let mut total_files: u64 = 0;
        let mut total_ins: u64 = 0;
        let mut total_del: u64 = 0;
        let mut lang_ins: Vec<u64> = Vec::new();
        let mut lang_del: Vec<u64> = Vec::new();
        let mut lang_seen: Vec<bool> = Vec::new();
        let mut k: usize = 0;
        while k < LANG_COUNT
            invariant
                0 <= k <= LANG_COUNT,
                lang_ins@.len() == k,
                lang_del@.len() == k,
                lang_seen@.len() == k,
                forall|j: int|
                    0 <= j < k ==> lang_ins@[j] == 0 && lang_del@[j] == 0 && !lang_seen@[j],
            decreases LANG_COUNT - k,
        {
            lang_ins.push(0);
            lang_del.push(0);
            lang_seen.push(false);
            k = k + 1;
        }
        let mut i: usize = 0;
        while i < n
            invariant
                n == commits@.len(),
                n <= MAX_COMMITS,
                forall|j: int| 0 <= j < commits@.len() ==> (#[trigger] commits@[j]).wf(),
                0 <= i <= n,
                lang_ins@.len() == LANG_COUNT,
                lang_del@.len() == LANG_COUNT,
                lang_seen@.len() == LANG_COUNT,
                total_files == spec_files_total(commits@.take(i as int)),
                total_ins == spec_ins_total(commits@.take(i as int)),
                total_del == spec_del_total(commits@.take(i as int)),
                total_files <= i * 0xFFFF_FFFF,
                total_ins <= i * 0xFFFF_FFFF,
                total_del <= i * 0xFFFF_FFFF,
                forall|t: int|
                    0 <= t < LANG_COUNT ==> lang_ins@[t] == spec_lang_ins(
                        commits@.take(i as int),
                        t,
                    ) && lang_del@[t] == spec_lang_del(commits@.take(i as int), t)
                        && lang_seen@[t] == spec_lang_touched(commits@.take(i as int), t),
                forall|t: int|
                    0 <= t < LANG_COUNT ==> lang_ins@[t] <= i * 0xFFFF_FFFF && lang_del@[t] <= i
                        * 0xFFFF_FFFF,
            decreases n - i,
        {
            let ghost prefix = commits@.take(i as int);
            let ghost new_prefix = commits@.take(i + 1);
            proof {
                assert(new_prefix.drop_last() =~= prefix);
                assert(new_prefix.last() == commits@[i as int]);
                assert forall|t: int|
                    0 <= t < LANG_COUNT implies (#[trigger] spec_lang_touched(new_prefix, t))
                    == (spec_lang_touched(prefix, t) || commits@[i as int].language_changes@[t]
                    is Some) by {
                    if spec_lang_touched(prefix, t) {
                        let w = choose|w: int|
                            0 <= w < prefix.len() && (#[trigger] prefix[w].language_changes@[t])
                                is Some;
                        assert(new_prefix[w] == prefix[w]);
                    }
                    if spec_lang_touched(new_prefix, t) {
                        let w = choose|w: int|
                            0 <= w < new_prefix.len() && (
                            #[trigger] new_prefix[w].language_changes@[t]) is Some;
                        if w < i {
                            assert(prefix[w] == new_prefix[w]);
                        }
                    }
                }
            }
            let c = &commits[i];
            total_files = total_files + c.files_changed as u64;
            total_ins = total_ins + c.insertions as u64;
            total_del = total_del + c.deletions as u64;
            let mut t: usize = 0;
            while t < LANG_COUNT
                invariant
                    n == commits@.len(),
                    i < n,
                    c == commits@[i as int],
                    c.wf(),
                    prefix == commits@.take(i as int),
                    new_prefix == commits@.take(i + 1),
                    new_prefix.last() == commits@[i as int],
                    new_prefix.drop_last() == prefix,
                    n <= MAX_COMMITS,
                    0 <= t <= LANG_COUNT,
                    lang_ins@.len() == LANG_COUNT,
                    lang_del@.len() == LANG_COUNT,
                    lang_seen@.len() == LANG_COUNT,
                    forall|u: int|
                        t <= u < LANG_COUNT ==> lang_ins@[u] == spec_lang_ins(prefix, u)
                            && lang_del@[u] == spec_lang_del(prefix, u) && lang_seen@[u]
                            == spec_lang_touched(prefix, u),
                    forall|u: int|
                        0 <= u < t ==> lang_ins@[u] == spec_lang_ins(new_prefix, u)
                            && lang_del@[u] == spec_lang_del(new_prefix, u) && lang_seen@[u]
                            == spec_lang_touched(new_prefix, u),
                    forall|u: int|
                        t <= u < LANG_COUNT ==> lang_ins@[u] <= i * 0xFFFF_FFFF && lang_del@[u]
                            <= i * 0xFFFF_FFFF,
                    forall|u: int|
                        0 <= u < t ==> lang_ins@[u] <= (i + 1) * 0xFFFF_FFFF && lang_del@[u] <= (i
                            + 1) * 0xFFFF_FFFF,
                    forall|u: int|
                        0 <= u < LANG_COUNT ==> (#[trigger] spec_lang_touched(new_prefix, u)) == (
                        spec_lang_touched(prefix, u) || commits@[i as int].language_changes@[u]
                            is Some),
                decreases LANG_COUNT - t,
            {
                let l = language_of_index(t);
                match c.language_changes.get(l) {
                    Some(ch) => {
                        let ci = lang_ins[t];
                        lang_ins.set(t, ci + ch.insertions as u64);
                        let cd = lang_del[t];
                        lang_del.set(t, cd + ch.deletions as u64);
                        lang_seen.set(t, true);
                    },
                    None => {},
                }
                proof {
                    let u = t as int;
                    assert(spec_lang_ins(new_prefix, u) == spec_lang_ins(prefix, u) + (
                    match commits@[i as int].language_changes@[u] {
                        Some(ch2) => ch2.insertions as int,
                        None => 0,
                    }));
                    assert(spec_lang_del(new_prefix, u) == spec_lang_del(prefix, u) + (
                    match commits@[i as int].language_changes@[u] {
                        Some(ch2) => ch2.deletions as int,
                        None => 0,
                    }));
                }
                t = t + 1;
            }
            i = i + 1;
        }
        proof {
            assert(commits@.take(n as int) =~= commits@);
        }
        // Build the breakdown rows in table order.
        let total_changes: u64 = total_ins + total_del;
        let mut language_breakdown: Vec<LanguageBreakdown> = Vec::new();
        let mut t: usize = 0;
        while t < LANG_COUNT
            invariant
                lang_ins@.len() == LANG_COUNT,
                lang_del@.len() == LANG_COUNT,
                lang_seen@.len() == LANG_COUNT,
                forall|u: int|
                    0 <= u < LANG_COUNT ==> lang_ins@[u] == spec_lang_ins(commits@, u)
                        && lang_del@[u] == spec_lang_del(commits@, u) && lang_seen@[u]
                        == spec_lang_touched(commits@, u),
                forall|u: int|
                    0 <= u < LANG_COUNT ==> lang_ins@[u] <= 0x7FFF_FFFF_8000_0000 && lang_del@[u]
                        <= 0x7FFF_FFFF_8000_0000,
                total_ins == spec_ins_total(commits@),
                total_del == spec_del_total(commits@),
                total_ins <= 0x7FFF_FFFF_8000_0000,
                total_del <= 0x7FFF_FFFF_8000_0000,
                total_changes == total_ins + total_del,
                0 <= t <= LANG_COUNT,
                language_breakdown@.len() == spec_touched_tags(commits@, t as int).len(),
                forall|j: int|
                    0 <= j < language_breakdown@.len() ==> breakdown_ok(
                        #[trigger] language_breakdown@[j],
                        spec_touched_tags(commits@, t as int)[j],
                        commits@,
                    ),
            decreases LANG_COUNT - t,
        {
            if lang_seen[t] {
                let li = lang_ins[t];
                let ld = lang_del[t];
                let pct: u128 = if total_changes > 0 {
                    ((li as u128 + ld as u128) * 10000) / (total_changes as u128)
                } else {
                    0
                };
                let entry = LanguageBreakdown {
                    language: language_of_index(t),
                    stats: LanguageStats {
                        insertions: li,
                        deletions: ld,
                        net_change: (li as i128 - ld as i128) as i64,
                        percentage_bp: pct,
                    },
                };
                language_breakdown.push(entry);
            }
            t = t + 1;
        }
        let contribution_breakdown = ContributorStats::from_commits(commits);
        proof {
            lemma_contributors_len(commits@);
        }
        let unique_contributors = contribution_breakdown.len() as u64;
        let value_estimate = ValueEstimate::calculate(
            estimated_units,
            hourly_rate_cents,
            total_changes,
        );
        WorkAnalysis {
            total_commits: n as u64,
            unique_contributors,
            total_files_changed: total_files,
            total_insertions: total_ins,
            total_deletions: total_del,
            estimated_units,
            language_breakdown,
            value_estimate,
            contribution_breakdown,
        }
    }
}

} // verus!
