//! Per-contributor aggregation.
//!
//! Commits are grouped by author email in order of first appearance;
//! each group sums commit count, insertions, deletions and files
//! changed, carries the author name of the group's first commit, and
//! gets a share of all commits in basis points (hundredths of a
//! percent).  The result is sorted by descending commit count; equal
//! counts keep their first-appearance order.
use vstd::prelude::*;
use vstd::arithmetic::div_mod::lemma_fundamental_div_mod;
use vstd::arithmetic::mul::lemma_mul_is_distributive_add_other_way;
use crate::commit::{CommitInfo, MAX_COMMITS};
use crate::strutil::str_eq;

verus! {

/// One contributor's aggregate figures.  `percentage_bp` is the share of
/// all commits in basis points: `commit_count * 10000 / total`, rounded
/// down.
#[derive(Clone, Debug)]
pub struct ContributorStats {
    pub name: String,
    pub email: String,
    pub commit_count: u64,
    pub insertions: u64,
    pub deletions: u64,
    pub files_changed: u64,
    pub percentage_bp: u64,
}

/// Mathematical image of one contributor row.
pub ghost struct ContribRow {
    pub name: Seq<char>,
    pub email: Seq<char>,
    pub count: int,
    pub ins: int,
    pub del: int,
    pub files: int,
    pub pct: int,
}

/// Index of the first row with this email, or -1.
pub open spec fn find_row(g: Seq<ContribRow>, email: Seq<char>) -> int
    decreases g.len(),
{
    if g.len() == 0 {
        -1
    } else if g[0].email == email {
        0
    } else {
        let r = find_row(g.drop_first(), email);
        if r == -1 {
            -1
        } else {
            r + 1
        }
    }
}

pub proof fn lemma_find_row_found(g: Seq<ContribRow>, email: Seq<char>, j: int)
    requires
        0 <= j < g.len(),
        g[j].email == email,
        forall|k: int| 0 <= k < j ==> g[k].email != email,
    ensures
        find_row(g, email) == j,
    decreases j,
{
    if j > 0 {
        lemma_find_row_found(g.drop_first(), email, j - 1);
    }
}

pub proof fn lemma_find_row_missing(g: Seq<ContribRow>, email: Seq<char>)
    requires
        forall|k: int| 0 <= k < g.len() ==> g[k].email != email,
    ensures
        find_row(g, email) == -1,
    decreases g.len(),
{
    if g.len() > 0 {
        lemma_find_row_missing(g.drop_first(), email);
    }
}

/// Grouping of a commit sequence by email, in first-appearance order,
/// percentages not yet filled in.
pub open spec fn spec_grouped(s: Seq<CommitInfo>) -> Seq<ContribRow>
    decreases s.len(),
{
    if s.len() == 0 {
        Seq::empty()
    } else {
        let g = spec_grouped(s.drop_last());
        let c = s.last();
        let j = find_row(g, c.email@);
        if j == -1 {
            g.push(
                ContribRow {
                    name: c.author@,
                    email: c.email@,
                    count: 1,
                    ins: c.insertions as int,
                    del: c.deletions as int,
                    files: c.files_changed as int,
                    pct: 0,
                },
            )
        } else {
            g.update(
                j,
                ContribRow {
                    count: g[j].count + 1,
                    ins: g[j].ins + c.insertions,
                    del: g[j].del + c.deletions,
                    files: g[j].files + c.files_changed,
                    ..g[j]
                },
            )
        }
    }
}

/// Share of `count` commits out of `total`, in basis points.
pub open spec fn spec_pct(count: int, total: int) -> int {
    if total > 0 {
        count * 10000 / total
    } else {
        0
    }
}

/// Fill every row's percentage against `total`.
pub open spec fn spec_with_pct(g: Seq<ContribRow>, total: int) -> Seq<ContribRow> {
    g.map_values(|v: ContribRow| ContribRow { pct: spec_pct(v.count, total), ..v })
}

/// Insert a row into a list sorted by descending commit count, after any
/// rows with the same count (stable insertion).
pub open spec fn spec_insert_by_count(x: ContribRow, s: Seq<ContribRow>) -> Seq<ContribRow>
    decreases s.len(),
{
    if s.len() == 0 {
        seq![x]
    } else if x.count > s[0].count {
        seq![x] + s
    } else {
        seq![s[0]] + spec_insert_by_count(x, s.drop_first())
    }
}

/// Stable sort by descending commit count.
pub open spec fn spec_sort_by_count(s: Seq<ContribRow>) -> Seq<ContribRow>
    decreases s.len(),
{
    if s.len() == 0 {
        Seq::empty()
    } else {
        spec_insert_by_count(s.last(), spec_sort_by_count(s.drop_last()))
    }
}

/// The full contributor table of a commit sequence.
pub open spec fn spec_contributors(s: Seq<CommitInfo>) -> Seq<ContribRow> {
    spec_sort_by_count(spec_with_pct(spec_grouped(s), s.len() as int))
}

/// An executable row mirrors a ghost row.
pub open spec fn contrib_matches(e: ContributorStats, v: ContribRow) -> bool {
    &&& e.name@ == v.name
    &&& e.email@ == v.email
    &&& e.commit_count == v.count
    &&& e.insertions == v.ins
    &&& e.deletions == v.del
    &&& e.files_changed == v.files
    &&& e.percentage_bp == v.pct
}

pub open spec fn contribs_match(e: Seq<ContributorStats>, v: Seq<ContribRow>) -> bool {
    &&& e.len() == v.len()
    &&& forall|j: int| 0 <= j < e.len() ==> contrib_matches(e[j], v[j])
}

/// All aggregate fields of every row stay below what `n` commits can
/// produce.
pub open spec fn rows_bounded(g: Seq<ContribRow>, n: int) -> bool {
    forall|j: int|
        0 <= j < g.len() ==> {
            &&& 1 <= (#[trigger] g[j]).count <= n
            &&& 0 <= g[j].ins <= n * 0xFFFF_FFFF
            &&& 0 <= g[j].del <= n * 0xFFFF_FFFF
            &&& 0 <= g[j].files <= n * 0xFFFF_FFFF
            &&& g[j].pct == 0
        }
}

pub proof fn lemma_grouped_bounded(s: Seq<CommitInfo>)
    ensures
        rows_bounded(spec_grouped(s), s.len() as int),
    decreases s.len(),
{
    if s.len() > 0 {
        lemma_grouped_bounded(s.drop_last());
        let g = spec_grouped(s.drop_last());
        let c = s.last();
        let j = find_row(g, c.email@);
        lemma_find_row_is_valid(g, c.email@);
        let g2 = spec_grouped(s);
        let n = s.len() as int;
        if j == -1 {
            assert forall|k: int| 0 <= k < g2.len() implies 1 <= (#[trigger] g2[k]).count <= n
                && 0 <= g2[k].ins <= n * 0xFFFF_FFFF && 0 <= g2[k].del <= n * 0xFFFF_FFFF
                && 0 <= g2[k].files <= n * 0xFFFF_FFFF && g2[k].pct == 0 by {
                if k < g.len() {
                    assert(g2[k] == g[k]);
                }
            }
        } else {
            assert forall|k: int| 0 <= k < g2.len() implies 1 <= (#[trigger] g2[k]).count <= n
                && 0 <= g2[k].ins <= n * 0xFFFF_FFFF && 0 <= g2[k].del <= n * 0xFFFF_FFFF
                && 0 <= g2[k].files <= n * 0xFFFF_FFFF && g2[k].pct == 0 by {
                if k != j {
                    assert(g2[k] == g[k]);
                }
            }
        }
    }
}

proof fn lemma_insert_by_count_split(x: ContribRow, s: Seq<ContribRow>, p: int)
    requires
        0 <= p <= s.len(),
        forall|i: int| 0 <= i < p ==> s[i].count >= x.count,
        p < s.len() ==> s[p].count < x.count,
    ensures
        spec_insert_by_count(x, s) =~= s.take(p) + seq![x] + s.skip(p),
    decreases p,
{
    if p == 0 {
        if s.len() > 0 {
            assert(x.count > s[0].count);
        }
    } else {
        lemma_insert_by_count_split(x, s.drop_first(), p - 1);
        assert(s.drop_first().take(p - 1) =~= s.take(p).drop_first());
        assert(s.drop_first().skip(p - 1) =~= s.skip(p));
    }
}

impl ContributorStats {
    /// Group a commit sequence into its contributor table; see
    /// [`spec_contributors`].
    pub fn from_commits(commits: &Vec<CommitInfo>) -> (r: Vec<ContributorStats>)
        requires
            commits@.len() <= MAX_COMMITS,
        ensures
            contribs_match(r@, spec_contributors(commits@)),
    {
        let n = commits.len();
        let total = n as u64;
        // Group by email, in first-appearance order.
        let mut stats: Vec<ContributorStats> = Vec::new();
        let mut i: usize = 0;
        while i < n
            invariant
                n == commits@.len(),
                n <= MAX_COMMITS,
                0 <= i <= n,
                contribs_match(stats@, spec_grouped(commits@.take(i as int))),
                rows_bounded(spec_grouped(commits@.take(i as int)), i as int),
            decreases n - i,
        {
            let ghost g = spec_grouped(commits@.take(i as int));
            proof {
                assert(commits@.take(i + 1).drop_last() =~= commits@.take(i as int));
                assert(commits@.take(i + 1).last() == commits@[i as int]);
                lemma_grouped_bounded(commits@.take(i + 1));
            }
            let c = &commits[i];
            // Find the first row with this email.
            let mut j: usize = 0;
            let cur_len = stats.len();
            let mut found: bool = false;
            while j < cur_len && !found
                invariant
                    cur_len == stats@.len(),
                    contribs_match(stats@, g),
                    0 <= j <= cur_len,
                    !found ==> forall|k: int| 0 <= k < j ==> g[k].email != c.email@,
                    found ==> j < cur_len && g[j as int].email == c.email@ && forall|k: int|
                        0 <= k < j ==> g[k].email != c.email@,
                decreases cur_len - j, (if found { 0int } else { 1int }),
            {
                proof {
                    assert(contrib_matches(stats@[j as int], g[j as int]));
                }
                if str_eq(stats[j].email.as_str(), c.email.as_str()) {
                    found = true;
                } else {
                    j = j + 1;
                }
            }
            if found {
                proof {
                    lemma_find_row_found(g, c.email@, j as int);
                    assert(contrib_matches(stats@[j as int], g[j as int]));
                }
                let old_row = stats.remove(j);
                let new_row = ContributorStats {
                    commit_count: old_row.commit_count + 1,
                    insertions: old_row.insertions + c.insertions as u64,
                    deletions: old_row.deletions + c.deletions as u64,
                    files_changed: old_row.files_changed + c.files_changed as u64,
                    ..old_row
                };
                stats.insert(j, new_row);
                proof {
                    let g2 = spec_grouped(commits@.take(i + 1));
                    assert(g2 == g.update(
                        j as int,
                        ContribRow {
                            count: g[j as int].count + 1,
                            ins: g[j as int].ins + commits@[i as int].insertions,
                            del: g[j as int].del + commits@[i as int].deletions,
                            files: g[j as int].files + commits@[i as int].files_changed,
                            ..g[j as int]
                        },
                    ));
                    assert(stats@ =~= stats@.take(j as int).push(stats@[j as int]) + stats@.skip(
                        j + 1,
                    ));
                    assert(contribs_match(stats@, g2));
                }
            } else {
                proof {
                    lemma_find_row_missing(g, c.email@);
                }
                let new_row = ContributorStats {
                    name: c.author.clone(),
                    email: c.email.clone(),
                    commit_count: 1,
                    insertions: c.insertions as u64,
                    deletions: c.deletions as u64,
                    files_changed: c.files_changed as u64,
                    percentage_bp: 0,
                };
                stats.push(new_row);
            }
            i = i + 1;
        }
        proof {
            assert(commits@.take(n as int) =~= commits@);
        }
        let ghost g_final = spec_grouped(commits@);
        // Fill in percentages.
        let ghost g_pct = spec_with_pct(g_final, n as int);
        let mut with_pct: Vec<ContributorStats> = Vec::new();
        let mut k: usize = 0;
        let glen = stats.len();
        proof {
            lemma_grouped_bounded(commits@);
        }
        while k < glen
            invariant
                glen == stats@.len(),
                n <= MAX_COMMITS,
                total == n,
                contribs_match(stats@, g_final),
                rows_bounded(g_final, n as int),
                g_pct == spec_with_pct(g_final, n as int),
                0 <= k <= glen,
                with_pct@.len() == k,
                forall|j: int| 0 <= j < k ==> contrib_matches(#[trigger] with_pct@[j], g_pct[j]),
            decreases glen - k,
        {
            proof {
                assert(contrib_matches(stats@[k as int], g_final[k as int]));
            }
            let row = &stats[k];
            let pct: u64 = if total > 0 {
                row.commit_count * 10000 / total
            } else {
                0
            };
            let new_row = ContributorStats {
                name: row.name.clone(),
                email: row.email.clone(),
                commit_count: row.commit_count,
                insertions: row.insertions,
                deletions: row.deletions,
                files_changed: row.files_changed,
                percentage_bp: pct,
            };
            with_pct.push(new_row);
            k = k + 1;
        }
        // Stable insertion sort by descending commit count.
        let mut sorted: Vec<ContributorStats> = Vec::new();
        let mut u: usize = 0;
        let ulen = with_pct.len();
        while u < ulen
            invariant
                ulen == with_pct@.len(),
                g_pct.len() == ulen,
                0 <= u <= ulen,
                contribs_match(with_pct@, g_pct),
                contribs_match(sorted@, spec_sort_by_count(g_pct.take(u as int))),
            decreases ulen - u,
        {
            let ghost sorted_rows = spec_sort_by_count(g_pct.take(u as int));
            let ghost xrow = g_pct[u as int];
            proof {
                assert(contrib_matches(with_pct@[u as int], g_pct[u as int]));
            }
            let row = &with_pct[u];
            let row_count = row.commit_count;
            let mut p: usize = 0;
            let out_len = sorted.len();
            while p < out_len && sorted[p].commit_count >= row_count
                invariant
                    out_len == sorted@.len(),
                    0 <= p <= out_len,
                    row_count == xrow.count,
                    contribs_match(sorted@, sorted_rows),
                    forall|j: int| 0 <= j < p ==> sorted_rows[j].count >= xrow.count,
                decreases out_len - p,
            {
                proof {
                    assert(contrib_matches(sorted@[p as int], sorted_rows[p as int]));
                }
                p = p + 1;
            }
            proof {
                if p < out_len {
                    assert(contrib_matches(sorted@[p as int], sorted_rows[p as int]));
                    assert(sorted_rows[p as int].count < xrow.count);
                }
            }
            let new_row = ContributorStats {
                name: row.name.clone(),
                email: row.email.clone(),
                commit_count: row.commit_count,
                insertions: row.insertions,
                deletions: row.deletions,
                files_changed: row.files_changed,
                percentage_bp: row.percentage_bp,
            };
            sorted.insert(p, new_row);
            proof {
                lemma_insert_by_count_split(xrow, sorted_rows, p as int);
                assert(g_pct.take(u + 1).drop_last() =~= g_pct.take(u as int));
                assert(g_pct.take(u + 1).last() == g_pct[u as int]);
                assert forall|j: int| 0 <= j < sorted@.len() implies contrib_matches(
                    sorted@[j],
                    spec_sort_by_count(g_pct.take(u + 1))[j],
                ) by {
                    let srows = spec_insert_by_count(xrow, sorted_rows);
                    assert(srows =~= sorted_rows.take(p as int) + seq![xrow] + sorted_rows.skip(
                        p as int,
                    ));
                    assert(sorted@ =~= sorted@.take(p as int) + seq![sorted@[p as int]]
                        + sorted@.skip(p + 1));
                    if j < p {
                        assert(sorted@[j] == sorted@.take(p as int)[j]);
                    } else if j == p {
                    } else {
                        assert(srows[j] == sorted_rows[j - 1]);
                    }
                }
            }
            u = u + 1;
        }
        proof {
            assert(g_pct.take(ulen as int) =~= g_pct);
        }
        sorted
    }
}

// ---------------------------------------------------------------------------
// Laws of the contributor table
// ---------------------------------------------------------------------------
/// Sum of commit counts over a table.
pub open spec fn spec_count_sum(g: Seq<ContribRow>) -> int
    decreases g.len(),
{
    if g.len() == 0 {
        0
    } else {
        spec_count_sum(g.drop_last()) + g.last().count
    }
}

/// Sum of percentage shares (basis points) over a table.
pub open spec fn spec_pct_sum(g: Seq<ContribRow>) -> int
    decreases g.len(),
{
    if g.len() == 0 {
        0
    } else {
        spec_pct_sum(g.drop_last()) + g.last().pct
    }
}

proof fn lemma_count_sum_update(g: Seq<ContribRow>, j: int, v: ContribRow)
    requires
        0 <= j < g.len(),
    ensures
        spec_count_sum(g.update(j, v)) == spec_count_sum(g) - g[j].count + v.count,
    decreases g.len(),
{
    let g2 = g.update(j, v);
    if j == g.len() - 1 {
        assert(g2.drop_last() =~= g.drop_last());
        assert(g2.last() == v);
    } else {
        lemma_count_sum_update(g.drop_last(), j, v);
        assert(g2.drop_last() =~= g.drop_last().update(j, v));
        assert(g2.last() == g.last());
    }
}

/// The grouped table's commit counts sum to the number of commits.
pub proof fn lemma_grouped_count_sum(s: Seq<CommitInfo>)
    ensures
        spec_count_sum(spec_grouped(s)) == s.len(),
    decreases s.len(),
{
    if s.len() > 0 {
        lemma_grouped_count_sum(s.drop_last());
        let g = spec_grouped(s.drop_last());
        let c = s.last();
        let j = find_row(g, c.email@);
        if j == -1 {
            assert(spec_grouped(s).drop_last() =~= g);
        } else {
            lemma_find_row_is_valid(g, c.email@);
            lemma_count_sum_update(
                g,
                j,
                ContribRow {
                    count: g[j].count + 1,
                    ins: g[j].ins + c.insertions,
                    del: g[j].del + c.deletions,
                    files: g[j].files + c.files_changed,
                    ..g[j]
                },
            );
        }
    }
}

proof fn lemma_find_row_is_valid(g: Seq<ContribRow>, email: Seq<char>)
    ensures
        find_row(g, email) == -1 || (0 <= find_row(g, email) < g.len() && g[find_row(
            g,
            email,
        )].email == email),
    decreases g.len(),
{
    if g.len() > 0 {
        lemma_find_row_is_valid(g.drop_first(), email);
    }
}

proof fn lemma_count_sum_insert(x: ContribRow, s: Seq<ContribRow>)
    ensures
        spec_count_sum(spec_insert_by_count(x, s)) == spec_count_sum(s) + x.count,
        spec_pct_sum(spec_insert_by_count(x, s)) == spec_pct_sum(s) + x.pct,
    decreases s.len(),
{
    let r = spec_insert_by_count(x, s);
    if s.len() == 0 {
        assert(r =~= seq![x]);
        assert(r.drop_last() =~= Seq::<ContribRow>::empty());
        assert(spec_count_sum(Seq::<ContribRow>::empty()) == 0);
        assert(spec_pct_sum(Seq::<ContribRow>::empty()) == 0);
    } else if x.count > s[0].count {
        lemma_sum_prepend(x, s);
    } else {
        lemma_count_sum_insert(x, s.drop_first());
        lemma_sum_prepend(s[0], spec_insert_by_count(x, s.drop_first()));
        lemma_sum_prepend(s[0], s.drop_first());
        assert(seq![s[0]] + s.drop_first() =~= s);
    }
}

proof fn lemma_sum_prepend(x: ContribRow, s: Seq<ContribRow>)
    ensures
        spec_count_sum(seq![x] + s) == x.count + spec_count_sum(s),
        spec_pct_sum(seq![x] + s) == x.pct + spec_pct_sum(s),
    decreases s.len(),
{
    let r = seq![x] + s;
    if s.len() == 0 {
        assert(r =~= seq![x]);
        assert(r.drop_last() =~= Seq::<ContribRow>::empty());
        assert(spec_count_sum(Seq::<ContribRow>::empty()) == 0);
        assert(spec_pct_sum(Seq::<ContribRow>::empty()) == 0);
    } else {
        lemma_sum_prepend(x, s.drop_last());
        assert(r.drop_last() =~= seq![x] + s.drop_last());
        assert(r.last() == s.last());
    }
}

proof fn lemma_sort_sums(s: Seq<ContribRow>)
    ensures
        spec_count_sum(spec_sort_by_count(s)) == spec_count_sum(s),
        spec_pct_sum(spec_sort_by_count(s)) == spec_pct_sum(s),
    decreases s.len(),
{
    if s.len() > 0 {
        lemma_sort_sums(s.drop_last());
        lemma_count_sum_insert(s.last(), spec_sort_by_count(s.drop_last()));
    }
}

proof fn lemma_with_pct_sums(g: Seq<ContribRow>, total: int)
    ensures
        spec_count_sum(spec_with_pct(g, total)) == spec_count_sum(g),
        spec_with_pct(g, total).len() == g.len(),
        spec_pct_sum(spec_with_pct(g, total)) == spec_pct_sum_of_counts(g, total),
    decreases g.len(),
{
    let m = spec_with_pct(g, total);
    if g.len() == 0 {
        assert(m =~= Seq::<ContribRow>::empty());
    } else {
        lemma_with_pct_sums(g.drop_last(), total);
        assert(m.drop_last() =~= spec_with_pct(g.drop_last(), total));
        assert(m.last() == ContribRow { pct: spec_pct(g.last().count, total), ..g.last() });
    }
}

/// What the percentages of a table sum to, before any sorting.
pub open spec fn spec_pct_sum_of_counts(g: Seq<ContribRow>, total: int) -> int
    decreases g.len(),
{
    if g.len() == 0 {
        0
    } else {
        spec_pct_sum_of_counts(g.drop_last(), total) + spec_pct(g.last().count, total)
    }
}

proof fn lemma_pct_sum_bounds(g: Seq<ContribRow>, total: int)
    requires
        total > 0,
    ensures
        spec_pct_sum_of_counts(g, total) * total <= spec_count_sum(g) * 10000,
        g.len() > 0 ==> spec_count_sum(g) * 10000 < spec_pct_sum_of_counts(g, total) * total
            + g.len() * total,
    decreases g.len(),
{
    if g.len() == 0 {
    } else {
        lemma_pct_sum_bounds(g.drop_last(), total);
        let sp = spec_pct_sum_of_counts(g.drop_last(), total);
        let sc = spec_count_sum(g.drop_last());
        let k = g.len() - 1;
        let c = g.last().count;
        let t = spec_pct(c, total);
        lemma_fundamental_div_mod(c * 10000, total);
        assert(t * total <= c * 10000 < t * total + total) by (nonlinear_arith)
            requires
                total > 0,
                t == c * 10000 / total,
                c * 10000 == total * (c * 10000 / total) + (c * 10000) % total,
                0 <= (c * 10000) % total < total,
        ;
        lemma_mul_is_distributive_add_other_way(total, sp, t);
        lemma_mul_is_distributive_add_other_way(total, k, 1);
        assert(spec_count_sum(g) == sc + c);
        assert(spec_pct_sum_of_counts(g, total) == sp + t);
        assert((sp + t) * total == sp * total + t * total);
        assert((k + 1) * total == k * total + 1 * total);
        assert(spec_count_sum(g) * 10000 == sc * 10000 + c * 10000);
        assert(spec_count_sum(g) * 10000 < (sp + t) * total + (k + 1) * total);
        assert(spec_pct_sum_of_counts(g, total) * total == (sp + t) * total) by (nonlinear_arith)
            requires
                spec_pct_sum_of_counts(g, total) == sp + t,
        ;
        assert(g.len() * total == (k + 1) * total) by (nonlinear_arith)
            requires
                g.len() == k + 1,
        ;
    }
}

proof fn lemma_insert_len(x: ContribRow, s: Seq<ContribRow>)
    ensures
        spec_insert_by_count(x, s).len() == s.len() + 1,
    decreases s.len(),
{
    if s.len() > 0 && !(x.count > s[0].count) {
        lemma_insert_len(x, s.drop_first());
    }
}

proof fn lemma_sort_len(s: Seq<ContribRow>)
    ensures
        spec_sort_by_count(s).len() == s.len(),
    decreases s.len(),
{
    if s.len() > 0 {
        lemma_sort_len(s.drop_last());
        lemma_insert_len(s.last(), spec_sort_by_count(s.drop_last()));
    }
}

/// The contributor table has one row per distinct author email.
pub proof fn lemma_contributors_len(s: Seq<CommitInfo>)
    ensures
        spec_contributors(s).len() == spec_grouped(s).len(),
{
    lemma_sort_len(spec_with_pct(spec_grouped(s), s.len() as int));
}

/// Laws of the contributor table: for a non-empty history the commit
/// counts sum to the number of commits, and the percentage shares sum to
/// 10000 basis points, short by less than one basis point per
/// contributor (integer rounding loses under 1 per row).
pub proof fn lemma_contributor_totals(s: Seq<CommitInfo>)
    requires
        s.len() > 0,
    ensures
        spec_count_sum(spec_contributors(s)) == s.len(),
        spec_pct_sum(spec_contributors(s)) <= 10000,
        spec_pct_sum(spec_contributors(s)) > 10000 - spec_grouped(s).len(),
{
    let total = s.len() as int;
    let g = spec_grouped(s);
    let gp = spec_with_pct(g, total);
    lemma_grouped_count_sum(s);
    lemma_with_pct_sums(g, total);
    lemma_sort_sums(gp);
    lemma_pct_sum_bounds(g, total);
    lemma_find_row_is_valid(spec_grouped(s.drop_last()), s.last().email@);
    assert(g.len() > 0);
    let sp = spec_pct_sum_of_counts(g, total);
    assert(sp * total <= total * 10000);
    assert(total * 10000 < sp * total + g.len() * total);
    assert(sp <= 10000) by (nonlinear_arith)
        requires
            total > 0,
            sp * total <= total * 10000,
    ;
    assert(sp > 10000 - g.len()) by (nonlinear_arith)
        requires
            total > 0,
            total * 10000 < sp * total + g.len() * total,
    ;
}

} // verus!
