//! Repository-level history statistics.
//!
//! A light aggregation over the raw commit walk: how many commits, how
//! many distinct authors with a decodable email, and the age of the
//! history in whole days between its oldest and newest commits.
use vstd::prelude::*;
use crate::commit::{RawCommit, MAX_COMMITS};
use crate::strutil::str_eq;

verus! {

/// Aggregate figures of one repository's history.
#[derive(Clone, Debug)]
pub struct GitStats {
    pub commit_count: u64,
    pub contributor_count: u64,
    pub age_in_days: i64,
    pub first_commit: Option<i64>,
    pub last_commit: Option<i64>,
}

/// Smallest timestamp of a non-empty walk.
pub open spec fn spec_min_ts(s: Seq<RawCommit>) -> int
    decreases s.len(),
{
    if s.len() <= 1 {
        s[0].timestamp as int
    } else {
        let rest = spec_min_ts(s.drop_last());
        if s.last().timestamp < rest {
            s.last().timestamp as int
        } else {
            rest
        }
    }
}

/// Largest timestamp of a non-empty walk.
pub open spec fn spec_max_ts(s: Seq<RawCommit>) -> int
    decreases s.len(),
{
    if s.len() <= 1 {
        s[0].timestamp as int
    } else {
        let rest = spec_max_ts(s.drop_last());
        if s.last().timestamp > rest {
            s.last().timestamp as int
        } else {
            rest
        }
    }
}

/// Does any commit of `s` carry the email `e`?
pub open spec fn spec_has_email(s: Seq<RawCommit>, e: Seq<char>) -> bool {
    exists|i: int|
        0 <= i < s.len() && match #[trigger] s[i].email {
            Some(x) => x@ == e,
            None => false,
        }
}

/// Number of distinct author emails (commits without one don't count).
pub open spec fn spec_contributor_count(s: Seq<RawCommit>) -> int
    decreases s.len(),
{
    if s.len() == 0 {
        0
    } else {
        spec_contributor_count(s.drop_last()) + match s.last().email {
            Some(x) => if spec_has_email(s.drop_last(), x@) {
                0int
            } else {
                1
            },
            None => 0,
        }
    }
}

/// Computes [`GitStats`] from a raw commit walk.
pub struct GitAnalyzer;

impl GitAnalyzer {
    pub fn new() -> (r: Self) {
        GitAnalyzer
    }

    /// Aggregate a raw walk into counts, age and bounds.
    pub fn stats_from_commits(&self, commits: &Vec<RawCommit>) -> (r: GitStats)
        requires
            commits@.len() <= MAX_COMMITS,
        ensures
            r.commit_count == commits@.len(),
            r.contributor_count == spec_contributor_count(commits@),
            commits@.len() == 0 ==> r.first_commit is None && r.last_commit is None
                && r.age_in_days == 0,
            commits@.len() > 0 ==> {
                &&& r.first_commit == Some((spec_min_ts(commits@) as i64))
                &&& r.last_commit == Some((spec_max_ts(commits@) as i64))
                &&& r.age_in_days == (spec_max_ts(commits@) - spec_min_ts(commits@)) / 86400
            },
    {
        let n = commits.len();
        if n == 0 {
            return GitStats {
                commit_count: 0,
                contributor_count: 0,
                age_in_days: 0,
                first_commit: None,
                last_commit: None,
            };
        }
        let mut min_ts: i64 = commits[0].timestamp;
        let mut max_ts: i64 = commits[0].timestamp;
        let mut seen: Vec<String> = Vec::new();
        let mut count: u64 = 0;
        let ghost s = commits@;
        proof {
            assert(s.take(1).drop_last() =~= Seq::<RawCommit>::empty());
            assert(s.take(1)[0] == s[0]);
        }
        let mut i: usize = 0;
        while i < n
            invariant
                n == commits@.len(),
                n <= MAX_COMMITS,
                s == commits@,
                0 < n,
                0 <= i <= n,
                i > 0 ==> min_ts == spec_min_ts(s.take(i as int)),
                i > 0 ==> max_ts == spec_max_ts(s.take(i as int)),
                i == 0 ==> min_ts == s[0].timestamp && max_ts == s[0].timestamp,
                min_ts <= max_ts,
                count == spec_contributor_count(s.take(i as int)),
                count == seen@.len(),
                count <= i,
                forall|a: int, b: int|
                    0 <= a < b < seen@.len() ==> (#[trigger] seen@[a])@ != (#[trigger] seen@[b])@,
                forall|v: Seq<char>|
                    spec_has_email(s.take(i as int), v) <==> exists|a: int|
                        0 <= a < seen@.len() && (#[trigger] seen@[a])@ == v,
            decreases n - i,
        {
            let ghost prefix = s.take(i as int);
            let ghost next = s.take(i + 1);
            proof {
                assert(next.drop_last() =~= prefix);
                assert(next.last() == s[i as int]);
                assert forall|v: Seq<char>|
                    spec_has_email(next, v) == (spec_has_email(prefix, v) || match s[i as int].email {
                        Some(x) => x@ == v,
                        None => false,
                    }) by {
                    if spec_has_email(prefix, v) {
                        let w = choose|w: int|
                            0 <= w < prefix.len() && match #[trigger] prefix[w].email {
                                Some(x) => x@ == v,
                                None => false,
                            };
                        assert(next[w] == prefix[w]);
                    }
                    if spec_has_email(next, v) {
                        let w = choose|w: int|
                            0 <= w < next.len() && match #[trigger] next[w].email {
                                Some(x) => x@ == v,
                                None => false,
                            };
                        if w < i {
                            assert(prefix[w] == next[w]);
                        }
                    }
                }
            }
            let c = &commits[i];
            if c.timestamp < min_ts {
                min_ts = c.timestamp;
            }
            if c.timestamp > max_ts {
                max_ts = c.timestamp;
            }
            match &c.email {
                Some(email) => {
                    let mut found = false;
                    let mut a: usize = 0;
                    let slen = seen.len();
                    while a < slen && !found
                        invariant
                            slen == seen@.len(),
                            0 <= a <= slen,
                            email@ == (match s[i as int].email {
                                Some(x) => x@,
                                None => Seq::<char>::empty(),
                            }),
                            s[i as int].email is Some,
                            !found ==> forall|b: int|
                                0 <= b < a ==> (#[trigger] seen@[b])@ != email@,
                            found ==> exists|b: int|
                                0 <= b < slen && (#[trigger] seen@[b])@ == email@,
                        decreases slen - a, (if found { 0int } else { 1int }),
                    {
                        if str_eq(seen[a].as_str(), email.as_str()) {
                            found = true;
                        } else {
                            a = a + 1;
                        }
                    }
                    if !found {
                        proof {
                            if spec_has_email(prefix, email@) {
                                let b = choose|b: int|
                                    0 <= b < seen@.len() && (#[trigger] seen@[b])@ == email@;
                                assert(false);
                            }
                        }
                        let ghost old_seen = seen@;
                        seen.push(email.clone());
                        count = count + 1;
                        proof {
                            assert(seen@[seen@.len() - 1] == email);
                            assert forall|v: Seq<char>|
                                spec_has_email(next, v) implies exists|b: int|
                                0 <= b < seen@.len() && (#[trigger] seen@[b])@ == v by {
                                if v == email@ {
                                    assert(seen@[seen@.len() - 1]@ == v);
                                } else {
                                    assert(spec_has_email(prefix, v));
                                    let b = choose|b: int|
                                        0 <= b < old_seen.len() && (#[trigger] old_seen[b])@
                                            == v;
                                    assert(seen@[b] == old_seen[b]);
                                }
                            }
                            assert forall|v: Seq<char>| (exists|b: int|
                                0 <= b < seen@.len() && (#[trigger] seen@[b])@ == v) implies
                                spec_has_email(next, v) by {
                                let b = choose|b: int|
                                    0 <= b < seen@.len() && (#[trigger] seen@[b])@ == v;
                                if b < seen@.len() - 1 {
                                    assert(old_seen[b]@ == v);
                                    assert(spec_has_email(prefix, v));
                                }
                            }
                        }
                    } else {
                        proof {
                            assert(spec_has_email(prefix, email@));
                        }
                    }
                },
                None => {},
            }
            proof {
                if i > 0 {
                    assert(next.drop_last() == prefix);
                } else {
                    assert(next.len() == 1);
                    assert(next[0] == s[0]);
                }
            }
            i = i + 1;
        }
        proof {
            assert(s.take(n as int) =~= s);
        }
        let diff: i128 = max_ts as i128 - min_ts as i128;
        let age_in_days: i64 = ((diff as u128) / 86400) as i64;
        GitStats {
            commit_count: n as u64,
            contributor_count: count,
            age_in_days,
            first_commit: Some(min_ts),
            last_commit: Some(max_ts),
        }
    }
}

impl Default for GitAnalyzer {
    fn default() -> (r: Self) {
        GitAnalyzer::new()
    }
}

} // verus!
