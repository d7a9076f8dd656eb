//! Commit records.
//!
//! A caller walks the repository (outside this crate) and hands over one
//! [`RawCommit`] per commit, newest first: the metadata git reported plus
//! the list of file paths the commit touched and its global line counts.
//! Everything derived from that — language attribution, window and count
//! filtering — is computed and specified here.
//!
//! Per-language attribution mirrors the diff walk it models: a touched
//! file whose extension is recognized creates a (possibly zero-valued)
//! entry for its language, while insertion/deletion counts are tallied
//! globally only.  Unrecognized extensions create no entry at all.
use vstd::prelude::*;
use crate::lang::{Language, lang_tag, LANG_COUNT};
use crate::metrics::{spec_detect_language, detect_language};

verus! {

/// Per-language insertion/deletion counts of one commit.
#[derive(Clone, Copy, Debug, PartialEq, Eq, Structural)]
pub struct LanguageChange {
    pub insertions: u32,
    pub deletions: u32,
}

/// Per-language breakdown of one commit: a fixed table with one optional
/// entry per recognized language.  `None` means the language was not
/// touched; `Some` marks presence even when both counts are zero.
#[derive(Clone, Debug)]
pub struct LanguageChanges {
    slots: Vec<Option<LanguageChange>>,
}

/// The breakdown with no language present.
pub open spec fn spec_no_changes() -> Seq<Option<LanguageChange>> {
    Seq::new(LANG_COUNT as nat, |i: int| None::<LanguageChange>)
}

/// Mark a language as touched, keeping its counts if already present.
pub open spec fn spec_touch(s: Seq<Option<LanguageChange>>, l: Language) -> Seq<
    Option<LanguageChange>,
> {
    if s[lang_tag(l)] is Some {
        s
    } else {
        s.update(lang_tag(l), Some(LanguageChange { insertions: 0, deletions: 0 }))
    }
}

impl View for LanguageChanges {
    type V = Seq<Option<LanguageChange>>;

    closed spec fn view(&self) -> Seq<Option<LanguageChange>> {
        self.slots@
    }
}

impl LanguageChanges {
    /// The table always has one slot per recognized language.
    pub open spec fn wf(&self) -> bool {
        self@.len() == LANG_COUNT
    }

    pub fn new() -> (r: Self)
        ensures
            r.wf(),
            r@ == spec_no_changes(),
    {
        let mut slots: Vec<Option<LanguageChange>> = Vec::new();
        let mut i: usize = 0;
        while i < LANG_COUNT
            invariant
                0 <= i <= LANG_COUNT,
                slots@.len() == i,
                forall|j: int| 0 <= j < i ==> slots@[j] is None,
            decreases LANG_COUNT - i,
        {
            slots.push(None);
            i = i + 1;
        }
        proof {
            assert(slots@ =~= spec_no_changes());
        }
        LanguageChanges { slots }
    }

    /// The entry recorded for `l`.
    pub fn get(&self, l: Language) -> (r: Option<LanguageChange>)
        requires
            self.wf(),
        ensures
            r == self@[lang_tag(l)],
    {
        self.slots[l.index()]
    }

    /// Record that `l` was touched, without attributing any lines.
    pub fn touch(&mut self, l: Language)
        requires
            old(self).wf(),
        ensures
            final(self).wf(),
            final(self)@ == spec_touch(old(self)@, l),
    {
        let i = l.index();
        if self.slots[i].is_none() {
            self.slots.set(i, Some(LanguageChange { insertions: 0, deletions: 0 }));
        }
    }

    /// Overwrite the entry for `l` with explicit counts.
    pub fn set_counts(&mut self, l: Language, insertions: u32, deletions: u32)
        requires
            old(self).wf(),
        ensures
            final(self).wf(),
            final(self)@ == old(self)@.update(
                lang_tag(l),
                Some(LanguageChange { insertions, deletions }),
            ),
    {
        let i = l.index();
        self.slots.set(i, Some(LanguageChange { insertions, deletions }));
    }

    /// An exact copy.
    pub fn duplicate(&self) -> (r: Self)
        requires
            self.wf(),
        ensures
            r.wf(),
            r@ == self@,
    {
        let mut slots: Vec<Option<LanguageChange>> = Vec::new();
        let mut i: usize = 0;
        while i < LANG_COUNT
            invariant
                self.wf(),
                0 <= i <= LANG_COUNT,
                slots@.len() == i,
                forall|j: int| 0 <= j < i ==> slots@[j] == self@[j],
            decreases LANG_COUNT - i,
        {
            slots.push(self.slots[i]);
            i = i + 1;
        }
        proof {
            assert(slots@ =~= self@);
        }
        LanguageChanges { slots }
    }
}

/// Largest history length the aggregators accept, so that u64 sums and
/// basis-point products cannot overflow.
pub const MAX_COMMITS: usize = 0x8000_0000;

/// One commit of the history, fully extracted.
#[derive(Clone, Debug)]
pub struct CommitInfo {
    pub hash: String,
    pub author: String,
    pub email: String,
    /// Unix timestamp of the author signature, seconds, UTC.
    pub timestamp: i64,
    pub message: String,
    pub files_changed: u32,
    pub insertions: u32,
    pub deletions: u32,
    pub language_changes: LanguageChanges,
}

impl CommitInfo {
    pub open spec fn wf(&self) -> bool {
        self.language_changes.wf()
    }

    /// A copy that is equal field by field (strings compared by content).
    pub fn duplicate(&self) -> (r: Self)
        requires
            self.wf(),
        ensures
            r.wf(),
            r.hash@ == self.hash@,
            r.author@ == self.author@,
            r.email@ == self.email@,
            r.timestamp == self.timestamp,
            r.message@ == self.message@,
            r.files_changed == self.files_changed,
            r.insertions == self.insertions,
            r.deletions == self.deletions,
            r.language_changes@ == self.language_changes@,
    {
        CommitInfo {
            hash: self.hash.clone(),
            author: self.author.clone(),
            email: self.email.clone(),
            timestamp: self.timestamp,
            message: self.message.clone(),
            files_changed: self.files_changed,
            insertions: self.insertions,
            deletions: self.deletions,
            language_changes: self.language_changes.duplicate(),
        }
    }
}

/// What the repository walk reports for one commit, before derivation.
/// Optional fields are metadata git could not decode.
pub struct RawCommit {
    pub hash: String,
    pub author: Option<String>,
    pub email: Option<String>,
    /// Unix timestamp of the author signature, seconds, UTC.
    pub timestamp: i64,
    pub message: Option<String>,
    /// Paths of all files touched by the commit's diff, one per delta.
    pub files: Vec<String>,
    pub insertions: u32,
    pub deletions: u32,
}

/// The per-language table derived from the touched paths of a commit:
/// each recognized path marks its language as present.
pub open spec fn spec_changes_of_files(paths: Seq<String>, n: int) -> Seq<Option<LanguageChange>>
    decreases n,
{
    if n <= 0 {
        spec_no_changes()
    } else {
        let prev = spec_changes_of_files(paths, n - 1);
        match spec_detect_language(paths[n - 1]@) {
            Some(l) => spec_touch(prev, l),
            None => prev,
        }
    }
}

pub proof fn lemma_changes_of_files_len(paths: Seq<String>, n: int)
    ensures
        spec_changes_of_files(paths, n).len() == LANG_COUNT,
    decreases n,
{
    if n > 0 {
        lemma_changes_of_files_len(paths, n - 1);
    }
}

/// Does `c` hold exactly the record derived from `raw`?  Missing author,
/// email and message fall back to "Unknown", "" and "" respectively, as
/// the extraction they model does.
pub open spec fn spec_commit_from_raw(raw: RawCommit, c: CommitInfo) -> bool {
    &&& c.hash == raw.hash
    &&& c.author@ == (match raw.author {
        Some(a) => a@,
        None => "Unknown"@,
    })
    &&& c.email@ == (match raw.email {
        Some(e) => e@,
        None => ""@,
    })
    &&& c.timestamp == raw.timestamp
    &&& c.message@ == (match raw.message {
        Some(m) => m@,
        None => ""@,
    })
    &&& c.files_changed == raw.files@.len()
    &&& c.insertions == raw.insertions
    &&& c.deletions == raw.deletions
    &&& c.language_changes@ == spec_changes_of_files(raw.files@, raw.files@.len() as int)
}

impl CommitInfo {
    /// Derive a full commit record from raw walk output.
    pub fn from_raw(raw: RawCommit) -> (r: CommitInfo)
        requires
            raw.files@.len() <= u32::MAX,
        ensures
            r.wf(),
            spec_commit_from_raw(raw, r),
    {
        let mut changes = LanguageChanges::new();
        let files_changed = raw.files.len() as u32;
        let mut i: usize = 0;
        while i < raw.files.len()
            invariant
                changes.wf(),
                0 <= i <= raw.files@.len(),
                changes@ == spec_changes_of_files(raw.files@, i as int),
            decreases raw.files@.len() - i,
        {
            match detect_language(raw.files[i].as_str()) {
                Some(l) => changes.touch(l),
                None => {},
            }
            i = i + 1;
        }
        let author = match raw.author {
            Some(a) => a,
            None => "Unknown".to_owned(),
        };
        let email = match raw.email {
            Some(e) => e,
            None => "".to_owned(),
        };
        let message = match raw.message {
            Some(m) => m,
            None => "".to_owned(),
        };
        CommitInfo {
            hash: raw.hash,
            author,
            email,
            timestamp: raw.timestamp,
            message,
            files_changed,
            insertions: raw.insertions,
            deletions: raw.deletions,
            language_changes: changes,
        }
    }
}

/// Is a commit inside the optional inclusive time window?
pub open spec fn spec_in_window(ts: i64, from_ts: Option<i64>, to_ts: Option<i64>) -> bool {
    &&& (match from_ts {
        Some(f) => ts >= f,
        None => true,
    })
    &&& (match to_ts {
        Some(t) => ts <= t,
        None => true,
    })
}

/// The raw commits retained by the window and count filters, scanning
/// newest first: commits outside the window are skipped without counting,
/// and the scan stops once `budget` commits have been kept.
pub open spec fn spec_kept(
    raws: Seq<RawCommit>,
    budget: int,
    from_ts: Option<i64>,
    to_ts: Option<i64>,
) -> Seq<RawCommit>
    decreases raws.len(),
{
    if raws.len() == 0 || budget <= 0 {
        Seq::empty()
    } else if spec_in_window(raws[0].timestamp, from_ts, to_ts) {
        seq![raws[0]] + spec_kept(raws.drop_first(), budget - 1, from_ts, to_ts)
    } else {
        spec_kept(raws.drop_first(), budget, from_ts, to_ts)
    }
}

/// The count limit as a number: `None` never binds, so it acts as the
/// input length (no scan can keep more commits than it has).
pub open spec fn spec_budget(limit: Option<usize>, len: int) -> int {
    match limit {
        Some(l) => l as int,
        None => len,
    }
}

/// Convert a freshly walked history into commit records, newest first,
/// applying the optional inclusive time window and count limit.
pub fn build_commit_log(
    raws: Vec<RawCommit>,
    limit: Option<usize>,
    from_ts: Option<i64>,
    to_ts: Option<i64>,
) -> (r: Vec<CommitInfo>)
    requires
        forall|i: int| 0 <= i < raws@.len() ==> (#[trigger] raws@[i].files)@.len() <= u32::MAX,
    ensures
        ({
            let kept = spec_kept(raws@, spec_budget(limit, raws@.len() as int), from_ts, to_ts);
            &&& r@.len() == kept.len()
            &&& forall|j: int|
                0 <= j < r@.len() ==> #[trigger] spec_commit_from_raw(kept[j], r@[j])
                    && r@[j].wf()
        }),
{
    let ghost orig = raws@;
    let ghost budget0 = spec_budget(limit, raws@.len() as int);
    let total = raws.len();
    let mut raws = raws;
    let mut out: Vec<CommitInfo> = Vec::new();
    let ghost mut kept_raws: Seq<RawCommit> = Seq::empty();
    let mut count: usize = 0;
    loop
        invariant
            total == orig.len(),
            forall|i: int| 0 <= i < raws@.len() ==> (#[trigger] raws@[i].files)@.len() <= u32::MAX,
            out@.len() == kept_raws.len(),
            count == kept_raws.len(),
            forall|j: int|
                0 <= j < out@.len() ==> spec_commit_from_raw(kept_raws[j], #[trigger] out@[j]),
            forall|j: int| 0 <= j < out@.len() ==> (#[trigger] out@[j]).wf(),
            spec_kept(orig, budget0, from_ts, to_ts) == kept_raws + spec_kept(
                raws@,
                budget0 - count,
                from_ts,
                to_ts,
            ),
            count + raws@.len() <= orig.len(),
            match limit {
                Some(l) => count <= l && budget0 == l,
                None => budget0 - count >= raws@.len(),
            },
        ensures
            raws@.len() == 0 || budget0 - count <= 0,
        decreases raws@.len(),
    {
        if raws.len() == 0 {
            break;
        }
        let limit_reached = match limit {
            Some(l) => count >= l,
            None => false,
        };
        if limit_reached {
            break;
        }
        let ghost raws_before = raws@;
        let ghost b = budget0 - count;
        proof {
            assert(b > 0);
        }
        let raw = raws.remove(0);
        proof {
            assert(raws@ =~= raws_before.drop_first());
        }
        if in_window_exec(raw.timestamp, from_ts, to_ts) {
            let ghost kept_before = kept_raws;
            let info = CommitInfo::from_raw(raw);
            out.push(info);
            proof {
                kept_raws = kept_raws + seq![raws_before[0]];
                assert(spec_kept(raws_before, b, from_ts, to_ts) == seq![raws_before[0]]
                    + spec_kept(raws_before.drop_first(), b - 1, from_ts, to_ts));
                assert(kept_before + spec_kept(raws_before, b, from_ts, to_ts) =~= kept_raws
                    + spec_kept(raws@, b - 1, from_ts, to_ts));
            }
            count = count + 1;
        } else {
            proof {
                assert(spec_kept(raws_before, b, from_ts, to_ts) == spec_kept(
                    raws_before.drop_first(),
                    b,
                    from_ts,
                    to_ts,
                ));
            }
        }
    }
    proof {
        assert(spec_kept(raws@, budget0 - count, from_ts, to_ts) =~= Seq::<RawCommit>::empty());
        assert(kept_raws + Seq::<RawCommit>::empty() =~= kept_raws);
    }
    out
}

fn in_window_exec(ts: i64, from_ts: Option<i64>, to_ts: Option<i64>) -> (r: bool)
    ensures
        r == spec_in_window(ts, from_ts, to_ts),
{
    let from_ok = match from_ts {
        Some(f) => ts >= f,
        None => true,
    };
    let to_ok = match to_ts {
        Some(t) => ts <= t,
        None => true,
    };
    from_ok && to_ok
}

} // verus!
