//! Static line metrics.
//!
//! A tree walk (done by the caller, outside this crate) delivers each
//! candidate file as a path plus its decoded lines; everything that
//! decides — which directories are skipped, which files are recognized,
//! how every line is classified as code, comment or blank — lives here.
//! Paths use `/` as the component separator.
use vstd::prelude::*;
use vstd::string::StrSliceExecFns;
use crate::lang::{Language, lang_tag, lang_weight_tenths, lang_name, LANG_COUNT};
use crate::lang::{spec_language_from_extension, language_from_extension};
use crate::lang::{lang_single_marker, lang_block_start, lang_block_end};
use crate::strutil::{is_space_char, all_space, lower_seq, matches_at, contains_seq};
use crate::strutil::{first_non_space_from, str_eq, contains_str_lower, all_space_exec};
use crate::strutil::{first_non_space_idx, starts_at, rfind_char, starts_with_lower};

verus! {

// ---------------------------------------------------------------------------
// Paths: components, file names, extensions
// ---------------------------------------------------------------------------
/// Index of the last occurrence of `c` at or before position `k`, or -1.
pub open spec fn rfind_from(s: Seq<char>, c: char, k: int) -> int
    decreases k + 1,
{
    if k < 0 || k >= s.len() {
        -1
    } else if s[k] == c {
        k
    } else {
        rfind_from(s, c, k - 1)
    }
}

/// Index of the last occurrence of `c` in `s`, or -1.
pub open spec fn rfind(s: Seq<char>, c: char) -> int {
    rfind_from(s, c, s.len() - 1)
}

pub proof fn lemma_rfind_found(s: Seq<char>, c: char, k: int, i: int)
    requires
        0 <= i <= k < s.len(),
        s[i] == c,
        forall|j: int| i < j <= k ==> s[j] != c,
    ensures
        rfind_from(s, c, k) == i,
    decreases k,
{
    if k == i {
    } else {
        lemma_rfind_found(s, c, k - 1, i);
    }
}

pub proof fn lemma_rfind_missing(s: Seq<char>, c: char, k: int)
    requires
        k < s.len(),
        forall|j: int| 0 <= j <= k ==> s[j] != c,
    ensures
        rfind_from(s, c, k) == -1,
    decreases k + 1,
{
    if k >= 0 {
        lemma_rfind_missing(s, c, k - 1);
    }
}

/// The final path component: everything after the last `/`.
pub open spec fn spec_file_name(p: Seq<char>) -> Seq<char> {
    p.subrange(rfind(p, '/') + 1, p.len() as int)
}

/// The extension of a file name: what follows the last dot, unless the
/// only dot is the leading character (dotfiles have no extension).
pub open spec fn spec_extension(f: Seq<char>) -> Option<Seq<char>> {
    let d = rfind(f, '.');
    if d <= 0 {
        None
    } else {
        Some(f.subrange(d + 1, f.len() as int))
    }
}

/// The language a path is attributed to, by its extension.
pub open spec fn spec_detect_language(p: Seq<char>) -> Option<Language> {
    match spec_extension(spec_file_name(p)) {
        Some(e) => spec_language_from_extension(e),
        None => None,
    }
}

/// Helper: locate the last occurrence of `c`, tied to the spec `rfind`.
fn rfind_exec(s: &str, c: char) -> (r: Option<usize>)
    ensures
        match r {
            Some(i) => i < s@.len() && rfind(s@, c) == i,
            None => rfind(s@, c) == -1,
        },
{
    let r = rfind_char(s, c);
    proof {
        match r {
            Some(i) => lemma_rfind_found(s@, c, s@.len() - 1, i as int),
            None => lemma_rfind_missing(s@, c, s@.len() - 1),
        }
    }
    r
}

/// Language of a file path, `None` for unrecognized or missing extensions.
pub fn detect_language(path: &str) -> (r: Option<Language>)
    ensures
        r == spec_detect_language(path@),
{
    let plen = path.unicode_len();
    let name_start: usize = match rfind_exec(path, '/') {
        Some(i) => i + 1,
        None => 0,
    };
    let name = path.substring_char(name_start, plen);
    assert(name@ == spec_file_name(path@));
    let nlen = name.unicode_len();
    match rfind_exec(name, '.') {
        None => None,
        Some(d) => {
            if d == 0 {
                None
            } else {
                let ext = name.substring_char(d + 1, nlen);
                assert(ext@ == spec_extension(spec_file_name(path@)).unwrap());
                language_from_extension(ext)
            }
        },
    }
}

// ---------------------------------------------------------------------------
// Directory deny list
// ---------------------------------------------------------------------------
/// Directory names excluded from the walk: build outputs, dependency
/// caches, virtual environments, version control and editor metadata.
pub open spec fn is_deny_name(s: Seq<char>) -> bool {
    ||| s == "target"@
    ||| s == "dist"@
    ||| s == "build"@
    ||| s == "out"@
    ||| s == "node_modules"@
    ||| s == "vendor"@
    ||| s == ".venv"@
    ||| s == "venv"@
    ||| s == "env"@
    ||| s == "virtualenv"@
    ||| s == "__pycache__"@
    ||| s == ".pytest_cache"@
    ||| s == ".mypy_cache"@
    ||| s == ".tox"@
    ||| s == ".git"@
    ||| s == ".svn"@
    ||| s == ".hg"@
    ||| s == ".next"@
    ||| s == ".nuxt"@
    ||| s == ".cache"@
    ||| s == ".idea"@
    ||| s == ".vscode"@
    ||| s == ".vs"@
}

fn is_deny_name_exec(s: &str) -> (r: bool)
    ensures
        r == is_deny_name(s@),
{
    str_eq(s, "target") || str_eq(s, "dist") || str_eq(s, "build") || str_eq(s, "out")
        || str_eq(s, "node_modules") || str_eq(s, "vendor") || str_eq(s, ".venv")
        || str_eq(s, "venv") || str_eq(s, "env") || str_eq(s, "virtualenv")
        || str_eq(s, "__pycache__") || str_eq(s, ".pytest_cache") || str_eq(s, ".mypy_cache")
        || str_eq(s, ".tox") || str_eq(s, ".git") || str_eq(s, ".svn") || str_eq(s, ".hg")
        || str_eq(s, ".next") || str_eq(s, ".nuxt") || str_eq(s, ".cache")
        || str_eq(s, ".idea") || str_eq(s, ".vscode") || str_eq(s, ".vs")
}

/// `[i, j)` delimits one `/`-separated component of `p`.
pub open spec fn is_component(p: Seq<char>, i: int, j: int) -> bool {
    &&& 0 <= i <= j <= p.len()
    &&& (i == 0 || p[i - 1] == '/')
    &&& (j == p.len() || p[j] == '/')
    &&& forall|k: int| i <= k < j ==> p[k] != '/'
}

/// A path is ignored when any of its components is on the deny list.
pub open spec fn spec_is_ignored(p: Seq<char>) -> bool {
    exists|i: int, j: int| is_component(p, i, j) && is_deny_name(p.subrange(i, j))
}

/// Does any `/`-separated component of `path` name an ignored directory?
pub fn is_ignored(path: &str) -> (r: bool)
    ensures
        r == spec_is_ignored(path@),
{
    let plen = path.unicode_len();
    let mut start: usize = 0;
    let mut i: usize = 0;
    while i < plen
        invariant
            plen == path@.len(),
            0 <= start <= i <= plen,
            start == 0 || path@[start - 1] == '/',
            forall|k: int| start <= k < i ==> path@[k] != '/',
            forall|a: int, b: int|
                is_component(path@, a, b) && b < i ==> !is_deny_name(path@.subrange(a, b)),
        decreases plen - i,
    {
        if path.get_char(i) == '/' {
            let comp = path.substring_char(start, i);
            assert(is_component(path@, start as int, i as int));
            if is_deny_name_exec(comp) {
                return true;
            }
            proof {
                assert(forall|a: int, b: int|
                    is_component(path@, a, b) && b == i ==> a == start);
            }
            start = i + 1;
        }
        i = i + 1;
    }
    let comp = path.substring_char(start, plen);
    assert(is_component(path@, start as int, plen as int));
    if is_deny_name_exec(comp) {
        return true;
    }
    proof {
        assert(forall|a: int, b: int| is_component(path@, a, b) && b == plen ==> a == start);
        assert(forall|a: int, b: int| is_component(path@, a, b) ==> b <= plen);
    }
    false
}

// ---------------------------------------------------------------------------
// Test files and READMEs
// ---------------------------------------------------------------------------
/// A path counts as a test file when its lower-cased text mentions a test
/// convention.
pub open spec fn spec_is_test_file(p: Seq<char>) -> bool {
    ||| contains_seq(lower_seq(p), "test"@)
    ||| contains_seq(lower_seq(p), "spec"@)
    ||| contains_seq(lower_seq(p), "__tests__"@)
}

/// Case-insensitive check for test-path conventions.
pub fn is_test_file(path: &str) -> (r: bool)
    ensures
        r == spec_is_test_file(path@),
{
    contains_str_lower(path, "test") || contains_str_lower(path, "spec")
        || contains_str_lower(path, "__tests__")
}

/// A README is any file whose name starts with "readme", case-insensitively.
pub open spec fn spec_is_readme(file_name: Seq<char>) -> bool {
    matches_at(lower_seq(file_name), "readme"@, 0)
}

/// Case-insensitive README detection on a bare file name.
pub fn is_readme_name(file_name: &str) -> (r: bool)
    ensures
        r == spec_is_readme(file_name@),
{
    starts_with_lower(file_name, "readme")
}

// ---------------------------------------------------------------------------
// Line classification
// ---------------------------------------------------------------------------
/// How one line of a source file is counted.
#[derive(Clone, Copy, Debug, PartialEq, Eq, Structural)]
pub enum LineKind {
    Code,
    Comment,
    Blank,
}

/// Classification of one line under a language's comment syntax, given
/// whether a block comment is open; yields the kind and the new state.
/// Block detection is line-granular: a line containing the block-start
/// marker is a comment line and opens a block unless the same line also
/// contains the block-end marker.
pub open spec fn spec_classify_line(line: Seq<char>, l: Language, in_block: bool) -> (
    LineKind,
    bool,
) {
    let single = lang_single_marker(l);
    let bs = lang_block_start(l);
    let be = lang_block_end(l);
    if all_space(line) {
        (LineKind::Blank, in_block)
    } else if bs.len() > 0 && contains_seq(line, bs) {
        (LineKind::Comment, !contains_seq(line, be))
    } else if in_block {
        (LineKind::Comment, !(be.len() > 0 && contains_seq(line, be)))
    } else if single.len() > 0 && matches_at(line, single, first_non_space_from(line, 0)) {
        (LineKind::Comment, in_block)
    } else {
        (LineKind::Code, in_block)
    }
}

/// Running line totals of one file.
pub ghost struct LineTally {
    pub code: int,
    pub comment: int,
    pub blank: int,
    pub in_block: bool,
}

pub open spec fn spec_tally_lines(lines: Seq<Seq<char>>, l: Language) -> LineTally
    decreases lines.len(),
{
    if lines.len() == 0 {
        LineTally { code: 0, comment: 0, blank: 0, in_block: false }
    } else {
        let t = spec_tally_lines(lines.drop_last(), l);
        let (k, st) = spec_classify_line(lines.last(), l, t.in_block);
        LineTally {
            code: t.code + if k == LineKind::Code { 1int } else { 0 },
            comment: t.comment + if k == LineKind::Comment { 1int } else { 0 },
            blank: t.blank + if k == LineKind::Blank { 1int } else { 0 },
            in_block: st,
        }
    }
}

/// The `Seq<char>` views of a sequence of owned lines.
pub open spec fn line_views(ls: Seq<String>) -> Seq<Seq<char>> {
    ls.map_values(|s: String| s@)
}

/// Classify a single line; see [`spec_classify_line`].
pub fn classify_line(line: &str, l: Language, in_block: bool) -> (r: (LineKind, bool))
    ensures
        r == spec_classify_line(line@, l, in_block),
{
    let (single, bs, be) = l.comment_profile();
    if all_space_exec(line) {
        (LineKind::Blank, in_block)
    } else if bs.unicode_len() > 0 && crate::strutil::contains_str(line, bs) {
        (LineKind::Comment, !crate::strutil::contains_str(line, be))
    } else if in_block {
        (LineKind::Comment, !(be.unicode_len() > 0 && crate::strutil::contains_str(line, be)))
    } else {
        let lo = first_non_space_idx(line);
        if single.unicode_len() > 0 && starts_at(line, single, lo) {
            (LineKind::Comment, in_block)
        } else {
            (LineKind::Code, in_block)
        }
    }
}

/// Count the code, comment and blank lines of one file, in that order.
pub fn count_line_types(lines: &Vec<String>, l: Language) -> (r: (usize, usize, usize))
    ensures
        ({
            let t = spec_tally_lines(line_views(lines@), l);
            r.0 == t.code && r.1 == t.comment && r.2 == t.blank
        }),
        r.0 + r.1 + r.2 == lines@.len(),
{
    let ghost lv = line_views(lines@);
    let n = lines.len();
    let mut code: usize = 0;
    let mut comment: usize = 0;
    let mut blank: usize = 0;
    let mut in_block: bool = false;
    let mut i: usize = 0;
    while i < n
        invariant
            n == lines@.len(),
            lv == line_views(lines@),
            lv.len() == n,
            0 <= i <= n,
            code + comment + blank == i,
            ({
                let t = spec_tally_lines(lv.take(i as int), l);
                code == t.code && comment == t.comment && blank == t.blank
                    && in_block == t.in_block
            }),
        decreases n - i,
    {
        proof {
            assert(lv.take(i + 1).drop_last() =~= lv.take(i as int));
            assert(lv.take(i + 1).last() == lines@[i as int]@);
        }
        let (k, st) = classify_line(lines[i].as_str(), l, in_block);
        match k {
            LineKind::Code => code = code + 1,
            LineKind::Comment => comment = comment + 1,
            LineKind::Blank => blank = blank + 1,
        }
        in_block = st;
        i = i + 1;
    }
    proof {
        assert(lv.take(n as int) =~= lv);
    }
    (code, comment, blank)
}

/// The final component of `path`, as a fresh string.
pub fn file_name_of(path: &str) -> (r: &str)
    ensures
        r@ == spec_file_name(path@),
{
    let plen = path.unicode_len();
    let name_start: usize = match rfind_exec(path, '/') {
        Some(i) => i + 1,
        None => 0,
    };
    path.substring_char(name_start, plen)
}

// ---------------------------------------------------------------------------
// Tree-wide aggregation
// ---------------------------------------------------------------------------
/// One candidate file of the walked tree: its path and, when the file
/// decoded as text, its lines.  `lines` is `None` for files that could not
/// be decoded; such files are silently skipped and contribute to no
/// count, though their name can still set the README flag.
pub struct SourceFile {
    pub path: String,
    pub lines: Option<Vec<String>>,
}

/// Largest number of files one collection accepts, so line totals fit u64.
pub const MAX_SOURCE_FILES: usize = 0x8000_0000;

/// Largest number of lines accepted per file, so line totals fit u64.
pub const MAX_FILE_LINES: usize = 0x8000_0000;

/// Per-language line/file counts plus an effort weight in tenths.
pub struct LanguageStat {
    pub name: String,
    pub lines: u64,
    pub files: u64,
    pub weight_tenths: u32,
}

/// Aggregate line metrics of one file tree.
pub struct Metrics {
    pub total_lines: u64,
    pub code_lines: u64,
    pub comment_lines: u64,
    pub blank_lines: u64,
    pub total_files: u64,
    pub test_file_count: u64,
    pub has_readme: bool,
    pub language_stats: Vec<LanguageStat>,
}

/// Mathematical running state of the collection fold.
pub ghost struct MetricsTally {
    pub total_lines: int,
    pub code_lines: int,
    pub comment_lines: int,
    pub blank_lines: int,
    pub total_files: int,
    pub test_file_count: int,
    pub has_readme: bool,
    pub lang_lines: Seq<int>,
    pub lang_files: Seq<int>,
}

pub open spec fn spec_empty_tally() -> MetricsTally {
    MetricsTally {
        total_lines: 0,
        code_lines: 0,
        comment_lines: 0,
        blank_lines: 0,
        total_files: 0,
        test_file_count: 0,
        has_readme: false,
        lang_lines: Seq::new(LANG_COUNT as nat, |i: int| 0int),
        lang_files: Seq::new(LANG_COUNT as nat, |i: int| 0int),
    }
}

/// How one file updates the running totals.  Ignored paths contribute
/// nothing; every surviving file can set the README flag; only files that
/// are both recognized and decodable are counted at all.
pub open spec fn spec_collect_step(t: MetricsTally, f: SourceFile) -> MetricsTally {
    if spec_is_ignored(f.path@) {
        t
    } else {
        let readme = t.has_readme || spec_is_readme(spec_file_name(f.path@));
        match spec_detect_language(f.path@) {
            None => MetricsTally { has_readme: readme, ..t },
            Some(l) => {
                match f.lines {
                    None => MetricsTally { has_readme: readme, ..t },
                    Some(ls) => {
                        let lt = spec_tally_lines(line_views(ls@), l);
                        let tag = lang_tag(l);
                        MetricsTally {
                            has_readme: readme,
                            total_files: t.total_files + 1,
                            test_file_count: t.test_file_count
                                + if spec_is_test_file(f.path@) { 1int } else { 0 },
                            total_lines: t.total_lines + ls@.len(),
                            code_lines: t.code_lines + lt.code,
                            comment_lines: t.comment_lines + lt.comment,
                            blank_lines: t.blank_lines + lt.blank,
                            lang_lines: t.lang_lines.update(tag, t.lang_lines[tag] + ls@.len()),
                            lang_files: t.lang_files.update(tag, t.lang_files[tag] + 1),
                        }
                    },
                }
            },
        }
    }
}

pub open spec fn spec_collect(files: Seq<SourceFile>) -> MetricsTally
    decreases files.len(),
{
    if files.len() == 0 {
        spec_empty_tally()
    } else {
        spec_collect_step(spec_collect(files.drop_last()), files.last())
    }
}

pub proof fn lemma_collect_lens(files: Seq<SourceFile>)
    ensures
        spec_collect(files).lang_lines.len() == LANG_COUNT,
        spec_collect(files).lang_files.len() == LANG_COUNT,
    decreases files.len(),
{
    if files.len() > 0 {
        lemma_collect_lens(files.drop_last());
    }
}

/// One row of the expected per-language table: table position plus totals.
pub ghost struct StatRow {
    pub tag: int,
    pub lines: int,
    pub files: int,
}

/// The rows of languages actually seen, in table order.
pub open spec fn spec_rows_upto(t: MetricsTally, n: int) -> Seq<StatRow>
    decreases n,
{
    if n <= 0 {
        Seq::empty()
    } else {
        spec_rows_upto(t, n - 1) + if t.lang_files[n - 1] > 0 {
            seq![StatRow { tag: n - 1, lines: t.lang_lines[n - 1], files: t.lang_files[n - 1] }]
        } else {
            Seq::empty()
        }
    }
}

/// Insert a row into a list sorted by descending line count, after any
/// rows with the same count (stable insertion).
pub open spec fn spec_insert_desc(x: StatRow, s: Seq<StatRow>) -> Seq<StatRow>
    decreases s.len(),
{
    if s.len() == 0 {
        seq![x]
    } else if x.lines > s[0].lines {
        seq![x] + s
    } else {
        seq![s[0]] + spec_insert_desc(x, s.drop_first())
    }
}

/// Stable sort by descending line count.
pub open spec fn spec_sort_desc(s: Seq<StatRow>) -> Seq<StatRow>
    decreases s.len(),
{
    if s.len() == 0 {
        Seq::empty()
    } else {
        spec_insert_desc(s.last(), spec_sort_desc(s.drop_last()))
    }
}

/// An executable stat mirrors a ghost row when all its fields agree with
/// the row's language and totals.
pub open spec fn stat_matches(s: LanguageStat, v: StatRow) -> bool {
    &&& 0 <= v.tag < LANG_COUNT
    &&& s.lines == v.lines
    &&& s.files == v.files
    &&& s.name@ == lang_name(crate::lang::lang_of_tag(v.tag))
    &&& s.weight_tenths == lang_weight_tenths(crate::lang::lang_of_tag(v.tag))
}

pub open spec fn stats_match(s: Seq<LanguageStat>, v: Seq<StatRow>) -> bool {
    &&& s.len() == v.len()
    &&& forall|j: int| 0 <= j < s.len() ==> stat_matches(s[j], v[j])
}

proof fn lemma_insert_desc_split(x: StatRow, s: Seq<StatRow>, p: int)
    requires
        0 <= p <= s.len(),
        forall|i: int| 0 <= i < p ==> s[i].lines >= x.lines,
        p < s.len() ==> s[p].lines < x.lines,
    ensures
        spec_insert_desc(x, s) =~= s.take(p) + seq![x] + s.skip(p),
    decreases p,
{
    if p == 0 {
        if s.len() > 0 {
            assert(x.lines > s[0].lines);
        }
    } else {
        lemma_insert_desc_split(x, s.drop_first(), p - 1);
        assert(s.drop_first().take(p - 1) =~= s.take(p).drop_first());
        assert(s.drop_first().skip(p - 1) =~= s.skip(p));
    }
}

/// Collects line metrics over a walked file tree.
pub struct MetricsCollector;

impl MetricsCollector {
    pub fn new() -> (r: Self) {
        MetricsCollector
    }

    /// Aggregate all files of one tree into a [`Metrics`] value.
    ///
    /// The result is exactly the fold [`spec_collect`] over the input,
    /// with the per-language table sorted by descending line count
    /// (ties keep table order).  Ignored paths, unrecognized extensions
    /// and files that failed to decode contribute to no count.
    pub fn collect(&self, files: &Vec<SourceFile>) -> (r: Metrics)
        requires
            files@.len() <= MAX_SOURCE_FILES,
            forall|i: int|
                0 <= i < files@.len() ==> (#[trigger] files@[i].lines matches Some(ls)
                    ==> ls@.len() <= MAX_FILE_LINES),
        ensures
            ({
                let t = spec_collect(files@);
                &&& r.total_lines == t.total_lines
                &&& r.code_lines == t.code_lines
                &&& r.comment_lines == t.comment_lines
                &&& r.blank_lines == t.blank_lines
                &&& r.total_files == t.total_files
                &&& r.test_file_count == t.test_file_count
                &&& r.has_readme == t.has_readme
                &&& stats_match(
                    r.language_stats@,
                    spec_sort_desc(spec_rows_upto(t, LANG_COUNT as int)),
                )
            }),
    {
        let n = files.len();
        let mut total_lines: u64 = 0;
        let mut code_lines: u64 = 0;
        let mut comment_lines: u64 = 0;
        let mut blank_lines: u64 = 0;
        let mut total_files: u64 = 0;
        let mut test_file_count: u64 = 0;
        let mut has_readme: bool = false;
        let mut lang_lines: Vec<u64> = Vec::new();
        let mut lang_files: Vec<u64> = Vec::new();
        let mut k: usize = 0;
        while k < LANG_COUNT
            invariant
                0 <= k <= LANG_COUNT,
                lang_lines@.len() == k,
                lang_files@.len() == k,
                forall|j: int| 0 <= j < k ==> lang_lines@[j] == 0 && lang_files@[j] == 0,
            decreases LANG_COUNT - k,
        {
            lang_lines.push(0);
            lang_files.push(0);
            k = k + 1;
        }
        let mut i: usize = 0;
        while i < n
            invariant
                n == files@.len(),
                n <= MAX_SOURCE_FILES,
                forall|j: int|
                    0 <= j < files@.len() ==> (#[trigger] files@[j].lines matches Some(ls)
                        ==> ls@.len() <= MAX_FILE_LINES),
                0 <= i <= n,
                lang_lines@.len() == LANG_COUNT,
                lang_files@.len() == LANG_COUNT,
                ({
                    let t = spec_collect(files@.take(i as int));
                    &&& total_lines == t.total_lines
                    &&& code_lines == t.code_lines
                    &&& comment_lines == t.comment_lines
                    &&& blank_lines == t.blank_lines
                    &&& total_files == t.total_files
                    &&& test_file_count == t.test_file_count
                    &&& has_readme == t.has_readme
                    &&& forall|j: int|
                        0 <= j < LANG_COUNT ==> lang_lines@[j] == t.lang_lines[j]
                            && lang_files@[j] == t.lang_files[j]
                }),
                total_lines <= i * (MAX_FILE_LINES as int),
                code_lines <= total_lines,
                comment_lines <= total_lines,
                blank_lines <= total_lines,
                total_files <= i,
                test_file_count <= i,
                forall|j: int|
                    0 <= j < LANG_COUNT ==> lang_lines@[j] <= total_lines
                        && lang_files@[j] <= total_files,
            decreases n - i,
        {
            proof {
                assert(files@.take(i + 1).drop_last() =~= files@.take(i as int));
                assert(files@.take(i + 1).last() == files@[i as int]);
                lemma_collect_lens(files@.take(i as int));
                lemma_collect_lens(files@.take(i + 1));
            }
            let path: &str = files[i].path.as_str();
            if !is_ignored(path) {
                let fname = file_name_of(path);
                if is_readme_name(fname) {
                    has_readme = true;
                }
                match detect_language(path) {
                    None => {},
                    Some(l) => {
                        match &files[i].lines {
                            None => {},
                            Some(ls) => {
                                total_files = total_files + 1;
                                if is_test_file(path) {
                                    test_file_count = test_file_count + 1;
                                }
                                let line_count = ls.len();
                                let (c, cm, b) = count_line_types(ls, l);
                                total_lines = total_lines + line_count as u64;
                                code_lines = code_lines + c as u64;
                                comment_lines = comment_lines + cm as u64;
                                blank_lines = blank_lines + b as u64;
                                let tag = l.index();
                                let cur_l = lang_lines[tag];
                                lang_lines.set(tag, cur_l + line_count as u64);
                                let cur_f = lang_files[tag];
                                lang_files.set(tag, cur_f + 1);
                            },
                        }
                    },
                }
            }
            i = i + 1;
        }
        proof {
            assert(files@.take(n as int) =~= files@);
        }
        let ghost t = spec_collect(files@);
        // Build the per-language rows in table order.
        let mut unsorted: Vec<LanguageStat> = Vec::new();
        let mut tag: usize = 0;
        while tag < LANG_COUNT
            invariant
                0 <= tag <= LANG_COUNT,
                lang_lines@.len() == LANG_COUNT,
                lang_files@.len() == LANG_COUNT,
                forall|j: int|
                    0 <= j < LANG_COUNT ==> lang_lines@[j] == t.lang_lines[j]
                        && lang_files@[j] == t.lang_files[j],
                stats_match(unsorted@, spec_rows_upto(t, tag as int)),
            decreases LANG_COUNT - tag,
        {
            if lang_files[tag] > 0 {
                let l = crate::lang::language_of_index(tag);
                let stat = LanguageStat {
                    name: l.name().to_owned(),
                    lines: lang_lines[tag],
                    files: lang_files[tag],
                    weight_tenths: l.weight_tenths(),
                };
                unsorted.push(stat);
            }
            tag = tag + 1;
        }
        // Stable insertion sort by descending line count.
        let ghost rows = spec_rows_upto(t, LANG_COUNT as int);
        let mut language_stats: Vec<LanguageStat> = Vec::new();
        let mut u: usize = 0;
        let ulen = unsorted.len();
        while u < ulen
            invariant
                ulen == unsorted@.len(),
                rows.len() == ulen,
                0 <= u <= ulen,
                stats_match(unsorted@, rows),
                stats_match(language_stats@, spec_sort_desc(rows.take(u as int))),
            decreases ulen - u,
        {
            let ghost sorted_rows = spec_sort_desc(rows.take(u as int));
            let ghost xrow = rows[u as int];
            proof {
                assert(stat_matches(unsorted@[u as int], rows[u as int]));
            }
            let row = &unsorted[u];
            let row_lines = row.lines;
            let mut p: usize = 0;
            let out_len = language_stats.len();
            while p < out_len && language_stats[p].lines >= row_lines
                invariant
                    out_len == language_stats@.len(),
                    0 <= p <= out_len,
                    row_lines == xrow.lines,
                    stats_match(language_stats@, sorted_rows),
                    forall|j: int| 0 <= j < p ==> sorted_rows[j].lines >= xrow.lines,
                decreases out_len - p,
            {
                proof {
                    assert(stat_matches(language_stats@[p as int], sorted_rows[p as int]));
                }
                p = p + 1;
            }
            proof {
                if p < out_len {
                    assert(stat_matches(language_stats@[p as int], sorted_rows[p as int]));
                    assert(sorted_rows[p as int].lines < xrow.lines);
                }
            }
            let stat = LanguageStat {
                name: row.name.clone(),
                lines: row.lines,
                files: row.files,
                weight_tenths: row.weight_tenths,
            };
            language_stats.insert(p, stat);
            proof {
                lemma_insert_desc_split(rows[u as int], sorted_rows, p as int);
                assert(rows.take(u + 1).drop_last() =~= rows.take(u as int));
                assert(rows.take(u + 1).last() == rows[u as int]);
                assert(language_stats@ =~= language_stats@.take(p as int) + seq![
                    language_stats@[p as int],
                ] + language_stats@.skip(p + 1));
                assert forall|j: int| 0 <= j < language_stats@.len() implies stat_matches(
                    language_stats@[j],
                    spec_sort_desc(rows.take(u + 1))[j],
                ) by {
                    let srows = spec_insert_desc(rows[u as int], sorted_rows);
                    assert(srows =~= sorted_rows.take(p as int) + seq![rows[u as int]]
                        + sorted_rows.skip(p as int));
                    if j < p {
                        assert(language_stats@[j] == language_stats@.take(p as int)[j]);
                    } else if j == p {
                    } else {
                        assert(srows[j] == sorted_rows[j - 1]);
                    }
                }
            }
            u = u + 1;
        }
        proof {
            assert(rows.take(ulen as int) =~= rows);
        }
        Metrics {
            total_lines,
            code_lines,
            comment_lines,
            blank_lines,
            total_files,
            test_file_count,
            has_readme,
            language_stats,
        }
    }
}

} // verus!
