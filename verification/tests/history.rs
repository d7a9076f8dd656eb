use work_summary::commit::{build_commit_log, CommitInfo, LanguageChanges, RawCommit};
use work_summary::lang::Language;
use work_summary::patterns::WorkPatterns;
use work_summary::time_estimator::{TimeEstimator, MAX_SESSION_GAP_SECONDS, UNITS_PER_HOUR};

fn plain_commit(ts: i64, email: &str, ins: u32, del: u32, files: u32) -> CommitInfo {
    CommitInfo {
        hash: format!("{:x}", ts),
        author: email.split('@').next().unwrap_or("").to_string(),
        email: email.to_string(),
        timestamp: ts,
        message: "change".to_string(),
        files_changed: files,
        insertions: ins,
        deletions: del,
        language_changes: LanguageChanges::new(),
    }
}

// 2024-03-01 00:00:00 UTC.
const DAY: i64 = 1709251200;

#[test]
fn empty_history_yields_zero_effort_and_no_sessions() {
    let estimator = TimeEstimator::new();
    let commits: Vec<CommitInfo> = Vec::new();
    assert_eq!(estimator.estimate_work_hours(&commits), 0);
    let sessions = estimator.estimate_session_hours(Vec::new());
    assert!(sessions.is_empty());
    let patterns = WorkPatterns::analyze(&Vec::new());
    assert_eq!(patterns.most_active_day, "Unknown");
    assert_eq!(patterns.commit_frequency.total_days, 0);
    assert_eq!(patterns.commit_frequency.active_days, 0);
    assert_eq!(patterns.commit_frequency.max_commits_per_day, 0);
    assert_eq!(patterns.commit_frequency.average_commits_per_day_milli, 0);
    assert!(patterns.peak_hours.is_empty());
}

#[test]
fn gap_session_scenario_splits_at_five_hours() {
    // Newest first: 16:00, 11:00, 10:00 on the same day.
    let commits = vec![
        plain_commit(DAY + 16 * 3600, "a@x", 0, 0, 0),
        plain_commit(DAY + 11 * 3600, "a@x", 0, 0, 0),
        plain_commit(DAY + 10 * 3600, "a@x", 0, 0, 0),
    ];
    let estimator = TimeEstimator::new();
    let sessions = estimator.estimate_session_hours(commits);
    assert_eq!(sessions.len(), 2);
    assert_eq!(sessions[0].commits.len(), 1);
    assert_eq!(sessions[0].start, DAY + 16 * 3600);
    assert_eq!(sessions[0].end, DAY + 16 * 3600);
    assert_eq!(sessions[1].commits.len(), 2);
    assert_eq!(sessions[1].start, DAY + 11 * 3600);
    assert_eq!(sessions[1].end, DAY + 10 * 3600);
    // Within the second session the gap is one hour, below the threshold.
    let within = sessions[1].commits[0].timestamp - sessions[1].commits[1].timestamp;
    assert!(within <= MAX_SESSION_GAP_SECONDS);
    // Across the boundary the gap is five hours, above the threshold.
    let across = sessions[0].commits[0].timestamp - sessions[1].commits[0].timestamp;
    assert!(across > MAX_SESSION_GAP_SECONDS);
}

#[test]
fn hybrid_estimate_blends_time_and_changes() {
    // 16:00 has a 5h gap (clamped to 4h), 11:00 a 1h gap, 10:00 none.
    // No changed lines anywhere, so only the time figure counts:
    // 60% of 4h + 60% of 1h = 3h.
    let commits = vec![
        plain_commit(DAY + 16 * 3600, "a@x", 0, 0, 0),
        plain_commit(DAY + 11 * 3600, "a@x", 0, 0, 0),
        plain_commit(DAY + 10 * 3600, "a@x", 0, 0, 0),
    ];
    let total = TimeEstimator::new().estimate_work_hours(&commits);
    assert_eq!(total, 3 * UNITS_PER_HOUR as u128);
}

#[test]
fn change_figure_uses_language_weights() {
    // 100 changed Rust lines, weight 1.5, at 20 lines/hour: 7.5 hours.
    let mut c = plain_commit(DAY, "a@x", 100, 0, 1);
    c.language_changes.set_counts(Language::Rust, 100, 0);
    let total = TimeEstimator::new().estimate_work_hours(&vec![c]);
    assert_eq!(total, 225_000); // 7.5 hours in units of 1/30000 h
}

#[test]
fn change_figure_falls_back_to_raw_lines() {
    // No per-language attribution, 40 raw lines at weight 1.0: 2 hours.
    let c = plain_commit(DAY, "a@x", 40, 0, 1);
    let total = TimeEstimator::new().estimate_work_hours(&vec![c]);
    assert_eq!(total, 2 * UNITS_PER_HOUR as u128);
}

#[test]
fn file_count_complexity_bands() {
    let base = 225_000u128; // 100 Rust lines, factor 1.0
    for (files, expected) in [(5u32, base), (6, base * 12 / 10), (11, base * 14 / 10)] {
        let mut c = plain_commit(DAY, "a@x", 100, 0, files);
        c.language_changes.set_counts(Language::Rust, 100, 0);
        let total = TimeEstimator::new().estimate_work_hours(&vec![c]);
        assert_eq!(total, expected);
    }
}

#[test]
fn single_session_history_sums_to_total() {
    // All gaps below the threshold: session figures add up exactly.
    let commits = vec![
        plain_commit(DAY + 3 * 3600, "a@x", 10, 2, 1),
        plain_commit(DAY + 2 * 3600, "b@y", 7, 1, 2),
        plain_commit(DAY + 3600, "a@x", 3, 3, 1),
        plain_commit(DAY, "b@y", 1, 0, 1),
    ];
    let estimator = TimeEstimator::new();
    let total = estimator.estimate_work_hours(&commits);
    let sessions = estimator.estimate_session_hours(commits);
    assert_eq!(sessions.len(), 1);
    let sum: u128 = sessions.iter().map(|s| s.estimated_units).sum();
    assert_eq!(sum, total);
}

#[test]
fn negative_gap_counts_as_zero_time() {
    // Clock skew: the newer commit has the older timestamp.
    let commits = vec![
        plain_commit(DAY, "a@x", 20, 0, 1),
        plain_commit(DAY + 3600, "a@x", 0, 0, 0),
    ];
    let total = TimeEstimator::new().estimate_work_hours(&commits);
    // First commit: negative gap, change figure only: 20/20 = 1h.
    assert_eq!(total, UNITS_PER_HOUR as u128);
}

#[test]
fn duplicate_copies_every_field() {
    let mut c = plain_commit(DAY, "ann@x", 9, 4, 2);
    c.language_changes.set_counts(Language::Rust, 9, 4);
    let copy = c.duplicate();
    assert_eq!(copy.hash, c.hash);
    assert_eq!(copy.author, c.author);
    assert_eq!(copy.email, c.email);
    assert_eq!(copy.timestamp, c.timestamp);
    assert_eq!(copy.message, c.message);
    assert_eq!(copy.files_changed, c.files_changed);
    assert_eq!(copy.insertions, c.insertions);
    assert_eq!(copy.deletions, c.deletions);
    assert_eq!(
        copy.language_changes.get(Language::Rust),
        c.language_changes.get(Language::Rust)
    );
}

#[test]
fn build_log_applies_window_and_limit() {
    let raw = |ts: i64| RawCommit {
        hash: format!("{:x}", ts),
        author: Some("Ann".to_string()),
        email: Some("ann@x".to_string()),
        timestamp: ts,
        message: Some("m".to_string()),
        files: vec!["a.rs".to_string()],
        insertions: 1,
        deletions: 0,
    };
    let raws = vec![raw(300), raw(200), raw(100)];
    let log = build_commit_log(raws, None, Some(150), None);
    assert_eq!(log.len(), 2);
    assert_eq!(log[0].timestamp, 300);
    assert_eq!(log[1].timestamp, 200);

    let raws = vec![raw(300), raw(200), raw(100)];
    let log = build_commit_log(raws, Some(2), None, None);
    assert_eq!(log.len(), 2);
    assert_eq!(log[1].timestamp, 200);

    let raws = vec![raw(300), raw(200), raw(100)];
    let log = build_commit_log(raws, Some(1), None, Some(250));
    assert_eq!(log.len(), 1);
    assert_eq!(log[0].timestamp, 200);
}

#[test]
fn build_log_attributes_touched_languages() {
    let raws = vec![RawCommit {
        hash: "h".to_string(),
        author: None,
        email: None,
        timestamp: DAY,
        message: None,
        files: vec!["src/a.rs".to_string(), "doc/x.md".to_string(), "blob.bin".to_string()],
        insertions: 9,
        deletions: 4,
    }];
    let log = build_commit_log(raws, None, None, None);
    assert_eq!(log.len(), 1);
    let c = &log[0];
    assert_eq!(c.author, "Unknown");
    assert_eq!(c.email, "");
    assert_eq!(c.message, "");
    assert_eq!(c.files_changed, 3);
    assert_eq!(c.insertions, 9);
    assert_eq!(c.deletions, 4);
    // Touched languages are present with zero-valued entries; the
    // unrecognized extension creates none.
    let rust = c.language_changes.get(Language::Rust).unwrap();
    assert_eq!(rust.insertions, 0);
    assert_eq!(rust.deletions, 0);
    assert!(c.language_changes.get(Language::Markdown).is_some());
    assert!(c.language_changes.get(Language::Python).is_none());
}

#[test]
fn patterns_histograms_and_frequency() {
    // Three commits on one day (a Friday): 10:00, 11:00, 16:00.
    let commits = vec![
        plain_commit(DAY + 16 * 3600, "a@x", 0, 0, 0),
        plain_commit(DAY + 11 * 3600, "a@x", 0, 0, 0),
        plain_commit(DAY + 10 * 3600, "a@x", 0, 0, 0),
    ];
    let p = WorkPatterns::analyze(&commits);
    assert_eq!(p.hourly_distribution.len(), 24);
    assert_eq!(p.hourly_distribution[10], 1);
    assert_eq!(p.hourly_distribution[11], 1);
    assert_eq!(p.hourly_distribution[16], 1);
    assert_eq!(p.hourly_distribution[0], 0);
    assert_eq!(p.most_active_day, "Friday");
    // All counts equal: ties go to the earlier hour.
    assert_eq!(p.peak_hours, vec![10, 11, 16]);
    assert_eq!(p.commit_frequency.total_days, 1);
    assert_eq!(p.commit_frequency.active_days, 1);
    assert_eq!(p.commit_frequency.max_commits_per_day, 3);
    assert_eq!(p.commit_frequency.average_commits_per_day_milli, 3000);
}

#[test]
fn patterns_span_multiple_days() {
    let commits = vec![
        plain_commit(DAY + 2 * 86400 + 3600, "a@x", 0, 0, 0),
        plain_commit(DAY + 3600, "a@x", 0, 0, 0),
        plain_commit(DAY, "a@x", 0, 0, 0),
    ];
    let p = WorkPatterns::analyze(&commits);
    assert_eq!(p.commit_frequency.total_days, 3);
    assert_eq!(p.commit_frequency.active_days, 2);
    assert_eq!(p.commit_frequency.max_commits_per_day, 2);
    assert_eq!(p.commit_frequency.average_commits_per_day_milli, 1000);
}

#[test]
fn peak_hours_rank_by_count() {
    let mut commits = Vec::new();
    for _ in 0..3 {
        commits.push(plain_commit(DAY + 14 * 3600, "a@x", 0, 0, 0));
    }
    for _ in 0..2 {
        commits.push(plain_commit(DAY + 9 * 3600, "a@x", 0, 0, 0));
    }
    commits.push(plain_commit(DAY + 20 * 3600, "a@x", 0, 0, 0));
    commits.push(plain_commit(DAY + 7 * 3600, "a@x", 0, 0, 0));
    let p = WorkPatterns::analyze(&commits);
    // 14:00 has 3, 9:00 has 2, then 7:00 beats 20:00 on the tie.
    assert_eq!(p.peak_hours, vec![14, 9, 7]);
}
