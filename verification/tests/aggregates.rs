use work_summary::analyzer::WorkAnalysis;
use work_summary::commit::{CommitInfo, LanguageChanges, RawCommit};
use work_summary::contribution::ContributorStats;
use work_summary::gitstats::GitAnalyzer;
use work_summary::lang::Language;
use work_summary::summary::{RepositorySummary, TotalSummary};
use work_summary::time_estimator::TimeEstimator;
use work_summary::value_calculator::ValueEstimate;

fn commit_by(ts: i64, name: &str, email: &str, ins: u32, del: u32) -> CommitInfo {
    CommitInfo {
        hash: format!("{:x}", ts),
        author: name.to_string(),
        email: email.to_string(),
        timestamp: ts,
        message: "work".to_string(),
        files_changed: 1,
        insertions: ins,
        deletions: del,
        language_changes: LanguageChanges::new(),
    }
}

// 2024-03-01 00:00:00 UTC.
const DAY: i64 = 1709251200;

#[test]
fn contributors_group_and_sort_by_commits() {
    let commits = vec![
        commit_by(DAY + 3000, "Bea", "bea@y", 5, 1),
        commit_by(DAY + 2000, "Ann", "ann@x", 10, 2),
        commit_by(DAY + 1000, "Ann", "ann@x", 20, 4),
    ];
    let stats = ContributorStats::from_commits(&commits);
    assert_eq!(stats.len(), 2);
    assert_eq!(stats[0].email, "ann@x");
    assert_eq!(stats[0].name, "Ann");
    assert_eq!(stats[0].commit_count, 2);
    assert_eq!(stats[0].insertions, 30);
    assert_eq!(stats[0].deletions, 6);
    assert_eq!(stats[0].files_changed, 2);
    assert_eq!(stats[0].percentage_bp, 6666);
    assert_eq!(stats[1].email, "bea@y");
    assert_eq!(stats[1].commit_count, 1);
    assert_eq!(stats[1].percentage_bp, 3333);
    // Counts sum to the number of commits; shares sum to within one
    // basis point per contributor of 100%.
    let count_sum: u64 = stats.iter().map(|s| s.commit_count).sum();
    assert_eq!(count_sum, 3);
    let pct_sum: u64 = stats.iter().map(|s| s.percentage_bp).sum();
    assert!(pct_sum <= 10000);
    assert!(pct_sum > 10000 - stats.len() as u64);
}

#[test]
fn contributors_tie_keeps_first_appearance_order() {
    let commits = vec![
        commit_by(DAY + 2000, "Bea", "bea@y", 1, 0),
        commit_by(DAY + 1000, "Ann", "ann@x", 1, 0),
    ];
    let stats = ContributorStats::from_commits(&commits);
    assert_eq!(stats.len(), 2);
    assert_eq!(stats[0].email, "bea@y");
    assert_eq!(stats[1].email, "ann@x");
    assert_eq!(stats[0].percentage_bp, 5000);
}

#[test]
fn empty_history_has_no_contributors() {
    let stats = ContributorStats::from_commits(&Vec::new());
    assert!(stats.is_empty());
}

#[test]
fn value_table_scenario_volume_1500() {
    // One hour of effort, a $50.00 base rate, 1500 changed lines:
    // complexity 1.2, Mid-level rate 50 * 1.5 * 1.2 = $90.00.
    let v = ValueEstimate::calculate(30000, 5000, 1500);
    assert_eq!(v.developer_levels.len(), 5);
    let mid = &v.developer_levels[1];
    assert_eq!(mid.level, "Mid-level");
    assert_eq!(mid.multiplier_tenths, 15);
    assert_eq!(mid.hourly_rate_cents, 9000);
    assert_eq!(mid.total_value_cents, 9000);
    assert_eq!(v.recommended_value_cents, 9000);
    assert_eq!(v.developer_levels[0].level, "Junior");
    assert_eq!(v.developer_levels[4].level, "Principal");
    // Junior at multiplier 1.0: 50 * 1.2 = $60.00 per hour.
    assert_eq!(v.developer_levels[0].hourly_rate_cents, 6000);
}

#[test]
fn complexity_factor_bands() {
    // 1 hour at $10.00 base, Junior multiplier 1.0 shows the factor.
    for (volume, rate_cents) in [(99u64, 800u64), (100, 1000), (499, 1000), (500, 1200), (1999, 1200), (2000, 1400)] {
        let v = ValueEstimate::calculate(30000, 1000, volume);
        assert_eq!(v.developer_levels[0].hourly_rate_cents, rate_cents);
    }
}

#[test]
fn zero_effort_is_worth_nothing() {
    let v = ValueEstimate::calculate(0, 5000, 0);
    assert_eq!(v.recommended_value_cents, 0);
    for level in &v.developer_levels {
        assert_eq!(level.total_value_cents, 0);
    }
}

#[test]
fn analysis_aggregates_totals_and_languages() {
    let mut c1 = commit_by(DAY + 2000, "Ann", "ann@x", 100, 20);
    c1.language_changes.set_counts(Language::Rust, 80, 15);
    c1.language_changes.set_counts(Language::Markdown, 20, 5);
    let mut c2 = commit_by(DAY + 1000, "Bea", "bea@y", 50, 10);
    c2.language_changes.set_counts(Language::Rust, 50, 10);
    let commits = vec![c1, c2];
    let estimated = TimeEstimator::new().estimate_work_hours(&commits);
    let a = WorkAnalysis::from_commits(&commits, estimated, 5000);
    assert_eq!(a.total_commits, 2);
    assert_eq!(a.unique_contributors, 2);
    assert_eq!(a.total_insertions, 150);
    assert_eq!(a.total_deletions, 30);
    assert_eq!(a.total_files_changed, 2);
    assert_eq!(a.estimated_units, estimated);
    assert_eq!(a.language_breakdown.len(), 2);
    let rust = &a.language_breakdown[0];
    assert_eq!(rust.language, Language::Rust);
    assert_eq!(rust.stats.insertions, 130);
    assert_eq!(rust.stats.deletions, 25);
    assert_eq!(rust.stats.net_change, 105);
    // 155 of 180 changed lines: 8611 basis points.
    assert_eq!(rust.stats.percentage_bp, 8611);
    let md = &a.language_breakdown[1];
    assert_eq!(md.language, Language::Markdown);
    assert_eq!(md.stats.insertions, 20);
    assert_eq!(md.stats.net_change, 15);
    assert_eq!(a.contribution_breakdown.len(), 2);
    assert_eq!(a.value_estimate.base_hourly_rate_cents, 5000);
}

#[test]
fn repository_summary_carries_period_and_commits() {
    let commits = vec![
        commit_by(DAY + 86400 + 3600, "Ann", "ann@x", 10, 0),
        commit_by(DAY, "Bea", "bea@y", 5, 0),
    ];
    let estimated = TimeEstimator::new().estimate_work_hours(&commits);
    let s = RepositorySummary::new("repo".to_string(), commits, estimated, 5000, 0);
    assert_eq!(s.path, "repo");
    assert_eq!(s.commits.len(), 2);
    assert_eq!(s.period.end, DAY + 86400 + 3600);
    assert_eq!(s.period.start, DAY);
    assert_eq!(s.period.description, "2024-03-01 ~ 2024-03-02");
    assert_eq!(s.analysis.total_commits, 2);
}

#[test]
fn repository_summary_empty_uses_clock_stand_in() {
    let s = RepositorySummary::new("empty".to_string(), Vec::new(), 0, 5000, DAY);
    assert_eq!(s.period.start, DAY);
    assert_eq!(s.period.end, DAY);
    assert_eq!(s.period.description, "No commits");
    assert_eq!(s.analysis.total_commits, 0);
    assert_eq!(s.analysis.unique_contributors, 0);
    assert!(s.analysis.contribution_breakdown.is_empty());
    assert_eq!(s.patterns.most_active_day, "Unknown");
}

#[test]
fn total_summary_adds_repositories() {
    let c1 = vec![commit_by(DAY + 1000, "Ann", "ann@x", 10, 0)];
    let c2 = vec![
        commit_by(DAY + 2000, "Bea", "bea@y", 5, 0),
        commit_by(DAY + 1000, "Ann", "ann@x", 5, 0),
    ];
    let e1 = TimeEstimator::new().estimate_work_hours(&c1);
    let e2 = TimeEstimator::new().estimate_work_hours(&c2);
    let r1 = RepositorySummary::new("one".to_string(), c1, e1, 5000, 0);
    let r2 = RepositorySummary::new("two".to_string(), c2, e2, 5000, 0);
    let v1 = r1.analysis.value_estimate.recommended_value_cents;
    let v2 = r2.analysis.value_estimate.recommended_value_cents;
    let total = TotalSummary::from_repositories(vec![r1, r2]);
    assert_eq!(total.total_commits, 3);
    assert_eq!(total.total_units, e1 + e2);
    assert_eq!(total.total_value_cents, v1 + v2);
    // ann@x appears in both repositories but counts once.
    assert_eq!(total.total_contributors, 2);
    assert_eq!(total.repositories.len(), 2);
}

#[test]
fn git_stats_count_distinct_authors_and_age() {
    let raw = |ts: i64, email: Option<&str>| RawCommit {
        hash: format!("{:x}", ts),
        author: None,
        email: email.map(|e| e.to_string()),
        timestamp: ts,
        message: None,
        files: Vec::new(),
        insertions: 0,
        deletions: 0,
    };
    let commits = vec![
        raw(DAY + 3 * 86400, Some("ann@x")),
        raw(DAY + 86400, Some("bea@y")),
        raw(DAY + 86400, None),
        raw(DAY, Some("ann@x")),
    ];
    let stats = GitAnalyzer::new().stats_from_commits(&commits);
    assert_eq!(stats.commit_count, 4);
    assert_eq!(stats.contributor_count, 2);
    assert_eq!(stats.first_commit, Some(DAY));
    assert_eq!(stats.last_commit, Some(DAY + 3 * 86400));
    assert_eq!(stats.age_in_days, 3);
}

#[test]
fn git_stats_empty_walk() {
    let stats = GitAnalyzer::new().stats_from_commits(&Vec::new());
    assert_eq!(stats.commit_count, 0);
    assert_eq!(stats.contributor_count, 0);
    assert_eq!(stats.age_in_days, 0);
    assert_eq!(stats.first_commit, None);
    assert_eq!(stats.last_commit, None);
}

#[test]
fn rerunning_the_pipeline_reproduces_every_figure() {
    let mut c1 = commit_by(DAY + 7200, "Ann", "ann@x", 60, 12);
    c1.language_changes.set_counts(Language::Rust, 60, 12);
    let c2 = commit_by(DAY, "Bea", "bea@y", 30, 0);
    let commits = vec![c1, c2];
    let run = |cs: &Vec<CommitInfo>| {
        let estimator = TimeEstimator::new();
        let units = estimator.estimate_work_hours(cs);
        let summary = RepositorySummary::new("repo".to_string(), cs.clone(), units, 5000, 0);
        (
            units,
            summary.period.description.clone(),
            summary.analysis.total_insertions,
            summary.analysis.value_estimate.recommended_value_cents,
            summary.analysis.contribution_breakdown.len(),
            summary.patterns.peak_hours.clone(),
            summary.patterns.most_active_day.clone(),
        )
    };
    let first = run(&commits);
    let second = run(&commits);
    assert_eq!(first, second);
}
