use work_summary::lang::Language;
use work_summary::metrics::{
    count_line_types, detect_language, is_ignored, is_readme_name, is_test_file,
    MetricsCollector, SourceFile,
};

fn lines_of(texts: &[&str]) -> Vec<String> {
    texts.iter().map(|t| t.to_string()).collect()
}

#[test]
fn detects_languages_by_extension() {
    assert_eq!(detect_language("src/main.rs"), Some(Language::Rust));
    assert_eq!(detect_language("a/b/script.py"), Some(Language::Python));
    assert_eq!(detect_language("web/app.tsx"), Some(Language::TypeScript));
    assert_eq!(detect_language("style.scss"), Some(Language::Scss));
    assert_eq!(detect_language("notes.txt"), None);
    assert_eq!(detect_language("Makefile"), None);
    assert_eq!(detect_language(".gitignore"), None);
}

#[test]
fn weight_table_matches_classifier() {
    assert_eq!(Language::Rust.weight_tenths(), 15);
    assert_eq!(Language::C.weight_tenths(), 14);
    assert_eq!(Language::JavaScript.weight_tenths(), 10);
    assert_eq!(Language::Markdown.weight_tenths(), 5);
    assert_eq!(Language::Rust.name(), "Rust");
    assert_eq!(Language::CHeader.name(), "C/C++ Header");
}

#[test]
fn ignores_build_and_vcs_directories() {
    assert!(is_ignored("proj/node_modules/x.js"));
    assert!(is_ignored("target/debug/foo.rs"));
    assert!(is_ignored("a/.git/config"));
    assert!(is_ignored("x/__pycache__/m.py"));
    assert!(!is_ignored("src/main.rs"));
    assert!(!is_ignored("mytarget/main.rs"));
}

#[test]
fn recognizes_test_paths() {
    assert!(is_test_file("tests/foo.rs"));
    assert!(is_test_file("src/Spec/parser.rb"));
    assert!(is_test_file("js/__tests__/app.js"));
    assert!(!is_test_file("src/main.rs"));
}

#[test]
fn recognizes_readme_names() {
    assert!(is_readme_name("README.md"));
    assert!(is_readme_name("readme"));
    assert!(is_readme_name("ReadMe.txt"));
    assert!(!is_readme_name("LICENSE"));
}

#[test]
fn blank_only_file_counts_as_blank() {
    let lines = lines_of(&["", "   ", "\t"]);
    let (code, comment, blank) = count_line_types(&lines, Language::Rust);
    assert_eq!(code, 0);
    assert_eq!(comment, 0);
    assert_eq!(blank, 3);
}

#[test]
fn comment_only_file_counts_as_comment() {
    let lines = lines_of(&["// a", "  // b", "// c"]);
    let (code, comment, blank) = count_line_types(&lines, Language::Rust);
    assert_eq!(code, 0);
    assert_eq!(comment, 3);
    assert_eq!(blank, 0);
}

#[test]
fn block_comments_span_lines() {
    let lines = lines_of(&["/* open", "inside", "*/ tail counts as comment", "code();"]);
    let (code, comment, blank) = count_line_types(&lines, Language::Rust);
    assert_eq!(comment, 3);
    assert_eq!(code, 1);
    assert_eq!(blank, 0);
}

#[test]
fn one_line_block_comment_closes_itself() {
    let lines = lines_of(&["/* all on one line */", "fn f() {}"]);
    let (code, comment, blank) = count_line_types(&lines, Language::Rust);
    assert_eq!(comment, 1);
    assert_eq!(code, 1);
    assert_eq!(blank, 0);
}

#[test]
fn hash_languages_have_no_block_comments() {
    let lines = lines_of(&["# c", "x = 1", "/* not a comment in python */"]);
    let (code, comment, blank) = count_line_types(&lines, Language::Python);
    assert_eq!(comment, 1);
    assert_eq!(code, 2);
    assert_eq!(blank, 0);
}

#[test]
fn three_line_rust_file_scenario() {
    let file = SourceFile {
        path: "foo.rs".to_string(),
        lines: Some(lines_of(&["", "// c", "fn main() {}"])),
    };
    let metrics = MetricsCollector::new().collect(&vec![file]);
    assert_eq!(metrics.blank_lines, 1);
    assert_eq!(metrics.comment_lines, 1);
    assert_eq!(metrics.code_lines, 1);
    assert_eq!(metrics.total_lines, 3);
    assert_eq!(metrics.total_files, 1);
    assert_eq!(metrics.language_stats.len(), 1);
    assert_eq!(metrics.language_stats[0].name, "Rust");
    assert_eq!(metrics.language_stats[0].weight_tenths, 15);
    assert_eq!(metrics.language_stats[0].lines, 3);
    assert_eq!(metrics.language_stats[0].files, 1);
}

#[test]
fn collect_skips_ignored_and_unreadable_files() {
    let files = vec![
        SourceFile {
            path: "src/lib.rs".to_string(),
            lines: Some(lines_of(&["fn a() {}", "fn b() {}"])),
        },
        SourceFile {
            path: "target/out.rs".to_string(),
            lines: Some(lines_of(&["ignored();"])),
        },
        SourceFile { path: "data/bin.py".to_string(), lines: None },
        SourceFile { path: "tests/raw.rs".to_string(), lines: None },
        SourceFile { path: "README.md".to_string(), lines: Some(lines_of(&["# hello"])) },
        SourceFile { path: "LICENSE".to_string(), lines: None },
    ];
    let metrics = MetricsCollector::new().collect(&files);
    // Only lib.rs (2 lines) and README.md (1 line) count: the files that
    // failed to decode are skipped entirely, even the one on a test path.
    // Markdown has no comment syntax, so its one line counts as code.
    assert_eq!(metrics.total_files, 2);
    assert_eq!(metrics.total_lines, 3);
    assert_eq!(metrics.code_lines, 3);
    assert_eq!(metrics.comment_lines, 0);
    assert!(metrics.has_readme);
    assert_eq!(metrics.test_file_count, 0);
    assert_eq!(metrics.language_stats.len(), 2);
    // Sorted by descending line count: Rust (2) before Markdown (1).
    assert_eq!(metrics.language_stats[0].name, "Rust");
    assert_eq!(metrics.language_stats[1].name, "Markdown");
}

#[test]
fn language_table_sort_breaks_ties_in_table_order() {
    let files = vec![
        SourceFile { path: "a.py".to_string(), lines: Some(lines_of(&["x = 1"])) },
        SourceFile { path: "b.rs".to_string(), lines: Some(lines_of(&["fn x() {}"])) },
    ];
    let metrics = MetricsCollector::new().collect(&files);
    assert_eq!(metrics.language_stats.len(), 2);
    // Both have one line; Rust precedes Python in the fixed table.
    assert_eq!(metrics.language_stats[0].name, "Rust");
    assert_eq!(metrics.language_stats[1].name, "Python");
}
