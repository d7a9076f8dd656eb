use work_summary::dates::{civil_from_days, days_from_civil, format_ymd, parse_ymd, DateError};
use work_summary::output::{CsvExporter, ExportFormat, FormatError, JsonFormatter, OutputFormat, TableFormatter};
use work_summary::strutil::{contains_str, str_eq, str_eq_lower};
use work_summary::ui::Theme;

#[test]
fn output_format_parses_case_insensitively() {
    assert_eq!(OutputFormat::from_str("table"), Ok(OutputFormat::Table));
    assert_eq!(OutputFormat::from_str("Table"), Ok(OutputFormat::Table));
    assert_eq!(OutputFormat::from_str("JSON"), Ok(OutputFormat::Json));
    assert_eq!(OutputFormat::from_str("json-pretty"), Ok(OutputFormat::JsonPretty));
    assert_eq!(OutputFormat::from_str("pretty"), Ok(OutputFormat::JsonPretty));
    assert_eq!(OutputFormat::from_str("yaml"), Err(FormatError::UnknownOutputFormat));
    assert_eq!(OutputFormat::from_str(""), Err(FormatError::UnknownOutputFormat));
}

#[test]
fn export_format_parses_extensions() {
    assert_eq!(ExportFormat::from_extension("csv"), Ok(ExportFormat::Csv));
    assert_eq!(ExportFormat::from_extension("HTML"), Ok(ExportFormat::Html));
    assert_eq!(ExportFormat::from_extension("htm"), Ok(ExportFormat::Html));
    assert_eq!(ExportFormat::from_extension("md"), Ok(ExportFormat::Markdown));
    assert_eq!(ExportFormat::from_extension("markdown"), Ok(ExportFormat::Markdown));
    assert_eq!(
        ExportFormat::from_extension("docx"),
        Err(FormatError::UnsupportedExportFormat)
    );
}

#[test]
fn formatter_markers_construct() {
    let _table = TableFormatter::new();
    let _csv = CsvExporter::new();
    let json = JsonFormatter::new(true);
    assert!(json.pretty);
    let json = JsonFormatter::new(false);
    assert!(!json.pretty);
}

#[test]
fn theme_wraps_text_in_ansi_styles() {
    assert_eq!(Theme::success("ok"), "\u{2713} \u{1b}[32mok\u{1b}[39m");
    assert_eq!(Theme::error("no"), "\u{2717} \u{1b}[31mno\u{1b}[39m");
    assert_eq!(Theme::info("i"), "\u{2139} \u{1b}[36mi\u{1b}[39m");
    assert_eq!(Theme::warning("w"), "\u{26a0} \u{1b}[33mw\u{1b}[39m");
    assert_eq!(Theme::header("h"), "\u{1b}[34m\u{1b}[1mh\u{1b}[0m\u{1b}[39m");
    assert_eq!(Theme::value("v"), "\u{1b}[97mv\u{1b}[39m");
    assert_eq!(Theme::highlight("g"), "\u{1b}[1m\u{1b}[92mg\u{1b}[39m\u{1b}[0m");
    assert_eq!(Theme::dim("d"), "\u{1b}[2md\u{1b}[0m");
}

#[test]
fn civil_conversion_round_trips() {
    assert_eq!(civil_from_days(0), (1970, 1, 1));
    assert_eq!(civil_from_days(19783), (2024, 3, 1));
    assert_eq!(days_from_civil(2024, 3, 1), 19783);
    assert_eq!(civil_from_days(19782), (2024, 2, 29));
    for days in [0i64, 59, 365, 19783, 730119, 2932896] {
        let (y, m, d) = civil_from_days(days);
        assert_eq!(days_from_civil(y, m, d), days);
    }
    // The last supported day is the end of year 9999.
    assert_eq!(civil_from_days(2932896), (9999, 12, 31));
}

#[test]
fn dates_format_with_padding() {
    assert_eq!(format_ymd(2024, 3, 1), "2024-03-01");
    assert_eq!(format_ymd(1970, 12, 31), "1970-12-31");
    assert_eq!(format_ymd(999, 1, 2), "0999-01-02");
}

#[test]
fn date_filters_parse_and_validate() {
    assert_eq!(parse_ymd("2024-03-01"), Ok((2024, 3, 1)));
    assert_eq!(parse_ymd("2024-02-29"), Ok((2024, 2, 29)));
    assert_eq!(parse_ymd("2023-02-29"), Err(DateError::NotADate));
    assert_eq!(parse_ymd("2024-13-01"), Err(DateError::NotADate));
    assert_eq!(parse_ymd("2024-00-10"), Err(DateError::NotADate));
    assert_eq!(parse_ymd("2024-04-31"), Err(DateError::NotADate));
    assert_eq!(parse_ymd("24-03-01"), Err(DateError::NotADate));
    assert_eq!(parse_ymd("2024/03/01"), Err(DateError::NotADate));
    assert_eq!(parse_ymd("not-a-date"), Err(DateError::NotADate));
}

#[test]
fn string_helpers_compare_and_search() {
    assert!(str_eq("abc", "abc"));
    assert!(!str_eq("abc", "abd"));
    assert!(!str_eq("abc", "ab"));
    assert!(str_eq_lower("TaBLe", "table"));
    assert!(!str_eq_lower("TaBLe", "tables"));
    assert!(contains_str("hello world", "lo wo"));
    assert!(contains_str("hello", ""));
    assert!(!contains_str("hello", "world"));
}
