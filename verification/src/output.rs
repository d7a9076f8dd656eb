//! Output format selection.
//!
//! Rendering itself (tables, JSON, CSV files) lives outside this crate;
//! here are the format names, their case-insensitive parsers and the
//! small marker types renderers hang their configuration on.
use vstd::prelude::*;
use crate::strutil::{lower_seq, str_eq_lower};

verus! {

/// How results are printed to the terminal.
#[derive(Clone, Copy, Debug, PartialEq, Eq, Structural)]
pub enum OutputFormat {
    Table,
    Json,
    JsonPretty,
}

/// File formats an export can take.
#[derive(Clone, Copy, Debug, PartialEq, Eq, Structural)]
pub enum ExportFormat {
    Csv,
    Html,
    Markdown,
}

/// Rejection of a format name or export extension.
#[derive(Clone, Copy, Debug, PartialEq, Eq, Structural)]
pub enum FormatError {
    UnknownOutputFormat,
    UnsupportedExportFormat,
}

/// The output format a name denotes, case-insensitively.
pub open spec fn spec_output_format(s: Seq<char>) -> Result<OutputFormat, FormatError> {
    let l = lower_seq(s);
    if l == "table"@ {
        Ok(OutputFormat::Table)
    } else if l == "json"@ {
        Ok(OutputFormat::Json)
    } else if l == "json-pretty"@ || l == "pretty"@ {
        Ok(OutputFormat::JsonPretty)
    } else {
        Err(FormatError::UnknownOutputFormat)
    }
}

/// The export format a file extension denotes, case-insensitively.
pub open spec fn spec_export_format(s: Seq<char>) -> Result<ExportFormat, FormatError> {
    let l = lower_seq(s);
    if l == "csv"@ {
        Ok(ExportFormat::Csv)
    } else if l == "html"@ || l == "htm"@ {
        Ok(ExportFormat::Html)
    } else if l == "md"@ || l == "markdown"@ {
        Ok(ExportFormat::Markdown)
    } else {
        Err(FormatError::UnsupportedExportFormat)
    }
}

impl OutputFormat {
    /// Parse a format name: "table", "json", "json-pretty" or "pretty",
    /// in any case; anything else is rejected.
    pub fn from_str(s: &str) -> (r: Result<OutputFormat, FormatError>)
        ensures
            r == spec_output_format(s@),
    {
        if str_eq_lower(s, "table") {
            Ok(OutputFormat::Table)
        } else if str_eq_lower(s, "json") {
            Ok(OutputFormat::Json)
        } else if str_eq_lower(s, "json-pretty") || str_eq_lower(s, "pretty") {
            Ok(OutputFormat::JsonPretty)
        } else {
            Err(FormatError::UnknownOutputFormat)
        }
    }
}

impl ExportFormat {
    /// Parse an export file extension: "csv", "html"/"htm", or
    /// "md"/"markdown", in any case; anything else is rejected.
    pub fn from_extension(ext: &str) -> (r: Result<ExportFormat, FormatError>)
        ensures
            r == spec_export_format(ext@),
    {
        if str_eq_lower(ext, "csv") {
            Ok(ExportFormat::Csv)
        } else if str_eq_lower(ext, "html") || str_eq_lower(ext, "htm") {
            Ok(ExportFormat::Html)
        } else if str_eq_lower(ext, "md") || str_eq_lower(ext, "markdown") {
            Ok(ExportFormat::Markdown)
        } else {
            Err(FormatError::UnsupportedExportFormat)
        }
    }
}

/// Marker for the table renderer.
pub struct TableFormatter;

impl TableFormatter {
    pub fn new() -> (r: Self) {
        TableFormatter
    }
}

/// Configuration of the JSON renderer.
pub struct JsonFormatter {
    pub pretty: bool,
}

impl JsonFormatter {
    pub fn new(pretty: bool) -> (r: Self)
        ensures
            r.pretty == pretty,
    {
        JsonFormatter { pretty }
    }
}

/// Marker for the CSV exporter.
pub struct CsvExporter;

impl CsvExporter {
    pub fn new() -> (r: Self) {
        CsvExporter
    }
}

} // verus!
