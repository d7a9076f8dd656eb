//! Language classification.
//!
//! One fixed table maps a file extension to a language, an effort weight
//! and a comment-syntax profile.  The static line counter and the
//! per-commit diff attribution both read this table, so the two passes can
//! never disagree about what a file is.  Weights are stored in tenths
//! (weight 1.5 is `15`) so that all downstream arithmetic stays exact.
use vstd::prelude::*;
use crate::strutil::str_eq;

verus! {

/// Every language the classifier recognizes.  Unrecognized extensions are
/// classified as `None` and skipped by every consumer.
#[derive(Clone, Copy, Debug, PartialEq, Eq, Structural)]
pub enum Language {
    Rust,
    Python,
    JavaScript,
    TypeScript,
    Go,
    Java,
    C,
    Cpp,
    CHeader,
    CSharp,
    Ruby,
    Php,
    Swift,
    Kotlin,
    Scala,
    Shell,
    Sql,
    Html,
    Css,
    Scss,
    Markdown,
    Yaml,
    Json,
    Toml,
    Xml,
}

/// Number of recognized languages; also the size of a per-language table.
pub const LANG_COUNT: usize = 25;

/// Position of a language in a fixed per-language table.
pub open spec fn lang_tag(l: Language) -> int {
    match l {
        Language::Rust => 0,
        Language::Python => 1,
        Language::JavaScript => 2,
        Language::TypeScript => 3,
        Language::Go => 4,
        Language::Java => 5,
        Language::C => 6,
        Language::Cpp => 7,
        Language::CHeader => 8,
        Language::CSharp => 9,
        Language::Ruby => 10,
        Language::Php => 11,
        Language::Swift => 12,
        Language::Kotlin => 13,
        Language::Scala => 14,
        Language::Shell => 15,
        Language::Sql => 16,
        Language::Html => 17,
        Language::Css => 18,
        Language::Scss => 19,
        Language::Markdown => 20,
        Language::Yaml => 21,
        Language::Json => 22,
        Language::Toml => 23,
        Language::Xml => 24,
    }
}

/// The language whose tag is `i` (tags cover 0..LANG_COUNT exactly once).
pub open spec fn lang_of_tag(i: int) -> Language {
    if i == 0 { Language::Rust }
    else if i == 1 { Language::Python }
    else if i == 2 { Language::JavaScript }
    else if i == 3 { Language::TypeScript }
    else if i == 4 { Language::Go }
    else if i == 5 { Language::Java }
    else if i == 6 { Language::C }
    else if i == 7 { Language::Cpp }
    else if i == 8 { Language::CHeader }
    else if i == 9 { Language::CSharp }
    else if i == 10 { Language::Ruby }
    else if i == 11 { Language::Php }
    else if i == 12 { Language::Swift }
    else if i == 13 { Language::Kotlin }
    else if i == 14 { Language::Scala }
    else if i == 15 { Language::Shell }
    else if i == 16 { Language::Sql }
    else if i == 17 { Language::Html }
    else if i == 18 { Language::Css }
    else if i == 19 { Language::Scss }
    else if i == 20 { Language::Markdown }
    else if i == 21 { Language::Yaml }
    else if i == 22 { Language::Json }
    else if i == 23 { Language::Toml }
    else { Language::Xml }
}

/// Distinct languages occupy distinct table positions.
pub proof fn lemma_lang_tag_injective(l1: Language, l2: Language)
    requires
        lang_tag(l1) == lang_tag(l2),
    ensures
        l1 == l2,
{
}

impl Language {
    /// Table position, usable as an index into a per-language table.
    pub fn index(self) -> (i: usize)
        ensures
            i == lang_tag(self),
            i < LANG_COUNT,
    {
        match self {
            Language::Rust => 0,
            Language::Python => 1,
            Language::JavaScript => 2,
            Language::TypeScript => 3,
            Language::Go => 4,
            Language::Java => 5,
            Language::C => 6,
            Language::Cpp => 7,
            Language::CHeader => 8,
            Language::CSharp => 9,
            Language::Ruby => 10,
            Language::Php => 11,
            Language::Swift => 12,
            Language::Kotlin => 13,
            Language::Scala => 14,
            Language::Shell => 15,
            Language::Sql => 16,
            Language::Html => 17,
            Language::Css => 18,
            Language::Scss => 19,
            Language::Markdown => 20,
            Language::Yaml => 21,
            Language::Json => 22,
            Language::Toml => 23,
            Language::Xml => 24,
        }
    }

    /// Canonical display name.
    pub fn name(self) -> (r: &'static str)
        ensures
            r@ == lang_name(self),
    {
        match self {
            Language::Rust => "Rust",
            Language::Python => "Python",
            Language::JavaScript => "JavaScript",
            Language::TypeScript => "TypeScript",
            Language::Go => "Go",
            Language::Java => "Java",
            Language::C => "C",
            Language::Cpp => "C++",
            Language::CHeader => "C/C++ Header",
            Language::CSharp => "C#",
            Language::Ruby => "Ruby",
            Language::Php => "PHP",
            Language::Swift => "Swift",
            Language::Kotlin => "Kotlin",
            Language::Scala => "Scala",
            Language::Shell => "Shell",
            Language::Sql => "SQL",
            Language::Html => "HTML",
            Language::Css => "CSS",
            Language::Scss => "SCSS",
            Language::Markdown => "Markdown",
            Language::Yaml => "YAML",
            Language::Json => "JSON",
            Language::Toml => "TOML",
            Language::Xml => "XML",
        }
    }

    /// Effort weight in tenths: authoring difficulty per line, relative to
    /// a weight of 1.0 for plain JavaScript.
    pub fn weight_tenths(self) -> (w: u32)
        ensures
            w == lang_weight_tenths(self),
    {
        match self {
            Language::Rust => 15,
            Language::Cpp => 14,
            Language::C => 14,
            Language::Go => 13,
            Language::Java => 12,
            Language::CSharp => 12,
            Language::Scala => 12,
            Language::TypeScript => 12,
            Language::Swift => 12,
            Language::Kotlin => 12,
            Language::Python => 11,
            Language::Ruby => 11,
            Language::Php => 11,
            Language::JavaScript => 10,
            Language::Shell => 9,
            Language::Sql => 9,
            Language::Html => 7,
            Language::Css => 7,
            Language::Scss => 7,
            Language::Markdown => 5,
            Language::Yaml => 5,
            Language::Json => 5,
            Language::Toml => 5,
            Language::Xml => 5,
            Language::CHeader => 10,
        }
    }

    /// Comment-syntax profile: single-line marker, block start, block end.
    /// An empty string means the language has no such marker.
    pub fn comment_profile(self) -> (r: (&'static str, &'static str, &'static str))
        ensures
            r.0@ == lang_single_marker(self),
            r.1@ == lang_block_start(self),
            r.2@ == lang_block_end(self),
    {
        match self {
            Language::Rust | Language::Cpp | Language::C | Language::Go | Language::Java
            | Language::CSharp | Language::JavaScript | Language::TypeScript
            | Language::Swift | Language::Kotlin | Language::Scala | Language::Php => (
                "//",
                "/*",
                "*/",
            ),
            Language::Python | Language::Ruby | Language::Shell => ("#", "", ""),
            Language::Html | Language::Xml => ("", "<!--", "-->"),
            Language::Css | Language::Scss => ("", "/*", "*/"),
            _ => ("", "", ""),
        }
    }
}

/// The language at table position `i`; inverse of [`Language::index`].
pub fn language_of_index(i: usize) -> (l: Language)
    requires
        i < LANG_COUNT,
    ensures
        l == lang_of_tag(i as int),
        lang_tag(l) == i,
{
    if i == 0 { Language::Rust }
    else if i == 1 { Language::Python }
    else if i == 2 { Language::JavaScript }
    else if i == 3 { Language::TypeScript }
    else if i == 4 { Language::Go }
    else if i == 5 { Language::Java }
    else if i == 6 { Language::C }
    else if i == 7 { Language::Cpp }
    else if i == 8 { Language::CHeader }
    else if i == 9 { Language::CSharp }
    else if i == 10 { Language::Ruby }
    else if i == 11 { Language::Php }
    else if i == 12 { Language::Swift }
    else if i == 13 { Language::Kotlin }
    else if i == 14 { Language::Scala }
    else if i == 15 { Language::Shell }
    else if i == 16 { Language::Sql }
    else if i == 17 { Language::Html }
    else if i == 18 { Language::Css }
    else if i == 19 { Language::Scss }
    else if i == 20 { Language::Markdown }
    else if i == 21 { Language::Yaml }
    else if i == 22 { Language::Json }
    else if i == 23 { Language::Toml }
    else { Language::Xml }
}

pub open spec fn lang_name(l: Language) -> Seq<char> {
    match l {
        Language::Rust => "Rust"@,
        Language::Python => "Python"@,
        Language::JavaScript => "JavaScript"@,
        Language::TypeScript => "TypeScript"@,
        Language::Go => "Go"@,
        Language::Java => "Java"@,
        Language::C => "C"@,
        Language::Cpp => "C++"@,
        Language::CHeader => "C/C++ Header"@,
        Language::CSharp => "C#"@,
        Language::Ruby => "Ruby"@,
        Language::Php => "PHP"@,
        Language::Swift => "Swift"@,
        Language::Kotlin => "Kotlin"@,
        Language::Scala => "Scala"@,
        Language::Shell => "Shell"@,
        Language::Sql => "SQL"@,
        Language::Html => "HTML"@,
        Language::Css => "CSS"@,
        Language::Scss => "SCSS"@,
        Language::Markdown => "Markdown"@,
        Language::Yaml => "YAML"@,
        Language::Json => "JSON"@,
        Language::Toml => "TOML"@,
        Language::Xml => "XML"@,
    }
}

pub open spec fn lang_weight_tenths(l: Language) -> int {
    match l {
        Language::Rust => 15,
        Language::Cpp => 14,
        Language::C => 14,
        Language::Go => 13,
        Language::Java => 12,
        Language::CSharp => 12,
        Language::Scala => 12,
        Language::TypeScript => 12,
        Language::Swift => 12,
        Language::Kotlin => 12,
        Language::Python => 11,
        Language::Ruby => 11,
        Language::Php => 11,
        Language::JavaScript => 10,
        Language::Shell => 9,
        Language::Sql => 9,
        Language::Html => 7,
        Language::Css => 7,
        Language::Scss => 7,
        Language::Markdown => 5,
        Language::Yaml => 5,
        Language::Json => 5,
        Language::Toml => 5,
        Language::Xml => 5,
        Language::CHeader => 10,
    }
}

pub open spec fn lang_single_marker(l: Language) -> Seq<char> {
    match l {
        Language::Rust | Language::Cpp | Language::C | Language::Go | Language::Java
        | Language::CSharp | Language::JavaScript | Language::TypeScript | Language::Swift
        | Language::Kotlin | Language::Scala | Language::Php => "//"@,
        Language::Python | Language::Ruby | Language::Shell => "#"@,
        _ => ""@,
    }
}

pub open spec fn lang_block_start(l: Language) -> Seq<char> {
    match l {
        Language::Rust | Language::Cpp | Language::C | Language::Go | Language::Java
        | Language::CSharp | Language::JavaScript | Language::TypeScript | Language::Swift
        | Language::Kotlin | Language::Scala | Language::Php => "/*"@,
        Language::Html | Language::Xml => "<!--"@,
        Language::Css | Language::Scss => "/*"@,
        _ => ""@,
    }
}

pub open spec fn lang_block_end(l: Language) -> Seq<char> {
    match l {
        Language::Rust | Language::Cpp | Language::C | Language::Go | Language::Java
        | Language::CSharp | Language::JavaScript | Language::TypeScript | Language::Swift
        | Language::Kotlin | Language::Scala | Language::Php => "*/"@,
        Language::Html | Language::Xml => "-->"@,
        Language::Css | Language::Scss => "*/"@,
        _ => ""@,
    }
}

/// The language a file extension belongs to, `None` when unrecognized.
pub open spec fn spec_language_from_extension(e: Seq<char>) -> Option<Language> {
    if e == "rs"@ { Some(Language::Rust) }
    else if e == "py"@ { Some(Language::Python) }
    else if e == "js"@ || e == "jsx"@ { Some(Language::JavaScript) }
    else if e == "ts"@ || e == "tsx"@ { Some(Language::TypeScript) }
    else if e == "go"@ { Some(Language::Go) }
    else if e == "java"@ { Some(Language::Java) }
    else if e == "c"@ { Some(Language::C) }
    else if e == "cpp"@ || e == "cc"@ || e == "cxx"@ { Some(Language::Cpp) }
    else if e == "h"@ || e == "hpp"@ { Some(Language::CHeader) }
    else if e == "cs"@ { Some(Language::CSharp) }
    else if e == "rb"@ { Some(Language::Ruby) }
    else if e == "php"@ { Some(Language::Php) }
    else if e == "swift"@ { Some(Language::Swift) }
    else if e == "kt"@ || e == "kts"@ { Some(Language::Kotlin) }
    else if e == "scala"@ { Some(Language::Scala) }
    else if e == "sh"@ || e == "bash"@ { Some(Language::Shell) }
    else if e == "sql"@ { Some(Language::Sql) }
    else if e == "html"@ { Some(Language::Html) }
    else if e == "css"@ { Some(Language::Css) }
    else if e == "scss"@ || e == "sass"@ { Some(Language::Scss) }
    else if e == "md"@ || e == "markdown"@ { Some(Language::Markdown) }
    else if e == "yaml"@ || e == "yml"@ { Some(Language::Yaml) }
    else if e == "json"@ { Some(Language::Json) }
    else if e == "toml"@ { Some(Language::Toml) }
    else if e == "xml"@ { Some(Language::Xml) }
    else { None }
}

/// Classify a bare file extension (no leading dot).
pub fn language_from_extension(ext: &str) -> (r: Option<Language>)
    ensures
        r == spec_language_from_extension(ext@),
{
    if str_eq(ext, "rs") { Some(Language::Rust) }
    else if str_eq(ext, "py") { Some(Language::Python) }
    else if str_eq(ext, "js") || str_eq(ext, "jsx") { Some(Language::JavaScript) }
    else if str_eq(ext, "ts") || str_eq(ext, "tsx") { Some(Language::TypeScript) }
    else if str_eq(ext, "go") { Some(Language::Go) }
    else if str_eq(ext, "java") { Some(Language::Java) }
    else if str_eq(ext, "c") { Some(Language::C) }
    else if str_eq(ext, "cpp") || str_eq(ext, "cc") || str_eq(ext, "cxx") { Some(Language::Cpp) }
    else if str_eq(ext, "h") || str_eq(ext, "hpp") { Some(Language::CHeader) }
    else if str_eq(ext, "cs") { Some(Language::CSharp) }
    else if str_eq(ext, "rb") { Some(Language::Ruby) }
    else if str_eq(ext, "php") { Some(Language::Php) }
    else if str_eq(ext, "swift") { Some(Language::Swift) }
    else if str_eq(ext, "kt") || str_eq(ext, "kts") { Some(Language::Kotlin) }
    else if str_eq(ext, "scala") { Some(Language::Scala) }
    else if str_eq(ext, "sh") || str_eq(ext, "bash") { Some(Language::Shell) }
    else if str_eq(ext, "sql") { Some(Language::Sql) }
    else if str_eq(ext, "html") { Some(Language::Html) }
    else if str_eq(ext, "css") { Some(Language::Css) }
    else if str_eq(ext, "scss") || str_eq(ext, "sass") { Some(Language::Scss) }
    else if str_eq(ext, "md") || str_eq(ext, "markdown") { Some(Language::Markdown) }
    else if str_eq(ext, "yaml") || str_eq(ext, "yml") { Some(Language::Yaml) }
    else if str_eq(ext, "json") { Some(Language::Json) }
    else if str_eq(ext, "toml") { Some(Language::Toml) }
    else if str_eq(ext, "xml") { Some(Language::Xml) }
    else { None }
}

} // verus!
