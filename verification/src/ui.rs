//! Terminal text styling.
//!
//! Each helper wraps its text in the ANSI escape sequences of one fixed
//! style: foreground colors close with `ESC[39m`, bold and dim close
//! with the full reset `ESC[0m`.  The exact byte sequences are part of
//! each function's contract.
use vstd::prelude::*;
use vstd::string::StringExecFns;

verus! {

/// Fixed color theme for terminal output.
pub struct Theme;

/// `prefix + text + suffix` as one owned string.
fn wrap(prefix: &str, text: &str, suffix: &str) -> (r: String)
    ensures
        r@ == prefix@ + text@ + suffix@,
{
    let mut s = String::from_str(prefix);
    s.append(text);
    s.append(suffix);
    s
}

impl Theme {
    /// A check mark followed by the text in green.
    pub fn success(text: &str) -> (r: String)
        ensures
            r@ == "\u{2713} \u{1b}[32m"@ + text@ + "\u{1b}[39m"@,
    {
        wrap("\u{2713} \u{1b}[32m", text, "\u{1b}[39m")
    }

    /// A cross followed by the text in red.
    pub fn error(text: &str) -> (r: String)
        ensures
            r@ == "\u{2717} \u{1b}[31m"@ + text@ + "\u{1b}[39m"@,
    {
        wrap("\u{2717} \u{1b}[31m", text, "\u{1b}[39m")
    }

    /// An information sign followed by the text in cyan.
    pub fn info(text: &str) -> (r: String)
        ensures
            r@ == "\u{2139} \u{1b}[36m"@ + text@ + "\u{1b}[39m"@,
    {
        wrap("\u{2139} \u{1b}[36m", text, "\u{1b}[39m")
    }

    /// A warning sign followed by the text in yellow.
    pub fn warning(text: &str) -> (r: String)
        ensures
            r@ == "\u{26a0} \u{1b}[33m"@ + text@ + "\u{1b}[39m"@,
    {
        wrap("\u{26a0} \u{1b}[33m", text, "\u{1b}[39m")
    }

    /// The text in bold blue.
    pub fn header(text: &str) -> (r: String)
        ensures
            r@ == "\u{1b}[34m\u{1b}[1m"@ + text@ + "\u{1b}[0m\u{1b}[39m"@,
    {
        wrap("\u{1b}[34m\u{1b}[1m", text, "\u{1b}[0m\u{1b}[39m")
    }

    /// The text in bright white.
    pub fn value(text: &str) -> (r: String)
        ensures
            r@ == "\u{1b}[97m"@ + text@ + "\u{1b}[39m"@,
    {
        wrap("\u{1b}[97m", text, "\u{1b}[39m")
    }

    /// The text in bold bright green.
    pub fn highlight(text: &str) -> (r: String)
        ensures
            r@ == "\u{1b}[1m\u{1b}[92m"@ + text@ + "\u{1b}[39m\u{1b}[0m"@,
    {
        wrap("\u{1b}[1m\u{1b}[92m", text, "\u{1b}[39m\u{1b}[0m")
    }

    /// The text dimmed.
    pub fn dim(text: &str) -> (r: String)
        ensures
            r@ == "\u{1b}[2m"@ + text@ + "\u{1b}[0m"@,
    {
        wrap("\u{1b}[2m", text, "\u{1b}[0m")
    }
}

} // verus!
