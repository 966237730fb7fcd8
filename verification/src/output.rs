//! Structured error metadata and the output formatter.
//!
//! The formatter decides which messages appear (quiet mode) and whether
//! ANSI color codes wrap them. Printing itself is the caller's business:
//! this module only builds the texts.

use vstd::prelude::*;
use vstd::string::StringExecFns;

verus! {

/// Error code and metadata for structured error messages.
#[derive(Debug, Clone)]
pub struct ErrorInfo {
    /// Error code identifier, such as `ENOREPOS`.
    pub code: String,
    /// Short error title.
    pub title: String,
    /// Detailed error description.
    pub description: String,
    /// Suggested fix or workaround.
    pub fix: String,
    /// URL to documentation.
    pub url: String,
}

impl ErrorInfo {
    /// Builds an error description from its five parts.
    pub fn new(code: &str, title: &str, description: &str, fix: &str, url: &str) -> (r: ErrorInfo)
        ensures
            r.code@ == code@,
            r.title@ == title@,
            r.description@ == description@,
            r.fix@ == fix@,
            r.url@ == url@,
    {
        ErrorInfo {
            code: code.to_owned(),
            title: title.to_owned(),
            description: description.to_owned(),
            fix: fix.to_owned(),
            url: url.to_owned(),
        }
    }
}

/// Relies on atty::is(atty::Stream::Stdout): whether standard output is
/// connected to a terminal. The answer depends on how the process was
/// started, so nothing is promised of it.
#[verifier::external_body]
fn stdout_is_tty() -> (r: bool) {
    atty::is(atty::Stream::Stdout)
}

/// Decides which messages appear and whether color codes wrap them.
#[derive(Debug, Clone)]
pub struct OutputFormatter {
    /// Suppress non-error output.
    pub quiet: bool,
    /// Show verbose output.
    pub verbose: bool,
    /// Wrap texts in ANSI color codes.
    pub use_color: bool,
}

impl OutputFormatter {
    /// Builds a formatter. Colors are used only when not suppressed and
    /// standard output is a terminal; the caller may apply further
    /// environment rules through [`OutputFormatter::with_color_support`].
    pub fn new(quiet: bool, verbose: bool, no_color: bool) -> (r: OutputFormatter)
        ensures
            r.quiet == quiet,
            r.verbose == verbose,
            no_color ==> !r.use_color,
    {
        let use_color = !no_color && stdout_is_tty();
        OutputFormatter { quiet, verbose, use_color }
    }

    /// Builds a formatter from an explicit color-support answer: colors
    /// are used exactly when not suppressed and the caller reports
    /// support.
    pub fn with_color_support(quiet: bool, verbose: bool, no_color: bool, color_supported: bool)
        -> (r: OutputFormatter)
        ensures
            r.quiet == quiet,
            r.verbose == verbose,
            r.use_color == (!no_color && color_supported),
    {
        OutputFormatter { quiet, verbose, use_color: !no_color && color_supported }
    }

    /// Wraps the text in the given ANSI color code and a reset, or returns
    /// it unchanged when colors are off.
    pub fn colorize(&self, text: &str, color_code: &str) -> (r: String)
        ensures
            self.use_color ==> r@ == color_code@ + text@ + "\x1b[0m"@,
            !self.use_color ==> r@ == text@,
    {
        if self.use_color {
            let mut r = color_code.to_owned();
            r.append(text);
            r.append("\x1b[0m");
            r
        } else {
            text.to_owned()
        }
    }

    /// Formats bright cyan text.
    pub fn cyan(&self, text: &str) -> (r: String)
        ensures
            self.use_color ==> r@ == "\x1b[1;36m"@ + text@ + "\x1b[0m"@,
            !self.use_color ==> r@ == text@,
    {
        self.colorize(text, "\x1b[1;36m")
    }

    /// Formats yellow text.
    pub fn yellow(&self, text: &str) -> (r: String)
        ensures
            self.use_color ==> r@ == "\x1b[1;33m"@ + text@ + "\x1b[0m"@,
            !self.use_color ==> r@ == text@,
    {
        self.colorize(text, "\x1b[1;33m")
    }

    /// Formats green text.
    pub fn green(&self, text: &str) -> (r: String)
        ensures
            self.use_color ==> r@ == "\x1b[32m"@ + text@ + "\x1b[0m"@,
            !self.use_color ==> r@ == text@,
    {
        self.colorize(text, "\x1b[32m")
    }

    /// Formats red text.
    pub fn red(&self, text: &str) -> (r: String)
        ensures
            self.use_color ==> r@ == "\x1b[31m"@ + text@ + "\x1b[0m"@,
            !self.use_color ==> r@ == text@,
    {
        self.colorize(text, "\x1b[31m")
    }

    /// Formats magenta text.
    pub fn magenta(&self, text: &str) -> (r: String)
        ensures
            self.use_color ==> r@ == "\x1b[1;35m"@ + text@ + "\x1b[0m"@,
            !self.use_color ==> r@ == text@,
    {
        self.colorize(text, "\x1b[1;35m")
    }
}

} // verus!
