//! Error categorization and operator-facing error reports.
//!
//! Errors are sorted into categories by keywords in their message; a
//! category decides whether retrying makes sense and which context lines
//! and suggestions an enhanced report carries.

use vstd::prelude::*;
use vstd::string::*;
use crate::strutil::{ascii_lower_chars, contains_chars, contains_seq, lower_chars, str_to_chars};

verus! {

/// The kinds of failure the pipeline distinguishes.
#[derive(Clone, Copy, PartialEq, Eq, Structural, Debug)]
pub enum ErrorCategory {
    /// Network-related, retryable.
    Network,
    /// Filesystem-related, may be retryable.
    FileSystem,
    /// Configuration mistakes, not retryable.
    Configuration,
    /// Invalid input, not retryable.
    Validation,
    /// Dependency resolution, not retryable.
    Dependency,
    /// Timed out, may be retryable.
    Timeout,
    /// Anything else.
    Unknown,
}

impl ErrorCategory {
    /// Whether an error of this category is worth retrying.
    pub fn is_retryable(&self) -> (r: bool)
        ensures
            r == (self is Network || self is FileSystem || self is Timeout),
    {
        matches!(self, ErrorCategory::Network | ErrorCategory::FileSystem | ErrorCategory::Timeout)
    }
}

/// The category a message falls into, decided by keywords in its
/// lowercased text, first match winning.
pub open spec fn categorize_spec(m: Seq<char>) -> ErrorCategory {
    let lower = lower_chars(m);
    if contains_seq(lower, "network"@) || contains_seq(lower, "connection"@) || contains_seq(
        lower,
        "timeout"@,
    ) || contains_seq(lower, "dns"@) {
        ErrorCategory::Network
    } else if contains_seq(lower, "file"@) || contains_seq(lower, "directory"@) || contains_seq(
        lower,
        "permission"@,
    ) || contains_seq(lower, "io"@) {
        ErrorCategory::FileSystem
    } else if contains_seq(lower, "config"@) || contains_seq(lower, "invalid"@) {
        ErrorCategory::Configuration
    } else if contains_seq(lower, "dependency"@) || contains_seq(lower, "version"@) {
        ErrorCategory::Dependency
    } else if contains_seq(lower, "timeout"@) {
        ErrorCategory::Timeout
    } else {
        ErrorCategory::Unknown
    }
}

/// Sorts an error message into a category by its keywords.
pub fn categorize_error(message: &str) -> (r: ErrorCategory)
    ensures
        r == categorize_spec(message@),
{
    let chars = str_to_chars(message);
    let lower = ascii_lower_chars(&chars);
    let network = str_to_chars("network");
    let connection = str_to_chars("connection");
    let timeout = str_to_chars("timeout");
    let dns = str_to_chars("dns");
    let file_kw = str_to_chars("file");
    let directory = str_to_chars("directory");
    let permission = str_to_chars("permission");
    let io_kw = str_to_chars("io");
    let config = str_to_chars("config");
    let invalid = str_to_chars("invalid");
    let dependency = str_to_chars("dependency");
    let version_kw = str_to_chars("version");
    if contains_chars(&lower, &network) || contains_chars(&lower, &connection) || contains_chars(
        &lower,
        &timeout,
    ) || contains_chars(&lower, &dns) {
        ErrorCategory::Network
    } else if contains_chars(&lower, &file_kw) || contains_chars(&lower, &directory)
        || contains_chars(&lower, &permission) || contains_chars(&lower, &io_kw) {
        ErrorCategory::FileSystem
    } else if contains_chars(&lower, &config) || contains_chars(&lower, &invalid) {
        ErrorCategory::Configuration
    } else if contains_chars(&lower, &dependency) || contains_chars(&lower, &version_kw) {
        ErrorCategory::Dependency
    } else if contains_chars(&lower, &timeout) {
        ErrorCategory::Timeout
    } else {
        ErrorCategory::Unknown
    }
}

/// The context lines a category contributes to a report.
pub open spec fn context_of(category: ErrorCategory, message: Seq<char>) -> Seq<Seq<char>> {
    match category {
        ErrorCategory::Network => seq!["Network operation failed"@],
        ErrorCategory::FileSystem => seq!["File system operation failed"@],
        ErrorCategory::Configuration => seq!["Configuration error detected"@],
        ErrorCategory::Dependency => seq!["Dependency resolution failed"@],
        ErrorCategory::Timeout => seq!["Operation timed out"@],
        ErrorCategory::Validation => seq!["Validation error"@],
        ErrorCategory::Unknown => seq!["Unexpected error: "@ + message],
    }
}

/// The suggestions a category contributes to a report.
pub open spec fn suggestions_of(category: ErrorCategory) -> Seq<Seq<char>> {
    match category {
        ErrorCategory::Network => seq![
            "Check your internet connection"@,
            "Verify firewall settings"@,
            "Try again in a few moments"@,
        ],
        ErrorCategory::FileSystem => seq![
            "Check file permissions"@,
            "Verify the path exists"@,
            "Ensure sufficient disk space"@,
        ],
        ErrorCategory::Configuration => seq![
            "Review your configuration file"@,
            "Check environment variables"@,
            "Refer to documentation for valid options"@,
        ],
        ErrorCategory::Dependency => seq![
            "Check tool dependencies"@,
            "Verify version compatibility"@,
            "Run 'forge update' to sync dependencies"@,
        ],
        ErrorCategory::Timeout => seq![
            "The operation may need more time"@,
            "Try increasing timeout settings"@,
            "Check system resources"@,
        ],
        ErrorCategory::Validation => seq![
            "Review input data"@,
            "Check for required fields"@,
        ],
        ErrorCategory::Unknown => seq![
            "Check logs for more details"@,
            "Report this issue if it persists"@,
        ],
    }
}

/// Builds the context lines and suggestions for a category.
pub fn generate_context_and_suggestions(category: &ErrorCategory, message: &str) -> (r: (
    Vec<String>,
    Vec<String>,
))
    ensures
        r.0.deep_view() == context_of(*category, message@),
        r.1.deep_view() == suggestions_of(*category),
{
    let mut context: Vec<String> = Vec::new();
    let mut suggestions: Vec<String> = Vec::new();
    match category {
        ErrorCategory::Network => {
            context.push(String::from_str("Network operation failed"));
            suggestions.push(String::from_str("Check your internet connection"));
            suggestions.push(String::from_str("Verify firewall settings"));
            suggestions.push(String::from_str("Try again in a few moments"));
        },
        ErrorCategory::FileSystem => {
            context.push(String::from_str("File system operation failed"));
            suggestions.push(String::from_str("Check file permissions"));
            suggestions.push(String::from_str("Verify the path exists"));
            suggestions.push(String::from_str("Ensure sufficient disk space"));
        },
        ErrorCategory::Configuration => {
            context.push(String::from_str("Configuration error detected"));
            suggestions.push(String::from_str("Review your configuration file"));
            suggestions.push(String::from_str("Check environment variables"));
            suggestions.push(String::from_str("Refer to documentation for valid options"));
        },
        ErrorCategory::Dependency => {
            context.push(String::from_str("Dependency resolution failed"));
            suggestions.push(String::from_str("Check tool dependencies"));
            suggestions.push(String::from_str("Verify version compatibility"));
            suggestions.push(String::from_str("Run 'forge update' to sync dependencies"));
        },
        ErrorCategory::Timeout => {
            context.push(String::from_str("Operation timed out"));
            suggestions.push(String::from_str("The operation may need more time"));
            suggestions.push(String::from_str("Try increasing timeout settings"));
            suggestions.push(String::from_str("Check system resources"));
        },
        ErrorCategory::Validation => {
            context.push(String::from_str("Validation error"));
            suggestions.push(String::from_str("Review input data"));
            suggestions.push(String::from_str("Check for required fields"));
        },
        ErrorCategory::Unknown => {
            let mut line = String::from_str("Unexpected error: ");
            line.append(message);
            context.push(line);
            suggestions.push(String::from_str("Check logs for more details"));
            suggestions.push(String::from_str("Report this issue if it persists"));
        },
    }
    proof {
        assert(context.deep_view() =~= context_of(*category, message@));
        assert(suggestions.deep_view() =~= suggestions_of(*category));
    }
    (context, suggestions)
}

/// An error message joined with its category, context and suggestions.
pub struct EnhancedError {
    /// The underlying error's message.
    pub message: String,
    /// Its category.
    pub category: ErrorCategory,
    /// Context lines for the operator.
    pub context: Vec<String>,
    /// What to try next.
    pub suggestions: Vec<String>,
}

/// The operator-facing report: the message, then context lines, then
/// suggestions, each section introduced by a heading and indented
/// bullets.
pub open spec fn bullet_lines(items: Seq<Seq<char>>) -> Seq<char>
    decreases items.len(),
{
    if items.len() == 0 {
        Seq::empty()
    } else {
        bullet_lines(items.drop_last()) + "   - "@ + items.last() + "\n"@
    }
}

/// The full rendering of an enhanced error.
pub open spec fn display_of(
    message: Seq<char>,
    context: Seq<Seq<char>>,
    suggestions: Seq<Seq<char>>,
) -> Seq<char> {
    "Error: "@ + message + "\n"@ + (if context.len() > 0 {
        "\nContext:\n"@ + bullet_lines(context)
    } else {
        Seq::empty()
    }) + (if suggestions.len() > 0 {
        "\nSuggestions:\n"@ + bullet_lines(suggestions)
    } else {
        Seq::empty()
    })
}

fn append_bullets(out: &mut String, items: &Vec<String>)
    ensures
        final(out)@ == old(out)@ + bullet_lines(items.deep_view()),
{
    let len = items.len();
    let mut i: usize = 0;
    proof {
        assert(bullet_lines(items.deep_view().take(0)) =~= Seq::<char>::empty());
        assert(old(out)@ + bullet_lines(items.deep_view().take(0)) =~= old(out)@);
    }
    while i < len
        invariant
            len == items@.len(),
            i <= len,
            out@ == old(out)@ + bullet_lines(items.deep_view().take(i as int)),
        decreases len - i,
    {
        out.append("   - ");
        out.append(items[i].as_str());
        out.append("\n");
        i = i + 1;
        proof {
            assert(items.deep_view().take(i as int).drop_last() =~= items.deep_view().take(
                i - 1,
            ));
            assert(items.deep_view().take(i as int).last() == items@[i - 1]@);
        }
    }
    proof {
        assert(items.deep_view().take(len as int) =~= items.deep_view());
    }
}

impl EnhancedError {
    /// Wraps a message: categorize it and attach context and
    /// suggestions.
    pub fn new(message: String) -> (r: Self)
        ensures
            r.message@ == message@,
            r.category == categorize_spec(message@),
            r.context.deep_view() == context_of(r.category, message@),
            r.suggestions.deep_view() == suggestions_of(r.category),
    {
        let category = categorize_error(message.as_str());
        let (context, suggestions) = generate_context_and_suggestions(&category, message.as_str());
        EnhancedError { message, category, context, suggestions }
    }

    /// Renders the report for the operator.
    pub fn display(&self) -> (r: String)
        ensures
            r@ == display_of(self.message@, self.context.deep_view(), self.suggestions.deep_view()),
    {
        let mut out = String::from_str("Error: ");
        out.append(self.message.as_str());
        out.append("\n");
        if self.context.len() > 0 {
            out.append("\nContext:\n");
            append_bullets(&mut out, &self.context);
        }
        if self.suggestions.len() > 0 {
            out.append("\nSuggestions:\n");
            append_bullets(&mut out, &self.suggestions);
        }
        out
    }
}

/// A result whose error side carries the full report.
pub type EnhancedResult<T> = Result<T, EnhancedError>;

/// Lifts a message-bearing result into an enhanced one.
pub trait ToEnhanced<T>: Sized {
    fn enhance(self) -> EnhancedResult<T>;
}

impl<T> ToEnhanced<T> for Result<T, String> {
    fn enhance(self) -> (r: EnhancedResult<T>)
        ensures
            self is Ok <==> r is Ok,
    {
        match self {
            Ok(v) => Ok(v),
            Err(message) => Err(EnhancedError::new(message)),
        }
    }
}

} // verus!
