//! Errors raised while reading command files and registering commands.
use vstd::prelude::*;

use crate::text::{append_chars, chars_of, decimal, decimal_chars, push_str, string_from_chars};

verus! {

/// Why a command file or a command registration was refused.
#[derive(Debug, Clone)]
pub enum ConfigError {
    UnsupportedSection { source: String, line: usize, name: String },
    ExpectedKeyValue { source: String, line: usize },
    KeyOutsideSection { source: String, line: usize },
    UnsupportedValue { source: String, line: usize },
    ExpectedQuotedString { source: String, line: usize },
    TrailingEscape { source: String, line: usize },
    MissingKey { source: String, key: String },
    NotAString { key: String },
    NotAnArray { key: String },
    InvalidMode { source: String, mode: String },
    PredicateNotString { source: String, field: String, kind: String },
    UnsupportedPredicate { source: String, field: String, kind: String },
    /// The pattern of a `regex` predicate does not compile; `reason` is the
    /// regular-expression engine's own explanation.
    InvalidRegex { pattern: String, reason: String },
    NoPredicates { source: String, name: String },
    DuplicateCommand { source: String, name: String },
}

/// A [`ConfigError`] as seen by specifications (the engine's explanation of
/// a refused pattern is left out).
pub enum ConfigErrorModel {
    UnsupportedSection { source: Seq<char>, line: nat, name: Seq<char> },
    ExpectedKeyValue { source: Seq<char>, line: nat },
    KeyOutsideSection { source: Seq<char>, line: nat },
    UnsupportedValue { source: Seq<char>, line: nat },
    ExpectedQuotedString { source: Seq<char>, line: nat },
    TrailingEscape { source: Seq<char>, line: nat },
    MissingKey { source: Seq<char>, key: Seq<char> },
    NotAString { key: Seq<char> },
    NotAnArray { key: Seq<char> },
    InvalidMode { source: Seq<char>, mode: Seq<char> },
    PredicateNotString { source: Seq<char>, field: Seq<char>, kind: Seq<char> },
    UnsupportedPredicate { source: Seq<char>, field: Seq<char>, kind: Seq<char> },
    InvalidRegex { pattern: Seq<char> },
    NoPredicates { source: Seq<char>, name: Seq<char> },
    DuplicateCommand { source: Seq<char>, name: Seq<char> },
}

impl View for ConfigError {
    type V = ConfigErrorModel;

    open spec fn view(&self) -> ConfigErrorModel {
        match self {
            ConfigError::UnsupportedSection { source, line, name } => {
                ConfigErrorModel::UnsupportedSection { source: source@, line: *line as nat, name: name@ }
            },
            ConfigError::ExpectedKeyValue { source, line } => {
                ConfigErrorModel::ExpectedKeyValue { source: source@, line: *line as nat }
            },
            ConfigError::KeyOutsideSection { source, line } => {
                ConfigErrorModel::KeyOutsideSection { source: source@, line: *line as nat }
            },
            ConfigError::UnsupportedValue { source, line } => {
                ConfigErrorModel::UnsupportedValue { source: source@, line: *line as nat }
            },
            ConfigError::ExpectedQuotedString { source, line } => {
                ConfigErrorModel::ExpectedQuotedString { source: source@, line: *line as nat }
            },
            ConfigError::TrailingEscape { source, line } => {
                ConfigErrorModel::TrailingEscape { source: source@, line: *line as nat }
            },
            ConfigError::MissingKey { source, key } => {
                ConfigErrorModel::MissingKey { source: source@, key: key@ }
            },
            ConfigError::NotAString { key } => ConfigErrorModel::NotAString { key: key@ },
            ConfigError::NotAnArray { key } => ConfigErrorModel::NotAnArray { key: key@ },
            ConfigError::InvalidMode { source, mode } => {
                ConfigErrorModel::InvalidMode { source: source@, mode: mode@ }
            },
            ConfigError::PredicateNotString { source, field, kind } => {
                ConfigErrorModel::PredicateNotString { source: source@, field: field@, kind: kind@ }
            },
            ConfigError::UnsupportedPredicate { source, field, kind } => {
                ConfigErrorModel::UnsupportedPredicate {
                    source: source@,
                    field: field@,
                    kind: kind@,
                }
            },
            ConfigError::InvalidRegex { pattern, reason } => {
                ConfigErrorModel::InvalidRegex { pattern: pattern@ }
            },
            ConfigError::NoPredicates { source, name } => {
                ConfigErrorModel::NoPredicates { source: source@, name: name@ }
            },
            ConfigError::DuplicateCommand { source, name } => {
                ConfigErrorModel::DuplicateCommand { source: source@, name: name@ }
            },
        }
    }
}

/// `"{source}:{line}: {what}"`.
pub open spec fn at_line(source: Seq<char>, line: nat, what: Seq<char>) -> Seq<char> {
    source + ":"@ + decimal(line) + ": "@ + what
}

/// The text that describes an error (for every error but a refused pattern,
/// whose text is the engine's own).
pub open spec fn error_text(e: ConfigErrorModel) -> Seq<char> {
    match e {
        ConfigErrorModel::UnsupportedSection { source, line, name } => at_line(
            source,
            line,
            "unsupported section `"@ + name + "`"@,
        ),
        ConfigErrorModel::ExpectedKeyValue { source, line } => at_line(
            source,
            line,
            "expected key = value"@,
        ),
        ConfigErrorModel::KeyOutsideSection { source, line } => at_line(
            source,
            line,
            "key outside a section"@,
        ),
        ConfigErrorModel::UnsupportedValue { source, line } => at_line(
            source,
            line,
            "only quoted strings and string arrays are supported"@,
        ),
        ConfigErrorModel::ExpectedQuotedString { source, line } => at_line(
            source,
            line,
            "expected quoted string"@,
        ),
        ConfigErrorModel::TrailingEscape { source, line } => at_line(
            source,
            line,
            "trailing string escape"@,
        ),
        ConfigErrorModel::MissingKey { source, key } => source + ": missing `"@ + key + "`"@,
        ConfigErrorModel::NotAString { key } => "`"@ + key + "` must be a string"@,
        ConfigErrorModel::NotAnArray { key } => "`"@ + key + "` must be an array"@,
        ConfigErrorModel::InvalidMode { source, mode } => source + ": invalid action mode `"@
            + mode + "`"@,
        ConfigErrorModel::PredicateNotString { source, field, kind } => source + ": match `"@
            + field + "."@ + kind + "` must be a string"@,
        ConfigErrorModel::UnsupportedPredicate { source, field, kind } => source
            + ": unsupported predicate `"@ + field + "."@ + kind + "`"@,
        ConfigErrorModel::InvalidRegex { pattern } => pattern,
        ConfigErrorModel::NoPredicates { source, name } => source + ": command `"@ + name
            + "` has no match predicates"@,
        ConfigErrorModel::DuplicateCommand { source, name } => "duplicate command name `"@
            + name + "` in "@ + source,
    }
}

fn push_string(out: &mut Vec<char>, s: &String)
    ensures
        final(out)@ == old(out)@ + s@,
{
    push_str(out, s.as_str());
}

fn line_text(source: &String, line: usize, what: &str) -> (r: Vec<char>)
    ensures
        r@ == at_line(source@, line as nat, what@),
{
    let mut out: Vec<char> = Vec::new();
    push_string(&mut out, source);
    push_str(&mut out, ":");
    let digits = decimal_chars(line as u64);
    append_chars(&mut out, digits.as_slice());
    push_str(&mut out, ": ");
    push_str(&mut out, what);
    assert(out@ =~= at_line(source@, line as nat, what@));
    out
}

impl ConfigError {
    /// The human-readable description of the error.
    pub fn message(&self) -> (r: String)
        ensures
            match self {
                ConfigError::InvalidRegex { reason, .. } => r@ == reason@,
                _ => r@ == error_text(self@),
            },
    {
        let mut out: Vec<char> = Vec::new();
        match self {
            ConfigError::UnsupportedSection { source, line, name } => {
                out = line_text(source, *line, "unsupported section `");
                push_string(&mut out, name);
                push_str(&mut out, "`");
                assert(out@ =~= error_text(self@));
            },
            ConfigError::ExpectedKeyValue { source, line } => {
                out = line_text(source, *line, "expected key = value");
            },
            ConfigError::KeyOutsideSection { source, line } => {
                out = line_text(source, *line, "key outside a section");
            },
            ConfigError::UnsupportedValue { source, line } => {
                out = line_text(
                    source,
                    *line,
                    "only quoted strings and string arrays are supported",
                );
            },
            ConfigError::ExpectedQuotedString { source, line } => {
                out = line_text(source, *line, "expected quoted string");
            },
            ConfigError::TrailingEscape { source, line } => {
                out = line_text(source, *line, "trailing string escape");
            },
            ConfigError::MissingKey { source, key } => {
                push_string(&mut out, source);
                push_str(&mut out, ": missing `");
                push_string(&mut out, key);
                push_str(&mut out, "`");
                assert(out@ =~= error_text(self@));
            },
            ConfigError::NotAString { key } => {
                push_str(&mut out, "`");
                push_string(&mut out, key);
                push_str(&mut out, "` must be a string");
                assert(out@ =~= error_text(self@));
            },
            ConfigError::NotAnArray { key } => {
                push_str(&mut out, "`");
                push_string(&mut out, key);
                push_str(&mut out, "` must be an array");
                assert(out@ =~= error_text(self@));
            },
            ConfigError::InvalidMode { source, mode } => {
                push_string(&mut out, source);
                push_str(&mut out, ": invalid action mode `");
                push_string(&mut out, mode);
                push_str(&mut out, "`");
                assert(out@ =~= error_text(self@));
            },
            ConfigError::PredicateNotString { source, field, kind } => {
                push_string(&mut out, source);
                push_str(&mut out, ": match `");
                push_string(&mut out, field);
                push_str(&mut out, ".");
                push_string(&mut out, kind);
                push_str(&mut out, "` must be a string");
                assert(out@ =~= error_text(self@));
            },
            ConfigError::UnsupportedPredicate { source, field, kind } => {
                push_string(&mut out, source);
                push_str(&mut out, ": unsupported predicate `");
                push_string(&mut out, field);
                push_str(&mut out, ".");
                push_string(&mut out, kind);
                push_str(&mut out, "`");
                assert(out@ =~= error_text(self@));
            },
            ConfigError::InvalidRegex { pattern, reason } => {
                push_string(&mut out, reason);
                assert(out@ =~= reason@);
            },
            ConfigError::NoPredicates { source, name } => {
                push_string(&mut out, source);
                push_str(&mut out, ": command `");
                push_string(&mut out, name);
                push_str(&mut out, "` has no match predicates");
                assert(out@ =~= error_text(self@));
            },
            ConfigError::DuplicateCommand { source, name } => {
                push_str(&mut out, "duplicate command name `");
                push_string(&mut out, name);
                push_str(&mut out, "` in ");
                push_string(&mut out, source);
                assert(out@ =~= error_text(self@));
            },
        }
        string_from_chars(out.as_slice())
    }
}

} // verus!
