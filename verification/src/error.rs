//! Error and diagnostic values of the build pipeline.
//!
//! Failures that abort a build are values of `CoreError`; warnings and
//! recoverable per-module errors are `Diagnostic` values accumulated on the
//! compilation and reported at the end of a build without aborting it.

use vstd::prelude::*;

use crate::fs::FsError;

verus! {

/// An error that aborts the current build.
#[derive(Debug, Clone, PartialEq, Eq)]
pub enum CoreError {
    /// A match-condition of kind `string` lacks its string matcher.
    MissingStringMatcher,
    /// A match-condition of kind `regexp` lacks its pattern.
    MissingRegexpMatcher,
    /// A match-condition of kind `array` lacks its element list.
    MissingArrayMatcher,
    /// A match-condition kind other than `string`, `regexp` or `array`.
    UnknownConditionKind,
    /// The emotion options string is not valid JSON.
    InvalidEmotionOptions,
    /// A plugin failed a hook; carries the plugin's own message.
    Plugin(String),
    /// A filesystem operation failed during emission.
    Io(FsError),
}

impl CoreError {
    /// A short, fixed description of the error kind.
    pub fn message(&self) -> (r: &'static str)
        ensures
            r@ == self.spec_message(),
    {
        match self {
            CoreError::MissingStringMatcher => {
                "should have a string_matcher when the condition kind is \"string\""
            }
            CoreError::MissingRegexpMatcher => {
                "should have a regexp_matcher when the condition kind is \"regexp\""
            }
            CoreError::MissingArrayMatcher => {
                "should have an array_matcher when the condition kind is \"array\""
            }
            CoreError::UnknownConditionKind => {
                "expected condition kind is `string`, `regexp` or `array`"
            }
            CoreError::InvalidEmotionOptions => "failed to parse emotion options as JSON",
            CoreError::Plugin(_) => "a plugin failed a compiler hook",
            CoreError::Io(_) => "an output filesystem operation failed",
        }
    }

    pub open spec fn spec_message(&self) -> Seq<char> {
        match self {
            CoreError::MissingStringMatcher => {
                "should have a string_matcher when the condition kind is \"string\""@
            },
            CoreError::MissingRegexpMatcher => {
                "should have a regexp_matcher when the condition kind is \"regexp\""@
            },
            CoreError::MissingArrayMatcher => {
                "should have an array_matcher when the condition kind is \"array\""@
            },
            CoreError::UnknownConditionKind => {
                "expected condition kind is `string`, `regexp` or `array`"@
            },
            CoreError::InvalidEmotionOptions => "failed to parse emotion options as JSON"@,
            CoreError::Plugin(_) => "a plugin failed a compiler hook"@,
            CoreError::Io(_) => "an output filesystem operation failed"@,
        }
    }
}

/// A recoverable problem recorded on the compilation: reported, not thrown.
#[derive(Debug, Clone, PartialEq, Eq)]
pub enum Severity {
    Warning,
    Error,
}

/// A warning or recoverable error accumulated during a build.
#[derive(Debug, Clone, PartialEq, Eq)]
pub struct Diagnostic {
    pub severity: Severity,
    pub message: String,
}

} // verus!
