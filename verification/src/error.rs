//! Structured errors for macro evaluation.

use vstd::prelude::*;

verus! {

/// Why a builtin or a cursor operation failed.  The expansion driver owns
/// the policy of whether a failure aborts the whole parse or is reported
/// and skipped; this crate only reports.
#[derive(Debug)]
pub enum MacroError {
    /// A directive was syntactically malformed, e.g. a definition without
    /// its second token.
    MalformedDirective,
    /// A macro name was looked up and not found; carries the name.
    MacroNotFound(Vec<char>),
    /// A cursor range request fell outside the cursor's bounds.
    UnboundedRange,
    /// An environment variable was set but not valid text.
    NonTextEnvironmentValue,
    /// A file could not be loaded or read.
    IoFailure,
    /// The scripting bridge reported a failure.
    ScriptFailure,
    /// A declared builtin whose behavior is not implemented; never a
    /// silent no-op.
    Unimplemented,
    /// Expansion recursed past the configured depth limit.
    RecursionLimitExceeded,
}

impl MacroError {
    /// A short diagnostic text for the error.
    pub fn describe(&self) -> (r: Vec<char>)
        ensures
            r@ == describe_spec(*self),
    {
        match self {
            MacroError::MalformedDirective => crate::text::str_to_text("malformed directive"),
            MacroError::MacroNotFound(_) => crate::text::str_to_text("macro not found"),
            MacroError::UnboundedRange => crate::text::str_to_text("unwindable range"),
            MacroError::NonTextEnvironmentValue => crate::text::str_to_text(
                "non-text environment value",
            ),
            MacroError::IoFailure => crate::text::str_to_text("i/o failure"),
            MacroError::ScriptFailure => crate::text::str_to_text("script failure"),
            MacroError::Unimplemented => crate::text::str_to_text("not implemented"),
            MacroError::RecursionLimitExceeded => crate::text::str_to_text(
                "recursion limit exceeded",
            ),
        }
    }
}

/// The diagnostic text that `describe` returns for each error kind.
pub open spec fn describe_spec(e: MacroError) -> Seq<char> {
    match e {
        MacroError::MalformedDirective => "malformed directive"@,
        MacroError::MacroNotFound(_) => "macro not found"@,
        MacroError::UnboundedRange => "unwindable range"@,
        MacroError::NonTextEnvironmentValue => "non-text environment value"@,
        MacroError::IoFailure => "i/o failure"@,
        MacroError::ScriptFailure => "script failure"@,
        MacroError::Unimplemented => "not implemented"@,
        MacroError::RecursionLimitExceeded => "recursion limit exceeded"@,
    }
}

} // verus!
