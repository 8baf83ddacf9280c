//! The failures that the engine reports to its callers.

use vstd::prelude::*;

verus! {

/// Why an operation of the engine was refused.
#[derive(Clone, Copy, Debug, PartialEq, Eq, Structural)]
pub enum HookError {
    /// The prologue of the target cannot be captured or overwritten safely.
    PatchFailure,
    /// No stub can bridge the requested calling convention.
    UnsupportedConvention,
    /// A hook or handler was named that does not exist.
    UnknownHandle,
    /// A relocation refers to a label that was never defined.
    UnresolvedLabel,
}

impl HookError {
    /// A short description of the failure.
    pub fn message(&self) -> (text: &'static str)
        ensures
            text@ == match *self {
                HookError::PatchFailure => "the target prologue cannot be patched"@,
                HookError::UnsupportedConvention => "the calling convention is not supported"@,
                HookError::UnknownHandle => "no such hook"@,
                HookError::UnresolvedLabel => "a referenced label was never defined"@,
            },
    {
        match self {
            HookError::PatchFailure => "the target prologue cannot be patched",
            HookError::UnsupportedConvention => "the calling convention is not supported",
            HookError::UnknownHandle => "no such hook",
            HookError::UnresolvedLabel => "a referenced label was never defined",
        }
    }
}

} // verus!
