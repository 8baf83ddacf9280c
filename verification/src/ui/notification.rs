use vstd::prelude::*;

verus! {

/// The icon that a notification shows beside its text.
#[derive(Debug, Clone, Copy, PartialEq, Eq, Structural)]
pub enum NotificationIcon {
    /// No icon at all.
    NoIcon,
    Loading,
    Success,
    Warning,
    Error,
}

} // verus!
