//! How the bot reacts to the errors that its framework reports.

use vstd::prelude::*;

verus! {

/// The kinds of framework errors that the bot tells apart.
#[derive(Debug, Clone, Copy, PartialEq, Eq, Structural)]
pub enum FrameworkErrorKind {
    /// Setting up the bot's data failed: the bot cannot start and panics,
    /// before any handling.
    Setup,
    /// A command returned an error.
    Command,
    /// Any other error.
    Other,
}

/// What the bot does with an error.
#[derive(Debug, Clone, Copy, PartialEq, Eq, Structural)]
pub enum ErrorAction {
    /// Log the error with the command's name.
    LogCommandError,
    /// Hand the error to the framework's default handler.
    UseDefaultHandler,
}

/// The action for each kind of error.
pub open spec fn error_action_of(kind: FrameworkErrorKind) -> ErrorAction {
    match kind {
        FrameworkErrorKind::Command => ErrorAction::LogCommandError,
        _ => ErrorAction::UseDefaultHandler,
    }
}

/// What the bot does with an error of `kind` other than a failed setup (on
/// which the bot panics): a command's error is logged, anything else goes to
/// the default handler.
pub fn on_error(kind: FrameworkErrorKind) -> (r: ErrorAction)
    requires
        kind != FrameworkErrorKind::Setup,
    ensures
        r == error_action_of(kind),
{
    match kind {
        FrameworkErrorKind::Command => ErrorAction::LogCommandError,
        _ => ErrorAction::UseDefaultHandler,
    }
}

} // verus!
