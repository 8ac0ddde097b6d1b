use vstd::prelude::*;
use vstd::string::*;

verus! {

/// Errors that a platform backend can report.
#[derive(Debug, Clone, PartialEq, Eq)]
pub enum GoofbindError {
    /// The low-level keyboard hook could not be installed.
    HookFailed,
    /// The desktop portal reported an error; the text is the portal's own message.
    Portal(String),
}

/// The text a user sees for an error.
pub open spec fn error_text(err: GoofbindError) -> Seq<char> {
    match err {
        GoofbindError::HookFailed => "Failed to install global OS keyboard hook."@,
        GoofbindError::Portal(detail) => "Wayland portal error: "@ + detail@,
    }
}

impl GoofbindError {
    /// Renders the error as text.
    pub fn message(&self) -> (text: String)
        ensures
            text@ == error_text(*self),
    {
        match self {
            GoofbindError::HookFailed => String::from_str("Failed to install global OS keyboard hook."),
            GoofbindError::Portal(detail) => {
                let prefix = String::from_str("Wayland portal error: ");
                prefix.concat(detail.as_str())
            },
        }
    }
}

} // verus!
