use vstd::prelude::*;

verus! {

/// Why the gateway, or one of its sessions, ends. Each kind carries the
/// words of whatever failed.
#[derive(Debug, Clone, PartialEq, Eq)]
pub enum ApplicationError {
    UsageError(String),
    IoError(String),
    NameResolutionError(String),
    SendError(String),
    LinesCodecError(String),
    JoinError(String),
}

/// The words that stand before the detail of an error, by its kind.
pub open spec fn error_prefix(error: ApplicationError) -> Seq<char> {
    match error {
        ApplicationError::UsageError(_) => "Usage: "@,
        ApplicationError::IoError(_) => "IO error "@,
        ApplicationError::NameResolutionError(_) => "Name resolution error: "@,
        ApplicationError::SendError(_) => "Send error: "@,
        ApplicationError::LinesCodecError(_) => "Lines codec error: "@,
        ApplicationError::JoinError(_) => "Async task join error: "@,
    }
}

/// The detail that an error carries.
pub open spec fn error_detail(error: ApplicationError) -> Seq<char> {
    match error {
        ApplicationError::UsageError(detail) => detail@,
        ApplicationError::IoError(detail) => detail@,
        ApplicationError::NameResolutionError(detail) => detail@,
        ApplicationError::SendError(detail) => detail@,
        ApplicationError::LinesCodecError(detail) => detail@,
        ApplicationError::JoinError(detail) => detail@,
    }
}

impl ApplicationError {
    /// The error in words: its kind, then its detail.
    pub fn message(&self) -> (text: String)
        ensures
            text@ == error_prefix(*self) + error_detail(*self),
    {
        match self {
            ApplicationError::UsageError(detail) => String::from_str("Usage: ").concat(
                detail.as_str(),
            ),
            ApplicationError::IoError(detail) => String::from_str("IO error ").concat(
                detail.as_str(),
            ),
            ApplicationError::NameResolutionError(detail) => String::from_str(
                "Name resolution error: ",
            ).concat(detail.as_str()),
            ApplicationError::SendError(detail) => String::from_str("Send error: ").concat(
                detail.as_str(),
            ),
            ApplicationError::LinesCodecError(detail) => String::from_str(
                "Lines codec error: ",
            ).concat(detail.as_str()),
            ApplicationError::JoinError(detail) => String::from_str(
                "Async task join error: ",
            ).concat(detail.as_str()),
        }
    }
}

} // verus!
