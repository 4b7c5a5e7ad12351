//! The error type that every command of the client reports.

use vstd::prelude::*;

verus! {

/// Errors reported by the commands of the client.
#[derive(Debug)]
pub enum DcCmdError {
    /// A remote or local path that does not resolve.
    InvalidPath(String),
    /// An argument the command cannot work with.
    InvalidArgument(String),
    /// A DRACOON url that cannot be used.
    InvalidUrl(String),
    /// Local input or output failed.
    IoError,
    /// No stored credentials for the account.
    InvalidAccount,
    /// The local credential storage could not be used.
    CredentialStorageFailed,
    /// A stored credential could not be deleted.
    CredentialDeletionFailed,
    /// No connection to DRACOON could be made.
    ConnectionFailed,
}

/// A short description of an error without a message of its own.
pub open spec fn error_description(e: DcCmdError) -> Seq<char> {
    match e {
        DcCmdError::InvalidPath(m) => "Invalid path: "@ + m@,
        DcCmdError::InvalidArgument(m) => "Invalid argument: "@ + m@,
        DcCmdError::InvalidUrl(m) => "Invalid url: "@ + m@,
        DcCmdError::IoError => "IO error"@,
        DcCmdError::InvalidAccount => "Invalid account"@,
        DcCmdError::CredentialStorageFailed => "Credential storage failed"@,
        DcCmdError::CredentialDeletionFailed => "Credential deletion failed"@,
        DcCmdError::ConnectionFailed => "Connection failed"@,
    }
}

impl DcCmdError {
    /// The error as one line of text (see `error_description`).
    pub fn describe(&self) -> (r: String)
        ensures
            r@ == error_description(*self),
    {
        let mut v: Vec<char> = Vec::new();
        match self {
            DcCmdError::InvalidPath(m) => {
                crate::text::append_str(&mut v, "Invalid path: ");
                crate::text::append_str(&mut v, m.as_str());
            },
            DcCmdError::InvalidArgument(m) => {
                crate::text::append_str(&mut v, "Invalid argument: ");
                crate::text::append_str(&mut v, m.as_str());
            },
            DcCmdError::InvalidUrl(m) => {
                crate::text::append_str(&mut v, "Invalid url: ");
                crate::text::append_str(&mut v, m.as_str());
            },
            DcCmdError::IoError => crate::text::append_str(&mut v, "IO error"),
            DcCmdError::InvalidAccount => crate::text::append_str(&mut v, "Invalid account"),
            DcCmdError::CredentialStorageFailed => crate::text::append_str(
                &mut v,
                "Credential storage failed",
            ),
            DcCmdError::CredentialDeletionFailed => crate::text::append_str(
                &mut v,
                "Credential deletion failed",
            ),
            DcCmdError::ConnectionFailed => crate::text::append_str(&mut v, "Connection failed"),
        }
        crate::text::string_of(v.as_slice())
    }
}

} // verus!
