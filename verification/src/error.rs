//! The error taxonomy of the tool. Every failure a command can report is
//! one of these variants; the top-level reporter prints `message` and the
//! process goes on, as the commands never turn an error into an exit code.

use vstd::prelude::*;
use vstd::string::*;
use crate::text::dec_rep;

verus! {

#[derive(Debug)]
pub enum Error {
    /// The requested version does not exist upstream (HTTP 404).
    RemoteNotFound { version: String },
    /// Any other failing request: a non-200 status, or no status at all
    /// when the transport itself failed.
    RemoteRequestFailed { status: Option<u16> },
    /// A local create, copy, permission or delete step failed.
    LocalIOFailure { message: String },
    /// The release archive held no entry for the runtime binary.
    BinaryNotFoundInArchive,
    /// No version argument was given and no configuration file was found.
    ConfigMissing,
}

impl Error {
    pub open spec fn message_spec(self) -> Seq<char> {
        match self {
            Error::RemoteNotFound { version } => "Version \""@ + version@ + "\" doesn't exist"@,
            Error::RemoteRequestFailed { status } => match status {
                Some(code) => "HTTP request was not successful: "@ + dec_rep(code as int),
                None => "HTTP request was not successful"@,
            },
            Error::LocalIOFailure { message } => message@,
            Error::BinaryNotFoundInArchive => "Failed to find Bun binary in the zip file"@,
            Error::ConfigMissing => "No .bumrc file found"@,
        }
    }

    /// The human-readable line that the reporter prints for this failure.
    pub fn message(&self) -> (r: String)
        ensures
            r@ == self.message_spec(),
    {
        match self {
            Error::RemoteNotFound { version } => {
                let mut out = String::from_str("Version \"");
                out.append(version.as_str());
                out.append("\" doesn't exist");
                assert(out@ =~= self.message_spec());
                out
            },
            Error::RemoteRequestFailed { status } => match status {
                Some(code) => {
                    let mut out = String::from_str("HTTP request was not successful: ");
                    let rendered = crate::text::u32_to_decimal(*code as u32);
                    out.append(rendered.as_str());
                    assert(out@ =~= self.message_spec());
                    out
                },
                None => String::from_str("HTTP request was not successful"),
            },
            Error::LocalIOFailure { message } => {
                let mut out = String::new();
                out.append(message.as_str());
                assert(out@ =~= self.message_spec());
                out
            },
            Error::BinaryNotFoundInArchive => String::from_str(
                "Failed to find Bun binary in the zip file",
            ),
            Error::ConfigMissing => String::from_str("No .bumrc file found"),
        }
    }
}

} // verus!
