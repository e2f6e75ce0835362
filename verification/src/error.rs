//! The error taxonomy of the release-packaging pipeline. Every error is fatal
//! to the run: there is no recovery or partial-success path.

use vstd::prelude::*;
use crate::strutil::{dec_str, u64_to_string};

verus! {

/// A fatal pipeline error.
#[derive(Debug, Clone)]
pub enum Error {
    /// Missing or invalid configuration fields, or missing template
    /// placeholders.
    ConfigurationError(String),
    /// An unparseable semantic version.
    InvalidVersion(String),
    /// A non-success remote API response, or a response that lacks an
    /// expected field.
    RemoteError(String),
    /// A non-success artifact fetch response.
    DownloadFailed { url: String, status: u16 },
    /// No artifact matches a provider's required platform.
    NoMatchingTarget,
    /// A failing registry publish invocation.
    PublishFailed(String),
    /// A filesystem failure.
    IOError(String),
}

/// The variant of an [`Error`], without its payload.
#[derive(Debug, Clone, Copy, PartialEq, Eq, Structural)]
pub enum ErrorKind {
    ConfigurationError,
    InvalidVersion,
    RemoteError,
    DownloadFailed,
    NoMatchingTarget,
    PublishFailed,
    IOError,
}

/// The kind that classifies `e`.
pub open spec fn spec_kind(e: Error) -> ErrorKind {
    match e {
        Error::ConfigurationError(_) => ErrorKind::ConfigurationError,
        Error::InvalidVersion(_) => ErrorKind::InvalidVersion,
        Error::RemoteError(_) => ErrorKind::RemoteError,
        Error::DownloadFailed { .. } => ErrorKind::DownloadFailed,
        Error::NoMatchingTarget => ErrorKind::NoMatchingTarget,
        Error::PublishFailed(_) => ErrorKind::PublishFailed,
        Error::IOError(_) => ErrorKind::IOError,
    }
}

/// The human-readable rendering of `e`.
pub open spec fn spec_message(e: Error) -> Seq<char> {
    match e {
        Error::ConfigurationError(m) => "configuration error: "@ + m@,
        Error::InvalidVersion(m) => "invalid version: "@ + m@,
        Error::RemoteError(m) => "remote error: "@ + m@,
        Error::DownloadFailed { url, status } => "downloading '"@ + url@
            + "' failed with status: "@ + dec_str(status as nat),
        Error::NoMatchingTarget => "no Intel macOS compatible target found"@,
        Error::PublishFailed(m) => "publish failed: "@ + m@,
        Error::IOError(m) => "io error: "@ + m@,
    }
}

impl Error {
    /// The variant of this error, without its payload.
    pub fn kind(&self) -> (r: ErrorKind)
        ensures
            r == spec_kind(*self),
    {
        match self {
            Error::ConfigurationError(_) => ErrorKind::ConfigurationError,
            Error::InvalidVersion(_) => ErrorKind::InvalidVersion,
            Error::RemoteError(_) => ErrorKind::RemoteError,
            Error::DownloadFailed { .. } => ErrorKind::DownloadFailed,
            Error::NoMatchingTarget => ErrorKind::NoMatchingTarget,
            Error::PublishFailed(_) => ErrorKind::PublishFailed,
            Error::IOError(_) => ErrorKind::IOError,
        }
    }

    /// A human-readable message, printed once at the end of a failed run.
    pub fn message(&self) -> (r: String)
        ensures
            r@ == spec_message(*self),
    {
        match self {
            Error::ConfigurationError(m) => String::from_str("configuration error: ").concat(
                m.as_str(),
            ),
            Error::InvalidVersion(m) => String::from_str("invalid version: ").concat(m.as_str()),
            Error::RemoteError(m) => String::from_str("remote error: ").concat(m.as_str()),
            Error::DownloadFailed { url, status } => {
                let mut out = String::from_str("downloading '");
                out.append(url.as_str());
                out.append("' failed with status: ");
                let st = u64_to_string(*status as u64);
                out.append(st.as_str());
                out
            },
            Error::NoMatchingTarget => String::from_str("no Intel macOS compatible target found"),
            Error::PublishFailed(m) => String::from_str("publish failed: ").concat(m.as_str()),
            Error::IOError(m) => String::from_str("io error: ").concat(m.as_str()),
        }
    }
}

} // verus!
