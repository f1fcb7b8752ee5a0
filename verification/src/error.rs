//! The error taxonomy of the pipeline.
//!
//! Per-file failures route the affected file to the `Error` location;
//! loop-level failures terminate only the owning watch loop.

use vstd::prelude::*;

verus! {

/// Every failure the pipeline distinguishes. Payloads are plain values
/// (paths as strings, diagnostic messages) so that contracts can speak
/// of them directly.
#[derive(Debug, Clone, PartialEq)]
pub enum Error {
    /// An operating-system level I/O failure, with its message.
    IoError(String),
    /// A failure of the filesystem notification channel.
    NotifyError(String),
    /// A structured-text value could not be decoded.
    SerdeJsonError(String),
    /// A profile configuration file could not be decoded.
    SerdeYamlError(String),
    /// The merged event stream ended although no shutdown was requested.
    StreamClosedError,
    /// No credential for the classification service was available.
    NoApiKeyError,
    /// The classification service reported an error.
    ApiError(String),
    /// The classification result was not parseable as the expected
    /// schema; the raw response is retained for diagnostics.
    DoesNotProcessError(Option<String>),
    /// The file's type is not one the pipeline accepts.
    UnsupportedFileTypeError(String),
    /// An internal invariant did not hold.
    UnexpectedError(String),
    /// Binary data could not be encoded for transport.
    EncodingError,
    /// The metadata of the source document could not be read.
    MetadataInError(String),
    /// The metadata of the destination document could not be written.
    MetadataOutError(String),
    /// A child process's standard streams could not be captured.
    RedirectIOError,
    /// The readiness budget was exhausted while the file still never parsed.
    NotValidPdfError,
    /// The file vanished between observation and processing.
    FileDisappearedError(String),
    /// The document could not be rasterized.
    PdfConversionError(String),
    /// A required external tool is not installed.
    DependencyMissingError(String),
    /// A same-named file already exists in another location.
    FileExists(String),
    /// A well-known directory could not be determined.
    SkelError,
    /// A channel send failed because the receiver is gone.
    SendError,
    /// Waiting on a spawned task failed.
    JoinError(String),
    /// The external call exceeded its hard timeout.
    TimeoutError,
    /// Any other failure, with its description.
    Other(String),
}

} // verus!
