//! Errors of the service and the replies that report them to a client.

use std::sync::Arc;
use vstd::prelude::*;
use vstd::string::StringExecFns;

verus! {

/// Status of a reply that blames the request.
pub const BAD_REQUEST: u16 = 400;

/// Status of a reply to a client that already has a request in flight.
pub const TOO_MANY_REQUESTS: u16 = 429;

/// Status of a reply that blames the service.
pub const INTERNAL_SERVER_ERROR: u16 = 500;

/// The body of an error reply.
#[derive(Debug, Clone, PartialEq, Eq)]
pub struct ErrorMessage {
    pub error: String,
}

/// An error reply: the status code and the body.
#[derive(Debug, Clone, PartialEq, Eq)]
pub struct ErrorResponse {
    pub status: u16,
    pub body: ErrorMessage,
}

/// Builds the error reply with the given status and message.
pub fn error_response(status_code: u16, error: String) -> (response: ErrorResponse)
    ensures
        response.status == status_code,
        response.body.error == error,
{
    ErrorResponse { status: status_code, body: ErrorMessage { error } }
}

/// Everything that can go wrong while a GIF is served. Variants that stem from the operating
/// system or the database carry the text of the underlying failure.
#[derive(Debug, Clone, PartialEq, Eq)]
pub enum Error {
    SpeedTooFast,
    SpeedTooSlow,
    Encoder(String),
    EncoderExitCode,
    CacheDb(String),
    DbQuery(String),
    CannotReadGif(String),
    CannotWriteGif(String),
    GifServiceOffline,
    EncodingJobExited,
    InvalidUtf8,
    ClockWentBackwards,
    DirSetup(String),
    RenderFailed(Arc<Error>),
    CollectGarbage(String),
}

impl Error {
    /// The status code that reports this error: a bad request for a speed out of range, a
    /// server error for everything else, and for a failed render whatever its cause has.
    pub open spec fn status(self) -> u16
        decreases self,
    {
        match self {
            Error::SpeedTooFast | Error::SpeedTooSlow => BAD_REQUEST,
            Error::RenderFailed(cause) => (*cause).status(),
            _ => INTERNAL_SERVER_ERROR,
        }
    }

    /// The text that describes this error.
    pub open spec fn text(self) -> Seq<char>
        decreases self,
    {
        match self {
            Error::SpeedTooFast => "Hat Kid got incarcerated for speeding on a highway."@,
            Error::SpeedTooSlow => "yawn\u{2026}"@,
            Error::Encoder(cause) => "GIF encoding process: "@ + cause@,
            Error::EncoderExitCode => "GIF encoder finished with a non-zero exit code"@,
            Error::CacheDb(cause) => "Cache database: "@ + cause@,
            Error::DbQuery(cause) => "Database query: "@ + cause@,
            Error::CannotReadGif(cause) => "Cannot read rendered GIF: "@ + cause@,
            Error::CannotWriteGif(cause) => "Cannot write rendered GIF: "@ + cause@,
            Error::GifServiceOffline =>
                "Cannot send request to GIF service because it is offline (did the thread panic?)"@,
            Error::EncodingJobExited =>
                "Internal encoding job failure (did not receive rendered GIF)"@,
            Error::InvalidUtf8 => "Invalid UTF-8"@,
            Error::ClockWentBackwards => "System clock went backwards"@,
            Error::DirSetup(cause) => "Directory cannot be set up: "@ + cause@,
            Error::RenderFailed(cause) => "Render failed: "@ + (*cause).text(),
            Error::CollectGarbage(cause) => "Cache garbage collection I/O: "@ + cause@,
        }
    }

    /// The text shown to the client: that of the cause where this is a failed render whose
    /// cause is a bad request, and this error's own text otherwise.
    pub open spec fn reply_text(self) -> Seq<char> {
        match self {
            Error::RenderFailed(cause) if (*cause).status() == BAD_REQUEST => (*cause).text(),
            _ => self.text(),
        }
    }

    pub fn status_code(&self) -> (code: u16)
        ensures
            code == self.status(),
        decreases self,
    {
        match self {
            Error::SpeedTooFast | Error::SpeedTooSlow => BAD_REQUEST,
            Error::RenderFailed(cause) => cause.status_code(),
            _ => INTERNAL_SERVER_ERROR,
        }
    }

    /// Renders the error as text.
    pub fn message(&self) -> (text: String)
        ensures
            text@ == self.text(),
        decreases self,
    {
        match self {
            Error::SpeedTooFast => String::from_str(
                "Hat Kid got incarcerated for speeding on a highway.",
            ),
            Error::SpeedTooSlow => String::from_str("yawn\u{2026}"),
            Error::Encoder(cause) => String::from_str("GIF encoding process: ").concat(
                cause.as_str(),
            ),
            Error::EncoderExitCode => String::from_str(
                "GIF encoder finished with a non-zero exit code",
            ),
            Error::CacheDb(cause) => String::from_str("Cache database: ").concat(cause.as_str()),
            Error::DbQuery(cause) => String::from_str("Database query: ").concat(cause.as_str()),
            Error::CannotReadGif(cause) => String::from_str("Cannot read rendered GIF: ").concat(
                cause.as_str(),
            ),
            Error::CannotWriteGif(cause) => String::from_str("Cannot write rendered GIF: ").concat(
                cause.as_str(),
            ),
            Error::GifServiceOffline => String::from_str(
                "Cannot send request to GIF service because it is offline (did the thread panic?)",
            ),
            Error::EncodingJobExited => String::from_str(
                "Internal encoding job failure (did not receive rendered GIF)",
            ),
            Error::InvalidUtf8 => String::from_str("Invalid UTF-8"),
            Error::ClockWentBackwards => String::from_str("System clock went backwards"),
            Error::DirSetup(cause) => String::from_str("Directory cannot be set up: ").concat(
                cause.as_str(),
            ),
            Error::RenderFailed(cause) => {
                let inner = cause.message();
                String::from_str("Render failed: ").concat(inner.as_str())
            },
            Error::CollectGarbage(cause) => String::from_str(
                "Cache garbage collection I/O: ",
            ).concat(cause.as_str()),
        }
    }

    /// The reply that reports this error to the client.
    pub fn to_response(&self) -> (response: ErrorResponse)
        ensures
            response.status == self.status(),
            response.body.error@ == self.reply_text(),
    {
        let status = self.status_code();
        let error = match self {
            Error::RenderFailed(cause) => {
                if cause.status_code() == BAD_REQUEST {
                    cause.message()
                } else {
                    self.message()
                }
            },
            _ => self.message(),
        };
        ErrorResponse { status, body: ErrorMessage { error } }
    }
}

} // verus!
