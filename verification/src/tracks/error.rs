//! Errors raised while fetching, naming and decoding tracks.
use reqwest::Error as RequestError;
use vstd::prelude::*;

verus! {

/// The failure behind a track error.
#[derive(Debug)]
pub enum Kind {
    /// The audio data could not be decoded; the decoder's message.
    Decode(String),
    /// No usable name could be derived from the track's path.
    InvalidName,
    /// The track's path could not be resolved.
    InvalidPath,
    /// The server sent no length for the track.
    UnknownLength,
    /// Reading a local track failed.
    File(std::io::Error),
    /// Fetching a remote track failed.
    Request(RequestError),
    /// The track's length did not fit the decoder's integer type.
    Integer(std::num::TryFromIntError),
}

/// A track error: what went wrong, and with which track when known.
#[derive(Debug)]
pub struct Error {
    /// The track the error concerns, if known.
    pub track: Option<String>,
    /// What went wrong.
    pub kind: Kind,
}

/// Shorthand for a result with a track [`Error`].
pub type Result<T> = core::result::Result<T, Error>;

#[verifier::external_type_specification]
#[verifier::external_body]
pub struct ExIoError(std::io::Error);

#[verifier::external_type_specification]
#[verifier::external_body]
pub struct ExRequestError(RequestError);

/// `reqwest::Error::is_timeout`; what it answers for a given error is not
/// stated, as it depends on the chain of underlying causes.
#[verifier::external_body]
fn request_is_timeout(e: &RequestError) -> bool {
    e.is_timeout()
}

/// `reqwest::Error::without_url`: the same error with its URL dropped. Nothing
/// is stated of the result, which this library only carries.
#[verifier::external_body]
fn request_without_url(e: RequestError) -> RequestError {
    e.without_url()
}

impl Error {
    /// Whether the error is a request that timed out, in which case the
    /// downloader retries at once instead of waiting.
    pub fn timeout(&self) -> (r: bool)
        ensures
            !(self.kind is Request) ==> !r,
    {
        if let Kind::Request(x) = &self.kind {
            request_is_timeout(x)
        } else {
            false
        }
    }
}

/// Attaching the track's name to a failure.
pub trait WithTrackContext<T> {
    /// Turns a failure into a track [`Error`] naming `name`.
    fn track(self, name: &str) -> Result<T>;
}

impl<T> WithTrackContext<T> for core::result::Result<T, Kind> {
    fn track(self, name: &str) -> (r: Result<T>)
        ensures
            self is Ok ==> r is Ok && r->Ok_0 == self->Ok_0,
            self is Err ==> r is Err && (r->Err_0.track matches Some(t) && t@ == name@),
            self is Err && !(self->Err_0 is Request) ==> r is Err && r->Err_0.kind == self->Err_0,
            self is Err && self->Err_0 is Request ==> r is Err && r->Err_0.kind is Request,
    {
        match self {
            Ok(v) => Ok(v),
            Err(kind) => {
                let kind = match kind {
                    Kind::Request(e) => Kind::Request(request_without_url(e)),
                    other => other,
                };
                Err(Error { track: Some(name.to_owned()), kind })
            },
        }
    }
}

} // verus!
