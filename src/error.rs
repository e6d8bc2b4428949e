use vstd::prelude::*;

verus! {

/// What can go wrong while answering a mirror request.
#[derive(Clone, Copy, Debug, PartialEq, Eq, Structural)]
pub enum MirrorError {
    /// The upstream registry could not be reached, or did not answer in time.
    UpstreamUnavailable,
    /// The upstream registry answered with something of the wrong shape.
    UpstreamProtocolError,
    /// The requested version is not in the upstream registry's list.
    VersionNotFound,
    /// The request path does not have the shape of a mirror request.
    InvalidRequest,
}

/// The HTTP status that answers a request failing with `e`.
pub open spec fn status_of(e: MirrorError) -> u16 {
    match e {
        MirrorError::UpstreamUnavailable => 502,
        MirrorError::UpstreamProtocolError => 502,
        MirrorError::VersionNotFound => 404,
        MirrorError::InvalidRequest => 400,
    }
}

impl MirrorError {
    /// The HTTP status for this error: upstream failures are server errors, an
    /// unknown version is "not found", and a malformed path is a bad request.
    pub fn status_code(&self) -> (r: u16)
        ensures
            r == status_of(*self),
            500 <= r < 600 <==> (*self is UpstreamUnavailable || *self is UpstreamProtocolError),
            400 <= r < 500 <==> (*self is VersionNotFound || *self is InvalidRequest),
    {
        match self {
            MirrorError::UpstreamUnavailable => 502,
            MirrorError::UpstreamProtocolError => 502,
            MirrorError::VersionNotFound => 404,
            MirrorError::InvalidRequest => 400,
        }
    }
}

} // verus!
