//! The error taxonomy of the bridge and its mapping onto HTTP status codes.

use vstd::prelude::*;

verus! {

/// One failure class of the bridge: a player or resource that is absent,
/// an art reference shape that is not implemented, an operation the
/// player's capabilities do not permit, a failure of the underlying
/// control mechanism, a local read failure, a remote fetch failure, or an
/// enumeration mechanism that cannot be reached.
pub enum ErrorKind {
    NotFound,
    Unsupported,
    Rejected,
    TransportError,
    IOError,
    FetchError,
    DiscoveryError,
}

/// One error of the bridge.
pub struct AppError {
    pub kind: ErrorKind,
}

impl AppError {
    /// An error of the given class.
    pub fn from_kind(kind: ErrorKind) -> (r: AppError)
        ensures
            r.kind == kind,
    {
        AppError { kind }
    }

    /// The HTTP status for this error: 404 for an absent player or resource,
    /// 400 for an operation the player does not permit, 500 for every
    /// internal failure.
    pub fn status_code(&self) -> (code: u16)
        ensures
            code == self.spec_status_code(),
    {
        match self.kind {
            ErrorKind::NotFound => 404,
            ErrorKind::Rejected => 400,
            ErrorKind::Unsupported => 500,
            ErrorKind::TransportError => 500,
            ErrorKind::IOError => 500,
            ErrorKind::FetchError => 500,
            ErrorKind::DiscoveryError => 500,
        }
    }

    /// A short, fixed description of the failure class.
    pub fn describe(&self) -> (r: String)
        ensures
            r@ == self.spec_describe(),
    {
        match self.kind {
            ErrorKind::NotFound => String::from_str("not found"),
            ErrorKind::Unsupported => String::from_str("unsupported"),
            ErrorKind::Rejected => String::from_str("rejected"),
            ErrorKind::TransportError => String::from_str("transport error"),
            ErrorKind::IOError => String::from_str("i/o error"),
            ErrorKind::FetchError => String::from_str("fetch error"),
            ErrorKind::DiscoveryError => String::from_str("discovery error"),
        }
    }

    pub open spec fn spec_describe(&self) -> Seq<char> {
        match self.kind {
            ErrorKind::NotFound => "not found"@,
            ErrorKind::Unsupported => "unsupported"@,
            ErrorKind::Rejected => "rejected"@,
            ErrorKind::TransportError => "transport error"@,
            ErrorKind::IOError => "i/o error"@,
            ErrorKind::FetchError => "fetch error"@,
            ErrorKind::DiscoveryError => "discovery error"@,
        }
    }

    pub open spec fn spec_status_code(&self) -> u16 {
        match self.kind {
            ErrorKind::NotFound => 404u16,
            ErrorKind::Rejected => 400u16,
            ErrorKind::Unsupported => 500u16,
            ErrorKind::TransportError => 500u16,
            ErrorKind::IOError => 500u16,
            ErrorKind::FetchError => 500u16,
            ErrorKind::DiscoveryError => 500u16,
        }
    }
}

} // verus!
