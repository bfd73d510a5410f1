//! The failure kinds of the voice core.

use vstd::prelude::*;

verus! {

/// Failure kinds of the voice core. Each carries a short human-readable reason.
#[derive(Debug, Clone)]
pub enum Error {
    Identity(String),
    Network(String),
    Room(String),
    Config(String),
    Crypto(String),
    Nat(String),
    Audio(String),
    Io(String),
    Serialization(String),
}

/// What the functions of the voice core return.
pub type AgoraResult<T> = Result<T, Error>;

impl Error {
    /// The reason carried by the error, whatever its kind.
    pub open spec fn reason(self) -> Seq<char> {
        match self {
            Error::Identity(m) => m@,
            Error::Network(m) => m@,
            Error::Room(m) => m@,
            Error::Config(m) => m@,
            Error::Crypto(m) => m@,
            Error::Nat(m) => m@,
            Error::Audio(m) => m@,
            Error::Io(m) => m@,
            Error::Serialization(m) => m@,
        }
    }

    /// True when `self` is a crypto error whose reason is `reason`.
    pub open spec fn is_crypto(self, reason: Seq<char>) -> bool {
        self matches Error::Crypto(m) && m@ == reason
    }

    /// True when `self` is a network error whose reason is `reason`.
    pub open spec fn is_network(self, reason: Seq<char>) -> bool {
        self matches Error::Network(m) && m@ == reason
    }

    /// True when `self` is an audio error whose reason is `reason`.
    pub open spec fn is_audio(self, reason: Seq<char>) -> bool {
        self matches Error::Audio(m) && m@ == reason
    }

    /// True when `self` is an identity error whose reason is `reason`.
    pub open spec fn is_identity(self, reason: Seq<char>) -> bool {
        self matches Error::Identity(m) && m@ == reason
    }

    /// True when `self` is an input/output error whose reason is `reason`.
    pub open spec fn is_io(self, reason: Seq<char>) -> bool {
        self matches Error::Io(m) && m@ == reason
    }

    /// Builds an input/output error from a fixed reason.
    pub fn io(reason: &str) -> (e: Error)
        ensures
            e.is_io(reason@),
    {
        Error::Io(reason.to_owned())
    }

    /// Builds a network error from a fixed reason.
    pub fn network(reason: &str) -> (e: Error)
        ensures
            e.is_network(reason@),
    {
        Error::Network(reason.to_owned())
    }

    /// Builds an audio error from a fixed reason.
    pub fn audio(reason: &str) -> (e: Error)
        ensures
            e.is_audio(reason@),
    {
        Error::Audio(reason.to_owned())
    }

    /// Builds an identity error from a fixed reason.
    pub fn identity(reason: &str) -> (e: Error)
        ensures
            e.is_identity(reason@),
    {
        Error::Identity(reason.to_owned())
    }

    /// Builds a crypto error from a fixed reason.
    pub fn crypto(reason: &str) -> (e: Error)
        ensures
            e.is_crypto(reason@),
    {
        Error::Crypto(reason.to_owned())
    }

    /// The reason as an owned string.
    pub fn message(&self) -> (m: String)
        ensures
            m@ == self.reason(),
    {
        match self {
            Error::Identity(m) => m.clone(),
            Error::Network(m) => m.clone(),
            Error::Room(m) => m.clone(),
            Error::Config(m) => m.clone(),
            Error::Crypto(m) => m.clone(),
            Error::Nat(m) => m.clone(),
            Error::Audio(m) => m.clone(),
            Error::Io(m) => m.clone(),
            Error::Serialization(m) => m.clone(),
        }
    }
}

} // verus!
