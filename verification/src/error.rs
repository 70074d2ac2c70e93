//! Errors of the print protocol.

use vstd::prelude::*;

verus! {

/// What can go wrong while a page is built or printed.
#[derive(Debug, PartialEq, Eq)]
pub enum Error {
    /// The caller asked for something that cannot be printed.
    InvalidParam(String),
    /// The printer answered unexpectedly, reported a fault, or did not answer.
    InvalidResponse(String),
    /// A page could not be compressed or decompressed.
    Compression(String),
    /// The printer did not finish in time.
    Timeout(String),
    /// The transport failed.
    Io(String),
}

/// An error with its text.
pub enum ErrorModel {
    /// See [`Error::InvalidParam`].
    InvalidParam(Seq<char>),
    /// See [`Error::InvalidResponse`].
    InvalidResponse(Seq<char>),
    /// See [`Error::Compression`].
    Compression(Seq<char>),
    /// See [`Error::Timeout`].
    Timeout(Seq<char>),
    /// See [`Error::Io`].
    Io(Seq<char>),
}

impl View for Error {
    type V = ErrorModel;

    open spec fn view(&self) -> ErrorModel {
        match self {
            Error::InvalidParam(s) => ErrorModel::InvalidParam(s@),
            Error::InvalidResponse(s) => ErrorModel::InvalidResponse(s@),
            Error::Compression(s) => ErrorModel::Compression(s@),
            Error::Timeout(s) => ErrorModel::Timeout(s@),
            Error::Io(s) => ErrorModel::Io(s@),
        }
    }
}

impl Error {
    /// Another error with the same text.
    pub fn duplicate(&self) -> (e: Error)
        ensures
            e@ == self@,
    {
        match self {
            Error::InvalidParam(s) => Error::InvalidParam(s.clone()),
            Error::InvalidResponse(s) => Error::InvalidResponse(s.clone()),
            Error::Compression(s) => Error::Compression(s.clone()),
            Error::Timeout(s) => Error::Timeout(s.clone()),
            Error::Io(s) => Error::Io(s.clone()),
        }
    }
}

} // verus!
