//! Errors that endpoint operations report.

use crate::text::decimal;
use crate::text::decimal_string;
use vstd::prelude::*;

verus! {

/// Why an endpoint operation failed.
#[derive(Debug)]
pub enum Error {
    InvalidArgument(String),
    ConnectFailed(String),
    Closed,
    Reset(String),
    Other(String),
}

/// An error with its detail as characters.
pub enum ErrorModel {
    InvalidArgument(Seq<char>),
    ConnectFailed(Seq<char>),
    Closed,
    Reset(Seq<char>),
    Other(Seq<char>),
}

impl View for Error {
    type V = ErrorModel;

    open spec fn view(&self) -> ErrorModel {
        match self {
            Error::InvalidArgument(detail) => ErrorModel::InvalidArgument(detail@),
            Error::ConnectFailed(detail) => ErrorModel::ConnectFailed(detail@),
            Error::Closed => ErrorModel::Closed,
            Error::Reset(detail) => ErrorModel::Reset(detail@),
            Error::Other(detail) => ErrorModel::Other(detail@),
        }
    }
}

impl Clone for Error {
    fn clone(&self) -> (copy: Self)
        ensures
            copy@ == self@,
    {
        match self {
            Error::InvalidArgument(detail) => Error::InvalidArgument(detail.clone()),
            Error::ConnectFailed(detail) => Error::ConnectFailed(detail.clone()),
            Error::Closed => Error::Closed,
            Error::Reset(detail) => Error::Reset(detail.clone()),
            Error::Other(detail) => Error::Other(detail.clone()),
        }
    }
}

/// An optional error as a model.
pub open spec fn error_model(error: Option<Error>) -> Option<ErrorModel> {
    match error {
        Some(error) => Some(error@),
        None => None,
    }
}

/// A failure with nothing but a description.
pub fn other(detail: &str) -> (error: Error)
    ensures
        error@ == ErrorModel::Other(detail@),
{
    Error::Other(detail.to_owned())
}

/// The peer gave up on a stream with an application code.
pub fn reset_by_peer(code: u64) -> (error: Error)
    ensures
        error@ == ErrorModel::Reset(decimal(code as nat)),
{
    Error::Reset(decimal_string(code))
}

/// An error is seen whole: its variant, and every character of its detail.
pub proof fn errors_are_seen_whole(detail: String)
    ensures
        Error::InvalidArgument(detail)@ == ErrorModel::InvalidArgument(detail@),
        Error::ConnectFailed(detail)@ == ErrorModel::ConnectFailed(detail@),
        Error::Closed@ == ErrorModel::Closed,
        Error::Reset(detail)@ == ErrorModel::Reset(detail@),
        Error::Other(detail)@ == ErrorModel::Other(detail@),
        error_model(None) is None,
        error_model(Some(Error::Closed)) == Some(ErrorModel::Closed),
        error_model(Some(Error::Reset(detail))) == Some(ErrorModel::Reset(detail@)),
{
}

} // verus!
