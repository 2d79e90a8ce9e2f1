//! The ways in which a request can fail.

use vstd::prelude::*;

verus! {

/// A failure reported to the caller of a request or to the consumer of a
/// result stream.
#[derive(Debug, PartialEq, Eq)]
pub enum Error {
    /// The negotiated protocol version is below the minimum that the feature
    /// needs. Nothing was sent.
    UnsupportedFeature { required: i32, negotiated: i32, feature: String },
    /// The field at this position of the message is not of the expected type.
    MalformedField { index: usize },
    /// The message holds fewer fields than its type requires.
    UnexpectedEndOfMessage,
    /// The message holds this many fields after the last one that its type
    /// defines.
    TrailingFields { count: usize },
    /// The gateway answered the request with an error.
    GatewayError { code: i32, text: String },
    /// A message arrived for a request that is unknown or has already ended.
    ProtocolInvariantViolation { request_id: i32 },
    /// The query is not available.
    NotImplemented,
}

/// The mathematical value of an [`Error`].
pub enum ErrorView {
    UnsupportedFeature { required: int, negotiated: int, feature: Seq<char> },
    MalformedField { index: int },
    UnexpectedEndOfMessage,
    TrailingFields { count: int },
    GatewayError { code: int, text: Seq<char> },
    ProtocolInvariantViolation { request_id: int },
    NotImplemented,
}

impl View for Error {
    type V = ErrorView;

    open spec fn view(&self) -> ErrorView {
        match *self {
            Error::UnsupportedFeature { required, negotiated, feature } => {
                ErrorView::UnsupportedFeature {
                    required: required as int,
                    negotiated: negotiated as int,
                    feature: feature@,
                }
            },
            Error::MalformedField { index } => ErrorView::MalformedField { index: index as int },
            Error::UnexpectedEndOfMessage => ErrorView::UnexpectedEndOfMessage,
            Error::TrailingFields { count } => ErrorView::TrailingFields { count: count as int },
            Error::GatewayError { code, text } => ErrorView::GatewayError {
                code: code as int,
                text: text@,
            },
            Error::ProtocolInvariantViolation { request_id } => {
                ErrorView::ProtocolInvariantViolation { request_id: request_id as int }
            },
            Error::NotImplemented => ErrorView::NotImplemented,
        }
    }
}

impl Clone for Error {
    fn clone(&self) -> (copy: Self)
        ensures
            copy@ == self@,
    {
        match self {
            Error::UnsupportedFeature { required, negotiated, feature } => {
                Error::UnsupportedFeature {
                    required: *required,
                    negotiated: *negotiated,
                    feature: feature.clone(),
                }
            },
            Error::MalformedField { index } => Error::MalformedField { index: *index },
            Error::UnexpectedEndOfMessage => Error::UnexpectedEndOfMessage,
            Error::TrailingFields { count } => Error::TrailingFields { count: *count },
            Error::GatewayError { code, text } => Error::GatewayError {
                code: *code,
                text: text.clone(),
            },
            Error::ProtocolInvariantViolation { request_id } => {
                Error::ProtocolInvariantViolation { request_id: *request_id }
            },
            Error::NotImplemented => Error::NotImplemented,
        }
    }
}

} // verus!
