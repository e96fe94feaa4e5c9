//! The ways in which looking for an edge can fail.

use vstd::prelude::*;

verus! {

/// Why no answer could be given. Each failure ends the call it occurred in; nothing
/// is retried.
///
/// `E` is the transport's own error type. A value of it is carried unopened from
/// the transport to the caller.
#[derive(Debug)]
pub enum Error<E> {
    /// The request did not reach the backend, or no response came back.
    Network(E),
    /// A response came back, but its body is not of the expected shape.
    MalformedResponse(E),
    /// A sample's value is not an unsigned decimal number; holds the value's text.
    NonNumericDataPoint(String),
    /// The backend answered the query with an error of its own.
    PrometheusError {
        /// The kind of error, as the backend names it.
        error_type: String,
        /// The backend's message.
        error: String,
    },
}

/// An `Error` with its texts as sequences of characters.
pub enum ErrorView<E> {
    Network(E),
    MalformedResponse(E),
    NonNumericDataPoint(Seq<char>),
    PrometheusError { error_type: Seq<char>, error: Seq<char> },
}

impl<E> View for Error<E> {
    type V = ErrorView<E>;

    open spec fn view(&self) -> ErrorView<E> {
        match self {
            Error::Network(cause) => ErrorView::Network(*cause),
            Error::MalformedResponse(cause) => ErrorView::MalformedResponse(*cause),
            Error::NonNumericDataPoint(text) => ErrorView::NonNumericDataPoint(text@),
            Error::PrometheusError { error_type, error } => ErrorView::PrometheusError {
                error_type: error_type@,
                error: error@,
            },
        }
    }
}

} // verus!
