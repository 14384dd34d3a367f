//! What can go wrong.

use vstd::prelude::*;

verus! {

/// An error that carries a message from a transport or a value conversion.
#[derive(Debug, PartialEq)]
pub struct D1Error {
    message: String,
}

impl View for D1Error {
    type V = Seq<char>;

    closed spec fn view(&self) -> Seq<char> {
        self.message@
    }
}

impl D1Error {
    /// An error with the given message.
    pub fn new(message: String) -> (r: D1Error)
        ensures
            r@ == message@,
    {
        D1Error { message }
    }

    /// The message.
    pub fn message(&self) -> (r: &str)
        ensures
            r@ == self@,
    {
        self.message.as_str()
    }
}

/// A failure of a transport, split by whether the database answered.
#[derive(Debug, PartialEq)]
pub enum TransportError {
    /// The database could not be reached.
    Lost(D1Error),
    /// The database was reached and rejected the statement.
    Api(D1Error),
}

/// What a [`TransportError`] stands for.
pub enum TransportErrorView {
    Lost(Seq<char>),
    Api(Seq<char>),
}

impl View for TransportError {
    type V = TransportErrorView;

    open spec fn view(&self) -> TransportErrorView {
        match self {
            TransportError::Lost(e) => TransportErrorView::Lost(e@),
            TransportError::Api(e) => TransportErrorView::Api(e@),
        }
    }
}

/// An error as Toasty classifies it.
#[derive(Debug, PartialEq)]
pub enum DriverError {
    /// The connection is gone, and the pool should evict it.
    ConnectionLost(D1Error),
    /// The database or a value conversion rejected the operation.
    DriverOperationFailed(D1Error),
    /// The driver has no such operation.
    UnsupportedFeature(String),
    /// The driver was not told which database to use.
    InvalidConnectionUrl(String),
}

/// What an [`DriverError`] stands for.
pub enum DriverErrorView {
    ConnectionLost(Seq<char>),
    DriverOperationFailed(Seq<char>),
    UnsupportedFeature(Seq<char>),
    InvalidConnectionUrl(Seq<char>),
}

impl View for DriverError {
    type V = DriverErrorView;

    open spec fn view(&self) -> DriverErrorView {
        match self {
            DriverError::ConnectionLost(e) => DriverErrorView::ConnectionLost(e@),
            DriverError::DriverOperationFailed(e) => DriverErrorView::DriverOperationFailed(e@),
            DriverError::UnsupportedFeature(s) => DriverErrorView::UnsupportedFeature(s@),
            DriverError::InvalidConnectionUrl(s) => DriverErrorView::InvalidConnectionUrl(s@),
        }
    }
}

/// How a transport failure is classified.
pub open spec fn core_error(err: TransportErrorView) -> DriverErrorView {
    match err {
        TransportErrorView::Lost(e) => DriverErrorView::ConnectionLost(e),
        TransportErrorView::Api(e) => DriverErrorView::DriverOperationFailed(e),
    }
}

/// Classifies a transport failure.
///
/// A failure to reach the database has to come out as a lost connection, so
/// that the pool evicts the connection.
pub fn into_core_error(err: TransportError) -> (r: DriverError)
    ensures
        r@ == core_error(err@),
{
    match err {
        TransportError::Lost(e) => DriverError::ConnectionLost(e),
        TransportError::Api(e) => DriverError::DriverOperationFailed(e),
    }
}

/// A failure to reach the database is a lost connection, and a refusal by the
/// database is a failed operation. Either keeps its message.
pub proof fn failures_are_told_apart(message: Seq<char>)
    ensures
        core_error(TransportErrorView::Lost(message)) == DriverErrorView::ConnectionLost(message),
        core_error(TransportErrorView::Api(message)) == DriverErrorView::DriverOperationFailed(
            message,
        ),
{
}

/// An error stands for itself.
pub proof fn error_stands_for_itself(e: D1Error, s: String)
    ensures
        TransportError::Lost(e)@ == TransportErrorView::Lost(e@),
        TransportError::Api(e)@ == TransportErrorView::Api(e@),
        DriverError::ConnectionLost(e)@ == DriverErrorView::ConnectionLost(e@),
        DriverError::DriverOperationFailed(e)@ == DriverErrorView::DriverOperationFailed(e@),
        DriverError::UnsupportedFeature(s)@ == DriverErrorView::UnsupportedFeature(s@),
        DriverError::InvalidConnectionUrl(s)@ == DriverErrorView::InvalidConnectionUrl(s@),
{
}

} // verus!
