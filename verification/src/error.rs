//! The failure taxonomy of one assembly run.

use vstd::prelude::*;

verus! {

/// Why an assembly run failed.
#[derive(Debug, PartialEq, Eq)]
pub enum Error {
    /// Required fields had no value from either source after the merge; the
    /// list holds every such field, in schema order.
    MissingFields(Vec<String>),
    /// The underlying source could not be accessed; the message is the
    /// reader's. Never produced by the engine itself, only by callers that
    /// do the reading.
    ReadError(String),
    /// The source content could not be decoded into a partial record.
    ParsingError,
    /// The environment override for the named field could not be converted
    /// to the field's declared kind.
    TypeError(String),
}

/// The mathematical model of an [`Error`].
pub enum ErrorModel {
    MissingFields(Seq<Seq<char>>),
    ReadError(Seq<char>),
    ParsingError,
    TypeError(Seq<char>),
}

impl View for Error {
    type V = ErrorModel;

    open spec fn view(&self) -> ErrorModel {
        match self {
            Error::MissingFields(names) => ErrorModel::MissingFields(names.deep_view()),
            Error::ReadError(msg) => ErrorModel::ReadError(msg@),
            Error::ParsingError => ErrorModel::ParsingError,
            Error::TypeError(name) => ErrorModel::TypeError(name@),
        }
    }
}

impl DeepView for Error {
    type V = ErrorModel;

    open spec fn deep_view(&self) -> ErrorModel {
        self.view()
    }
}

} // verus!
