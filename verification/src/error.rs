//! The failure kinds of the engine, with their conventional numeric
//! projection (used by hosts as an exit code).

use vstd::prelude::*;

verus! {

/// Mathematical form of an engine error.
pub enum ErrorView {
    NotFound(Seq<char>),
    Task(Seq<char>),
    TaskFailedToStart(Seq<char>),
    HttpError(u16),
    NotInstalled(Seq<char>),
    StdIoError(Seq<char>),
    ExitCode(i32),
    TomlDeError(Seq<char>),
    SerdeJsonError(Seq<char>),
    ReqwestError(Seq<char>),
    InvalidHeaderName(Seq<char>),
    InvalidHeaderValue(Seq<char>),
    InvalidMethod(Seq<char>),
    InvalidUri(Seq<char>),
    SubstError(Seq<char>),
    Utf8Error(Seq<char>),
    JaqCoreError(Seq<char>),
    JaqJsonError(Seq<char>),
    JaqStrError(Seq<char>),
}

/// What can go wrong while a pipeline runs.  The carrier kinds hold a
/// description of the underlying fault.
#[derive(Debug, PartialEq)]
pub enum VermanSchemaError {
    NotFound(String),
    Task(String),
    TaskFailedToStart(String),
    HttpError(u16),
    NotInstalled(String),
    StdIoError(String),
    ExitCode(i32),
    TomlDeError(String),
    SerdeJsonError(String),
    ReqwestError(String),
    InvalidHeaderName(String),
    InvalidHeaderValue(String),
    InvalidMethod(String),
    InvalidUri(String),
    SubstError(String),
    Utf8Error(String),
    JaqCoreError(String),
    JaqJsonError(String),
    JaqStrError(String),
}

impl View for VermanSchemaError {
    type V = ErrorView;

    open spec fn view(&self) -> ErrorView {
        match self {
            VermanSchemaError::NotFound(m) => ErrorView::NotFound(m@),
            VermanSchemaError::Task(m) => ErrorView::Task(m@),
            VermanSchemaError::TaskFailedToStart(m) => ErrorView::TaskFailedToStart(m@),
            VermanSchemaError::HttpError(c) => ErrorView::HttpError(*c),
            VermanSchemaError::NotInstalled(m) => ErrorView::NotInstalled(m@),
            VermanSchemaError::StdIoError(m) => ErrorView::StdIoError(m@),
            VermanSchemaError::ExitCode(c) => ErrorView::ExitCode(*c),
            VermanSchemaError::TomlDeError(m) => ErrorView::TomlDeError(m@),
            VermanSchemaError::SerdeJsonError(m) => ErrorView::SerdeJsonError(m@),
            VermanSchemaError::ReqwestError(m) => ErrorView::ReqwestError(m@),
            VermanSchemaError::InvalidHeaderName(m) => ErrorView::InvalidHeaderName(m@),
            VermanSchemaError::InvalidHeaderValue(m) => ErrorView::InvalidHeaderValue(m@),
            VermanSchemaError::InvalidMethod(m) => ErrorView::InvalidMethod(m@),
            VermanSchemaError::InvalidUri(m) => ErrorView::InvalidUri(m@),
            VermanSchemaError::SubstError(m) => ErrorView::SubstError(m@),
            VermanSchemaError::Utf8Error(m) => ErrorView::Utf8Error(m@),
            VermanSchemaError::JaqCoreError(m) => ErrorView::JaqCoreError(m@),
            VermanSchemaError::JaqJsonError(m) => ErrorView::JaqJsonError(m@),
            VermanSchemaError::JaqStrError(m) => ErrorView::JaqStrError(m@),
        }
    }
}

/// The numeric projection of an error kind.
pub open spec fn error_code(e: ErrorView) -> u16 {
    match e {
        ErrorView::NotFound(_) => 404,
        ErrorView::Task(_) => 594,
        ErrorView::TaskFailedToStart(_) => 597,
        ErrorView::HttpError(_) => 598,
        ErrorView::NotInstalled(_) => 599,
        ErrorView::StdIoError(_) => 700,
        ErrorView::ExitCode(_) => 710,
        ErrorView::TomlDeError(_) => 720,
        ErrorView::SerdeJsonError(_) => 721,
        ErrorView::ReqwestError(_) => 732,
        ErrorView::InvalidHeaderName(_) => 733,
        ErrorView::InvalidHeaderValue(_) => 734,
        ErrorView::InvalidMethod(_) => 735,
        ErrorView::InvalidUri(_) => 736,
        ErrorView::SubstError(_) => 738,
        ErrorView::Utf8Error(_) => 739,
        ErrorView::JaqCoreError(_) => 740,
        ErrorView::JaqJsonError(_) => 741,
        ErrorView::JaqStrError(_) => 742,
    }
}

impl VermanSchemaError {
    /// The numeric projection of this error.
    pub fn code(&self) -> (r: u16)
        ensures
            r == error_code(self@),
    {
        match self {
            VermanSchemaError::NotFound(_) => 404,
            VermanSchemaError::Task(_) => 594,
            VermanSchemaError::TaskFailedToStart(_) => 597,
            VermanSchemaError::HttpError(_) => 598,
            VermanSchemaError::NotInstalled(_) => 599,
            VermanSchemaError::StdIoError(_) => 700,
            VermanSchemaError::ExitCode(_) => 710,
            VermanSchemaError::TomlDeError(_) => 720,
            VermanSchemaError::SerdeJsonError(_) => 721,
            VermanSchemaError::ReqwestError(_) => 732,
            VermanSchemaError::InvalidHeaderName(_) => 733,
            VermanSchemaError::InvalidHeaderValue(_) => 734,
            VermanSchemaError::InvalidMethod(_) => 735,
            VermanSchemaError::InvalidUri(_) => 736,
            VermanSchemaError::SubstError(_) => 738,
            VermanSchemaError::Utf8Error(_) => 739,
            VermanSchemaError::JaqCoreError(_) => 740,
            VermanSchemaError::JaqJsonError(_) => 741,
            VermanSchemaError::JaqStrError(_) => 742,
        }
    }
}

impl VermanSchemaError {
    /// A structural copy with the same view.
    pub fn duplicate(&self) -> (r: VermanSchemaError)
        ensures
            r@ == self@,
    {
        match self {
            VermanSchemaError::NotFound(m) => VermanSchemaError::NotFound(m.clone()),
            VermanSchemaError::Task(m) => VermanSchemaError::Task(m.clone()),
            VermanSchemaError::TaskFailedToStart(m) => VermanSchemaError::TaskFailedToStart(
                m.clone(),
            ),
            VermanSchemaError::HttpError(c) => VermanSchemaError::HttpError(*c),
            VermanSchemaError::NotInstalled(m) => VermanSchemaError::NotInstalled(m.clone()),
            VermanSchemaError::StdIoError(m) => VermanSchemaError::StdIoError(m.clone()),
            VermanSchemaError::ExitCode(c) => VermanSchemaError::ExitCode(*c),
            VermanSchemaError::TomlDeError(m) => VermanSchemaError::TomlDeError(m.clone()),
            VermanSchemaError::SerdeJsonError(m) => VermanSchemaError::SerdeJsonError(m.clone()),
            VermanSchemaError::ReqwestError(m) => VermanSchemaError::ReqwestError(m.clone()),
            VermanSchemaError::InvalidHeaderName(m) => VermanSchemaError::InvalidHeaderName(
                m.clone(),
            ),
            VermanSchemaError::InvalidHeaderValue(m) => VermanSchemaError::InvalidHeaderValue(
                m.clone(),
            ),
            VermanSchemaError::InvalidMethod(m) => VermanSchemaError::InvalidMethod(m.clone()),
            VermanSchemaError::InvalidUri(m) => VermanSchemaError::InvalidUri(m.clone()),
            VermanSchemaError::SubstError(m) => VermanSchemaError::SubstError(m.clone()),
            VermanSchemaError::Utf8Error(m) => VermanSchemaError::Utf8Error(m.clone()),
            VermanSchemaError::JaqCoreError(m) => VermanSchemaError::JaqCoreError(m.clone()),
            VermanSchemaError::JaqJsonError(m) => VermanSchemaError::JaqJsonError(m.clone()),
            VermanSchemaError::JaqStrError(m) => VermanSchemaError::JaqStrError(m.clone()),
        }
    }
}

/// A computation's outcome, for hosts that map it to a process exit
/// status.
pub enum SuccessOrVermanSchemaError<T> {
    Success(T),
    Failure(VermanSchemaError),
}

} // verus!
