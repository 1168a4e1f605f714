//! The errors that session commands report.

use vstd::prelude::*;
use vstd::string::StringExecFns;

verus! {

/// Why a session command failed.
#[derive(Debug, Clone, PartialEq, Eq)]
pub enum SessionError {
    /// A positional reference lies outside the current enumeration.
    IndexOutOfRange,
    /// The path has no live session.
    NotOpen,
    /// The platform could not open the device; carries its diagnostic.
    DeviceOpenFailed(String),
    /// A read, a write or a descriptor fetch failed; carries the platform's
    /// diagnostic.
    IoError(String),
}

/// Mathematical value of a [`SessionError`]: the diagnostics as sequences of
/// characters.
pub enum SessionErrorView {
    IndexOutOfRange,
    NotOpen,
    DeviceOpenFailed(Seq<char>),
    IoError(Seq<char>),
}

impl View for SessionError {
    type V = SessionErrorView;

    open spec fn view(&self) -> SessionErrorView {
        match self {
            SessionError::IndexOutOfRange => SessionErrorView::IndexOutOfRange,
            SessionError::NotOpen => SessionErrorView::NotOpen,
            SessionError::DeviceOpenFailed(text) => SessionErrorView::DeviceOpenFailed(text@),
            SessionError::IoError(text) => SessionErrorView::IoError(text@),
        }
    }
}

impl SessionErrorView {
    /// The platform diagnostic that the error carries, if it carries one.
    pub open spec fn diagnostic(self) -> Option<Seq<char>> {
        match self {
            SessionErrorView::IndexOutOfRange => None,
            SessionErrorView::NotOpen => None,
            SessionErrorView::DeviceOpenFailed(text) => Some(text),
            SessionErrorView::IoError(text) => Some(text),
        }
    }

    /// The error in words: what went wrong, followed by the platform
    /// diagnostic where the error carries one.
    pub open spec fn describe(self) -> Seq<char> {
        match self {
            SessionErrorView::IndexOutOfRange => "index out of range"@,
            SessionErrorView::NotOpen => "device is not open"@,
            SessionErrorView::DeviceOpenFailed(text) => "failed to open device: "@ + text,
            SessionErrorView::IoError(text) => "device i/o failed: "@ + text,
        }
    }
}

impl SessionError {
    /// The platform diagnostic that the error carries, if it carries one.
    pub fn diagnostic(&self) -> (text: Option<&String>)
        ensures
            match text {
                Some(t) => self@.diagnostic() == Some(t@),
                None => self@.diagnostic().is_none(),
            },
    {
        match self {
            SessionError::IndexOutOfRange => None,
            SessionError::NotOpen => None,
            SessionError::DeviceOpenFailed(text) => Some(text),
            SessionError::IoError(text) => Some(text),
        }
    }

    /// The error in words, for showing to the consumer.
    pub fn describe(&self) -> (text: String)
        ensures
            text@ == self@.describe(),
    {
        match self {
            SessionError::IndexOutOfRange => String::from_str("index out of range"),
            SessionError::NotOpen => String::from_str("device is not open"),
            SessionError::DeviceOpenFailed(text) => String::from_str(
                "failed to open device: ",
            ).concat(text.as_str()),
            SessionError::IoError(text) => String::from_str("device i/o failed: ").concat(
                text.as_str(),
            ),
        }
    }
}

} // verus!
