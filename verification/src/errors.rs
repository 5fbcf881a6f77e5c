//! The failures that extraction can report.

use vstd::prelude::*;
use vstd::string::StringExecFns;

verus! {

/// One of the two markers that delimit the embedded payload.
#[derive(Debug, Clone, Copy, PartialEq, Eq, Structural)]
pub enum Marker {
    /// The opening script tag that introduces the payload.
    Start,
    /// The closing script tag that ends it.
    End,
}

/// Why a run produced no snapshot.
#[derive(Debug)]
pub enum AppError {
    /// The page does not hold the named marker where it is looked for.
    PayloadNotFound(Marker),
    /// The payload is not a JSON document.
    SerdeJson(serde_json::Error),
    /// A step of the descent through the document found no usable node under this name.
    MissingField(String),
    /// The key is absent from its container, or present with a value of the wrong shape.
    ExtractionFailed(String),
    /// The key holds the given text, which does not read as the number asked for.
    CoercionFailed(String, String),
    /// The fixed offset of the local rendering could not be built.
    TimezoneError,
    /// Any other failure, described in words.
    General(String),
}

/// The mathematical content of an [`AppError`].
pub enum AppErrorView {
    PayloadNotFound(Marker),
    SerdeJson,
    MissingField(Seq<char>),
    ExtractionFailed(Seq<char>),
    CoercionFailed(Seq<char>, Seq<char>),
    TimezoneError,
    General(Seq<char>),
}

impl View for AppError {
    type V = AppErrorView;

    open spec fn view(&self) -> AppErrorView {
        match self {
            AppError::PayloadNotFound(marker) => AppErrorView::PayloadNotFound(*marker),
            AppError::SerdeJson(_) => AppErrorView::SerdeJson,
            AppError::MissingField(name) => AppErrorView::MissingField(name@),
            AppError::ExtractionFailed(key) => AppErrorView::ExtractionFailed(key@),
            AppError::CoercionFailed(key, raw) => AppErrorView::CoercionFailed(key@, raw@),
            AppError::TimezoneError => AppErrorView::TimezoneError,
            AppError::General(message) => AppErrorView::General(message@),
        }
    }
}

impl AppErrorView {
    /// The description of the failure in words.
    pub open spec fn message(self) -> Seq<char> {
        match self {
            AppErrorView::PayloadNotFound(Marker::Start) => "Start pattern not found"@,
            AppErrorView::PayloadNotFound(Marker::End) => "End pattern not found"@,
            AppErrorView::SerdeJson => "Failed to parse JSON"@,
            AppErrorView::MissingField(name) => "Failed to extract "@ + name,
            AppErrorView::ExtractionFailed(key) => "Failed to extract "@ + key,
            AppErrorView::CoercionFailed(key, raw) => "Failed to convert '"@ + raw
                + "' to numeric: "@ + key,
            AppErrorView::TimezoneError => "Invalid timezone offset"@,
            AppErrorView::General(message) => message,
        }
    }
}

impl AppError {
    /// Describes the failure in words, naming the field and the text at fault.
    pub fn message(&self) -> (text: String)
        ensures
            text@ == self@.message(),
    {
        match self {
            AppError::PayloadNotFound(Marker::Start) => "Start pattern not found".to_owned(),
            AppError::PayloadNotFound(Marker::End) => "End pattern not found".to_owned(),
            AppError::SerdeJson(_) => "Failed to parse JSON".to_owned(),
            AppError::MissingField(name) => "Failed to extract ".to_owned().concat(name.as_str()),
            AppError::ExtractionFailed(key) => "Failed to extract ".to_owned().concat(
                key.as_str(),
            ),
            AppError::CoercionFailed(key, raw) => "Failed to convert '".to_owned().concat(
                raw.as_str(),
            ).concat("' to numeric: ").concat(key.as_str()),
            AppError::TimezoneError => "Invalid timezone offset".to_owned(),
            AppError::General(message) => message.clone(),
        }
    }
}

} // verus!
