//! The errors the engine reports.
use vstd::prelude::*;

use crate::feature::Feature;

verus! {

/// Why an operation of the engine ended without a result.
#[derive(Clone, Debug, PartialEq, Eq)]
pub enum Error {
    /// The HID handle could not be acquired: `attempts` opens failed in a
    /// row, the last of them with `reason`.
    TransportOpenFailure { attempts: u64, reason: String },
    /// A frame could not be written: `attempts` writes failed, the last of
    /// them with `reason`.
    TransportWriteFailure { attempts: u64, reason: String },
    /// No complete frame arrived in time; `received` bytes did.
    TransportReadTimeout { received: usize },
    /// The first byte of a frame names no report type.
    UnknownReportId { tag: u8 },
    /// A frame of `length` bytes is not as long as its report type demands.
    FrameLength { length: usize },
    /// The feature has no runtime index in the table.
    FeatureNotFound { feature: Feature },
    /// A reply carries `length` payload bytes, fewer than its reading needs.
    ShortPayload { length: usize },
    /// The byte is outside the range of battery levels.
    InvalidBatteryLevel { value: u8 },
    /// The byte names no battery status.
    InvalidBatteryStatus { value: u8 },
}

/// An [`Error`] as contracts speak of it, with text as a sequence of characters.
pub enum ErrorView {
    TransportOpenFailure { attempts: u64, reason: Seq<char> },
    TransportWriteFailure { attempts: u64, reason: Seq<char> },
    TransportReadTimeout { received: nat },
    UnknownReportId { tag: u8 },
    FrameLength { length: nat },
    FeatureNotFound { feature: Feature },
    ShortPayload { length: nat },
    InvalidBatteryLevel { value: u8 },
    InvalidBatteryStatus { value: u8 },
}

impl View for Error {
    type V = ErrorView;

    open spec fn view(&self) -> ErrorView {
        match *self {
            Error::TransportOpenFailure { attempts, reason } => ErrorView::TransportOpenFailure {
                attempts,
                reason: reason@,
            },
            Error::TransportWriteFailure { attempts, reason } => ErrorView::TransportWriteFailure {
                attempts,
                reason: reason@,
            },
            Error::TransportReadTimeout { received } => ErrorView::TransportReadTimeout {
                received: received as nat,
            },
            Error::UnknownReportId { tag } => ErrorView::UnknownReportId { tag },
            Error::FrameLength { length } => ErrorView::FrameLength { length: length as nat },
            Error::FeatureNotFound { feature } => ErrorView::FeatureNotFound { feature },
            Error::ShortPayload { length } => ErrorView::ShortPayload { length: length as nat },
            Error::InvalidBatteryLevel { value } => ErrorView::InvalidBatteryLevel { value },
            Error::InvalidBatteryStatus { value } => ErrorView::InvalidBatteryStatus { value },
        }
    }
}

/// A result with its error seen as contracts speak of it.
pub open spec fn outcome<T>(result: Result<T, Error>) -> Result<T, ErrorView> {
    match result {
        Ok(value) => Ok(value),
        Err(error) => Err(error@),
    }
}

/// A result with both its value and its error seen as contracts speak of them.
pub open spec fn outcome_view<T: View>(result: Result<T, Error>) -> Result<T::V, ErrorView> {
    match result {
        Ok(value) => Ok(value@),
        Err(error) => Err(error@),
    }
}

} // verus!
