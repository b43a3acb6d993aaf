//! A client-side engine for HID++ 2.0, the feature-indexed protocol that
//! Logitech peripherals speak over raw HID reports.
//!
//! The crate performs no input or output. It encodes and decodes report
//! frames, resolves features to the indices a device assigns them, decides
//! when a failed transfer is retried, and interprets battery telemetry. A
//! caller that owns the HID handle carries out the [`Action`]s the engine asks
//! for and reports each [`Event`] back.
pub mod battery;
pub mod device;
pub mod error;
pub mod feature;
pub mod hexdump;
pub mod message;
pub mod retry;
pub mod transport;

pub use battery::{BatteryLevel, BatteryStatus};
pub use device::{Device, Output, Step};
pub use error::{Error, ErrorView};
pub use feature::{Feature, FeatureIndexTable, Function};
pub use message::{Message, MessageBuilder, MessageView, ReportId};
pub use retry::{RetryPolicy, Verdict};
pub use transport::{Action, ConnectStep, Connecting, Event, Phase, TransferStep};
