//! Battery telemetry: the coarse level and the charging status that a device
//! reports, each decoded from one byte.
use vstd::prelude::*;

use crate::error::{outcome, Error, ErrorView};

verus! {

/// How much charge is left, in five coarse steps.
#[derive(Clone, Copy, Debug, PartialEq, Eq, Hash, Structural)]
pub enum BatteryLevel {
    Full,
    Good,
    Low,
    Critical,
    Empty,
}

/// What the battery is doing.
#[derive(Clone, Copy, Debug, PartialEq, Eq, Hash, Structural)]
pub enum BatteryStatus {
    Discharging,
    Recharging,
    AlmostFull,
    Full,
    SlowRecharge,
    InvalidBattery,
    ThermalError,
}

impl BatteryLevel {
    /// The level that a raw byte stands for: a partition of `0..=8` into
    /// ranges, and nothing above it.
    pub open spec fn of(value: u8) -> Option<BatteryLevel> {
        if value == 0 {
            Some(BatteryLevel::Empty)
        } else if value == 1 {
            Some(BatteryLevel::Critical)
        } else if value <= 3 {
            Some(BatteryLevel::Low)
        } else if value <= 7 {
            Some(BatteryLevel::Good)
        } else if value == 8 {
            Some(BatteryLevel::Full)
        } else {
            None
        }
    }

    /// Decodes a level byte. Bytes above 8 are rejected with
    /// [`Error::InvalidBatteryLevel`], which carries the byte.
    pub fn try_from(value: u8) -> (result: Result<BatteryLevel, Error>)
        ensures
            match result {
                Ok(level) => Self::of(value) == Some(level),
                Err(e) => Self::of(value).is_none() && e@ == (ErrorView::InvalidBatteryLevel {
                    value,
                }),
            },
    {
        match value {
            0 => Ok(BatteryLevel::Empty),
            1 => Ok(BatteryLevel::Critical),
            2..=3 => Ok(BatteryLevel::Low),
            4..=7 => Ok(BatteryLevel::Good),
            8 => Ok(BatteryLevel::Full),
            _ => Err(Error::InvalidBatteryLevel { value }),
        }
    }
}

impl BatteryStatus {
    /// The status that a raw byte stands for: `0..=6` name the seven
    /// statuses in the order of their declaration.
    pub open spec fn of(value: u8) -> Option<BatteryStatus> {
        if value == 0 {
            Some(BatteryStatus::Discharging)
        } else if value == 1 {
            Some(BatteryStatus::Recharging)
        } else if value == 2 {
            Some(BatteryStatus::AlmostFull)
        } else if value == 3 {
            Some(BatteryStatus::Full)
        } else if value == 4 {
            Some(BatteryStatus::SlowRecharge)
        } else if value == 5 {
            Some(BatteryStatus::InvalidBattery)
        } else if value == 6 {
            Some(BatteryStatus::ThermalError)
        } else {
            None
        }
    }

    /// Decodes a status byte. Bytes above 6 are rejected with
    /// [`Error::InvalidBatteryStatus`], which carries the byte.
    pub fn try_from(value: u8) -> (result: Result<BatteryStatus, Error>)
        ensures
            match result {
                Ok(status) => Self::of(value) == Some(status),
                Err(e) => Self::of(value).is_none() && e@ == (ErrorView::InvalidBatteryStatus {
                    value,
                }),
            },
    {
        match value {
            0x00 => Ok(BatteryStatus::Discharging),
            0x01 => Ok(BatteryStatus::Recharging),
            0x02 => Ok(BatteryStatus::AlmostFull),
            0x03 => Ok(BatteryStatus::Full),
            0x04 => Ok(BatteryStatus::SlowRecharge),
            0x05 => Ok(BatteryStatus::InvalidBattery),
            0x06 => Ok(BatteryStatus::ThermalError),
            _ => Err(Error::InvalidBatteryStatus { value }),
        }
    }
}

/// What a battery reply says: the percentage in its first payload byte, the
/// level in the second and the status in the third. A payload of fewer than
/// three bytes has no reading; a bad level is reported before a bad status.
pub open spec fn reading(payload: Seq<u8>) -> Result<(u8, BatteryLevel, BatteryStatus), ErrorView> {
    if payload.len() < 3 {
        Err(ErrorView::ShortPayload { length: payload.len() })
    } else {
        match BatteryLevel::of(payload[1]) {
            None => Err(ErrorView::InvalidBatteryLevel { value: payload[1] }),
            Some(level) => match BatteryStatus::of(payload[2]) {
                None => Err(ErrorView::InvalidBatteryStatus { value: payload[2] }),
                Some(status) => Ok((payload[0], level, status)),
            },
        }
    }
}

/// Reads percentage, level and status out of the payload of a battery reply.
pub fn decode_battery(payload: &[u8]) -> (result: Result<(u8, BatteryLevel, BatteryStatus), Error>)
    ensures
        outcome(result) == reading(payload@),
{
    if payload.len() < 3 {
        return Err(Error::ShortPayload { length: payload.len() });
    }
    let level = match BatteryLevel::try_from(payload[1]) {
        Ok(level) => level,
        Err(e) => {
            return Err(e);
        },
    };
    let status = match BatteryStatus::try_from(payload[2]) {
        Ok(status) => status,
        Err(e) => {
            return Err(e);
        },
    };
    Ok((payload[0], level, status))
}

} // verus!
