use hidpp::battery::decode_battery;
use hidpp::{BatteryLevel, BatteryStatus, Error};

#[test]
fn battery_level_decode() {
    assert_eq!(BatteryLevel::try_from(0), Ok(BatteryLevel::Empty));
    assert_eq!(BatteryLevel::try_from(1), Ok(BatteryLevel::Critical));
    assert_eq!(BatteryLevel::try_from(2), Ok(BatteryLevel::Low));
    assert_eq!(BatteryLevel::try_from(3), Ok(BatteryLevel::Low));
    assert_eq!(BatteryLevel::try_from(4), Ok(BatteryLevel::Good));
    assert_eq!(BatteryLevel::try_from(5), Ok(BatteryLevel::Good));
    assert_eq!(BatteryLevel::try_from(6), Ok(BatteryLevel::Good));
    assert_eq!(BatteryLevel::try_from(7), Ok(BatteryLevel::Good));
    assert_eq!(BatteryLevel::try_from(8), Ok(BatteryLevel::Full));
}

#[test]
fn battery_level_rejects_bytes_above_eight() {
    assert_eq!(BatteryLevel::try_from(9), Err(Error::InvalidBatteryLevel { value: 9 }));
    assert_eq!(BatteryLevel::try_from(255), Err(Error::InvalidBatteryLevel { value: 255 }));
    for value in 9..=255u8 {
        assert_eq!(BatteryLevel::try_from(value), Err(Error::InvalidBatteryLevel { value }));
    }
}

#[test]
fn battery_status_decode() {
    assert_eq!(BatteryStatus::try_from(0x00), Ok(BatteryStatus::Discharging));
    assert_eq!(BatteryStatus::try_from(0x01), Ok(BatteryStatus::Recharging));
    assert_eq!(BatteryStatus::try_from(0x02), Ok(BatteryStatus::AlmostFull));
    assert_eq!(BatteryStatus::try_from(0x03), Ok(BatteryStatus::Full));
    assert_eq!(BatteryStatus::try_from(0x04), Ok(BatteryStatus::SlowRecharge));
    assert_eq!(BatteryStatus::try_from(0x05), Ok(BatteryStatus::InvalidBattery));
    assert_eq!(BatteryStatus::try_from(0x06), Ok(BatteryStatus::ThermalError));
}

#[test]
fn battery_status_rejects_bytes_above_six() {
    assert_eq!(BatteryStatus::try_from(0x07), Err(Error::InvalidBatteryStatus { value: 0x07 }));
    for value in 7..=255u8 {
        assert_eq!(BatteryStatus::try_from(value), Err(Error::InvalidBatteryStatus { value }));
    }
}

#[test]
fn battery_reading() {
    assert_eq!(
        decode_battery(&[55, 4, 1]),
        Ok((55, BatteryLevel::Good, BatteryStatus::Recharging))
    );
    assert_eq!(
        decode_battery(&[100, 8, 3, 9, 9]),
        Ok((100, BatteryLevel::Full, BatteryStatus::Full))
    );
    assert_eq!(
        decode_battery(&[0, 0, 0]),
        Ok((0, BatteryLevel::Empty, BatteryStatus::Discharging))
    );
}

#[test]
fn battery_reading_needs_three_bytes() {
    assert_eq!(decode_battery(&[]), Err(Error::ShortPayload { length: 0 }));
    assert_eq!(decode_battery(&[55]), Err(Error::ShortPayload { length: 1 }));
    assert_eq!(decode_battery(&[55, 4]), Err(Error::ShortPayload { length: 2 }));
}

#[test]
fn battery_reading_reports_bad_level_before_bad_status() {
    assert_eq!(decode_battery(&[55, 9, 1]), Err(Error::InvalidBatteryLevel { value: 9 }));
    assert_eq!(decode_battery(&[55, 4, 7]), Err(Error::InvalidBatteryStatus { value: 7 }));
    assert_eq!(decode_battery(&[55, 9, 7]), Err(Error::InvalidBatteryLevel { value: 9 }));
}
