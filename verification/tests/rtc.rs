use growntrol::{decode_ds3231_time, decode_hour, RtcDateTime, RtcError};

fn time(month: u8, day: u8, hour: u8, minute: u8, second: u8) -> RtcDateTime {
    RtcDateTime { year: 2024, month, day, hour, minute, second }
}

#[test]
fn minute_of_day_counts_from_midnight() {
    assert_eq!(time(1, 1, 0, 0, 0).minute_of_day(), 0);
    assert_eq!(time(1, 1, 14, 30, 0).minute_of_day(), 870);
    assert_eq!(time(1, 1, 23, 59, 59).minute_of_day(), 1439);
}

#[test]
fn validation_reports_the_first_bad_field() {
    let good = time(12, 31, 23, 59, 59);
    assert_eq!(good.validate(), Ok(good));
    assert_eq!(time(0, 1, 0, 0, 0).validate(), Err(RtcError::InvalidMonth));
    assert_eq!(time(13, 0, 24, 0, 0).validate(), Err(RtcError::InvalidMonth));
    assert_eq!(time(1, 32, 0, 0, 0).validate(), Err(RtcError::InvalidDay));
    assert_eq!(time(1, 1, 24, 60, 0).validate(), Err(RtcError::InvalidHour));
    assert_eq!(time(1, 1, 0, 60, 0).validate(), Err(RtcError::InvalidMinute));
    assert_eq!(time(1, 1, 0, 0, 60).validate(), Err(RtcError::InvalidSecond));
}

#[test]
fn hour_register_in_both_modes() {
    assert_eq!(decode_hour(0x23), 23);
    assert_eq!(decode_hour(0x00), 0);
    assert_eq!(decode_hour(0x40 | 0x12), 0);
    assert_eq!(decode_hour(0x40 | 0x20 | 0x12), 12);
    assert_eq!(decode_hour(0x40 | 0x20 | 0x01), 13);
    assert_eq!(decode_hour(0x40 | 0x11), 11);
}

#[test]
fn decodes_time_registers_and_refuses_a_stopped_oscillator() {
    let registers = [0x45, 0x30, 0x14, 0x03, 0x17, 0x08, 0x24];
    assert_eq!(
        decode_ds3231_time(0x00, registers),
        Ok(RtcDateTime { year: 2024, month: 8, day: 17, hour: 14, minute: 30, second: 45 })
    );
    assert_eq!(decode_ds3231_time(0x80, registers), Err(RtcError::OscillatorStopped));
    let century_bit = [0x45, 0x30, 0x14, 0x03, 0x17, 0x88, 0x24];
    assert_eq!(decode_ds3231_time(0x08, century_bit).map(|t| t.month), Ok(8));
    let bad_minute = [0x00, 0x61, 0x14, 0x03, 0x17, 0x08, 0x24];
    assert_eq!(decode_ds3231_time(0x00, bad_minute), Err(RtcError::InvalidMinute));
}
