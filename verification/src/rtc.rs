//! Calendar time from the DS3231 real-time clock.
use vstd::prelude::*;

verus! {

/// A wall-clock reading.
#[derive(Debug, Clone, Copy, PartialEq, Eq, Structural)]
pub struct RtcDateTime {
    pub year: u16,
    pub month: u8,
    pub day: u8,
    pub hour: u8,
    pub minute: u8,
    pub second: u8,
}

/// Why a clock reading cannot be trusted.
#[derive(Debug, Clone, Copy, PartialEq, Eq, Structural)]
pub enum RtcError {
    /// The oscillator stopped since the time was last set.
    OscillatorStopped,
    InvalidMonth,
    InvalidDay,
    InvalidHour,
    InvalidMinute,
    InvalidSecond,
}

/// The first field found out of range, in the order month, day, hour,
/// minute, second; `None` when every field is in range.
pub open spec fn first_field_error(t: RtcDateTime) -> Option<RtcError> {
    if !(1 <= t.month <= 12) {
        Some(RtcError::InvalidMonth)
    } else if !(1 <= t.day <= 31) {
        Some(RtcError::InvalidDay)
    } else if t.hour >= 24 {
        Some(RtcError::InvalidHour)
    } else if t.minute >= 60 {
        Some(RtcError::InvalidMinute)
    } else if t.second >= 60 {
        Some(RtcError::InvalidSecond)
    } else {
        None
    }
}

impl RtcDateTime {
    /// Minutes since midnight.
    pub fn minute_of_day(self) -> (minute: u16)
        ensures
            minute == self.hour * 60 + self.minute,
    {
        self.hour as u16 * 60 + self.minute as u16
    }

    /// Returns the reading unchanged when every field is in range, else the
    /// first field found out of range.
    pub fn validate(self) -> (result: Result<Self, RtcError>)
        ensures
            result == (match first_field_error(self) {
                Some(e) => Err(e),
                None => Ok(self),
            }),
    {
        if !(1 <= self.month && self.month <= 12) {
            return Err(RtcError::InvalidMonth);
        }
        if !(1 <= self.day && self.day <= 31) {
            return Err(RtcError::InvalidDay);
        }
        if self.hour >= 24 {
            return Err(RtcError::InvalidHour);
        }
        if self.minute >= 60 {
            return Err(RtcError::InvalidMinute);
        }
        if self.second >= 60 {
            return Err(RtcError::InvalidSecond);
        }
        Ok(self)
    }
}

/// A validated reading names a minute of the day.
pub proof fn lemma_valid_time_minute_in_day(t: RtcDateTime)
    requires
        first_field_error(t) is None,
    ensures
        t.hour * 60 + t.minute < 1440,
{
}

// ---------------------------------------------------------------------------
// DS3231 register decoding.

/// Value of a binary-coded-decimal byte: high nibble tens, low nibble units.
pub open spec fn bcd_value(v: int) -> int {
    (v / 16) * 10 + v % 16
}

/// Binary-coded-decimal encoding of a number below 100.
pub open spec fn bcd_encoding(n: int) -> int {
    (n / 10) * 16 + n % 10
}

/// The hour held in the DS3231 hour register: bit 6 selects 12-hour mode,
/// where bit 5 marks PM and bits 0-4 hold the hour 1-12; in 24-hour mode
/// bits 0-5 hold the hour.
pub open spec fn hour_register_value(v: u8) -> int {
    if (v / 64) % 2 == 0 {
        bcd_value(v as int % 64)
    } else {
        let hour_12 = bcd_value(v as int % 32);
        let pm = (v / 32) % 2 == 1;
        if hour_12 == 12 {
            if pm {
                12
            } else {
                0
            }
        } else if pm {
            hour_12 + 12
        } else {
            hour_12
        }
    }
}

/// The reading held in the seven time registers (seconds, minutes, hours,
/// weekday, date, month, year), before range validation.
pub open spec fn registers_time(registers: [u8; 7]) -> RtcDateTime {
    RtcDateTime {
        year: (2000 + bcd_value(registers[6] as int)) as u16,
        month: bcd_value(registers[5] as int % 32) as u8,
        day: bcd_value(registers[4] as int % 64) as u8,
        hour: hour_register_value(registers[2]) as u8,
        minute: bcd_value(registers[1] as int % 128) as u8,
        second: bcd_value(registers[0] as int % 128) as u8,
    }
}

/// Decodes a binary-coded-decimal byte.
fn bcd(value: u8) -> (decoded: u8)
    ensures
        decoded == bcd_value(value as int),
{
    assert(value >> 4u8 == value / 16 && value & 0x0fu8 == value % 16) by (bit_vector);
    (value >> 4) * 10 + (value & 0x0f)
}

/// Decodes the DS3231 hour register in either 12- or 24-hour mode.
pub fn decode_hour(value: u8) -> (hour: u8)
    ensures
        hour == hour_register_value(value),
{
    assert((value & 0x40u8 == 0) == ((value / 64) % 2 == 0)) by (bit_vector);
    assert(value & 0x3fu8 == value % 64 && value & 0x1fu8 == value % 32) by (bit_vector);
    assert((value & 0x20u8 != 0) == ((value / 32) % 2 == 1)) by (bit_vector);
    if value & 0x40 == 0 {
        return bcd(value & 0x3f);
    }
    let hour_12 = bcd(value & 0x1f);
    let pm = value & 0x20 != 0;
    if hour_12 == 12 {
        if pm {
            12
        } else {
            0
        }
    } else if pm {
        hour_12 + 12
    } else {
        hour_12
    }
}

/// Decodes the status register and the seven time registers read from the
/// DS3231: a set oscillator-stop flag (bit 7 of the status) is refused,
/// then the decoded reading is validated.
pub fn decode_ds3231_time(status: u8, registers: [u8; 7]) -> (result: Result<RtcDateTime, RtcError>)
    ensures
        status >= 128 ==> result == Err::<RtcDateTime, RtcError>(RtcError::OscillatorStopped),
        status < 128 ==> result == (match first_field_error(registers_time(registers)) {
            Some(e) => Err(e),
            None => Ok(registers_time(registers)),
        }),
{
    assert((status & 0x80u8 == 0) == (status < 128)) by (bit_vector);
    if status & 0x80 != 0 {
        return Err(RtcError::OscillatorStopped);
    }
    let r5 = registers[5];
    let r4 = registers[4];
    let r1 = registers[1];
    let r0 = registers[0];
    assert(r5 & 0x1fu8 == r5 % 32) by (bit_vector);
    assert(r4 & 0x3fu8 == r4 % 64) by (bit_vector);
    assert(r1 & 0x7fu8 == r1 % 128) by (bit_vector);
    assert(r0 & 0x7fu8 == r0 % 128) by (bit_vector);
    let time = RtcDateTime {
        year: 2000 + bcd(registers[6]) as u16,
        month: bcd(r5 & 0x1f),
        day: bcd(r4 & 0x3f),
        hour: decode_hour(registers[2]),
        minute: bcd(r1 & 0x7f),
        second: bcd(r0 & 0x7f),
    };
    time.validate()
}

/// An hour written in 24-hour mode reads back unchanged.
pub proof fn lemma_hour_24_round_trip(hour: u8)
    requires
        hour < 24,
    ensures
        hour_register_value(bcd_encoding(hour as int) as u8) == hour,
{
}

/// An hour written in 12-hour mode (hour 1-12 with the PM flag) reads back
/// as the corresponding hour of the day.
pub proof fn lemma_hour_12_round_trip(hour_12: u8, pm: bool)
    requires
        1 <= hour_12 <= 12,
    ensures
        hour_register_value((64 + (if pm { 32int } else { 0 }) + bcd_encoding(hour_12 as int)) as u8)
            == (if hour_12 == 12 {
            if pm {
                12int
            } else {
                0
            }
        } else if pm {
            hour_12 + 12
        } else {
            hour_12 as int
        }),
{
}

/// A date register holding the BCD encoding of a day of the month reads
/// back as that day, for every day from 1 to 31.
pub proof fn lemma_day_round_trip(day: u8)
    requires
        1 <= day <= 31,
    ensures
        registers_time([0u8, 0u8, 0u8, 1u8, bcd_encoding(day as int) as u8, 1u8, 0u8]).day == day,
        forall|r: [u8; 7]| r[4] == bcd_encoding(day as int) ==> #[trigger] registers_time(r).day
            == day,
{
}

/// Registers written with the BCD encoding of every field of a valid
/// reading (hour in 24-hour mode, any weekday, century bit set or not)
/// read back as that reading, and the decoder accepts it whenever the
/// oscillator has not stopped.
pub proof fn lemma_registers_round_trip(t: RtcDateTime, registers: [u8; 7])
    requires
        first_field_error(t) is None,
        2000 <= t.year <= 2099,
        registers[0] == bcd_encoding(t.second as int),
        registers[1] == bcd_encoding(t.minute as int),
        registers[2] == bcd_encoding(t.hour as int),
        registers[4] == bcd_encoding(t.day as int),
        registers[5] == bcd_encoding(t.month as int) || registers[5] == bcd_encoding(
            t.month as int,
        ) + 128,
        registers[6] == bcd_encoding(t.year - 2000),
    ensures
        registers_time(registers) == t,
        first_field_error(registers_time(registers)) is None,
{
    lemma_hour_24_round_trip(t.hour);
    lemma_bcd_field(t.second as int, 128);
    lemma_bcd_field(t.minute as int, 128);
    lemma_bcd_field(t.day as int, 64);
    lemma_bcd_field(t.month as int, 32);
    lemma_bcd_field((t.year - 2000) as int, 256);
    let b = bcd_encoding(t.month as int);
    assert((b + 128) % 32 == b % 32);
    assert(registers[6] as int == bcd_encoding(t.year - 2000));
}

/// A number below 100 whose BCD encoding fits below `modulus` reads back
/// unchanged through a mask of that width.
proof fn lemma_bcd_field(n: int, modulus: int)
    requires
        0 <= n < 100,
        modulus == 32 || modulus == 64 || modulus == 128 || modulus == 256,
        bcd_encoding(n) < modulus,
    ensures
        bcd_value(bcd_encoding(n) % modulus) == n,
        bcd_value(bcd_encoding(n)) == n,
{
    let q = n / 10;
    let r = n % 10;
    let e = bcd_encoding(n);
    assert(e == 16 * q + r);
    assert(0 <= r < 10 && 0 <= q < 10);
    assert(e / 16 == q && e % 16 == r) by (nonlinear_arith)
        requires
            e == 16 * q + r,
            0 <= r < 10,
            0 <= q,
    ;
    assert(e % modulus == e) by (nonlinear_arith)
        requires
            0 <= e < modulus,
    ;
    assert(bcd_value(e) == q * 10 + r);
    assert(n == q * 10 + r);
}

} // verus!
