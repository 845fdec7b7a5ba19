//! CMOS real-time clock: decoding of the clock registers into a calendar
//! date and time.

use vstd::prelude::*;

verus! {

/// Register numbers of the clock.
pub const REG_SECONDS: u8 = 0x00;
pub const REG_MINUTES: u8 = 0x02;
pub const REG_HOURS: u8 = 0x04;
pub const REG_DAY: u8 = 0x07;
pub const REG_MONTH: u8 = 0x08;
pub const REG_YEAR: u8 = 0x09;
pub const REG_CENTURY: u8 = 0x32;
pub const REG_STATUS_A: u8 = 0x0a;
pub const REG_STATUS_B: u8 = 0x0b;
/// Set on the register-select port to keep NMIs disabled while reading.
pub const NMI_DISABLE_BIT: u8 = 0x80;

/// Whether `register_number` may be selected: it must leave the NMI bit free.
pub fn register_selectable(register_number: u8) -> (r: bool)
    ensures
        r == (register_number < 0x7f),
{
    register_number < 0x7f
}

/// How the clock stores its values.
#[derive(Debug, Clone, Copy, PartialEq, Eq)]
pub enum Mode {
    Binary,
    Bcd,
}

/// The binary value of `v` stored in `mode`.
pub open spec fn spec_to_bin(mode: Mode, v: u8) -> u8 {
    match mode {
        Mode::Binary => v,
        Mode::Bcd => ((v / 16) * 10 + v % 16) as u8,
    }
}

impl Mode {
    pub fn to_bin(self, v: u8) -> (r: u8)
        ensures
            r == spec_to_bin(self, v),
    {
        match self {
            Mode::Binary => v,
            Mode::Bcd => {
                assert((v & 0xf0) >> 1 <= 120 && (v & 0xf0) >> 3 <= 30 && v & 0xf <= 15)
                    by (bit_vector);
                let r = ((v & 0xf0) >> 1) + ((v & 0xf0) >> 3) + (v & 0xf);
                assert(((v & 0xf0) >> 1) + ((v & 0xf0) >> 3) + (v & 0xf) == (v / 16) * 10 + v
                    % 16) by (bit_vector);
                r
            },
        }
    }
}

/// The clock's hour format.
#[derive(Debug, Clone, Copy, PartialEq, Eq)]
pub enum HoursMode {
    _12,
    _24,
}

/// A 12-hour value has an hour from 1 to 12 below its PM bit.
pub open spec fn valid_12h(v: u8) -> bool {
    1 <= v % 128 <= 12
}

/// The 24-hour value of `v` read in `mode`.
pub open spec fn spec_to_24h(mode: HoursMode, v: u8) -> u8 {
    match mode {
        HoursMode::_24 => v,
        HoursMode::_12 => {
            let pm = v >= 128;
            let m = v % 128;
            if pm {
                if m == 12 {
                    12
                } else {
                    (m + 12) as u8
                }
            } else {
                if m == 12 {
                    0
                } else {
                    m
                }
            }
        },
    }
}

impl HoursMode {
    pub fn to_24h(self, v: u8) -> (r: u8)
        requires
            self == HoursMode::_12 ==> valid_12h(v),
        ensures
            r == spec_to_24h(self, v),
    {
        match self {
            HoursMode::_24 => v,
            HoursMode::_12 => {
                let pm = v & 0x80 != 0;
                let m = v & 0x7f;
                assert(v & 0x80 != 0 <==> v >= 128) by (bit_vector);
                assert(v & 0x7f == v % 128) by (bit_vector);
                if pm {
                    if m == 12 {
                        12
                    } else {
                        m + 12
                    }
                } else {
                    if m == 12 {
                        0
                    } else {
                        m
                    }
                }
            },
        }
    }
}

/// The clock's formats from status register B: bit 2 selects binary
/// values, bit 1 the 24-hour format.
pub fn read_config(status_b: u8) -> (r: (Mode, HoursMode))
    ensures
        r.0 == (if status_b & 4 != 0 {
            Mode::Binary
        } else {
            Mode::Bcd
        }),
        r.1 == (if status_b & 2 != 0 {
            HoursMode::_24
        } else {
            HoursMode::_12
        }),
{
    (
        if status_b & 4 != 0 {
            Mode::Binary
        } else {
            Mode::Bcd
        },
        if status_b & 2 != 0 {
            HoursMode::_24
        } else {
            HoursMode::_12
        },
    )
}

/// Bit 7 of status register A: the clock is updating its registers.
pub fn is_update_in_progress(status_a: u8) -> (r: bool)
    ensures
        r == (status_a & 0x80 != 0),
{
    status_a & 0x80 != 0
}

/// The raw values of the seven clock registers.
#[derive(Clone, Copy, PartialEq, Eq, Debug)]
pub struct RawClock {
    pub seconds: u8,
    pub minutes: u8,
    pub hours: u8,
    pub day: u8,
    pub month: u8,
    pub year_last_digits: u8,
    pub maybe_century: u8,
}

/// The clock registers, converted to binary and 24-hour values.
#[derive(Clone, Copy, PartialEq, Eq, Debug, Structural)]
pub struct TimeRegisterSnapshot {
    pub seconds: u8,
    pub minutes: u8,
    pub hours: u8,
    pub day: u8,
    pub month: u8,
    pub year_last_digits: u8,
    pub maybe_century: u8,
}

/// The raw hours register can be read in the given configuration.
pub open spec fn raw_readable(config: (Mode, HoursMode), raw: RawClock) -> bool {
    config.1 == HoursMode::_12 ==> valid_12h(spec_to_bin(config.0, raw.hours))
}

impl TimeRegisterSnapshot {
    /// Converts the raw registers read in configuration `config`.
    pub fn read(config: (Mode, HoursMode), raw: RawClock) -> (t: Self)
        requires
            raw_readable(config, raw),
        ensures
            t.seconds == spec_to_bin(config.0, raw.seconds),
            t.minutes == spec_to_bin(config.0, raw.minutes),
            t.hours == spec_to_24h(config.1, spec_to_bin(config.0, raw.hours)),
            t.day == spec_to_bin(config.0, raw.day),
            t.month == spec_to_bin(config.0, raw.month),
            t.year_last_digits == spec_to_bin(config.0, raw.year_last_digits),
            t.maybe_century == spec_to_bin(config.0, raw.maybe_century),
    {
        let (mode, hoursf) = config;
        TimeRegisterSnapshot {
            seconds: mode.to_bin(raw.seconds),
            minutes: mode.to_bin(raw.minutes),
            hours: hoursf.to_24h(mode.to_bin(raw.hours)),
            day: mode.to_bin(raw.day),
            month: mode.to_bin(raw.month),
            year_last_digits: mode.to_bin(raw.year_last_digits),
            maybe_century: mode.to_bin(raw.maybe_century),
        }
    }
}

/// Whether two readings agree, so that no update happened between them.
pub fn snapshots_agree(a: &TimeRegisterSnapshot, b: &TimeRegisterSnapshot) -> (r: bool)
    ensures
        r == (*a == *b),
{
    a.seconds == b.seconds && a.minutes == b.minutes && a.hours == b.hours && a.day == b.day
        && a.month == b.month && a.year_last_digits == b.year_last_digits && a.maybe_century
        == b.maybe_century
}

/// A calendar date and time of day, without a time zone.
#[derive(Clone, Copy, PartialEq, Eq, Debug)]
pub struct NaiveDateTime {
    pub year: i32,
    pub month: u32,
    pub day: u32,
    pub hour: u32,
    pub minute: u32,
    pub second: u32,
}

/// The full year of a snapshot: 2000 plus the two digits when the century
/// register is zero, else century times 100 plus the digits.
pub open spec fn spec_year(t: TimeRegisterSnapshot) -> int {
    if t.maybe_century == 0 {
        2000 + t.year_last_digits
    } else {
        100 * t.maybe_century + t.year_last_digits
    }
}

/// Gregorian leap years.
pub open spec fn is_leap_year(y: int) -> bool {
    (y % 4 == 0 && y % 100 != 0) || y % 400 == 0
}

/// Number of days of month `m` in year `y`.
pub open spec fn days_in_month(y: int, m: int) -> int {
    if m == 2 {
        if is_leap_year(y) {
            29
        } else {
            28
        }
    } else if m == 4 || m == 6 || m == 9 || m == 11 {
        30
    } else {
        31
    }
}

/// The snapshot names an existing date and a time without leap second.
pub open spec fn snapshot_valid(t: TimeRegisterSnapshot) -> bool {
    &&& t.seconds < 60
    &&& t.minutes < 60
    &&& t.hours < 24
    &&& t.day != 0 && t.day <= 31
    &&& t.month != 0 && t.month <= 12
    &&& t.maybe_century == 0 || t.maybe_century >= 20
    &&& t.day <= days_in_month(spec_year(t), t.month as int)
}

fn leap_year(y: u16) -> (r: bool)
    ensures
        r == is_leap_year(y as int),
{
    (y % 4 == 0 && y % 100 != 0) || y % 400 == 0
}

fn month_days(y: u16, m: u8) -> (r: u8)
    ensures
        r == days_in_month(y as int, m as int),
{
    if m == 2 {
        if leap_year(y) {
            29
        } else {
            28
        }
    } else if m == 4 || m == 6 || m == 9 || m == 11 {
        30
    } else {
        31
    }
}

/// Whether a snapshot can be turned into a date and time.
pub fn is_valid_snapshot(t: &TimeRegisterSnapshot) -> (r: bool)
    ensures
        r == snapshot_valid(*t),
{
    if !(t.seconds < 60 && t.minutes < 60 && t.hours < 24 && t.day != 0 && t.day <= 31
        && t.month != 0 && t.month <= 12 && (t.maybe_century == 0 || t.maybe_century >= 20)) {
        return false;
    }
    let year = snapshot_year(t);
    t.day <= month_days(year, t.month)
}

fn snapshot_year(t: &TimeRegisterSnapshot) -> (y: u16)
    ensures
        y == spec_year(*t),
{
    if t.maybe_century == 0 {
        2000 + (t.year_last_digits as u16)
    } else {
        100 * (t.maybe_century as u16) + (t.year_last_digits as u16)
    }
}

/// The date and time a consistent snapshot of the clock shows.
pub fn get_current_time(t: TimeRegisterSnapshot) -> (r: NaiveDateTime)
    requires
        snapshot_valid(t),
    ensures
        r.year == spec_year(t),
        r.month == t.month,
        r.day == t.day,
        r.hour == t.hours,
        r.minute == t.minutes,
        r.second == t.seconds,
{
    let year = snapshot_year(&t);
    NaiveDateTime {
        year: year as i32,
        month: t.month as u32,
        day: t.day as u32,
        hour: t.hours as u32,
        minute: t.minutes as u32,
        second: t.seconds as u32,
    }
}

} // verus!
