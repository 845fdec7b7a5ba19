//! The programmable interval timer, used for short early sleeps.

use vstd::prelude::*;
use crate::port::{PortWrite, pw};

verus! {

pub const PIT_CH0: u16 = 0x40;
pub const PIT_CH1: u16 = 0x41;
pub const PIT_CH2: u16 = 0x42;
pub const PIT_REG: u16 = 0x43;
pub const PIT_CH2_CONTROL: u16 = 0x61;

/// Frequency of the internal oscillator, in Hz
pub const FREQ_HZ: u32 = 1_193_182;
/// Channel 0, lobyte/hibyte, rate generator, binary mode.
pub const CMD_RATE_GENERATOR: u8 = 0b00_11_010_0;
/// Channel 0, lobyte/hibyte, interrupt on terminal count, binary mode.
pub const CMD_ONE_SHOT: u8 = 0b00_11_000_0;
/// Tick rate used by the early sleep.
pub const SLEEP_FREQ_HZ: u32 = 1_000;

/// A rate the timer can be programmed to: at least 10 Hz, below half the
/// oscillator, and with a reload value that fits 16 bits.
pub open spec fn freq_ok(target: u32) -> bool {
    &&& target >= 10
    &&& target < FREQ_HZ / 2
    &&& FREQ_HZ / target <= 0xffff
}

/// Nanoseconds between ticks at rate `target`.
pub open spec fn ns_per_tick(target: u32) -> int {
    1_000_000_000int / ((FREQ_HZ as int) / ((FREQ_HZ as int) / (target as int)))
}

/// Programs channel 0 to tick at `target_freq_hz`: the port writes, and
/// the number of nanoseconds between ticks at the rate actually reached.
pub fn set_freq_and_start(target_freq_hz: u32) -> (r: (Vec<PortWrite>, u64))
    requires
        freq_ok(target_freq_hz),
    ensures
        r.0@ == seq![
            pw(PIT_REG, CMD_RATE_GENERATOR),
            pw(PIT_CH0, ((FREQ_HZ / target_freq_hz) % 256) as u8),
            pw(PIT_CH0, ((FREQ_HZ / target_freq_hz) / 256) as u8),
        ],
        r.1 == ns_per_tick(target_freq_hz),
        r.1 > 0,
{
    let reload_value = FREQ_HZ / target_freq_hz;
    assert(reload_value >= 2) by (nonlinear_arith)
        requires
            reload_value == FREQ_HZ / target_freq_hz,
            target_freq_hz < FREQ_HZ / 2,
            target_freq_hz >= 10,
    ;
    let mut w: Vec<PortWrite> = Vec::new();
    w.push(PortWrite { port: PIT_REG, value: CMD_RATE_GENERATOR });
    w.push(PortWrite { port: PIT_CH0, value: (reload_value % 256) as u8 });
    w.push(PortWrite { port: PIT_CH0, value: (reload_value / 256) as u8 });
    let actual_freq_hz = FREQ_HZ / reload_value;
    assert(1 <= actual_freq_hz <= FREQ_HZ / 2) by (nonlinear_arith)
        requires
            actual_freq_hz == FREQ_HZ / reload_value,
            reload_value >= 2,
            reload_value <= 0xffff,
    ;
    let ns = 1_000_000_000u64 / (actual_freq_hz as u64);
    assert(ns > 0) by (nonlinear_arith)
        requires
            ns == 1_000_000_000u64 / (actual_freq_hz as u64),
            1 <= actual_freq_hz <= FREQ_HZ / 2,
    ;
    proof {
        assert(w@ =~= seq![
            pw(PIT_REG, CMD_RATE_GENERATOR),
            pw(PIT_CH0, ((FREQ_HZ / target_freq_hz) % 256) as u8),
            pw(PIT_CH0, ((FREQ_HZ / target_freq_hz) / 256) as u8),
        ]);
    }
    (w, ns)
}

/// The timer ticks an early sleep of `ns` nanoseconds waits for, with the
/// timer programmed at 1 kHz.
pub fn kernel_early_sleep_ns(ns: u64) -> (r: (Vec<PortWrite>, u64))
    ensures
        r.0@.len() == 3,
        r.0@[0] == pw(PIT_REG, CMD_RATE_GENERATOR),
        r.1 == (ns as int) / ns_per_tick(SLEEP_FREQ_HZ),
{
    let (w, ns_per_tick) = set_freq_and_start(SLEEP_FREQ_HZ);
    let total_ticks = ns / ns_per_tick;
    (w, total_ticks)
}

/// After the PIT is no longer used, this disables it: one-shot mode with a
/// zero count.
pub fn disable() -> (r: Vec<PortWrite>)
    ensures
        r@ == seq![pw(PIT_REG, CMD_ONE_SHOT), pw(PIT_CH0, 0), pw(PIT_CH0, 0)],
{
    let mut w: Vec<PortWrite> = Vec::new();
    w.push(PortWrite { port: PIT_REG, value: CMD_ONE_SHOT });
    w.push(PortWrite { port: PIT_CH0, value: 0 });
    w.push(PortWrite { port: PIT_CH0, value: 0 });
    proof {
        assert(w@ =~= seq![pw(PIT_REG, CMD_ONE_SHOT), pw(PIT_CH0, 0), pw(PIT_CH0, 0)]);
    }
    w
}

/// Ticks counted since the sleep started.
pub struct ElapsedTicks {
    count: u64,
}

impl ElapsedTicks {
    pub closed spec fn value(&self) -> u64 {
        self.count
    }

    pub fn new() -> (r: Self)
        ensures
            r.value() == 0,
    {
        ElapsedTicks { count: 0 }
    }

    /// Starts counting again from zero.
    pub fn reset(&mut self)
        ensures
            final(self).value() == 0,
    {
        self.count = 0;
    }

    /// Timer interrupt: one more tick, wrapping around.
    pub fn callback(&mut self)
        ensures
            final(self).value() == (old(self).value() + 1) % 0x1_0000_0000_0000_0000,
    {
        self.count = self.count.wrapping_add(1);
    }

    pub fn get(&self) -> (r: u64)
        ensures
            r == self.value(),
    {
        self.count
    }
}

} // verus!
