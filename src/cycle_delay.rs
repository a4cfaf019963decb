//! Delays counted on the CPU's free-running cycle register, for chips that
//! have one: no comparator unit is involved.
use vstd::prelude::*;
use crate::clock::Clocks;
use crate::delay::{freq_fits, mhz_to_hz, ticks_for, ticks_in};

verus! {

/// A delay counted in CPU cycles.
pub struct Delay {
    /// CPU clock frequency in hertz.
    pub freq: u64,
}

impl Delay {
    pub open spec fn wf(&self) -> bool {
        &&& self.freq % 1_000_000 == 0
        &&& freq_fits(self.freq as int)
    }

    /// A delay at the CPU clock frequency.
    pub fn new(clocks: &Clocks) -> (d: Delay)
        requires
            freq_fits(clocks.cpu_clock_mhz * 1_000_000),
        ensures
            d.wf(),
            d.freq == clocks.cpu_clock_mhz * 1_000_000,
    {
        let mhz: u64 = clocks.cpu_clock_mhz as u64;
        proof {
            assert(mhz * 1_000_000 <= u64::MAX) by (nonlinear_arith)
                requires
                    (mhz * 1_000_000) * 0xFFFF_FFFF <= u64::MAX,
                    mhz >= 0,
            ;
        }
        let freq = mhz_to_hz(mhz);
        proof {
            assert(freq % 1_000_000 == 0) by (nonlinear_arith)
                requires
                    freq == mhz * 1_000_000,
            ;
        }
        Delay { freq }
    }

    /// The number of CPU cycles to wait for a delay of `us` microseconds.
    pub fn cycles(&self, us: u32) -> (r: u64)
        requires
            self.wf(),
        ensures
            r == ticks_in(us as int, self.freq as int),
    {
        ticks_for(us, self.freq)
    }
}

} // verus!
