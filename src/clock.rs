//! The chip's clock frequencies.
use vstd::prelude::*;

verus! {

/// Frequencies of the clocks the timers are driven from, in megahertz.
#[derive(Clone, Copy, PartialEq, Eq, Debug)]
pub struct Clocks {
    pub cpu_clock_mhz: u32,
    pub xtal_clock_mhz: u32,
}

} // verus!
