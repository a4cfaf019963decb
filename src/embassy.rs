//! The scheduler's time source, built on the system timer.
pub mod time_driver;

use vstd::prelude::*;
use crate::systimer::SystemTimer;
use self::time_driver::EmbassyTimer;

verus! {

/// Takes the system timer out of `peripherals`, where it can be taken only
/// once, and starts the time driver on it.
pub fn init(peripherals: &mut Option<SystemTimer>) -> (t: EmbassyTimer)
    requires
        old(peripherals).is_some(),
        old(peripherals).unwrap().wf(),
    ensures
        final(peripherals).is_none(),
        t.started_on(old(peripherals).unwrap()),
{
    let systimer = peripherals.take().unwrap();
    EmbassyTimer::init(systimer)
}

} // verus!
