//! Busy-wait delays on a dedicated comparator unit of the system timer.
use vstd::prelude::*;
use vstd::arithmetic::div_mod::{
    lemma_add_mod_noop,
    lemma_div_is_ordered,
    lemma_div_multiples_vanish,
    lemma_small_mod,
};
use crate::clock::Clocks;
use crate::systimer::{
    Alarm,
    BIT_MASK,
    Comparator,
    SystemTimer,
    UNIT_COUNT,
    distance,
    lemma_wrap_once,
    period,
};

verus! {

/// Largest frequency, in hertz, for which a delay of any `u32` number of
/// microseconds can be converted to ticks in 64 bits.
pub open spec fn freq_fits(freq: int) -> bool {
    freq * 0xFFFF_FFFF <= u64::MAX
}

/// Ticks of a clock at `freq` hertz in `us` microseconds, truncated.
pub open spec fn ticks_in(us: int, freq: int) -> int {
    (us * freq) / 1_000_000
}

/// Relies on fugit's `HertzU64::MHz` and `Rate::raw`: a rate of `mhz`
/// megahertz is `mhz * 1_000_000` hertz.
#[verifier::external_body]
pub(crate) fn mhz_to_hz(mhz: u64) -> (hz: u64)
    requires
        mhz * 1_000_000 <= u64::MAX,
    ensures
        hz == mhz * 1_000_000,
{
    fugit::HertzU64::MHz(mhz).raw()
}

/// Ticks of a clock at `freq` hertz in `us` microseconds:
/// `us * freq / 1_000_000`, truncated.
pub fn ticks_for(us: u32, freq: u64) -> (r: u64)
    requires
        freq_fits(freq as int),
    ensures
        r == ticks_in(us as int, freq as int),
        r <= u64::MAX / 1_000_000,
{
    proof {
        assert(us * freq <= u64::MAX) by (nonlinear_arith)
            requires
                freq * 0xFFFF_FFFF <= u64::MAX,
                us <= 0xFFFF_FFFF,
        ;
        lemma_div_is_ordered(us * freq, u64::MAX as int, 1_000_000);
    }
    (us as u64 * freq) / mhz_to_hz(1)
}

/// The counter value `ticks` after `now`: the sum reduced modulo the
/// counter's period. A sum past `BIT_MASK` wraps to a smaller value, which the
/// counter reaches after it wraps.
pub fn wrap_target(now: u64, ticks: u64) -> (r: u64)
    requires
        now <= BIT_MASK,
    ensures
        r == (now + ticks) % period(),
        r <= BIT_MASK,
        now + ticks > BIT_MASK ==> r < now + ticks,
{
    let sum: u128 = now as u128 + ticks as u128;
    if sum > BIT_MASK as u128 {
        (sum % (BIT_MASK as u128 + 1)) as u64
    } else {
        proof {
            lemma_small_mod(sum as nat, period() as nat);
        }
        sum as u64
    }
}

/// A delay driven by the system timer through one dedicated comparator unit.
pub struct Delay {
    pub systimer_alarm: Alarm,
    /// Counter frequency in hertz.
    pub freq: u64,
}

impl Delay {
    pub open spec fn wf(&self) -> bool {
        &&& self.systimer_alarm.index < UNIT_COUNT
        &&& self.freq % 1_000_000 == 0
        &&& freq_fits(self.freq as int)
    }

    /// A delay on `systimer_alarm`. The counter runs at the crystal
    /// frequency divided by 2.5, in whole megahertz.
    pub fn new(systimer_alarm: Alarm, clocks: &Clocks) -> (d: Delay)
        requires
            systimer_alarm.index < UNIT_COUNT,
            freq_fits((clocks.xtal_clock_mhz * 10 / 25) * 1_000_000),
        ensures
            d.wf(),
            d.systimer_alarm == systimer_alarm,
            d.freq == (clocks.xtal_clock_mhz * 10 / 25) * 1_000_000,
    {
        let mhz: u64 = clocks.xtal_clock_mhz as u64 * 10 / 25;
        proof {
            assert(mhz * 1_000_000 <= u64::MAX) by (nonlinear_arith)
                requires
                    (mhz * 1_000_000) * 0xFFFF_FFFF <= u64::MAX,
                    mhz >= 0,
            ;
        }
        let freq = mhz_to_hz(mhz);
        proof {
            assert(freq % 1_000_000 == 0) by (nonlinear_arith)
                requires
                    freq == mhz * 1_000_000,
            ;
        }
        Delay { systimer_alarm, freq }
    }

    /// Gives back the comparator unit.
    pub fn free(self) -> (a: Alarm)
        ensures
            a == self.systimer_alarm,
    {
        self.systimer_alarm
    }

    /// Waits `us` microseconds: the dedicated unit is programmed to the
    /// counter value that many ticks ahead, wrapping, and waited on.
    pub fn delay(&self, timer: &mut SystemTimer, us: u32)
        requires
            self.wf(),
            old(timer).wf(),
        ensures
            final(timer).wf(),
            final(timer).counter == (old(timer).counter + ticks_in(us as int, self.freq as int)) % period(),
            final(timer).units@[self.systimer_alarm.index as int] == (Comparator {
                target: final(timer).counter,
                armed: false,
                interrupt_pending: false,
                ..old(timer).units@[self.systimer_alarm.index as int]
            }),
            forall|i: int|
                0 <= i < UNIT_COUNT && i != self.systimer_alarm.index ==> #[trigger] final(timer).units@[i]
                    == old(timer).units@[i].latched(
                    old(timer).counter,
                    ticks_in(us as int, self.freq as int) as u64,
                ),
    {
        let unit = self.systimer_alarm.index;
        let t0 = timer.now();
        let clocks = ticks_for(us, self.freq);
        let target = wrap_target(t0, clocks);
        proof {
            lemma_wrap_once(t0 + clocks);
        }
        timer.set_target(unit, target);
        timer.wait(unit);
    }

    /// Waits `us` microseconds, as `delay` does.
    pub fn delay_us(&self, timer: &mut SystemTimer, us: u32)
        requires
            self.wf(),
            old(timer).wf(),
        ensures
            final(timer).wf(),
            final(timer).counter == (old(timer).counter + ticks_in(us as int, self.freq as int)) % period(),
            final(timer).units@[self.systimer_alarm.index as int] == (Comparator {
                target: final(timer).counter,
                armed: false,
                interrupt_pending: false,
                ..old(timer).units@[self.systimer_alarm.index as int]
            }),
            forall|i: int|
                0 <= i < UNIT_COUNT && i != self.systimer_alarm.index ==> #[trigger] final(timer).units@[i]
                    == old(timer).units@[i].latched(
                    old(timer).counter,
                    ticks_in(us as int, self.freq as int) as u64,
                ),
    {
        self.delay(timer, us);
    }

    /// Waits `ms` milliseconds, as `ms` waits of 1000 microseconds each.
    pub fn delay_ms(&self, timer: &mut SystemTimer, ms: u32)
        requires
            self.wf(),
            old(timer).wf(),
        ensures
            final(timer).wf(),
            final(timer).counter == (old(timer).counter + ms * ticks_in(1000, self.freq as int)) % period(),
    {
        let ghost c0 = timer.counter;
        let ghost k = ticks_in(1000, self.freq as int);
        proof {
            lemma_small_mod(c0 as nat, period() as nat);
            assert(1000 * self.freq <= u64::MAX) by (nonlinear_arith)
                requires
                    self.freq * 0xFFFF_FFFF <= u64::MAX,
            ;
            lemma_div_is_ordered(1000 * self.freq, u64::MAX as int, 1_000_000);
            lemma_div_is_ordered(0, 1000 * self.freq, 1_000_000);
        }
        let mut i: u32 = 0;
        while i < ms
            invariant
                self.wf(),
                timer.wf(),
                i <= ms,
                k == ticks_in(1000, self.freq as int),
                0 <= k < period(),
                timer.counter == (c0 + i * k) % period(),
            decreases ms - i,
        {
            let ghost before = timer.counter;
            self.delay_us(timer, 1000);
            proof {
                lemma_small_mod(k as nat, period() as nat);
                lemma_add_mod_noop(c0 + i * k, k, period());
                assert((i + 1) * k == i * k + k) by (nonlinear_arith);
                assert(c0 + (i + 1) * k == (c0 + i * k) + k);
            }
            i = i + 1;
        }
    }
}

/// The time that two readings of the counter around a delay of `us`
/// microseconds measure, converted back to microseconds, is at least `us` and
/// within one tick of it: the counter runs `ticks_in(us, freq)` ticks, which
/// is exactly `us` microseconds.
pub proof fn lemma_delay_round_trip(d: Delay, counter: u64, us: u32)
    requires
        d.wf(),
        counter <= BIT_MASK,
    ensures
        ({
            let after = ((counter + ticks_in(us as int, d.freq as int)) % period()) as u64;
            let elapsed = distance(counter, after);
            &&& elapsed == ticks_in(us as int, d.freq as int)
            &&& elapsed * 1_000_000 >= us * d.freq
            &&& (elapsed - 1) * 1_000_000 < us * d.freq
        }),
{
    let m = d.freq / 1_000_000;
    assert(d.freq == 1_000_000 * m);
    assert(us * d.freq == 1_000_000 * (us * m)) by (nonlinear_arith)
        requires
            d.freq == 1_000_000 * m,
    ;
    lemma_div_multiples_vanish(us * m, 1_000_000);
    let k = ticks_in(us as int, d.freq as int);
    assert(k == us * m);
    assert(us * d.freq <= u64::MAX) by (nonlinear_arith)
        requires
            d.freq * 0xFFFF_FFFF <= u64::MAX,
            us <= 0xFFFF_FFFF,
    ;
    assert(k <= BIT_MASK) by (nonlinear_arith)
        requires
            1_000_000 * k <= u64::MAX,
    ;
    lemma_wrap_once(counter + k);
}

} // verus!
