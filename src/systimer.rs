//! A model of the system timer: one free-running counter of 52 bits and a
//! fixed set of comparator units bound to it.
use vstd::prelude::*;
use vstd::arithmetic::div_mod::{lemma_mod_sub_multiples_vanish, lemma_small_mod};

verus! {

/// Largest value the counter takes; it counts modulo `BIT_MASK + 1`.
pub const BIT_MASK: u64 = 0xF_FFFF_FFFF_FFFF;

/// Number of comparator units bound to the counter.
pub const UNIT_COUNT: usize = 3;

/// Number of distinct counter values: the counter's period in ticks.
pub open spec fn period() -> int {
    BIT_MASK as int + 1
}

/// Ticks the counter must run, forward and wrapping, to go from `from` to `to`.
pub open spec fn distance(from: u64, to: u64) -> int {
    if to >= from {
        to - from
    } else {
        to + period() - from
    }
}

/// Reducing a value below two periods takes at most one subtraction.
pub proof fn lemma_wrap_once(x: int)
    requires
        0 <= x < 2 * period(),
    ensures
        x % period() == (if x < period() { x } else { x - period() }),
{
    if x < period() {
        lemma_small_mod(x as nat, period() as nat);
    } else {
        lemma_mod_sub_multiples_vanish(x, period());
        lemma_small_mod((x - period()) as nat, period() as nat);
    }
}

/// Running the counter for the distance from `from` to `to` lands on `to`.
pub proof fn lemma_distance_lands(from: u64, to: u64)
    requires
        from <= BIT_MASK,
        to <= BIT_MASK,
    ensures
        0 <= distance(from, to) <= BIT_MASK,
        (from + distance(from, to)) % period() == to,
{
    lemma_wrap_once(from + distance(from, to));
}

/// Ticks from `from` forward to `to` on the wrapping counter.
pub fn ticks_until(from: u64, to: u64) -> (r: u64)
    requires
        from <= BIT_MASK,
        to <= BIT_MASK,
    ensures
        r == distance(from, to),
{
    if to >= from {
        to - from
    } else {
        (BIT_MASK - from) + to + 1
    }
}

/// One comparator unit: once armed, it latches its interrupt flag when the
/// counter reaches `target`, and disarms.
#[derive(Clone, Copy, PartialEq, Eq, Debug)]
pub struct Comparator {
    pub target: u64,
    pub armed: bool,
    pub interrupt_enabled: bool,
    pub interrupt_pending: bool,
}

impl Comparator {
    pub open spec fn idle_state() -> Comparator {
        Comparator { target: 0, armed: false, interrupt_enabled: false, interrupt_pending: false }
    }

    /// The unit after the counter ran `ticks` from `counter`.
    pub open spec fn latched(self, counter: u64, ticks: u64) -> Comparator {
        if self.armed && distance(counter, self.target) <= ticks {
            Comparator { armed: false, interrupt_pending: true, ..self }
        } else {
            self
        }
    }

    /// Whether the unit asserts its interrupt line.
    pub open spec fn raised(self) -> bool {
        self.interrupt_pending && self.interrupt_enabled
    }

    /// An idle unit: disarmed, its interrupt masked and acknowledged.
    pub fn idle() -> (c: Comparator)
        ensures
            c == Comparator::idle_state(),
    {
        Comparator { target: 0, armed: false, interrupt_enabled: false, interrupt_pending: false }
    }
}

/// The right to drive one comparator unit. Each unit's token is made once, at
/// start-up, and handed to the unit's single owner.
pub struct Alarm {
    pub index: usize,
}

impl Alarm {
    /// The token of unit `index`.
    pub fn conjure(index: usize) -> (a: Alarm)
        requires
            index < UNIT_COUNT,
        ensures
            a.index == index,
    {
        Alarm { index }
    }
}

/// The counter and its comparator units.
pub struct SystemTimer {
    pub counter: u64,
    pub units: Vec<Comparator>,
}

impl SystemTimer {
    pub open spec fn wf(&self) -> bool {
        &&& self.counter <= BIT_MASK
        &&& self.units@.len() == UNIT_COUNT
        &&& forall|i: int| 0 <= i < UNIT_COUNT ==> #[trigger] self.units@[i].target <= BIT_MASK
    }

    /// A timer whose counter stands at `counter`, every unit idle.
    pub fn new(counter: u64) -> (t: SystemTimer)
        requires
            counter <= BIT_MASK,
        ensures
            t.wf(),
            t.counter == counter,
            forall|i: int| 0 <= i < UNIT_COUNT ==> #[trigger] t.units@[i] == Comparator::idle_state(),
    {
        let mut units: Vec<Comparator> = Vec::new();
        let mut i: usize = 0;
        while i < UNIT_COUNT
            invariant
                i <= UNIT_COUNT,
                units@.len() == i,
                forall|j: int| 0 <= j < i ==> #[trigger] units@[j] == Comparator::idle_state(),
            decreases UNIT_COUNT - i,
        {
            units.push(Comparator::idle());
            i = i + 1;
        }
        SystemTimer { counter, units }
    }

    /// The current counter value.
    pub fn now(&self) -> (r: u64)
        ensures
            r == self.counter,
    {
        self.counter
    }

    /// Whether unit `unit` asserts its interrupt line.
    pub fn interrupt_raised(&self, unit: usize) -> (r: bool)
        requires
            self.wf(),
            unit < UNIT_COUNT,
        ensures
            r == self.units@[unit as int].raised(),
    {
        let u = self.units[unit];
        u.interrupt_pending && u.interrupt_enabled
    }

    /// The counter runs `ticks` (less than one period); every armed unit whose
    /// target it reaches on the way latches its interrupt flag.
    pub fn advance(&mut self, ticks: u64)
        requires
            old(self).wf(),
            ticks <= BIT_MASK,
        ensures
            final(self).wf(),
            final(self).counter == (old(self).counter + ticks) % period(),
            forall|i: int|
                0 <= i < UNIT_COUNT ==> #[trigger] final(self).units@[i] == old(self).units@[i].latched(
                    old(self).counter,
                    ticks,
                ),
    {
        let from = self.counter;
        proof {
            lemma_wrap_once(from + ticks);
        }
        let sum: u64 = from + ticks;
        self.counter = if sum > BIT_MASK {
            sum - BIT_MASK - 1
        } else {
            sum
        };
        let mut i: usize = 0;
        while i < UNIT_COUNT
            invariant
                i <= UNIT_COUNT,
                from == old(self).counter,
                from <= BIT_MASK,
                self.counter == (from + ticks) % period(),
                self.counter <= BIT_MASK,
                self.units@.len() == UNIT_COUNT,
                forall|j: int| 0 <= j < UNIT_COUNT ==> #[trigger] old(self).units@[j].target <= BIT_MASK,
                forall|j: int|
                    0 <= j < i ==> #[trigger] self.units@[j] == old(self).units@[j].latched(from, ticks),
                forall|j: int| i <= j < UNIT_COUNT ==> #[trigger] self.units@[j] == old(self).units@[j],
            decreases UNIT_COUNT - i,
        {
            let u = self.units[i];
            if u.armed && ticks_until(from, u.target) <= ticks {
                self.units.set(i, Comparator { armed: false, interrupt_pending: true, ..u });
            }
            i = i + 1;
        }
    }

    /// Programs unit `unit` to fire when the counter reaches `target`. The
    /// interrupt gate and a stale pending flag are left as they were.
    pub fn set_target(&mut self, unit: usize, target: u64)
        requires
            old(self).wf(),
            unit < UNIT_COUNT,
            target <= BIT_MASK,
        ensures
            final(self).wf(),
            final(self).counter == old(self).counter,
            final(self).units@ == old(self).units@.update(
                unit as int,
                Comparator { target, armed: true, ..old(self).units@[unit as int] },
            ),
    {
        let u = self.units[unit];
        self.units.set(unit, Comparator { target, armed: true, ..u });
    }

    /// Opens the interrupt gate of unit `unit`.
    pub fn enable_interrupt(&mut self, unit: usize)
        requires
            old(self).wf(),
            unit < UNIT_COUNT,
        ensures
            final(self).wf(),
            final(self).counter == old(self).counter,
            final(self).units@ == old(self).units@.update(
                unit as int,
                Comparator { interrupt_enabled: true, ..old(self).units@[unit as int] },
            ),
    {
        let u = self.units[unit];
        self.units.set(unit, Comparator { interrupt_enabled: true, ..u });
    }

    /// Acknowledges the interrupt of unit `unit`.
    pub fn clear_interrupt(&mut self, unit: usize)
        requires
            old(self).wf(),
            unit < UNIT_COUNT,
        ensures
            final(self).wf(),
            final(self).counter == old(self).counter,
            final(self).units@ == old(self).units@.update(
                unit as int,
                Comparator { interrupt_pending: false, ..old(self).units@[unit as int] },
            ),
    {
        let u = self.units[unit];
        self.units.set(unit, Comparator { interrupt_pending: false, ..u });
    }

    /// Busy-waits until armed unit `unit` latches: the counter runs to its
    /// target. The latched flag is then acknowledged.
    pub fn wait(&mut self, unit: usize)
        requires
            old(self).wf(),
            unit < UNIT_COUNT,
            old(self).units@[unit as int].armed,
        ensures
            final(self).wf(),
            final(self).counter == old(self).units@[unit as int].target,
            final(self).units@[unit as int] == (Comparator {
                armed: false,
                interrupt_pending: false,
                ..old(self).units@[unit as int]
            }),
            forall|i: int|
                0 <= i < UNIT_COUNT && i != unit ==> #[trigger] final(self).units@[i]
                    == old(self).units@[i].latched(
                    old(self).counter,
                    distance(old(self).counter, old(self).units@[unit as int].target) as u64,
                ),
    {
        let target = self.units[unit].target;
        let d = ticks_until(self.counter, target);
        proof {
            lemma_distance_lands(self.counter, target);
        }
        self.advance(d);
        self.clear_interrupt(unit);
    }
}

} // verus!
