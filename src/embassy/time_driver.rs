//! The time driver: a table of alarm slots, one per comparator unit, behind
//! the four operations a cooperative scheduler calls (`now`, `allocate_alarm`,
//! `set_alarm_callback`, `set_alarm`), and the interrupt entry that fires a
//! slot's callback.
use vstd::prelude::*;
use crate::systimer::{BIT_MASK, UNIT_COUNT, Comparator, SystemTimer, distance, lemma_wrap_once, period};

verus! {

/// Number of alarm slots: one for each comparator unit.
pub const ALARM_COUNT: usize = UNIT_COUNT;

/// Deadline of a slot that waits for nothing.
pub const UNSET: u64 = 0xFFFF_FFFF_FFFF_FFFF;

/// A scheduler callback: the address of the function to call and the
/// opaque context it is called with.
#[derive(Clone, Copy, PartialEq, Eq, Debug)]
pub struct AlarmCallback {
    pub func: usize,
    pub ctx: usize,
}

/// Identifies one slot and its comparator unit for the life of its owner.
#[derive(Clone, Copy, PartialEq, Eq, Debug)]
pub struct AlarmHandle {
    pub id: u8,
}

impl AlarmHandle {
    pub fn new(id: u8) -> (h: AlarmHandle)
        ensures
            h.id == id,
    {
        AlarmHandle { id }
    }

    pub fn id(&self) -> (r: u8)
        ensures
            r == self.id,
    {
        self.id
    }
}

/// The bookkeeping record of one slot.
#[derive(Clone, Copy, PartialEq, Eq, Debug)]
pub struct AlarmState {
    /// Deadline in ticks; `UNSET` when the slot waits for nothing.
    pub timestamp: u64,
    pub callback: Option<AlarmCallback>,
    /// Whether an owner holds the slot.
    pub allocated: bool,
}

impl AlarmState {
    pub open spec fn fresh() -> AlarmState {
        AlarmState { timestamp: UNSET, callback: None, allocated: false }
    }

    /// A free slot with no deadline and no callback.
    pub fn new() -> (s: AlarmState)
        ensures
            s == AlarmState::fresh(),
    {
        AlarmState { timestamp: UNSET, callback: None, allocated: false }
    }
}

/// Index of the first free slot at or after `i`; `s.len()` when there is none.
pub open spec fn first_free(s: Seq<AlarmState>, i: int) -> int
    decreases s.len() - i,
{
    if i < 0 || i >= s.len() {
        s.len() as int
    } else if !s[i].allocated {
        i
    } else {
        first_free(s, i + 1)
    }
}

/// Number of free slots at or after `i`.
pub open spec fn free_from(s: Seq<AlarmState>, i: int) -> nat
    decreases s.len() - i,
{
    if i < 0 || i >= s.len() {
        0
    } else {
        (if s[i].allocated { 0nat } else { 1nat }) + free_from(s, i + 1)
    }
}

/// Number of free slots in the table.
pub open spec fn free_count(s: Seq<AlarmState>) -> nat {
    free_from(s, 0)
}

/// One allocation on table `s`: the first free slot is taken and its handle
/// returned; on a full table nothing changes and no handle comes back.
pub open spec fn allocation(s: Seq<AlarmState>) -> (Seq<AlarmState>, Option<AlarmHandle>) {
    let k = first_free(s, 0);
    if k < s.len() {
        (s.update(k, AlarmState { allocated: true, ..s[k] }), Some(AlarmHandle { id: k as u8 }))
    } else {
        (s, None)
    }
}

/// The table after `n` allocations in a row.
pub open spec fn after_allocations(s: Seq<AlarmState>, n: nat) -> Seq<AlarmState>
    decreases n,
{
    if n == 0 {
        s
    } else {
        allocation(after_allocations(s, (n - 1) as nat)).0
    }
}

/// The table after slot `id` was given `cb`.
pub open spec fn with_callback(s: Seq<AlarmState>, id: int, cb: AlarmCallback) -> Seq<AlarmState> {
    s.update(id, AlarmState { callback: Some(cb), ..s[id] })
}

/// A slot whose alarm has fired: it waits for nothing until armed again.
pub open spec fn fired_slot(s: AlarmState) -> AlarmState {
    AlarmState { timestamp: UNSET, ..s }
}

/// The comparator to which `set_alarm` programs a future `deadline`: a deadline
/// beyond the counter's range saturates to its last value.
pub open spec fn armed_for(u: Comparator, deadline: u64) -> Comparator {
    Comparator {
        target: if deadline <= BIT_MASK { deadline } else { BIT_MASK },
        armed: true,
        interrupt_enabled: true,
        ..u
    }
}

/// Every unit after the counter ran `ticks` from `counter`.
pub open spec fn latched_all(units: Seq<Comparator>, counter: u64, ticks: u64) -> Seq<Comparator> {
    Seq::new(units.len(), |i: int| units[i].latched(counter, ticks))
}

/// The callbacks that units `0..n` fire, in unit order: those of the raised
/// units whose slot holds a callback.
pub open spec fn fired_upto(slots: Seq<AlarmState>, units: Seq<Comparator>, n: int) -> Seq<AlarmCallback>
    decreases n,
{
    if n <= 0 {
        seq![]
    } else {
        let prev = fired_upto(slots, units, n - 1);
        if units[n - 1].raised() {
            match slots[n - 1].callback {
                Some(cb) => prev.push(cb),
                None => prev,
            }
        } else {
            prev
        }
    }
}

/// A unit after the counter ran `ticks` from `counter` and the interrupt it
/// raised, if any, was served.
pub open spec fn served(u: Comparator, counter: u64, ticks: u64) -> Comparator {
    Comparator { interrupt_pending: false, ..u.latched(counter, ticks) }
}

/// Number of the runs `steps` of the counter, one after the other from
/// `counter`, in which unit `u` raises its interrupt, each served at once.
pub open spec fn fire_count(u: Comparator, counter: u64, steps: Seq<u64>) -> nat
    decreases steps.len(),
{
    if steps.len() == 0 {
        0
    } else {
        let t = steps[0];
        (if u.latched(counter, t).raised() { 1nat } else { 0nat }) + fire_count(
            served(u, counter, t),
            ((counter + t) % period()) as u64,
            steps.drop_first(),
        )
    }
}

/// Total ticks of the runs `steps`.
pub open spec fn total(steps: Seq<u64>) -> int
    decreases steps.len(),
{
    if steps.len() == 0 {
        0
    } else {
        steps[0] + total(steps.drop_first())
    }
}

proof fn lemma_total_nonneg(steps: Seq<u64>)
    ensures
        total(steps) >= 0,
    decreases steps.len(),
{
    if steps.len() > 0 {
        lemma_total_nonneg(steps.drop_first());
    }
}

proof fn lemma_first_free(s: Seq<AlarmState>, i: int)
    requires
        0 <= i <= s.len(),
    ensures
        free_from(s, i) <= s.len() - i,
        (first_free(s, i) < s.len()) == (free_from(s, i) > 0),
        first_free(s, i) < s.len() ==> i <= first_free(s, i) && !s[first_free(s, i)].allocated,
    decreases s.len() - i,
{
    if i < s.len() {
        lemma_first_free(s, i + 1);
    }
}

proof fn lemma_free_after_taking(s: Seq<AlarmState>, i: int, k: int)
    requires
        0 <= i <= s.len(),
        0 <= k < s.len(),
        !s[k].allocated,
    ensures
        free_from(s.update(k, AlarmState { allocated: true, ..s[k] }), i) == free_from(s, i) - (if i
            <= k {
            1int
        } else {
            0int
        }),
    decreases s.len() - i,
{
    if i < s.len() {
        lemma_free_after_taking(s, i + 1, k);
    }
}

proof fn lemma_allocation_step(s: Seq<AlarmState>)
    ensures
        allocation(s).0.len() == s.len(),
        allocation(s).1 is Some <==> free_count(s) > 0,
        free_count(allocation(s).0) == if free_count(s) > 0 {
            free_count(s) - 1
        } else {
            0
        },
{
    lemma_first_free(s, 0);
    let k = first_free(s, 0);
    if k < s.len() {
        lemma_free_after_taking(s, 0, k);
    }
}

/// Allocation never hands out more slots than were free: of the allocations
/// made in a row on table `s`, the one that comes after `n` others succeeds
/// exactly when `n` is below the number of free slots, which is at most the
/// number of slots. Every later one reports exhaustion.
pub proof fn lemma_allocation_exhausts(s: Seq<AlarmState>, n: nat)
    ensures
        free_count(s) <= s.len(),
        after_allocations(s, n).len() == s.len(),
        free_count(after_allocations(s, n)) == if n < free_count(s) {
            free_count(s) - n
        } else {
            0
        },
        allocation(after_allocations(s, n)).1 is Some <==> n < free_count(s),
    decreases n,
{
    lemma_first_free(s, 0);
    if n > 0 {
        lemma_allocation_exhausts(s, (n - 1) as nat);
        lemma_allocation_step(after_allocations(s, (n - 1) as nat));
    }
    lemma_allocation_step(after_allocations(s, n));
}

/// Giving a slot the same callback twice leaves the table as giving it once.
pub proof fn lemma_set_callback_idempotent(s: Seq<AlarmState>, id: int, cb: AlarmCallback)
    requires
        0 <= id < s.len(),
    ensures
        with_callback(with_callback(s, id, cb), id, cb) == with_callback(s, id, cb),
{
    assert(with_callback(with_callback(s, id, cb), id, cb) =~= with_callback(s, id, cb));
}

proof fn lemma_disarmed_never_fires(u: Comparator, counter: u64, steps: Seq<u64>)
    requires
        !u.armed,
        !u.interrupt_pending,
    ensures
        fire_count(u, counter, steps) == 0,
    decreases steps.len(),
{
    if steps.len() > 0 {
        lemma_disarmed_never_fires(u, ((counter + steps[0]) % period()) as u64, steps.drop_first());
    }
}

proof fn lemma_armed_fires_once(u: Comparator, counter: u64, steps: Seq<u64>)
    requires
        u.armed,
        u.interrupt_enabled,
        !u.interrupt_pending,
        u.target <= BIT_MASK,
        counter <= BIT_MASK,
        distance(counter, u.target) > 0,
        forall|i: int| 0 <= i < steps.len() ==> #[trigger] steps[i] <= BIT_MASK,
    ensures
        fire_count(u, counter, steps) == if total(steps) >= distance(counter, u.target) {
            1nat
        } else {
            0nat
        },
    decreases steps.len(),
{
    if steps.len() > 0 {
        let t = steps[0];
        let rest = steps.drop_first();
        let next = ((counter + t) % period()) as u64;
        lemma_wrap_once(counter + t);
        lemma_total_nonneg(rest);
        assert forall|i: int| 0 <= i < rest.len() implies #[trigger] rest[i] <= BIT_MASK by {
            assert(rest[i] == steps[i + 1]);
        }
        if distance(counter, u.target) <= t {
            lemma_disarmed_never_fires(served(u, counter, t), next, rest);
        } else {
            assert(served(u, counter, t) == u);
            assert(distance(next, u.target) == distance(counter, u.target) - t);
            lemma_armed_fires_once(u, next, rest);
        }
    }
}

/// Once `set_alarm` has armed a slot's unit for a deadline after the current
/// tick (and within the counter's range), the callback is not fired at once;
/// over any later runs of the counter, each under one period, the unit then
/// raises its interrupt exactly once if the runs together reach the deadline,
/// and never if they do not.
pub proof fn lemma_future_alarm_fires_once(u: Comparator, now: u64, deadline: u64, steps: Seq<u64>)
    requires
        now < deadline <= BIT_MASK,
        !u.interrupt_pending,
        forall|i: int| 0 <= i < steps.len() ==> #[trigger] steps[i] <= BIT_MASK,
    ensures
        fire_count(armed_for(u, deadline), now, steps) == if total(steps) >= deadline - now {
            1nat
        } else {
            0nat
        },
{
    lemma_armed_fires_once(armed_for(u, deadline), now, steps);
}

/// Relies on critical_section::with: it calls `f` once, with interrupts
/// masked, and hands back what `f` returned.
#[verifier::external_body]
fn critical<S, A, R, F: FnOnce(S, A) -> (S, R)>(state: S, arg: A, f: F) -> (r: (S, R))
    requires
        f.requires((state, arg)),
    ensures
        f.ensures((state, arg), r),
{
    critical_section::with(|_| f(state, arg))
}

/// The driver: the slot table and the system timer whose units it arms.
pub struct EmbassyTimer {
    pub alarms: Vec<AlarmState>,
    pub systimer: SystemTimer,
}

// Each operation on the slot table runs as one of the `*_locked` functions
// below: the driver's whole state is moved into a critical section, changed
// there, and moved back. The predicates state what each one does.

spec fn allocated_in(pre: EmbassyTimer, post: EmbassyTimer, r: Option<AlarmHandle>) -> bool {
    &&& (post.alarms@, r) == allocation(pre.alarms@)
    &&& post.systimer == pre.systimer
}

spec fn callback_set_in(pre: EmbassyTimer, post: EmbassyTimer, id: int, cb: AlarmCallback) -> bool {
    &&& post.alarms@ == with_callback(pre.alarms@, id, cb)
    &&& post.systimer == pre.systimer
}

spec fn triggered_in(pre: EmbassyTimer, post: EmbassyTimer, id: int, r: Option<AlarmCallback>) -> bool {
    &&& r == pre.alarms@[id].callback
    &&& post.alarms@ == pre.alarms@.update(id, fired_slot(pre.alarms@[id]))
}

spec fn alarm_set_in(
    pre: EmbassyTimer,
    post: EmbassyTimer,
    id: int,
    timestamp: u64,
    r: Option<AlarmCallback>,
) -> bool {
    if timestamp <= pre.systimer.counter {
        &&& triggered_in(pre, post, id, r)
        &&& post.systimer == pre.systimer
    } else {
        &&& r is None
        &&& post.alarms@ == pre.alarms@.update(id, AlarmState { timestamp, ..pre.alarms@[id] })
        &&& post.systimer.counter == pre.systimer.counter
        &&& post.systimer.units@ == pre.systimer.units@.update(
            id,
            armed_for(pre.systimer.units@[id], timestamp),
        )
    }
}

fn allocate_locked(t0: EmbassyTimer, _arg: ()) -> (r: (EmbassyTimer, Option<AlarmHandle>))
    requires
        t0.wf(),
    ensures
        r.0.wf(),
        allocated_in(t0, r.0, r.1),
{
    let mut t = t0;
    let ghost s0 = t.alarms@;
    let mut i: usize = 0;
    while i < ALARM_COUNT
        invariant
            i <= ALARM_COUNT,
            t.wf(),
            t.alarms@ == s0,
            s0 == t0.alarms@,
            t.systimer == t0.systimer,
            first_free(s0, 0) == first_free(s0, i as int),
        decreases ALARM_COUNT - i,
    {
        let c = t.alarms[i];
        if !c.allocated {
            t.alarms.set(i, AlarmState { allocated: true, ..c });
            assert(first_free(s0, i as int) == i);
            return (t, Some(AlarmHandle::new(i as u8)));
        }
        i = i + 1;
    }
    (t, None)
}

fn set_callback_locked(t0: EmbassyTimer, arg: (usize, AlarmCallback)) -> (r: (EmbassyTimer, ()))
    requires
        t0.wf(),
        arg.0 < ALARM_COUNT,
    ensures
        r.0.wf(),
        callback_set_in(t0, r.0, arg.0 as int, arg.1),
{
    let mut t = t0;
    t.store_callback(arg.0, arg.1);
    (t, ())
}

fn set_alarm_locked(t0: EmbassyTimer, arg: (usize, u64)) -> (r: (EmbassyTimer, Option<AlarmCallback>))
    requires
        t0.wf(),
        arg.0 < ALARM_COUNT,
    ensures
        r.0.wf(),
        alarm_set_in(t0, r.0, arg.0 as int, arg.1, r.1),
{
    let mut t = t0;
    let r = t.arm(arg.0, arg.1);
    (t, r)
}

fn trigger_locked(t0: EmbassyTimer, n: usize) -> (r: (EmbassyTimer, Option<AlarmCallback>))
    requires
        t0.alarms@.len() == ALARM_COUNT,
        n < ALARM_COUNT,
    ensures
        r.0.alarms@.len() == ALARM_COUNT,
        r.0.systimer == t0.systimer,
        triggered_in(t0, r.0, n as int, r.1),
{
    let mut t = t0;
    let r = t.trigger_alarm(n);
    (t, r)
}

impl EmbassyTimer {
    pub open spec fn wf(&self) -> bool {
        &&& self.alarms@.len() == ALARM_COUNT
        &&& self.systimer.wf()
        &&& forall|i: int|
            0 <= i < ALARM_COUNT ==> (#[trigger] self.systimer.units@[i]).armed
                ==> self.systimer.units@[i].interrupt_enabled
        &&& forall|i: int| 0 <= i < ALARM_COUNT ==> !(#[trigger] self.systimer.units@[i]).interrupt_pending
    }

    /// The driver as `init` leaves it on `systimer`: well formed, every slot
    /// free, the counter where it stood, and every unit's interrupt
    /// acknowledged and enabled.
    pub open spec fn started_on(&self, systimer: SystemTimer) -> bool {
        &&& self.wf()
        &&& self.systimer.counter == systimer.counter
        &&& forall|i: int| 0 <= i < ALARM_COUNT ==> #[trigger] self.alarms@[i] == AlarmState::fresh()
        &&& forall|i: int|
            0 <= i < ALARM_COUNT ==> #[trigger] self.systimer.units@[i] == (Comparator {
                interrupt_enabled: true,
                interrupt_pending: false,
                ..systimer.units@[i]
            })
    }

    /// Moves the driver's state out, leaving an empty one behind.
    fn take(&mut self) -> (t: EmbassyTimer)
        ensures
            t == *old(self),
    {
        let mut t = EmbassyTimer { alarms: Vec::new(), systimer: SystemTimer { counter: 0, units: Vec::new() } };
        std::mem::swap(&mut t, self);
        t
    }

    /// The current tick count.
    pub fn now(&self) -> (r: u64)
        ensures
            r == self.systimer.counter,
    {
        self.systimer.now()
    }

    /// Takes the first free slot and returns its handle, or `None` when every
    /// slot is held.
    pub fn allocate_alarm(&mut self) -> (r: Option<AlarmHandle>)
        requires
            old(self).wf(),
        ensures
            final(self).wf(),
            (final(self).alarms@, r) == allocation(old(self).alarms@),
            final(self).systimer == old(self).systimer,
    {
        let t = self.take();
        let (t, r) = critical(t, (), allocate_locked);
        *self = t;
        r
    }

    fn store_callback(&mut self, id: usize, cb: AlarmCallback)
        requires
            old(self).wf(),
            id < ALARM_COUNT,
        ensures
            final(self).wf(),
            callback_set_in(*old(self), *final(self), id as int, cb),
    {
        let s = self.alarms[id];
        self.alarms.set(id, AlarmState { callback: Some(cb), ..s });
    }

    /// Stores the callback that the slot of `alarm` fires.
    pub fn set_alarm_callback(&mut self, alarm: AlarmHandle, callback: usize, ctx: usize)
        requires
            old(self).wf(),
            alarm.id < ALARM_COUNT,
            old(self).alarms@[alarm.id as int].allocated,
        ensures
            final(self).wf(),
            final(self).alarms@ == with_callback(
                old(self).alarms@,
                alarm.id as int,
                AlarmCallback { func: callback, ctx },
            ),
            final(self).systimer == old(self).systimer,
    {
        let cb = AlarmCallback { func: callback, ctx };
        let t = self.take();
        let (t, _) = critical(t, (alarm.id() as usize, cb), set_callback_locked);
        *self = t;
    }

    /// Marks slot `n` as fired and returns the callback to invoke.
    fn trigger_alarm(&mut self, n: usize) -> (r: Option<AlarmCallback>)
        requires
            old(self).alarms@.len() == ALARM_COUNT,
            n < ALARM_COUNT,
        ensures
            final(self).alarms@.len() == ALARM_COUNT,
            final(self).systimer == old(self).systimer,
            triggered_in(*old(self), *final(self), n as int, r),
    {
        let s = self.alarms[n];
        self.alarms.set(n, AlarmState { timestamp: UNSET, ..s });
        s.callback
    }

    fn arm(&mut self, id: usize, timestamp: u64) -> (r: Option<AlarmCallback>)
        requires
            old(self).wf(),
            id < ALARM_COUNT,
        ensures
            final(self).wf(),
            alarm_set_in(*old(self), *final(self), id as int, timestamp, r),
    {
        let now = self.now();
        if timestamp <= now {
            return self.trigger_alarm(id);
        }
        let s = self.alarms[id];
        self.alarms.set(id, AlarmState { timestamp, ..s });
        let target = if timestamp <= BIT_MASK {
            timestamp
        } else {
            BIT_MASK
        };
        self.systimer.set_target(id, target);
        self.systimer.enable_interrupt(id);
        assert(self.systimer.units@ =~= old(self).systimer.units@.update(
            id as int,
            armed_for(old(self).systimer.units@[id as int], timestamp),
        ));
        None
    }

    /// Arms the slot of `alarm` for `timestamp`. A deadline at or before the
    /// current tick is due already: nothing is programmed, and the slot's
    /// callback is returned to be invoked at once. A later deadline is stored
    /// and programmed into the slot's unit, with its interrupt enabled, and
    /// nothing is returned.
    pub fn set_alarm(&mut self, alarm: AlarmHandle, timestamp: u64) -> (r: Option<AlarmCallback>)
        requires
            old(self).wf(),
            alarm.id < ALARM_COUNT,
            old(self).alarms@[alarm.id as int].allocated,
        ensures
            final(self).wf(),
            timestamp <= old(self).systimer.counter ==> {
                &&& r == old(self).alarms@[alarm.id as int].callback
                &&& final(self).alarms@ == old(self).alarms@.update(
                    alarm.id as int,
                    fired_slot(old(self).alarms@[alarm.id as int]),
                )
                &&& final(self).systimer == old(self).systimer
            },
            timestamp > old(self).systimer.counter ==> {
                &&& r is None
                &&& final(self).alarms@ == old(self).alarms@.update(
                    alarm.id as int,
                    AlarmState { timestamp, ..old(self).alarms@[alarm.id as int] },
                )
                &&& final(self).systimer.counter == old(self).systimer.counter
                &&& final(self).systimer.units@ == old(self).systimer.units@.update(
                    alarm.id as int,
                    armed_for(old(self).systimer.units@[alarm.id as int], timestamp),
                )
            },
    {
        let t = self.take();
        let (t, r) = critical(t, (alarm.id() as usize, timestamp), set_alarm_locked);
        *self = t;
        r
    }

    /// The interrupt entry of unit `id`: acknowledges the unit's interrupt,
    /// marks the slot as fired and returns its callback to invoke.
    pub fn on_interrupt(&mut self, id: u8) -> (r: Option<AlarmCallback>)
        requires
            old(self).alarms@.len() == ALARM_COUNT,
            old(self).systimer.wf(),
            id < ALARM_COUNT,
        ensures
            final(self).alarms@ == old(self).alarms@.update(id as int, fired_slot(old(self).alarms@[id as int])),
            r == old(self).alarms@[id as int].callback,
            final(self).systimer.wf(),
            final(self).systimer.counter == old(self).systimer.counter,
            final(self).systimer.units@ == old(self).systimer.units@.update(
                id as int,
                Comparator { interrupt_pending: false, ..old(self).systimer.units@[id as int] },
            ),
    {
        self.systimer.clear_interrupt(id as usize);
        let t = self.take();
        let (t, r) = critical(t, id as usize, trigger_locked);
        *self = t;
        r
    }

    /// The counter runs `ticks` (less than one period). Each unit that
    /// reaches its target on the way raises its interrupt, which is served
    /// at once, in unit order; the callbacks to invoke are returned in that
    /// order.
    pub fn advance(&mut self, ticks: u64) -> (fired: Vec<AlarmCallback>)
        requires
            old(self).wf(),
            ticks <= BIT_MASK,
        ensures
            final(self).wf(),
            final(self).systimer.counter == (old(self).systimer.counter + ticks) % period(),
            forall|i: int|
                #![trigger final(self).systimer.units@[i]]
                #![trigger final(self).alarms@[i]]
                0 <= i < ALARM_COUNT ==> {
                    let u = old(self).systimer.units@[i];
                    let c = old(self).systimer.counter;
                    &&& final(self).systimer.units@[i] == served(u, c, ticks)
                    &&& final(self).alarms@[i] == if u.latched(c, ticks).raised() {
                        fired_slot(old(self).alarms@[i])
                    } else {
                        old(self).alarms@[i]
                    }
                },
            fired@ == fired_upto(
                old(self).alarms@,
                latched_all(old(self).systimer.units@, old(self).systimer.counter, ticks),
                ALARM_COUNT as int,
            ),
    {
        let ghost a0 = self.alarms@;
        let ghost u0 = self.systimer.units@;
        let ghost c0 = self.systimer.counter;
        self.systimer.advance(ticks);
        let ghost l = self.systimer.units@;
        assert(l =~= latched_all(u0, c0, ticks));
        let mut fired: Vec<AlarmCallback> = Vec::new();
        let mut n: usize = 0;
        while n < ALARM_COUNT
            invariant
                n <= ALARM_COUNT,
                self.alarms@.len() == ALARM_COUNT,
                self.systimer.wf(),
                self.systimer.counter == (c0 + ticks) % period(),
                l == latched_all(u0, c0, ticks),
                u0.len() == ALARM_COUNT,
                a0.len() == ALARM_COUNT,
                forall|j: int|
                    0 <= j < ALARM_COUNT ==> (#[trigger] u0[j]).armed ==> u0[j].interrupt_enabled,
                forall|j: int| 0 <= j < ALARM_COUNT ==> !(#[trigger] u0[j]).interrupt_pending,
                forall|j: int|
                    0 <= j < n ==> #[trigger] self.systimer.units@[j] == (Comparator {
                        interrupt_pending: false,
                        ..l[j]
                    }),
                forall|j: int|
                    0 <= j < n ==> #[trigger] self.alarms@[j] == if l[j].raised() {
                        fired_slot(a0[j])
                    } else {
                        a0[j]
                    },
                forall|j: int| n <= j < ALARM_COUNT ==> #[trigger] self.systimer.units@[j] == l[j],
                forall|j: int| n <= j < ALARM_COUNT ==> #[trigger] self.alarms@[j] == a0[j],
                fired@ == fired_upto(a0, l, n as int),
            decreases ALARM_COUNT - n,
        {
            if self.systimer.interrupt_raised(n) {
                let cb = self.on_interrupt(n as u8);
                match cb {
                    Some(c) => {
                        fired.push(c);
                    },
                    None => {},
                }
            }
            n = n + 1;
        }
        fired
    }

    /// The driver on a freshly taken system timer: every slot free, every
    /// unit's interrupt acknowledged and routed to its entry.
    pub fn init(systimer: SystemTimer) -> (t: EmbassyTimer)
        requires
            systimer.wf(),
        ensures
            t.started_on(systimer),
    {
        let mut timer = systimer;
        let ghost u0 = timer.units@;
        let mut alarms: Vec<AlarmState> = Vec::new();
        let mut i: usize = 0;
        while i < ALARM_COUNT
            invariant
                i <= ALARM_COUNT,
                alarms@.len() == i,
                timer.wf(),
                timer.counter == systimer.counter,
                u0.len() == ALARM_COUNT,
                forall|j: int| 0 <= j < i ==> #[trigger] alarms@[j] == AlarmState::fresh(),
                forall|j: int|
                    0 <= j < i ==> #[trigger] timer.units@[j] == (Comparator {
                        interrupt_enabled: true,
                        interrupt_pending: false,
                        ..u0[j]
                    }),
                forall|j: int| i <= j < ALARM_COUNT ==> #[trigger] timer.units@[j] == u0[j],
            decreases ALARM_COUNT - i,
        {
            alarms.push(AlarmState::new());
            timer.clear_interrupt(i);
            timer.enable_interrupt(i);
            i = i + 1;
        }
        EmbassyTimer { alarms, systimer: timer }
    }
}

} // verus!
