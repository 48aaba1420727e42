//! Wakers of polled scans: each fires at most once, and none fires after its
//! scanner was closed.

use vstd::prelude::*;

verus! {

/// The state of one waker, which all of its clones share under a lock.
#[derive(Clone, Copy, Debug, PartialEq, Eq, Structural)]
pub struct CWakerState {
    /// The callback was entered.
    pub fired: bool,
    /// The callback must not be entered any more.
    pub cancelled: bool,
    /// The callback is running.
    pub active: bool,
}

/// A waker that has not fired.
pub open spec fn idle_waker() -> CWakerState {
    CWakerState { fired: false, cancelled: false, active: false }
}

/// What happens to a waker, one locked section at a time.
#[derive(Clone, Copy, Debug, PartialEq, Eq, Structural)]
pub enum WakerEvent {
    /// A clone wakes.
    Wake,
    /// The callback returns.
    Return,
    /// The scanner is closed.
    Cancel,
}

/// Whether a wake enters the callback.
pub open spec fn enters(state: CWakerState) -> bool {
    !state.cancelled && !state.fired
}

/// The state after one event.
pub open spec fn waker_step(state: CWakerState, event: WakerEvent) -> CWakerState {
    match event {
        WakerEvent::Wake => if enters(state) {
            CWakerState { fired: true, active: true, ..state }
        } else {
            state
        },
        WakerEvent::Return => CWakerState { active: false, ..state },
        WakerEvent::Cancel => CWakerState { cancelled: true, ..state },
    }
}

/// The state after the first `n` events.
pub open spec fn waker_run(events: Seq<WakerEvent>, n: int) -> CWakerState
    decreases n,
{
    if n <= 0 {
        idle_waker()
    } else {
        waker_step(waker_run(events, n - 1), events[n - 1])
    }
}

/// Whether event `i` enters the callback.
pub open spec fn enters_at(events: Seq<WakerEvent>, i: int) -> bool {
    &&& 0 <= i < events.len()
    &&& events[i] == WakerEvent::Wake
    &&& enters(waker_run(events, i))
}

impl Default for CWakerState {
    fn default() -> (state: CWakerState)
        ensures
            state == idle_waker(),
    {
        CWakerState { fired: false, cancelled: false, active: false }
    }
}

impl CWakerState {
    /// A clone wakes: says whether it must call the callback, and call
    /// `callback_returned` afterwards.
    pub fn wake_once(&mut self) -> (enter: bool)
        ensures
            enter == enters(*old(self)),
            *final(self) == waker_step(*old(self), WakerEvent::Wake),
    {
        if self.cancelled || self.fired {
            return false;
        }
        self.fired = true;
        self.active = true;
        true
    }

    /// The callback has returned.
    pub fn callback_returned(&mut self)
        ensures
            *final(self) == waker_step(*old(self), WakerEvent::Return),
    {
        self.active = false;
    }

    /// No clone may enter the callback any more.
    pub fn cancel(&mut self)
        ensures
            *final(self) == waker_step(*old(self), WakerEvent::Cancel),
    {
        self.cancelled = true;
    }

    /// Whether no callback is running.
    pub fn is_quiescent(&self) -> (quiescent: bool)
        ensures
            quiescent == !self.active,
    {
        !self.active
    }
}

/// What was set stays set.
proof fn lemma_waker_flags_stay(events: Seq<WakerEvent>, i: int, j: int)
    requires
        0 <= i <= j <= events.len(),
    ensures
        waker_run(events, i).fired ==> waker_run(events, j).fired,
        waker_run(events, i).cancelled ==> waker_run(events, j).cancelled,
    decreases j - i,
{
    if i < j {
        lemma_waker_flags_stay(events, i, j - 1);
    }
}

/// Whatever its clones do and in whatever order, a waker enters its callback at
/// most once.
pub proof fn law_waker_fires_at_most_once(events: Seq<WakerEvent>, i: int, j: int)
    requires
        enters_at(events, i),
        enters_at(events, j),
    ensures
        i == j,
{
    if i < j {
        lemma_waker_flags_stay(events, i + 1, j);
    }
    if j < i {
        lemma_waker_flags_stay(events, j + 1, i);
    }
}

/// What is set was set by an event.
proof fn lemma_waker_flags_come_from_events(events: Seq<WakerEvent>, n: int)
    requires
        0 <= n <= events.len(),
    ensures
        waker_run(events, n).fired ==> exists|k: int|
            0 <= k < n && #[trigger] events[k] == WakerEvent::Wake,
        waker_run(events, n).cancelled ==> exists|k: int|
            0 <= k < n && #[trigger] events[k] == WakerEvent::Cancel,
    decreases n,
{
    if n > 0 {
        lemma_waker_flags_come_from_events(events, n - 1);
    }
}

/// The first wake of a waker that was not cancelled before does enter the callback.
pub proof fn law_first_wake_enters(events: Seq<WakerEvent>, i: int)
    requires
        0 <= i < events.len(),
        events[i] == WakerEvent::Wake,
        forall|k: int|
            0 <= k < i ==> #[trigger] events[k] != WakerEvent::Wake && events[k]
                != WakerEvent::Cancel,
    ensures
        enters_at(events, i),
{
    lemma_waker_flags_come_from_events(events, i);
}

/// A waker that was cancelled never enters its callback afterwards.
pub proof fn law_cancelled_waker_never_fires(events: Seq<WakerEvent>, cancelled: int, i: int)
    requires
        0 <= cancelled < events.len(),
        events[cancelled] == WakerEvent::Cancel,
        enters_at(events, i),
    ensures
        i < cancelled,
{
    if cancelled < i {
        lemma_waker_flags_stay(events, cancelled + 1, i);
    }
}

/// Once a cancelled waker is quiescent, no callback of it runs ever again.
pub proof fn law_quiescent_cancelled_waker_stays_quiet(
    events: Seq<WakerEvent>,
    at: int,
    later: int,
)
    requires
        0 <= at <= later <= events.len(),
        waker_run(events, at).cancelled,
        !waker_run(events, at).active,
    ensures
        !waker_run(events, later).active,
    decreases later - at,
{
    if at < later {
        law_quiescent_cancelled_waker_stays_quiet(events, at, later - 1);
        lemma_waker_flags_stay(events, at, later - 1);
    }
}

/// The wakers of one scanner. `W` names a waker; the ones that no stream holds
/// any more are dropped when the next is registered.
pub struct PollWakerRegistry<W> {
    retired: bool,
    registrations: Vec<W>,
}

/// The registrations that are alive, in order.
pub open spec fn still_alive<W>(registrations: Seq<W>, alive: Seq<bool>, n: int) -> Seq<W>
    decreases n,
{
    if n <= 0 {
        Seq::empty()
    } else if alive[n - 1] {
        still_alive(registrations, alive, n - 1).push(registrations[n - 1])
    } else {
        still_alive(registrations, alive, n - 1)
    }
}

impl<W: Copy> PollWakerRegistry<W> {
    /// Whether the scanner was closed.
    pub closed spec fn is_retired(&self) -> bool {
        self.retired
    }

    /// The wakers that closing must cancel.
    pub closed spec fn registered(&self) -> Seq<W> {
        self.registrations@
    }

    /// A registry without wakers.
    pub fn new() -> (registry: PollWakerRegistry<W>)
        ensures
            !registry.is_retired(),
            registry.registered() == Seq::<W>::empty(),
    {
        PollWakerRegistry { retired: false, registrations: Vec::new() }
    }

    /// The wakers in the order of their registration.
    pub fn registrations(&self) -> (registrations: &Vec<W>)
        ensures
            registrations@ == self.registered(),
    {
        &self.registrations
    }

    /// Registers a waker. `alive` tells for each registered waker whether a
    /// stream still holds it. Says whether the new waker must be cancelled
    /// because the scanner was closed.
    pub fn register(&mut self, registration: W, alive: &Vec<bool>) -> (cancel: bool)
        requires
            alive@.len() == old(self).registered().len(),
        ensures
            cancel == old(self).is_retired(),
            final(self).is_retired() == old(self).is_retired(),
            final(self).registered() == ({
                let kept = still_alive(
                    old(self).registered(),
                    alive@,
                    old(self).registered().len() as int,
                );
                if cancel {
                    kept
                } else {
                    kept.push(registration)
                }
            }),
    {
        let ghost before = self.registrations@;
        let mut kept: Vec<W> = Vec::new();
        let mut i: usize = 0;
        while i < self.registrations.len()
            invariant
                self.registrations@ == before,
                alive@.len() == before.len(),
                i <= before.len(),
                kept@ == still_alive(before, alive@, i as int),
            decreases self.registrations.len() - i,
        {
            if alive[i] {
                kept.push(self.registrations[i]);
            }
            i += 1;
        }
        let retired: bool = self.retired;
        if !retired {
            kept.push(registration);
        }
        self.registrations = kept;
        retired
    }

    /// Closes the scanner: gives every registered waker. The caller cancels all
    /// of them before it waits for any.
    pub fn retire(&mut self) -> (registrations: Vec<W>)
        ensures
            registrations@ == old(self).registered(),
            final(self).is_retired(),
            final(self).registered() == Seq::<W>::empty(),
    {
        self.retired = true;
        let mut registrations: Vec<W> = Vec::new();
        std::mem::swap(&mut registrations, &mut self.registrations);
        registrations
    }
}

/// Every waker that is registered and alive when the next one is registered is
/// kept until the scanner is closed.
pub proof fn law_live_wakers_stay_registered<W>(
    registrations: Seq<W>,
    alive: Seq<bool>,
    n: int,
    i: int,
)
    requires
        registrations.len() == alive.len(),
        0 <= i < n <= registrations.len(),
        alive[i],
    ensures
        still_alive(registrations, alive, n).contains(registrations[i]),
    decreases n,
{
    if i < n - 1 {
        law_live_wakers_stay_registered(registrations, alive, n - 1, i);
        let earlier = still_alive(registrations, alive, n - 1);
        let now = still_alive(registrations, alive, n);
        let k = choose|k: int| 0 <= k < earlier.len() && earlier[k] == registrations[i];
        assert(now[k] == registrations[i]);
    } else {
        let now = still_alive(registrations, alive, n);
        assert(now[now.len() - 1] == registrations[i]);
    }
}

/// A waker fires if and only if it was neither cancelled nor fired before; it is then
/// fired and its callback under way. A return ends the callback, a cancellation cancels
/// the waker, and nothing else changes.
pub proof fn law_waker_events_change_their_own_flag(state: CWakerState)
    ensures
        !idle_waker().fired && !idle_waker().cancelled && !idle_waker().active,
        enters(state) <==> !state.fired && !state.cancelled,
        waker_step(state, WakerEvent::Wake).cancelled == state.cancelled,
        !state.fired && !state.cancelled ==> waker_step(state, WakerEvent::Wake).fired
            && waker_step(state, WakerEvent::Wake).active,
        state.fired || state.cancelled ==> waker_step(state, WakerEvent::Wake) == state,
        waker_step(state, WakerEvent::Return).fired == state.fired && waker_step(
            state,
            WakerEvent::Return,
        ).cancelled == state.cancelled && !waker_step(state, WakerEvent::Return).active,
        waker_step(state, WakerEvent::Cancel).fired == state.fired && waker_step(
            state,
            WakerEvent::Cancel,
        ).cancelled && waker_step(state, WakerEvent::Cancel).active == state.active,
{
}

/// Going through the registrations in order, one that is alive is kept behind the
/// earlier ones, and one that is not is dropped.
pub proof fn law_only_live_wakers_are_kept<W>(registrations: Seq<W>, alive: Seq<bool>, n: int)
    requires
        0 <= n < registrations.len(),
        registrations.len() == alive.len(),
    ensures
        still_alive(registrations, alive, 0).len() == 0,
        alive[n] ==> still_alive(registrations, alive, n + 1).len() == still_alive(
            registrations,
            alive,
            n,
        ).len() + 1,
        alive[n] ==> still_alive(registrations, alive, n + 1).last() == registrations[n],
        alive[n] ==> still_alive(registrations, alive, n + 1).drop_last() == still_alive(
            registrations,
            alive,
            n,
        ),
        !alive[n] ==> still_alive(registrations, alive, n + 1) == still_alive(
            registrations,
            alive,
            n,
        ),
{
    if alive[n] {
        assert(still_alive(registrations, alive, n + 1).drop_last() =~= still_alive(
            registrations,
            alive,
            n,
        ));
    }
}

} // verus!
