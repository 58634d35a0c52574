//! Plugin timers: who asked for one, which are due, which are delivered.
//!
//! A background thread calls [`tick`] every [`TIMER_TICK_MS`]; the main thread
//! delivers what became due. Times are nanoseconds since the program started.

use crate::queue::Queue;
use vstd::prelude::*;

verus! {

/// How often the background thread looks for due timers.
pub const TIMER_TICK_MS: u64 = 5;

/// How many due timer ids wait for the main thread.
pub const TIMER_DUE_CAP: usize = 256;

/// A registered timer and when it last became due.
#[derive(Clone, Copy, Debug, PartialEq, Eq, Structural)]
pub struct Timer {
    pub id: u32,
    pub period_ms: u32,
    pub last: u64,
}

/// The registered timers, in the order in which they were asked for, and the
/// ids that became due and were not delivered yet.
pub struct Timers {
    pub next_id: u32,
    pub timers: Vec<Timer>,
    pub due: Queue<u32>,
}

/// A timer is due once its period has passed. A clock that seems to run
/// backwards counts as standing still.
pub open spec fn is_due(timer: Timer, now: u64) -> bool {
    let elapsed = if now >= timer.last { now - timer.last } else { 0 };
    elapsed >= timer.period_ms * 1_000_000
}

/// A timer after a look at the clock.
pub open spec fn ticked(timer: Timer, now: u64) -> Timer {
    if is_due(timer, now) {
        Timer { last: now, ..timer }
    } else {
        timer
    }
}

/// The ids that are due, in the order of registration.
pub open spec fn due_ids(timers: Seq<Timer>, now: u64) -> Seq<u32>
    decreases timers.len(),
{
    if timers.len() == 0 {
        Seq::empty()
    } else {
        let before = due_ids(timers.drop_last(), now);
        if is_due(timers.last(), now) {
            before.push(timers.last().id)
        } else {
            before
        }
    }
}

/// Whether some registered timer has this id.
pub open spec fn registered(timers: Seq<Timer>, id: u32) -> bool {
    exists|i: int| 0 <= i < timers.len() && (#[trigger] timers[i]).id == id
}

/// The timers whose id is another one, in order.
pub open spec fn without(timers: Seq<Timer>, id: u32) -> Seq<Timer>
    decreases timers.len(),
{
    if timers.len() == 0 {
        Seq::empty()
    } else if timers.last().id == id {
        without(timers.drop_last(), id)
    } else {
        without(timers.drop_last(), id).push(timers.last())
    }
}

impl Timers {
    /// Every id given out so far is below the next one. Holds until the 32-bit
    /// id counter wraps around.
    pub open spec fn ids_are_used_once(self) -> bool {
        forall|i: int| 0 <= i < self.timers@.len() ==> (#[trigger] self.timers@[i]).id < self.next_id
    }

    pub fn new() -> (r: Timers)
        ensures
            r.next_id == 1,
            r.timers@ == Seq::<Timer>::empty(),
            r.due@ == Seq::<u32>::empty(),
            r.due.wf(),
            r.due.capacity() == TIMER_DUE_CAP,
            r.ids_are_used_once(),
    {
        Timers { next_id: 1, timers: Vec::new(), due: Queue::with_capacity(TIMER_DUE_CAP) }
    }
}

/// Register a timer ticking every `period_ms`; returns its id, or `None` if
/// `period_ms` is 0. Ids start at 1.
pub fn request_timer(timers: &mut Timers, period_ms: u32, now: u64) -> (id: Option<u32>)
    ensures
        final(timers).due == old(timers).due,
        period_ms == 0 ==> id is None && *final(timers) == *old(timers),
        period_ms != 0 ==> {
            &&& id == Some(old(timers).next_id)
            &&& final(timers).next_id == old(timers).next_id.wrapping_add(1)
            &&& final(timers).timers@ == old(timers).timers@.push(
                Timer { id: old(timers).next_id, period_ms, last: now },
            )
        },
        old(timers).ids_are_used_once() && old(timers).next_id < u32::MAX ==> {
            &&& final(timers).ids_are_used_once()
            &&& id is Some ==> !registered(old(timers).timers@, id->0)
        },
{
    if period_ms == 0 {
        return None;
    }
    let id: u32 = timers.next_id;
    timers.next_id = id.wrapping_add(1);
    timers.timers.push(Timer { id, period_ms, last: now });
    Some(id)
}

/// Remove a timer. Returns false if the id was not registered.
pub fn cancel_timer(timers: &mut Timers, timer_id: u32) -> (found: bool)
    ensures
        found == registered(old(timers).timers@, timer_id),
        final(timers).timers@ == without(old(timers).timers@, timer_id),
        final(timers).next_id == old(timers).next_id,
        final(timers).due == old(timers).due,
{
    let ghost all = timers.timers@;
    let mut kept: Vec<Timer> = Vec::new();
    let mut i: usize = 0;
    while i < timers.timers.len()
        invariant
            i <= timers.timers@.len(),
            timers.timers@ == all,
            timers.next_id == old(timers).next_id,
            timers.due == old(timers).due,
            kept@ == without(all.take(i as int), timer_id),
            kept@.len() <= i,
            kept@.len() == i <==> !registered(all.take(i as int), timer_id),
        decreases timers.timers@.len() - i,
    {
        let timer = timers.timers[i];
        proof {
            let longer = all.take(i + 1);
            assert(longer.drop_last() =~= all.take(i as int));
            assert(longer.last() == timer);
            assert forall|j: int| 0 <= j < i implies longer[j] == all.take(i as int)[j] by {}
            if registered(all.take(i as int), timer_id) {
                let j = choose|j: int|
                    0 <= j < i && (#[trigger] all.take(i as int)[j]).id == timer_id;
                assert(longer[j].id == timer_id);
            }
            if registered(longer, timer_id) && timer.id != timer_id {
                let j = choose|j: int| 0 <= j < i + 1 && (#[trigger] longer[j]).id == timer_id;
                assert(all.take(i as int)[j].id == timer_id);
            }
            assert(longer[i as int] == timer);
        }
        if timer.id != timer_id {
            kept.push(timer);
        }
        i = i + 1;
    }
    assert(all.take(all.len() as int) =~= all);
    let found = kept.len() != timers.timers.len();
    timers.timers = kept;
    found
}

/// True if `timer_id` is still registered (stale due-ids are dropped).
fn timer_registered(timers: &Vec<Timer>, timer_id: u32) -> (r: bool)
    ensures
        r == registered(timers@, timer_id),
{
    let mut i: usize = 0;
    while i < timers.len()
        invariant
            i <= timers@.len(),
            forall|j: int| 0 <= j < i ==> (#[trigger] timers@[j]).id != timer_id,
        decreases timers@.len() - i,
    {
        if timers[i].id == timer_id {
            return true;
        }
        i = i + 1;
    }
    false
}

/// One look at the clock: every due timer starts its next period, and its id is
/// queued. A full queue means the main thread is stuck; what does not fit is
/// dropped, never waited for.
pub fn tick(timers: &mut Timers, now: u64)
    requires
        old(timers).due.wf(),
    ensures
        final(timers).due.wf(),
        final(timers).due.capacity() == old(timers).due.capacity(),
        final(timers).next_id == old(timers).next_id,
        final(timers).timers@ == old(timers).timers@.map_values(|t: Timer| ticked(t, now)),
        forall|i: int| #![trigger final(timers).timers@[i]]
            0 <= i < old(timers).timers@.len() ==> {
                let (before, after) = (old(timers).timers@[i], final(timers).timers@[i]);
                &&& after.id == before.id
                &&& after.period_ms == before.period_ms
                &&& before.last + before.period_ms * 1_000_000 <= now ==> after.last == now
                &&& before.last <= now < before.last + before.period_ms * 1_000_000 ==> after.last
                    == before.last
            },
        final(timers).due@ == crate::queue::pushed(
            old(timers).due@,
            due_ids(old(timers).timers@, now),
            old(timers).due.capacity(),
        ),
{
    let ghost all = timers.timers@;
    let ghost held = timers.due@;
    let ghost capacity = timers.due.capacity();
    proof {
        assert(due_ids(all.take(0), now) =~= Seq::empty());
        assert(crate::queue::pushed(held, Seq::<u32>::empty(), capacity) =~= held);
    }
    let mut i: usize = 0;
    while i < timers.timers.len()
        invariant
            i <= all.len(),
            timers.timers@.len() == all.len(),
            forall|j: int| 0 <= j < i ==> timers.timers@[j] == ticked(#[trigger] all[j], now),
            forall|j: int| i <= j < all.len() ==> timers.timers@[j] == #[trigger] all[j],
            timers.due.wf(),
            timers.due.capacity() == capacity,
            held.len() <= capacity,
            timers.next_id == old(timers).next_id,
            timers.due@ == crate::queue::pushed(
                held,
                due_ids(all.take(i as int), now),
                capacity,
            ),
        decreases all.len() - i,
    {
        let timer = timers.timers[i];
        let ghost done = due_ids(all.take(i as int), now);
        assert(timer == all[i as int]);
        assert(all.take(i + 1).drop_last() =~= all.take(i as int));
        let elapsed: u64 = now.saturating_sub(timer.last);
        if elapsed >= timer.period_ms as u64 * 1_000_000 {
            timers.timers.set(i, Timer { last: now, ..timer });
            let _ = timers.due.push(timer.id);
            proof {
                crate::queue::pushing_in_batches(held, done, seq![timer.id], capacity);
                assert(done + seq![timer.id] =~= done.push(timer.id));
            }
        }
        i = i + 1;
    }
    assert(all.take(all.len() as int) =~= all);
    assert(timers.timers@ =~= all.map_values(|t: Timer| ticked(t, now)));
}

/// The next timer to fire on the main thread. `on_timer` says whether the plugin
/// can take timers: where it cannot, the queue is emptied so that it does not
/// grow. Ids that are no longer registered are dropped.
pub fn fire_due_timers(timers: &mut Timers, on_timer: bool) -> (id: Option<u32>)
    ensures
        final(timers).timers == old(timers).timers,
        final(timers).next_id == old(timers).next_id,
        final(timers).due.capacity() == old(timers).due.capacity(),
        old(timers).due.wf() ==> final(timers).due.wf(),
        !on_timer ==> id is None && final(timers).due@ == Seq::<u32>::empty(),
        on_timer ==> {
            let wanted = |id: u32| registered(old(timers).timers@, id);
            let at = crate::queue::first_where(old(timers).due@, wanted);
            &&& id == if at < old(timers).due@.len() {
                Some(old(timers).due@[at])
            } else {
                None
            }
            &&& final(timers).due@ == crate::queue::after_first(old(timers).due@, wanted)
        },
        id is Some ==> on_timer && registered(old(timers).timers@, id->0) && old(
            timers,
        ).due@.contains(id->0),
        id is None && on_timer ==> forall|i: int|
            0 <= i < old(timers).due@.len() ==> !registered(
                old(timers).timers@,
                #[trigger] old(timers).due@[i],
            ),
{
    if !on_timer {
        timers.due.drain();
        return None;
    }
    let ghost wanted = |id: u32| registered(old(timers).timers@, id);
    let ghost all = timers.due@;
    let ghost mut taken: int = 0;
    assert(all.skip(0) =~= all);
    while !timers.due.is_empty()
        invariant
            on_timer,
            all == old(timers).due@,
            wanted == (|id: u32| registered(old(timers).timers@, id)),
            timers.timers == old(timers).timers,
            timers.next_id == old(timers).next_id,
            timers.due.capacity() == old(timers).due.capacity(),
            old(timers).due.wf() ==> timers.due.wf(),
            0 <= taken <= all.len(),
            timers.due@ == all.skip(taken),
            crate::queue::first_where(all, wanted) == taken + crate::queue::first_where(
                all.skip(taken),
                wanted,
            ),
        decreases timers.due@.len(),
    {
        let ghost before = timers.due@;
        assert(before.skip(1) =~= all.skip(taken + 1));
        if let Some(id) = timers.due.pop() {
            assert(id == before[0] == all[taken]);
            if timer_registered(&timers.timers, id) {
                assert(wanted(before[0]));
                return Some(id);
            }
            assert(!wanted(before[0]));
        }
        proof {
            taken = taken + 1;
        }
    }
    assert(timers.due@ =~= Seq::empty());
    proof {
        crate::queue::first_where_is_first(all, wanted);
        assert forall|i: int| 0 <= i < all.len() implies !registered(
            old(timers).timers@,
            #[trigger] all[i],
        ) by {
            assert(!wanted(all[i]));
        }
    }
    None
}

/// `timer_support.register_timer` from the plugin: needs a place for the id.
pub fn host_timer_register(
    timers: &mut Timers,
    period_ms: u32,
    has_slot: bool,
    now: u64,
) -> (id: Option<u32>)
    ensures
        final(timers).due == old(timers).due,
        !has_slot || period_ms == 0 ==> id is None && *final(timers) == *old(timers),
        has_slot && period_ms != 0 ==> {
            &&& id == Some(old(timers).next_id)
            &&& final(timers).next_id == old(timers).next_id.wrapping_add(1)
            &&& final(timers).timers@ == old(timers).timers@.push(
                Timer { id: old(timers).next_id, period_ms, last: now },
            )
        },
{
    if !has_slot {
        return None;
    }
    request_timer(timers, period_ms, now)
}

/// Law: a cancelled timer never fires, whatever ids are still queued, and
/// cancelling it leaves the others registered.
pub proof fn cancelled_timers_never_fire(timers: Seq<Timer>, id: u32, due: Seq<u32>)
    ensures
        !registered(without(timers, id), id),
        forall|other: u32|
            other != id ==> registered(without(timers, id), other) == registered(timers, other),
        ({
            let at = crate::queue::first_where(
                due,
                |i: u32| registered(without(timers, id), i),
            );
            at < due.len() ==> due[at] != id
        }),
    decreases timers.len(),
{
    without_keeps_the_rest(timers, id);
    crate::queue::first_where_is_first(due, |i: u32| registered(without(timers, id), i));
}

/// What is left without an id is what was there under the other ids.
proof fn without_keeps_the_rest(timers: Seq<Timer>, id: u32)
    ensures
        forall|other: u32|
            #[trigger] registered(without(timers, id), other) <==> other != id && registered(
                timers,
                other,
            ),
    decreases timers.len(),
{
    if timers.len() > 0 {
        let rest = timers.drop_last();
        let last = timers.last();
        without_keeps_the_rest(rest, id);
        assert forall|other: u32| #[trigger]
            registered(without(timers, id), other) <==> other != id && registered(
                timers,
                other,
            ) by {
            registered_at_the_end(rest, last, other);
            assert(rest.push(last) =~= timers);
            registered_at_the_end(without(rest, id), last, other);
            assert(registered(without(rest, id), other) <==> other != id && registered(
                rest,
                other,
            ));
        }
    }
}

proof fn registered_at_the_end(timers: Seq<Timer>, last: Timer, id: u32)
    ensures
        registered(timers.push(last), id) <==> registered(timers, id) || last.id == id,
{
    let longer = timers.push(last);
    if registered(timers, id) {
        let j = choose|j: int| 0 <= j < timers.len() && (#[trigger] timers[j]).id == id;
        assert(longer[j].id == id);
    }
    if last.id == id {
        assert(longer[timers.len() as int].id == id);
    }
    if registered(longer, id) && last.id != id {
        let j = choose|j: int| 0 <= j < longer.len() && (#[trigger] longer[j]).id == id;
        assert(timers[j].id == id);
    }
}

/// Law: between two times at which a timer becomes due at least its period
/// passes.
pub proof fn a_period_passes_between_ticks(timer: Timer, now: u64, later: u64)
    requires
        is_due(timer, now),
        now <= later,
        is_due(ticked(timer, now), later),
    ensures
        later - now >= timer.period_ms * 1_000_000,
{
}

/// Law: a timer is due exactly if its period, in milliseconds, has passed since
/// it was last due; then, and only then, its next period starts.
pub proof fn timers_are_due_after_their_period(timer: Timer, passed: u64, now: u64)
    requires
        timer.last + passed <= u64::MAX,
        timer.period_ms > 0,
    ensures
        is_due(timer, (timer.last + passed) as u64) <==> passed >= timer.period_ms * 1_000_000,
        now < timer.last ==> !is_due(timer, now),
        is_due(timer, now) ==> ticked(timer, now) == (Timer {
            id: timer.id,
            period_ms: timer.period_ms,
            last: now,
        }),
        !is_due(timer, now) ==> ticked(timer, now) == timer,
{
}

/// Law: every due timer is queued, once and in the order of registration, and no
/// other.
pub proof fn due_timers_are_queued(timers: Seq<Timer>, now: u64)
    ensures
        due_ids(timers, now) == timers.filter_map(
            |t: Timer|
                if is_due(t, now) {
                    Some(t.id)
                } else {
                    None
                },
        ),
    decreases timers.len(),
{
    let due = |t: Timer|
        if is_due(t, now) {
            Some(t.id)
        } else {
            None
        };
    if timers.len() > 0 {
        due_timers_are_queued(timers.drop_last(), now);
    }
    assert(due_ids(timers, now) =~= timers.filter_map(due));
}

/// Law: cancelling takes the timers of that id and keeps the others as they are
/// and in order.
pub proof fn cancelling_keeps_the_others(timers: Seq<Timer>, id: u32)
    ensures
        without(timers, id) == timers.filter(|t: Timer| t.id != id),
    decreases timers.len(),
{
    reveal(Seq::filter);
    if timers.len() > 0 {
        cancelling_keeps_the_others(timers.drop_last(), id);
    }
    assert(without(timers, id) =~= timers.filter(|t: Timer| t.id != id));
}

/// Law: an id is registered exactly if a timer has it, whatever its place.
pub proof fn registered_ids_have_a_timer(timers: Seq<Timer>, last: Timer, id: u32)
    ensures
        !registered(Seq::empty(), id),
        registered(timers.push(last), id) <==> registered(timers, id) || last.id == id,
{
    registered_at_the_end(timers, last, id);
}

} // verus!
