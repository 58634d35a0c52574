//! File descriptors that plugins want watched: the registry, what the poller is
//! asked for, and which events reach the plugin.
//!
//! A background thread polls and queues events; the main thread delivers them.
//! Plugins own their descriptors, the host never closes one.

use crate::queue::{Queue, Slot};
use std::collections::HashMap;
use vstd::prelude::*;

verus! {

/// Kinds of readiness, as bits.
pub const CLAP_POSIX_FD_READ: u32 = 1;

pub const CLAP_POSIX_FD_WRITE: u32 = 2;

pub const CLAP_POSIX_FD_ERROR: u32 = 4;

/// How many events wait for the main thread.
pub const DUE_CAPACITY: usize = 256;

/// How many events one poll hands over at most.
pub const EVENTS_CAPACITY: usize = 64;

/// How long one poll waits.
pub const WAIT_TIMEOUT_MS: u64 = 50;

/// What the poller is asked to watch, and what it reports: the descriptor as
/// the poller's key, and the two kinds of readiness.
#[derive(Clone, Copy, Debug, PartialEq, Eq, Structural)]
pub struct Interest {
    pub key: usize,
    pub readable: bool,
    pub writable: bool,
}

/// A ready descriptor, on its way to the plugin.
#[derive(Clone, Copy, Debug, PartialEq, Eq, Structural)]
pub struct FdEvent {
    pub fd: i32,
    pub flags: u32,
}

impl Slot for FdEvent {
    open spec fn words(self) -> (u64, u64) {
        ((self.fd + 0x8000_0000) as u64, self.flags as u64)
    }

    open spec fn of_words(words: (u64, u64)) -> Self {
        FdEvent {
            fd: (words.0 % 0x1_0000_0000 - 0x8000_0000) as i32,
            flags: (words.1 % 0x1_0000_0000) as u32,
        }
    }

    proof fn stored_is_read_back(self) {
    }

    fn pack(self) -> (words: (u64, u64)) {
        ((self.fd as i64 + 0x8000_0000) as u64, self.flags as u64)
    }

    fn unpack(words: (u64, u64)) -> (message: Self) {
        FdEvent {
            fd: ((words.0 % 0x1_0000_0000) as i64 - 0x8000_0000) as i32,
            flags: (words.1 % 0x1_0000_0000) as u32,
        }
    }
}

/// The registered descriptors with their flags, and the events not delivered
/// yet. Nothing can be registered while there is no poller.
pub struct FdRegistry {
    pub has_poller: bool,
    pub fds: HashMap<i32, u32>,
    pub due: Queue<FdEvent>,
}

/// What the poller is asked for; nothing for a negative descriptor or flags
/// that name neither reading nor writing.
pub open spec fn interest(fd: i32, flags: u32) -> Option<Interest> {
    if fd < 0 || (flags & CLAP_POSIX_FD_READ == 0 && flags & CLAP_POSIX_FD_WRITE == 0) {
        None
    } else {
        Some(
            Interest {
                key: fd as usize,
                readable: flags & CLAP_POSIX_FD_READ != 0,
                writable: flags & CLAP_POSIX_FD_WRITE != 0,
            },
        )
    }
}

fn event_for(fd: i32, flags: u32) -> (event: Option<Interest>)
    ensures
        event == interest(fd, flags),
{
    if fd < 0 {
        return None;
    }
    assert(flags & (CLAP_POSIX_FD_READ | CLAP_POSIX_FD_WRITE) == 0 <==> flags & CLAP_POSIX_FD_READ
        == 0 && flags & CLAP_POSIX_FD_WRITE == 0) by (bit_vector);
    if flags & (CLAP_POSIX_FD_READ | CLAP_POSIX_FD_WRITE) == 0 {
        return None;
    }
    Some(
        Interest {
            key: fd as usize,
            readable: flags & CLAP_POSIX_FD_READ != 0,
            writable: flags & CLAP_POSIX_FD_WRITE != 0,
        },
    )
}

impl FdRegistry {
    /// The flags of every registered descriptor.
    pub open spec fn watched(self) -> Map<i32, u32> {
        self.fds@
    }

    /// Everything but the registered descriptors is as before.
    pub open spec fn only_fds_differ(self, before: FdRegistry) -> bool {
        self.has_poller == before.has_poller && self.due == before.due
    }

    /// What to add to the poller before [`register_fd`]; `None` where the
    /// registration fails whatever the poller says.
    pub fn wanted(&self, fd: i32, flags: u32) -> (event: Option<Interest>)
        ensures
            event == if self.has_poller && !self.watched().contains_key(fd) {
                interest(fd, flags)
            } else {
                None
            },
    {
        broadcast use vstd::std_specs::hash::group_hash_axioms;

        if !self.has_poller || self.fds.contains_key(&fd) {
            return None;
        }
        event_for(fd, flags)
    }

    /// What to change in the poller before [`modify_fd`]; `None` where the
    /// change fails whatever the poller says.
    pub fn changed(&self, fd: i32, flags: u32) -> (event: Option<Interest>)
        ensures
            event == if self.has_poller && self.watched().contains_key(fd) {
                interest(fd, flags)
            } else {
                None
            },
    {
        broadcast use vstd::std_specs::hash::group_hash_axioms;

        if !self.has_poller || !self.fds.contains_key(&fd) {
            return None;
        }
        event_for(fd, flags)
    }
}

/// An empty registry; `has_poller` says whether a poller could be made.
pub fn init_poll_thread(has_poller: bool) -> (reg: FdRegistry)
    ensures
        reg.has_poller == has_poller,
        reg.watched() == Map::<i32, u32>::empty(),
        reg.due@ == Seq::<FdEvent>::empty(),
        reg.due.wf(),
        reg.due.capacity() == DUE_CAPACITY,
{
    FdRegistry { has_poller, fds: HashMap::new(), due: Queue::with_capacity(DUE_CAPACITY) }
}

/// Register interest in `fd`. Fails if the fd is already registered, invalid,
/// the flags request neither read nor write interest, or the poller rejected
/// it. `added` is the poller's answer to what [`FdRegistry::wanted`] names.
pub fn register_fd(reg: &mut FdRegistry, fd: i32, flags: u32, added: bool) -> (r: bool)
    ensures
        r == (old(reg).has_poller && !old(reg).watched().contains_key(fd) && interest(fd, flags)
            is Some && added),
        final(reg).only_fds_differ(*old(reg)),
        final(reg).watched() == if r {
            old(reg).watched().insert(fd, flags)
        } else {
            old(reg).watched()
        },
{
    broadcast use vstd::std_specs::hash::group_hash_axioms;

    if reg.wanted(fd, flags).is_none() || !added {
        return false;
    }
    reg.fds.insert(fd, flags);
    true
}

/// Change the watched event kinds for a previously registered `fd`. Fails if
/// the fd is not registered or the flags request neither read nor write
/// interest, or the poller rejected the change. `modified` is the poller's
/// answer to what [`FdRegistry::changed`] names.
pub fn modify_fd(reg: &mut FdRegistry, fd: i32, flags: u32, modified: bool) -> (r: bool)
    ensures
        r == (old(reg).has_poller && old(reg).watched().contains_key(fd) && interest(fd, flags)
            is Some && modified),
        final(reg).only_fds_differ(*old(reg)),
        final(reg).watched() == if r {
            old(reg).watched().insert(fd, flags)
        } else {
            old(reg).watched()
        },
{
    broadcast use vstd::std_specs::hash::group_hash_axioms;

    if reg.changed(fd, flags).is_none() || !modified {
        return false;
    }
    reg.fds.insert(fd, flags);
    true
}

/// Forget `fd`; on success the poller is to forget it too, whatever it answers:
/// the registry is the source of truth. Fails if the fd was not registered.
pub fn unregister_fd(reg: &mut FdRegistry, fd: i32) -> (r: bool)
    ensures
        r == (old(reg).has_poller && old(reg).watched().contains_key(fd)),
        final(reg).only_fds_differ(*old(reg)),
        final(reg).watched() == if r {
            old(reg).watched().remove(fd)
        } else {
            old(reg).watched()
        },
{
    broadcast use vstd::std_specs::hash::group_hash_axioms;

    if !reg.has_poller {
        return false;
    }
    reg.fds.remove(&fd).is_some()
}

/// What a report of the poller means to the plugin. One that names no
/// readiness is an error; a key that is no descriptor means nothing.
pub open spec fn reported(event: Interest) -> Option<FdEvent> {
    if event.key > i32::MAX {
        None
    } else {
        Some(
            FdEvent {
                fd: event.key as i32,
                flags: if event.readable && event.writable {
                    CLAP_POSIX_FD_READ | CLAP_POSIX_FD_WRITE
                } else if event.readable {
                    CLAP_POSIX_FD_READ
                } else if event.writable {
                    CLAP_POSIX_FD_WRITE
                } else {
                    CLAP_POSIX_FD_ERROR
                },
            },
        )
    }
}

/// The events of a poll that mean something, in order.
pub open spec fn all_reported(events: Seq<Interest>) -> Seq<FdEvent>
    decreases events.len(),
{
    if events.len() == 0 {
        Seq::empty()
    } else {
        let before = all_reported(events.drop_last());
        match reported(events.last()) {
            Some(event) => before.push(event),
            None => before,
        }
    }
}

fn report(event: Interest) -> (r: Option<FdEvent>)
    ensures
        r == reported(event),
{
    if event.key > i32::MAX as usize {
        return None;
    }
    let mut flags: u32 = 0;
    if event.readable {
        flags = flags | CLAP_POSIX_FD_READ;
    }
    if event.writable {
        flags = flags | CLAP_POSIX_FD_WRITE;
    }
    if flags == 0 {
        flags = CLAP_POSIX_FD_ERROR;
    }
    assert(0u32 | 1u32 == 1 && 0u32 | 2u32 == 2 && 1u32 | 2u32 == 3) by (bit_vector);
    Some(FdEvent { fd: event.key as i32, flags })
}

/// Queue what one poll reported. What a full queue has no room for is dropped.
pub fn queue_events(reg: &mut FdRegistry, events: &[Interest])
    requires
        old(reg).due.wf(),
    ensures
        final(reg).has_poller == old(reg).has_poller,
        final(reg).fds == old(reg).fds,
        final(reg).due.wf(),
        final(reg).due.capacity() == old(reg).due.capacity(),
        final(reg).due@ == crate::queue::pushed(
            old(reg).due@,
            all_reported(events@),
            old(reg).due.capacity(),
        ),
{
    let ghost held = reg.due@;
    let ghost capacity = reg.due.capacity();
    proof {
        assert(all_reported(events@.take(0)) =~= Seq::empty());
        assert(crate::queue::pushed(held, Seq::<FdEvent>::empty(), capacity) =~= held);
    }
    let mut i: usize = 0;
    while i < events.len()
        invariant
            i <= events@.len(),
            reg.has_poller == old(reg).has_poller,
            reg.fds == old(reg).fds,
            reg.due.wf(),
            reg.due.capacity() == capacity,
            held.len() <= capacity,
            reg.due@ == crate::queue::pushed(
                held,
                all_reported(events@.take(i as int)),
                capacity,
            ),
        decreases events@.len() - i,
    {
        let ghost done = all_reported(events@.take(i as int));
        assert(events@.take(i + 1).drop_last() =~= events@.take(i as int));
        if let Some(event) = report(events[i]) {
            let _ = reg.due.push(event);
            proof {
                crate::queue::pushing_in_batches(held, done, seq![event], capacity);
                assert(done + seq![event] =~= done.push(event));
            }
        }
        i = i + 1;
    }
    assert(events@.take(events@.len() as int) =~= events@);
}

/// The next event to deliver on the main thread. `on_fd` says whether the plugin
/// takes events: where it does not, the queue is emptied. Events for descriptors
/// that the plugin already unregistered are dropped.
pub fn drain_due(reg: &mut FdRegistry, on_fd: bool) -> (event: Option<FdEvent>)
    ensures
        final(reg).has_poller == old(reg).has_poller,
        final(reg).fds == old(reg).fds,
        final(reg).due.capacity() == old(reg).due.capacity(),
        old(reg).due.wf() ==> final(reg).due.wf(),
        !on_fd ==> event is None && final(reg).due@ == Seq::<FdEvent>::empty(),
        on_fd ==> {
            let wanted = |e: FdEvent| old(reg).watched().contains_key(e.fd);
            let at = crate::queue::first_where(old(reg).due@, wanted);
            &&& event == if at < old(reg).due@.len() {
                Some(old(reg).due@[at])
            } else {
                None
            }
            &&& final(reg).due@ == crate::queue::after_first(old(reg).due@, wanted)
        },
        event is Some ==> on_fd && old(reg).watched().contains_key(event->0.fd) && old(
            reg,
        ).due@.contains(event->0),
        event is None && on_fd ==> forall|i: int|
            0 <= i < old(reg).due@.len() ==> !old(reg).watched().contains_key(
                (#[trigger] old(reg).due@[i]).fd,
            ),
{
    broadcast use vstd::std_specs::hash::group_hash_axioms;

    if !on_fd {
        reg.due.drain();
        return None;
    }
    let ghost wanted = |e: FdEvent| old(reg).watched().contains_key(e.fd);
    let ghost all = reg.due@;
    let ghost mut taken: int = 0;
    assert(all.skip(0) =~= all);
    while !reg.due.is_empty()
        invariant
            on_fd,
            all == old(reg).due@,
            wanted == (|e: FdEvent| old(reg).watched().contains_key(e.fd)),
            reg.has_poller == old(reg).has_poller,
            reg.fds == old(reg).fds,
            reg.due.capacity() == old(reg).due.capacity(),
            old(reg).due.wf() ==> reg.due.wf(),
            0 <= taken <= all.len(),
            reg.due@ == all.skip(taken),
            crate::queue::first_where(all, wanted) == taken + crate::queue::first_where(
                all.skip(taken),
                wanted,
            ),
        decreases reg.due@.len(),
    {
        let ghost before = reg.due@;
        assert(before.skip(1) =~= all.skip(taken + 1));
        if let Some(event) = reg.due.pop() {
            assert(event == before[0]);
            if reg.fds.contains_key(&event.fd) {
                assert(wanted(before[0]));
                return Some(event);
            }
            assert(!wanted(before[0]));
        }
        proof {
            taken = taken + 1;
        }
    }
    assert(reg.due@ =~= Seq::empty());
    proof {
        crate::queue::first_where_is_first(all, wanted);
        assert forall|i: int| 0 <= i < all.len() implies !old(reg).watched().contains_key(
            (#[trigger] all[i]).fd,
        ) by {
            assert(!wanted(all[i]));
        }
    }
    None
}

/// Law: once a descriptor is unregistered, no event that is still queued for it
/// is delivered.
pub proof fn unregistered_fds_are_silent(watched: Map<i32, u32>, fd: i32, due: Seq<FdEvent>)
    ensures
        ({
            let left = watched.remove(fd);
            let at = crate::queue::first_where(due, |e: FdEvent| left.contains_key(e.fd));
            &&& !left.contains_key(fd)
            &&& at < due.len() ==> due[at].fd != fd
        }),
{
    crate::queue::first_where_is_first(
        due,
        |e: FdEvent| watched.remove(fd).contains_key(e.fd),
    );
}

/// Law: every event that a poll yields names some readiness, and no event names
/// an error together with another kind.
pub proof fn events_name_a_readiness(event: Interest)
    requires
        reported(event) is Some,
    ensures
        reported(event)->0.flags != 0,
        reported(event)->0.flags & CLAP_POSIX_FD_ERROR != 0 <==> !event.readable && !event.writable,
        reported(event)->0.fd >= 0,
{
    assert(1u32 | 2u32 == 3 && 3u32 & 4u32 == 0 && 1u32 & 4u32 == 0 && 2u32 & 4u32 == 0 && 4u32
        & 4u32 == 4) by (bit_vector);
}

/// Law: a descriptor is watched for exactly the kinds of readiness that the
/// plugin names, one of the two at least.
pub proof fn descriptors_are_watched_as_asked(fd: i32, flags: u32)
    ensures
        interest(fd, flags) is Some <==> fd >= 0 && (flags & 1 != 0 || flags & 2 != 0),
        interest(fd, flags) is Some ==> {
            &&& interest(fd, flags)->0.key == fd
            &&& interest(fd, flags)->0.readable <==> flags & 1 != 0
            &&& interest(fd, flags)->0.writable <==> flags & 2 != 0
        },
{
}

/// Law: an event reaches the plugin under the descriptor that was watched, and
/// names what the poller saw: each kind of readiness by its bit, and an error
/// where it saw neither.
pub proof fn events_tell_what_was_seen(fd: i32, flags: u32, readable: bool, writable: bool)
    requires
        interest(fd, flags) is Some,
    ensures
        ({
            let seen = Interest { readable, writable, ..interest(fd, flags)->0 };
            &&& reported(seen) is Some
            &&& reported(seen)->0.fd == fd
            &&& reported(seen)->0.flags & 1 != 0 <==> readable
            &&& reported(seen)->0.flags & 2 != 0 <==> writable
            &&& reported(seen)->0.flags & 4 != 0 <==> !readable && !writable
            &&& reported(seen)->0.flags <= 4
        }),
{
    assert(1u32 | 2u32 == 3 && 3u32 & 1u32 == 1 && 3u32 & 2u32 == 2 && 3u32 & 4u32 == 0 && 1u32
        & 1u32 == 1 && 1u32 & 2u32 == 0 && 1u32 & 4u32 == 0 && 2u32 & 1u32 == 0 && 2u32 & 2u32 == 2
        && 2u32 & 4u32 == 0 && 4u32 & 1u32 == 0 && 4u32 & 2u32 == 0 && 4u32 & 4u32 == 4)
        by (bit_vector);
}

/// Law: every event of a poll is queued, once and in order, but for keys that are
/// no descriptors.
pub proof fn every_event_is_queued(events: Seq<Interest>)
    ensures
        all_reported(events) == events.filter_map(|e: Interest| reported(e)),
        forall|e: Interest| #[trigger] reported(e) is Some <==> e.key <= i32::MAX,
    decreases events.len(),
{
    let seen = |e: Interest| reported(e);
    if events.len() > 0 {
        every_event_is_queued(events.drop_last());
    }
    assert(all_reported(events) =~= events.filter_map(seen));
}

/// Law: registering, changing and forgetting a descriptor leave the queue and the
/// poller alone.
pub proof fn registering_keeps_the_queue(after: FdRegistry, before: FdRegistry)
    requires
        after.only_fds_differ(before),
    ensures
        after.due == before.due,
        after.has_poller == before.has_poller,
{
}

} // verus!
