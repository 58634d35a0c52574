//! Bounded first-in first-out queues: what one thread of the host sends to or
//! received from another.
//!
//! The storage is `crossbeam_queue::ArrayQueue`. Its items are pairs of machine
//! words; [`Slot`] says how a message is written into such a pair and read back.

use crossbeam_queue::ArrayQueue;
use std::marker::PhantomData;
use vstd::prelude::*;

verus! {

/// Queue depth. 1024 short messages is far more than one audio block sees.
pub const QUEUE_CAP: usize = 1024;

/// Largest capacity a queue is made with.
pub const MAX_QUEUE_CAP: usize = 0x1_0000;

/// `crossbeam_queue::ArrayQueue`, the bounded queue of the crossbeam project.
#[verifier::external_type_specification]
#[verifier::external_body]
#[verifier::reject_recursive_types(T)]
pub struct ExArrayQueue<T>(ArrayQueue<T>);

/// What an `ArrayQueue` of word pairs holds, oldest item first.
pub uninterp spec fn ring_items(ring: ArrayQueue<(u64, u64)>) -> Seq<(u64, u64)>;

/// The capacity that an `ArrayQueue` of word pairs was made with.
pub uninterp spec fn ring_capacity(ring: ArrayQueue<(u64, u64)>) -> nat;

/// `ArrayQueue::new`: an empty queue with room for `cap` items. The crate
/// panics on a capacity of zero and on one that it cannot allocate.
#[verifier::external_body]
fn ring_new(cap: usize) -> (ring: ArrayQueue<(u64, u64)>)
    requires
        0 < cap <= MAX_QUEUE_CAP,
    ensures
        ring_items(ring) == Seq::<(u64, u64)>::empty(),
        ring_capacity(ring) == cap,
{
    ArrayQueue::new(cap)
}

/// `ArrayQueue::push`, called with exclusive access: the item goes to the back,
/// or comes back as the error where the queue is full.
#[verifier::external_body]
fn ring_push(ring: &mut ArrayQueue<(u64, u64)>, word: (u64, u64)) -> (r: Result<(), (u64, u64)>)
    ensures
        ring_capacity(*final(ring)) == ring_capacity(*old(ring)),
        r is Ok <==> ring_items(*old(ring)).len() < ring_capacity(*old(ring)),
        r is Ok ==> ring_items(*final(ring)) == ring_items(*old(ring)).push(word),
        r is Err ==> ring_items(*final(ring)) == ring_items(*old(ring)),
        r is Err ==> r->Err_0 == word,
{
    ring.push(word)
}

/// `ArrayQueue::pop`, called with exclusive access: the oldest item leaves, or
/// `None` where there is none.
#[verifier::external_body]
fn ring_pop(ring: &mut ArrayQueue<(u64, u64)>) -> (r: Option<(u64, u64)>)
    ensures
        ring_capacity(*final(ring)) == ring_capacity(*old(ring)),
        r is None <==> ring_items(*old(ring)).len() == 0,
        r is None ==> ring_items(*final(ring)) == ring_items(*old(ring)),
        r is Some ==> r->0 == ring_items(*old(ring))[0],
        r is Some ==> ring_items(*final(ring)) == ring_items(*old(ring)).skip(1),
{
    ring.pop()
}

/// `ArrayQueue::is_empty`, called while no other thread reaches the queue.
#[verifier::external_body]
fn ring_is_empty(ring: &ArrayQueue<(u64, u64)>) -> (r: bool)
    ensures
        r == (ring_items(*ring).len() == 0),
{
    ring.is_empty()
}

/// A message that fits into one queue slot of two machine words.
pub trait Slot: Sized + Copy {
    /// The words the message is stored as.
    spec fn words(self) -> (u64, u64);

    /// The message that the words stand for.
    spec fn of_words(words: (u64, u64)) -> Self;

    /// Reading back what was stored gives the message.
    proof fn stored_is_read_back(self)
        ensures
            Self::of_words(self.words()) == self,
    ;

    fn pack(self) -> (words: (u64, u64))
        ensures
            words == self.words(),
    ;

    fn unpack(words: (u64, u64)) -> (message: Self)
        ensures
            message == Self::of_words(words),
    ;
}

/// Bounded queue of messages. Its view is what it holds, oldest message first.
#[verifier::reject_recursive_types(T)]
pub struct Queue<T: Slot> {
    ring: ArrayQueue<(u64, u64)>,
    kind: PhantomData<T>,
}

impl<T: Slot> View for Queue<T> {
    type V = Seq<T>;

    closed spec fn view(&self) -> Seq<T> {
        ring_items(self.ring).map_values(|words: (u64, u64)| T::of_words(words))
    }
}

/// What a queue that holds `held` holds after `added` were pushed one by one:
/// all of them that there was room for, in order.
pub open spec fn pushed<T>(held: Seq<T>, added: Seq<T>, capacity: nat) -> Seq<T> {
    if held.len() + added.len() <= capacity {
        held + added
    } else if held.len() <= capacity {
        held + added.take(capacity - held.len())
    } else {
        held
    }
}

impl<T: Slot> Queue<T> {
    /// How many messages the queue has room for.
    pub closed spec fn capacity(&self) -> nat {
        ring_capacity(self.ring)
    }

    /// No queue holds more than it has room for.
    pub open spec fn wf(&self) -> bool {
        self@.len() <= self.capacity()
    }

    /// An empty queue with room for `cap` messages.
    pub fn with_capacity(cap: usize) -> (q: Self)
        requires
            0 < cap <= MAX_QUEUE_CAP,
        ensures
            q.wf(),
            q@ == Seq::<T>::empty(),
            q.capacity() == cap,
    {
        let q = Queue { ring: ring_new(cap), kind: PhantomData };
        assert(q@ =~= Seq::<T>::empty());
        q
    }

    /// Append a message. A full queue stays as it is and hands the message back.
    pub fn push(&mut self, message: T) -> (r: Result<(), T>)
        ensures
            final(self).capacity() == old(self).capacity(),
            old(self).wf() ==> final(self).wf(),
            r is Ok <==> old(self)@.len() < old(self).capacity(),
            r is Ok ==> final(self)@ == old(self)@.push(message),
            r is Err ==> final(self)@ == old(self)@ && r->Err_0 == message,
            old(self).wf() ==> final(self)@ == pushed(
                old(self)@,
                seq![message],
                old(self).capacity(),
            ),
    {
        proof {
            message.stored_is_read_back();
        }
        match ring_push(&mut self.ring, message.pack()) {
            Ok(()) => {
                assert(self@ =~= old(self)@.push(message));
                assert(old(self)@ + seq![message] =~= old(self)@.push(message));
                Ok(())
            },
            Err(_) => {
                assert(old(self)@ + seq![message].take(0) =~= old(self)@);
                Err(message)
            },
        }
    }

    /// Take the oldest message.
    pub fn pop(&mut self) -> (r: Option<T>)
        ensures
            final(self).capacity() == old(self).capacity(),
            old(self).wf() ==> final(self).wf(),
            r is None <==> old(self)@.len() == 0,
            r is None ==> final(self)@ == old(self)@,
            r is Some ==> r->0 == old(self)@[0] && final(self)@ == old(self)@.skip(1),
    {
        match ring_pop(&mut self.ring) {
            Some(words) => {
                assert(self@ =~= old(self)@.skip(1));
                Some(T::unpack(words))
            },
            None => None,
        }
    }

    /// Drop everything the queue holds.
    pub fn drain(&mut self)
        ensures
            final(self).capacity() == old(self).capacity(),
            final(self).wf(),
            final(self)@ == Seq::<T>::empty(),
    {
        while !self.is_empty()
            invariant
                self.capacity() == old(self).capacity(),
            decreases self@.len(),
        {
            let _ = self.pop();
        }
        assert(self@ =~= Seq::<T>::empty());
    }

    pub fn is_empty(&self) -> (r: bool)
        ensures
            r == (self@.len() == 0),
    {
        ring_is_empty(&self.ring)
    }
}

/// Place of the first message that `wanted` picks; the length where there is
/// none.
pub open spec fn first_where<T>(held: Seq<T>, wanted: spec_fn(T) -> bool) -> int
    decreases held.len(),
{
    if held.len() == 0 || wanted(held[0]) {
        0
    } else {
        1 + first_where(held.skip(1), wanted)
    }
}

/// `first_where` is what its name says.
pub proof fn first_where_is_first<T>(held: Seq<T>, wanted: spec_fn(T) -> bool)
    ensures
        0 <= first_where(held, wanted) <= held.len(),
        first_where(held, wanted) < held.len() ==> wanted(held[first_where(held, wanted)]),
        forall|i: int| 0 <= i < first_where(held, wanted) ==> !wanted(#[trigger] held[i]),
    decreases held.len(),
{
    if held.len() > 0 && !wanted(held[0]) {
        let rest = held.skip(1);
        first_where_is_first(rest, wanted);
        assert forall|i: int| 0 <= i < first_where(held, wanted) implies !wanted(
            #[trigger] held[i],
        ) by {
            if i > 0 {
                assert(held[i] == rest[i - 1]);
            }
        }
    }
}

/// What is left of a queue once the first wanted message was taken and those
/// before it were dropped.
pub open spec fn after_first<T>(held: Seq<T>, wanted: spec_fn(T) -> bool) -> Seq<T> {
    let at = first_where(held, wanted);
    if at < held.len() {
        held.skip(at + 1)
    } else {
        Seq::empty()
    }
}

/// The wanted messages, in order.
pub open spec fn wanted_of<T>(held: Seq<T>, wanted: spec_fn(T) -> bool) -> Seq<T>
    decreases held.len(),
{
    if held.len() == 0 {
        Seq::empty()
    } else if wanted(held[0]) {
        seq![held[0]] + wanted_of(held.skip(1), wanted)
    } else {
        wanted_of(held.skip(1), wanted)
    }
}

/// Taking the first wanted message again and again gives all of them in order.
pub proof fn wanted_one_by_one<T>(held: Seq<T>, wanted: spec_fn(T) -> bool)
    ensures
        ({
            let at = first_where(held, wanted);
            &&& at < held.len() ==> wanted_of(held, wanted) == seq![held[at]] + wanted_of(
                after_first(held, wanted),
                wanted,
            )
            &&& at < held.len() ==> after_first(held, wanted).len() < held.len()
            &&& at >= held.len() ==> wanted_of(held, wanted).len() == 0
        }),
    decreases held.len(),
{
    first_where_is_first(held, wanted);
    if held.len() > 0 && !wanted(held[0]) {
        let rest = held.skip(1);
        let at = first_where(rest, wanted);
        first_where_is_first(rest, wanted);
        wanted_one_by_one(rest, wanted);
        if at < rest.len() {
            assert(rest[at] == held[at + 1]);
            assert(rest.skip(at + 1) =~= held.skip(at + 2));
        }
    }
}

/// A queue of the usual depth.
pub fn queue<T: Slot>() -> (q: Queue<T>)
    ensures
        q.wf(),
        q@ == Seq::<T>::empty(),
        q.capacity() == QUEUE_CAP,
{
    Queue::with_capacity(QUEUE_CAP)
}

/// Timer ids and sample bit patterns.
impl Slot for u32 {
    open spec fn words(self) -> (u64, u64) {
        (self as u64, 0)
    }

    open spec fn of_words(words: (u64, u64)) -> Self {
        (words.0 % 0x1_0000_0000) as u32
    }

    proof fn stored_is_read_back(self) {
    }

    fn pack(self) -> (words: (u64, u64)) {
        (self as u64, 0)
    }

    fn unpack(words: (u64, u64)) -> (message: Self) {
        (words.0 % 0x1_0000_0000) as u32
    }
}

/// Law: a queue hands messages out in the order in which they went in. Taking
/// `n` messages out of what `pushed` left gives the first `n` of the messages
/// held and added, as long as there was room for all of them.
pub proof fn first_in_first_out<T>(held: Seq<T>, added: Seq<T>, capacity: nat, n: int)
    requires
        held.len() + added.len() <= capacity,
        0 <= n <= held.len() + added.len(),
    ensures
        pushed(held, added, capacity).take(n) == (held + added).take(n),
        pushed(held, added, capacity).skip(n) == (held + added).skip(n),
{
}

/// Law: a queue never grows past its capacity, and what it held stays in front.
pub proof fn pushing_keeps_what_is_held<T>(held: Seq<T>, added: Seq<T>, capacity: nat)
    requires
        held.len() <= capacity,
    ensures
        pushed(held, added, capacity).len() <= capacity,
        held.is_prefix_of(pushed(held, added, capacity)),
        pushed(held, added, capacity).is_prefix_of(held + added),
{
}

/// Law: pushing one batch and then another is pushing both in a row.
pub proof fn pushing_in_batches<T>(held: Seq<T>, first: Seq<T>, second: Seq<T>, capacity: nat)
    requires
        held.len() <= capacity,
    ensures
        pushed(pushed(held, first, capacity), second, capacity) == pushed(
            held,
            first + second,
            capacity,
        ),
{
    let once = pushed(held, first + second, capacity);
    let twice = pushed(pushed(held, first, capacity), second, capacity);
    assert(once =~= twice);
}

/// Law: a queue takes messages while there is room and drops the others: it
/// holds all of them, or is full.
pub proof fn queues_fill_up<T>(held: Seq<T>, added: Seq<T>, capacity: nat, message: T)
    requires
        held.len() <= capacity,
    ensures
        pushed(held, added, capacity).len() == held.len() + added.len() || pushed(
            held,
            added,
            capacity,
        ).len() == capacity,
        held.len() + added.len() <= capacity ==> pushed(held, added, capacity) == held + added,
        held.len() < capacity ==> pushed(held, seq![message], capacity) == held.push(message),
        held.len() == capacity ==> pushed(held, added, capacity) == held,
{
    assert(held + seq![message] =~= held.push(message));
    if held.len() == capacity {
        assert(pushed(held, added, capacity) =~= held);
    }
}

/// Law: taking the first wanted message drops exactly those before it and keeps
/// everything behind it; where none is wanted all are dropped.
pub proof fn taking_keeps_what_follows<T>(
    unwanted: Seq<T>,
    message: T,
    rest: Seq<T>,
    wanted: spec_fn(T) -> bool,
)
    requires
        forall|i: int| 0 <= i < unwanted.len() ==> !wanted(#[trigger] unwanted[i]),
        wanted(message),
    ensures
        first_where(unwanted + seq![message] + rest, wanted) == unwanted.len(),
        after_first(unwanted + seq![message] + rest, wanted) == rest,
        first_where(unwanted, wanted) == unwanted.len(),
        after_first(unwanted, wanted).len() == 0,
{
    let held = unwanted + seq![message] + rest;
    let n = unwanted.len() as int;
    first_where_is_first(held, wanted);
    first_where_is_first(unwanted, wanted);
    let at = first_where(held, wanted);
    assert(held[n] == message);
    if at < n {
        assert(held[at] == unwanted[at]);
    }
    assert(held.skip(n + 1) =~= rest);
}

/// Law: what is delivered of a queue is what is wanted of it, in order.
pub proof fn wanted_messages_keep_their_order<T>(held: Seq<T>, wanted: spec_fn(T) -> bool)
    ensures
        wanted_of(held, wanted) == held.filter(wanted),
    decreases held.len(),
{
    reveal(Seq::filter);
    if held.len() > 0 {
        let rest = held.skip(1);
        wanted_messages_keep_their_order(rest, wanted);
        assert(held =~= seq![held[0]] + rest);
        Seq::filter_distributes_over_add(seq![held[0]], rest, wanted);
        assert(seq![held[0]].drop_last() =~= Seq::empty());
        assert(seq![held[0]].drop_last().filter(wanted) =~= Seq::empty());
        assert(seq![held[0]].filter(wanted) =~= if wanted(held[0]) {
            seq![held[0]]
        } else {
            Seq::empty()
        });
        assert(wanted_of(held, wanted) =~= held.filter(wanted));
    }
}

} // verus!
