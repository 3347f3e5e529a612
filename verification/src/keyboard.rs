//! The keyboard scancode stream: a single-producer, single-consumer bridge
//! from the keyboard interrupt handler into the executor.
//!
//! The producer side never blocks and never allocates: a byte arriving while
//! the ring is full is dropped, deliberately losing a keystroke rather than
//! stalling a hardware handler. The consumer registers its task id as the one
//! tracked waker (a second registration replaces the first), and the producer
//! wakes that registrant by pushing its id into the executor's ready ring.

use vstd::prelude::*;

use crate::constants::SCANCODE_QUEUE_CAPACITY;
use crate::executor::TaskWaker;
use crate::queue::{ScancodeQueue, TaskQueue};

verus! {

/// What one poll of the stream reports: the oldest buffered byte, or that
/// the consumer should suspend until the registered waker fires.
#[derive(Debug, Clone, Copy, PartialEq, Eq, Structural)]
pub enum StreamPoll {
    Ready(u8),
    Pending,
}

/// Records that the scancode stream has been created; creating it twice is
/// fatal in this runtime, so the second attempt is excluded by contract.
pub struct InitOnce {
    taken: bool,
}

impl InitOnce {
    pub closed spec fn taken(&self) -> bool {
        self.taken
    }

    pub fn new() -> (f: InitOnce)
        ensures
            !f.taken(),
    {
        InitOnce { taken: false }
    }
}

/// Mathematical state of the stream: the buffered bytes oldest first, the
/// ring's capacity, and the one registered consumer, if any.
#[verifier::ext_equal]
pub struct StreamModel {
    pub elems: Seq<u8>,
    pub capacity: nat,
    pub waker: Option<u64>,
}

/// Producer transition: if the ring has room the byte is appended and the
/// registered consumer, if any, is woken exactly once (its id pushed into
/// the ready ring) and deregistered; a byte arriving at a full ring is
/// dropped and nothing changes.
pub open spec fn spec_add_scancode(s: StreamModel, ready: Seq<u64>, code: u8) -> (
    StreamModel,
    Seq<u64>,
    bool,
) {
    if s.elems.len() < s.capacity {
        match s.waker {
            Some(w) => (
                StreamModel { elems: s.elems.push(code), capacity: s.capacity, waker: None },
                ready.push(w),
                true,
            ),
            None => (
                StreamModel { elems: s.elems.push(code), capacity: s.capacity, waker: None },
                ready,
                true,
            ),
        }
    } else {
        (s, ready, false)
    }
}

/// Consumer transition: a non-empty ring yields its oldest byte at once;
/// otherwise the poller's id is registered (replacing any earlier
/// registrant) and the poll reports pending.
pub open spec fn spec_poll_next(s: StreamModel, current_task: u64) -> (StreamModel, StreamPoll) {
    if s.elems.len() > 0 {
        (
            StreamModel { elems: s.elems.drop_first(), capacity: s.capacity, waker: s.waker },
            StreamPoll::Ready(s.elems.first()),
        )
    } else {
        (
            StreamModel { elems: s.elems, capacity: s.capacity, waker: Some(current_task) },
            StreamPoll::Pending,
        )
    }
}

/// The scancode stream: one bounded ring plus one registered-waker slot.
pub struct ScancodeStream {
    queue: ScancodeQueue,
    waker: Option<u64>,
}

impl View for ScancodeStream {
    type V = StreamModel;

    closed spec fn view(&self) -> StreamModel {
        StreamModel { elems: self.queue.elems(), capacity: self.queue.capacity(), waker: self.waker }
    }
}

impl ScancodeStream {
    /// Creates the stream with its fixed-capacity ring. The runtime owns one
    /// such stream; the init record makes a second creation impossible
    /// rather than fatal at run time.
    pub fn new(init: &mut InitOnce) -> (s: ScancodeStream)
        requires
            !old(init).taken(),
        ensures
            final(init).taken(),
            s@.elems == Seq::<u8>::empty(),
            s@.capacity == SCANCODE_QUEUE_CAPACITY,
            s@.waker is None,
    {
        init.taken = true;
        ScancodeStream { queue: ScancodeQueue::new(SCANCODE_QUEUE_CAPACITY), waker: None }
    }

    /// Producer entry, called by the keyboard interrupt handler: must not
    /// block or allocate. Returns whether the byte was kept. Waking into a
    /// full ready ring is fatal, so that case is excluded by contract.
    pub fn add_scancode(&mut self, ready_queue: &mut TaskQueue, code: u8) -> (accepted: bool)
        requires
            old(self)@.elems.len() < old(self)@.capacity && old(self)@.waker is Some ==> old(
                ready_queue,
            ).elems().len() < old(ready_queue).capacity(),
        ensures
            ({
                let (s2, ready2, acc) = spec_add_scancode(
                    old(self)@,
                    old(ready_queue).elems(),
                    code,
                );
                &&& final(self)@ == s2
                &&& final(ready_queue).elems() == ready2
                &&& accepted == acc
            }),
            final(ready_queue).capacity() == old(ready_queue).capacity(),
    {
        let pushed = self.queue.push(code);
        if pushed {
            match self.waker {
                Some(w) => {
                    let waker = TaskWaker::new(w);
                    waker.wake(ready_queue);
                    self.waker = None;
                },
                None => {},
            }
            true
        } else {
            // Ring full: the byte is dropped so the handler never blocks;
            // the caller may emit a diagnostic.
            false
        }
    }

    /// Consumer poll. A non-empty ring yields immediately. Otherwise the
    /// poller registers itself and checks the ring once more before
    /// reporting pending, closing the race between "observed empty" and
    /// "waker registered"; under exclusive access the re-check is provably
    /// empty, but the code keeps the shape the race requires.
    pub fn poll_next(&mut self, current_task: u64) -> (r: StreamPoll)
        ensures
            ({
                let (s2, r2) = spec_poll_next(old(self)@, current_task);
                &&& final(self)@ == s2
                &&& r == r2
            }),
    {
        match self.queue.pop() {
            Some(code) => StreamPoll::Ready(code),
            None => {
                self.waker = Some(current_task);
                match self.queue.pop() {
                    Some(code) => {
                        self.waker = None;
                        StreamPoll::Ready(code)
                    },
                    None => StreamPoll::Pending,
                }
            },
        }
    }

    /// How many bytes are buffered.
    pub fn buffered(&self) -> (n: usize)
        ensures
            n == self@.elems.len(),
    {
        self.queue.len()
    }
}

/// Pushing one byte while a consumer is suspended and registered wakes
/// exactly that consumer - one id enters the ready ring, and it is the
/// registrant's - and that consumer's next poll yields exactly the pushed
/// byte.
pub proof fn lemma_wake_then_poll_yields_byte(s: StreamModel, ready: Seq<u64>, w: u64, code: u8)
    requires
        s.waker == Some(w),
        s.elems.len() == 0,
        s.capacity > 0,
    ensures
        ({
            let (s2, ready2, accepted) = spec_add_scancode(s, ready, code);
            &&& accepted
            &&& ready2 == ready.push(w)
            &&& s2.waker is None
            &&& spec_poll_next(s2, w).1 == StreamPoll::Ready(code)
            &&& spec_poll_next(s2, w).0.elems.len() == 0
        }),
{
    let (s2, ready2, accepted) = spec_add_scancode(s, ready, code);
    assert(s2.elems == s.elems.push(code));
    assert(s2.elems.first() == code);
}

/// The stream after a whole burst of bytes arrives with no draining
/// consumer.
pub open spec fn spec_add_burst(s: StreamModel, codes: Seq<u8>) -> StreamModel
    decreases codes.len(),
{
    if codes.len() == 0 {
        s
    } else {
        spec_add_burst(
            spec_add_scancode(s, Seq::empty(), codes.first()).0,
            codes.drop_first(),
        )
    }
}

/// With no consumer registered and no draining, a burst fills the ring up
/// to its capacity in push order, and every byte beyond that is dropped:
/// the retained bytes are exactly the first ones that fit.
pub proof fn lemma_burst_keeps_prefix_drops_overflow(s: StreamModel, codes: Seq<u8>)
    requires
        s.waker is None,
        s.elems.len() <= s.capacity,
    ensures
        ({
            let room = s.capacity - s.elems.len();
            let kept = if codes.len() <= room {
                codes
            } else {
                codes.take(room as int)
            };
            &&& spec_add_burst(s, codes).elems == s.elems + kept
            &&& spec_add_burst(s, codes).capacity == s.capacity
            &&& spec_add_burst(s, codes).waker is None
        }),
    decreases codes.len(),
{
    let room = s.capacity - s.elems.len();
    let kept = if codes.len() <= room {
        codes
    } else {
        codes.take(room as int)
    };
    if codes.len() == 0 {
        assert(s.elems + kept =~= s.elems);
    } else if s.elems.len() < s.capacity {
        let s2 = spec_add_scancode(s, Seq::empty(), codes.first()).0;
        lemma_burst_keeps_prefix_drops_overflow(s2, codes.drop_first());
        let room2 = s2.capacity - s2.elems.len();
        let kept2 = if codes.drop_first().len() <= room2 {
            codes.drop_first()
        } else {
            codes.drop_first().take(room2 as int)
        };
        assert(s2.elems =~= s.elems + seq![codes.first()]);
        assert(s2.elems + kept2 =~= s.elems + kept);
    } else {
        let s2 = spec_add_scancode(s, Seq::empty(), codes.first()).0;
        assert(s2 == s);
        lemma_burst_keeps_prefix_drops_overflow(s2, codes.drop_first());
        assert(codes.drop_first().take(0) =~= kept);
        assert(s.elems + kept =~= s.elems + codes.drop_first().take(0));
    }
}

} // verus!
