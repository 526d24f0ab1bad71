//! The queues of the dispatcher: work for the main thread, and work that
//! is due later.
//!
//! The bridge never sleeps.  Work that is due later waits in a queue
//! ordered by deadline; each tick takes out what is due by then and hands
//! it back to be run on the calling thread.  The runnables themselves stay
//! with the host, which knows each by a number; a runnable that was closed
//! in the meantime is skipped by the host when its number comes up.

use vstd::prelude::*;

verus! {

/// The number of threads that run background work.
pub const BACKGROUND_THREAD_COUNT: usize = 4;

/// A runnable that is due at a deadline.
#[derive(Clone, Copy, Debug, PartialEq, Eq, Structural)]
pub struct DelayedRunnable {
    /// When the runnable is due, on the host's clock.
    pub deadline: u64,
    /// The number that the host knows the runnable by.
    pub runnable: u64,
}

/// Whether the deadlines never fall from one entry to the next.
pub open spec fn by_deadline(q: Seq<DelayedRunnable>) -> bool {
    forall|i: int, j: int| 0 <= i <= j < q.len() ==> q[i].deadline <= q[j].deadline
}

/// The number of entries at the front that are due by `now`.
pub open spec fn due_count(q: Seq<DelayedRunnable>, now: u64) -> nat
    decreases q.len(),
{
    if q.len() > 0 && q[0].deadline <= now {
        1 + due_count(q.skip(1), now)
    } else {
        0
    }
}

/// The numbers of the runnables in a list of entries.
pub open spec fn runnables_of(q: Seq<DelayedRunnable>) -> Seq<u64> {
    Seq::new(q.len(), |i: int| q[i].runnable)
}

/// The entries at the front that are due are all that are due.
pub proof fn lemma_due_count(q: Seq<DelayedRunnable>, now: u64)
    requires
        by_deadline(q),
    ensures
        due_count(q, now) <= q.len(),
        forall|i: int| 0 <= i < due_count(q, now) ==> q[i].deadline <= now,
        forall|i: int| due_count(q, now) <= i < q.len() ==> q[i].deadline > now,
    decreases q.len(),
{
    if q.len() > 0 && q[0].deadline <= now {
        let rest = q.skip(1);
        assert forall|i: int, j: int| 0 <= i <= j < rest.len() implies rest[i].deadline
            <= rest[j].deadline by {
            assert(q[i + 1].deadline <= q[j + 1].deadline);
        }
        lemma_due_count(rest, now);
        assert forall|i: int| 0 <= i < due_count(q, now) implies q[i].deadline <= now by {
            if i > 0 {
                assert(rest[i - 1].deadline <= now);
            }
        }
        assert forall|i: int| due_count(q, now) <= i < q.len() implies q[i].deadline > now by {
            assert(rest[i - 1].deadline > now);
        }
    } else {
        assert forall|i: int| 0 <= i < q.len() implies q[i].deadline > now by {
            assert(q[0].deadline <= q[i].deadline);
        }
    }
}

/// The work that is due later, ordered by deadline.  Entries with the same
/// deadline keep the order in which they came.
pub struct DelayedQueue {
    entries: Vec<DelayedRunnable>,
}

impl View for DelayedQueue {
    type V = Seq<DelayedRunnable>;

    closed spec fn view(&self) -> Seq<DelayedRunnable> {
        self.entries@
    }
}

impl DelayedQueue {
    #[verifier::type_invariant]
    spec fn inv(self) -> bool {
        by_deadline(self.entries@)
    }

    pub fn new() -> (q: DelayedQueue)
        ensures
            q@ == Seq::<DelayedRunnable>::empty(),
    {
        DelayedQueue { entries: Vec::new() }
    }

    pub fn len(&self) -> (n: usize)
        ensures
            n == self@.len(),
            by_deadline(self@),
    {
        proof {
            use_type_invariant(self);
        }
        self.entries.len()
    }

    /// The deadline that comes first, if any work waits.
    pub fn peek(&self) -> (r: Option<DelayedRunnable>)
        ensures
            r == if self@.len() > 0 {
                Some(self@[0])
            } else {
                None
            },
            forall|i: int| 0 <= i < self@.len() ==> self@[0].deadline <= (#[trigger] self@[i]).deadline,
    {
        proof {
            use_type_invariant(self);
        }
        if self.entries.len() > 0 {
            Some(self.entries[0])
        } else {
            None
        }
    }

    /// Adds an entry behind all entries that are due no later than it.
    pub fn push(&mut self, entry: DelayedRunnable)
        ensures
            final(self)@ == old(self)@.insert(due_count(old(self)@, entry.deadline) as int, entry),
            by_deadline(final(self)@),
    {
        proof {
            use_type_invariant(&*self);
        }
        let ghost q = self.entries@;
        let mut entries: Vec<DelayedRunnable> = Vec::new();
        std::mem::swap(&mut entries, &mut self.entries);
        let mut at: usize = 0;
        proof {
            assert(q.skip(0) =~= q);
        }
        while at < entries.len() && entries[at].deadline <= entry.deadline
            invariant
                at <= entries@.len(),
                entries@ == q,
                due_count(q, entry.deadline) == at + due_count(q.skip(at as int), entry.deadline),
            decreases entries@.len() - at,
        {
            proof {
                let rest = q.skip(at as int);
                assert(rest[0] == q[at as int]);
                assert(rest.skip(1) =~= q.skip(at + 1));
            }
            at += 1;
        }
        proof {
            let rest = q.skip(at as int);
            if at < q.len() {
                assert(rest[0] == q[at as int]);
            }
            assert(due_count(rest, entry.deadline) == 0);
            lemma_due_count(q, entry.deadline);
        }
        entries.insert(at, entry);
        proof {
            let r = entries@;
            assert(r == q.insert(at as int, entry));
            assert forall|i: int, j: int| 0 <= i <= j < r.len() implies r[i].deadline
                <= r[j].deadline by {
                let i0 = if i < at { i } else { i - 1 };
                let j0 = if j < at { j } else { j - 1 };
                if i == at {
                    if j > at {
                        assert(r[j] == q[j0]);
                    }
                } else if j == at {
                    assert(r[i] == q[i0]);
                } else {
                    assert(r[i] == q[i0] && r[j] == q[j0]);
                    assert(q[i0].deadline <= q[j0].deadline);
                }
            }
        }
        self.entries = entries;
    }

    /// Takes out the entries that are due by `now`, earliest first, and
    /// leaves the others.
    pub fn pop_due(&mut self, now: u64) -> (due: Vec<DelayedRunnable>)
        ensures
            due@ == old(self)@.take(due_count(old(self)@, now) as int),
            final(self)@ == old(self)@.skip(due_count(old(self)@, now) as int),
            forall|i: int| 0 <= i < due@.len() ==> due@[i].deadline <= now,
            forall|i: int| 0 <= i < final(self)@.len() ==> final(self)@[i].deadline > now,
    {
        proof {
            use_type_invariant(&*self);
        }
        let ghost q = self.entries@;
        let mut entries: Vec<DelayedRunnable> = Vec::new();
        std::mem::swap(&mut entries, &mut self.entries);
        let mut at: usize = 0;
        proof {
            assert(q.skip(0) =~= q);
        }
        while at < entries.len() && entries[at].deadline <= now
            invariant
                at <= entries@.len(),
                entries@ == q,
                due_count(q, now) == at + due_count(q.skip(at as int), now),
            decreases entries@.len() - at,
        {
            proof {
                let rest = q.skip(at as int);
                assert(rest[0] == q[at as int]);
                assert(rest.skip(1) =~= q.skip(at + 1));
            }
            at += 1;
        }
        proof {
            let rest = q.skip(at as int);
            if at < q.len() {
                assert(rest[0] == q[at as int]);
            }
            assert(due_count(rest, now) == 0);
            lemma_due_count(q, now);
        }
        let later = entries.split_off(at);
        proof {
            assert(entries@ =~= q.take(at as int));
            assert(later@ =~= q.skip(at as int));
            assert forall|i: int, j: int| 0 <= i <= j < later@.len() implies later@[i].deadline
                <= later@[j].deadline by {
                assert(q[i + at].deadline <= q[j + at].deadline);
            }
        }
        self.entries = later;
        entries
    }
}

/// The queues of the dispatcher, as a value.
pub struct DispatcherView {
    pub main_thread_queue: Seq<u64>,
    pub delayed_queue: Seq<DelayedRunnable>,
}

/// The queues of the dispatcher.
pub struct NodeDispatcher {
    main_thread_queue: Vec<u64>,
    delayed_queue: DelayedQueue,
}

impl View for NodeDispatcher {
    type V = DispatcherView;

    closed spec fn view(&self) -> DispatcherView {
        DispatcherView {
            main_thread_queue: self.main_thread_queue@,
            delayed_queue: self.delayed_queue@,
        }
    }
}

/// A deadline `duration` after `now`, held to the range of the clock.
pub open spec fn deadline_after(now: u64, duration: u64) -> u64 {
    if now + duration > u64::MAX {
        u64::MAX
    } else {
        (now + duration) as u64
    }
}

impl NodeDispatcher {
    pub fn new() -> (d: NodeDispatcher)
        ensures
            d@.main_thread_queue == Seq::<u64>::empty(),
            d@.delayed_queue == Seq::<DelayedRunnable>::empty(),
    {
        NodeDispatcher { main_thread_queue: Vec::new(), delayed_queue: DelayedQueue::new() }
    }

    /// Queues a runnable for the main thread, behind those that wait.
    pub fn dispatch_on_main_thread(&mut self, runnable: u64)
        ensures
            final(self)@ == (DispatcherView {
                main_thread_queue: old(self)@.main_thread_queue.push(runnable),
                ..old(self)@
            }),
    {
        self.main_thread_queue.push(runnable);
    }

    /// Queues a runnable to be run once `duration` has passed.  Nothing
    /// waits for that: the runnable is run by the first tick after its
    /// deadline.
    pub fn dispatch_after(&mut self, now: u64, duration: u64, runnable: u64)
        ensures
            final(self)@ == (DispatcherView {
                delayed_queue: old(self)@.delayed_queue.insert(
                    due_count(old(self)@.delayed_queue, deadline_after(now, duration)) as int,
                    DelayedRunnable { deadline: deadline_after(now, duration), runnable },
                ),
                ..old(self)@
            }),
    {
        let deadline = if duration > u64::MAX - now {
            u64::MAX
        } else {
            now + duration
        };
        self.delayed_queue.push(DelayedRunnable { deadline, runnable });
    }

    /// Takes out the work of one tick: everything that waits for the main
    /// thread, in the order in which it was queued, and after it everything
    /// that was due by `now`, earliest deadline first.  What is due later
    /// stays.
    pub fn drain_main_thread_queue(&mut self, now: u64) -> (work: Vec<u64>)
        ensures
            work@ == old(self)@.main_thread_queue + runnables_of(
                old(self)@.delayed_queue.take(due_count(old(self)@.delayed_queue, now) as int),
            ),
            final(self)@.main_thread_queue == Seq::<u64>::empty(),
            final(self)@.delayed_queue == old(self)@.delayed_queue.skip(
                due_count(old(self)@.delayed_queue, now) as int,
            ),
            forall|i: int|
                0 <= i < final(self)@.delayed_queue.len() ==> final(self)@.delayed_queue[i].deadline
                    > now,
    {
        let mut work: Vec<u64> = Vec::new();
        std::mem::swap(&mut work, &mut self.main_thread_queue);
        let ghost immediate = work@;
        let due = self.delayed_queue.pop_due(now);
        let mut i: usize = 0;
        while i < due.len()
            invariant
                i <= due@.len(),
                work@ == immediate + runnables_of(due@.take(i as int)),
            decreases due@.len() - i,
        {
            work.push(due[i].runnable);
            proof {
                assert(runnables_of(due@.take(i + 1)) =~= runnables_of(due@.take(i as int)).push(
                    due@[i as int].runnable,
                ));
            }
            i += 1;
        }
        proof {
            assert(due@.take(due@.len() as int) =~= due@);
        }
        work
    }
}

} // verus!
