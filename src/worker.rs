use std::collections::VecDeque;
use vstd::prelude::*;

verus! {

/// What one bounded wait on the shared queue gave a worker.
pub enum Received<T> {
    /// An item, now owned by this worker alone.
    Item(T),
    /// Nothing came within the wait.
    Timeout,
    /// The queue is closed: no item will ever come.
    Disconnected,
}

/// What a worker does next.
pub enum WorkerStep<T> {
    /// Handle this item to completion, then wait again.
    Handle(T),
    /// Wait on the queue again.
    Wait,
    /// Leave the loop.
    Exit,
}

/// The worker's decision after a wait. An item is always handled, whatever
/// the shutdown flag says: shutdown is looked at only when a wait came back
/// empty, so no item that was taken is ever dropped or cut short. A closed
/// queue ends the worker at once.
pub fn worker_step<T>(received: Received<T>, shutdown: bool) -> (r: WorkerStep<T>)
    ensures
        match received {
            Received::Item(x) => r == WorkerStep::Handle(x),
            Received::Timeout => if shutdown {
                r is Exit
            } else {
                r is Wait
            },
            Received::Disconnected => r is Exit,
        },
{
    match received {
        Received::Item(x) => WorkerStep::Handle(x),
        Received::Timeout => if shutdown {
            WorkerStep::Exit
        } else {
            WorkerStep::Wait
        },
        Received::Disconnected => WorkerStep::Exit,
    }
}

/// The queue that the workers of a pool share, behind one lock.
///
/// Items leave in the order they came, each through one `take` only. The
/// queue reports itself closed to workers once no producer is left and it is
/// empty, and refuses new items once no worker is left.
pub struct WorkQueue<T> {
    items: VecDeque<T>,
    producers_gone: bool,
    workers: usize,
    pushed: Ghost<Seq<T>>,
    taken: Ghost<Seq<T>>,
}

impl<T> WorkQueue<T> {
    /// The items waiting, oldest first.
    pub closed spec fn pending(&self) -> Seq<T> {
        self.items@
    }

    /// Every item accepted so far, in order.
    pub closed spec fn pushed(&self) -> Seq<T> {
        self.pushed@
    }

    /// Every item handed to a worker so far, in order.
    pub closed spec fn taken(&self) -> Seq<T> {
        self.taken@
    }

    /// How many workers have not left yet.
    pub closed spec fn workers_left(&self) -> usize {
        self.workers
    }

    /// Whether the producers are gone.
    pub closed spec fn input_closed(&self) -> bool {
        self.producers_gone
    }

    /// What was accepted is what was handed out, followed by what waits.
    pub closed spec fn wf(&self) -> bool {
        self.pushed@ == self.taken@ + self.items@
    }

    /// An empty queue for a pool of `workers` workers.
    pub fn new(workers: usize) -> (r: Self)
        ensures
            r.wf(),
            r.pending().len() == 0,
            r.pushed().len() == 0,
            r.taken().len() == 0,
            r.workers_left() == workers,
            !r.input_closed(),
    {
        WorkQueue {
            items: VecDeque::new(),
            producers_gone: false,
            workers,
            pushed: Ghost(Seq::empty()),
            taken: Ghost(Seq::empty()),
        }
    }

    /// Adds an item at the back. Once every worker has left the item is
    /// handed back instead: nothing would ever take it.
    pub fn push(&mut self, item: T) -> (r: Result<(), T>)
        requires
            old(self).wf(),
        ensures
            final(self).wf(),
            final(self).taken() == old(self).taken(),
            final(self).workers_left() == old(self).workers_left(),
            final(self).input_closed() == old(self).input_closed(),
            old(self).workers_left() == 0 ==> r == Err::<(), T>(item) && final(self).pushed()
                == old(self).pushed() && final(self).pending() == old(self).pending(),
            old(self).workers_left() > 0 ==> r is Ok && final(self).pushed() == old(
                self,
            ).pushed().push(item) && final(self).pending() == old(self).pending().push(item),
    {
        if self.workers == 0 {
            return Err(item);
        }
        let ghost item_g = item;
        self.items.push_back(item);
        self.pushed = Ghost(self.pushed@.push(item_g));
        assert(self.pushed@ =~= self.taken@ + self.items@);
        Ok(())
    }

    /// Hands the oldest item to the calling worker. With none waiting: closed
    /// once the producers are gone, else nothing yet.
    pub fn take(&mut self) -> (r: Received<T>)
        requires
            old(self).wf(),
        ensures
            final(self).wf(),
            final(self).pushed() == old(self).pushed(),
            final(self).workers_left() == old(self).workers_left(),
            final(self).input_closed() == old(self).input_closed(),
            old(self).pending().len() > 0 ==> r == Received::Item(old(self).pending()[0])
                && final(self).taken() == old(self).taken().push(old(self).pending()[0])
                && final(self).pending() == old(self).pending().drop_first(),
            old(self).pending().len() == 0 ==> final(self).taken() == old(self).taken()
                && final(self).pending() == old(self).pending() && if old(self).input_closed() {
                r is Disconnected
            } else {
                r is Timeout
            },
    {
        match self.items.pop_front() {
            Some(x) => {
                proof {
                    let old_items = old(self).items@;
                    self.taken = Ghost(self.taken@.push(x));
                    assert(old_items =~= seq![x] + self.items@);
                    assert(self.pushed@ =~= self.taken@ + self.items@);
                }
                Received::Item(x)
            },
            None => if self.producers_gone {
                Received::Disconnected
            } else {
                Received::Timeout
            },
        }
    }

    /// Records that no producer is left.
    pub fn close_input(&mut self)
        requires
            old(self).wf(),
        ensures
            final(self).wf(),
            final(self).input_closed(),
            final(self).pushed() == old(self).pushed(),
            final(self).taken() == old(self).taken(),
            final(self).pending() == old(self).pending(),
            final(self).workers_left() == old(self).workers_left(),
    {
        self.producers_gone = true;
    }

    /// Records that a worker has left its loop.
    pub fn worker_left(&mut self)
        requires
            old(self).wf(),
        ensures
            final(self).wf(),
            final(self).workers_left() == if old(self).workers_left() > 0 {
                (old(self).workers_left() - 1) as usize
            } else {
                0
            },
            final(self).input_closed() == old(self).input_closed(),
            final(self).pushed() == old(self).pushed(),
            final(self).taken() == old(self).taken(),
            final(self).pending() == old(self).pending(),
    {
        if self.workers > 0 {
            self.workers = self.workers - 1;
        }
    }

    /// The number of items waiting.
    pub fn len(&self) -> (r: usize)
        ensures
            r == self.pending().len(),
    {
        self.items.len()
    }
}

/// However many items were queued and however many workers share the queue,
/// the items handed out are exactly those accepted, in order, up to the ones
/// still waiting: none is handed out twice, none is dropped. Once the queue
/// is empty, every accepted item has been handed out exactly once.
pub proof fn lemma_each_item_taken_once<T>(q: WorkQueue<T>)
    requires
        q.wf(),
    ensures
        q.pushed() == q.taken() + q.pending(),
        q.taken().len() <= q.pushed().len(),
        q.taken() == q.pushed().subrange(0, q.taken().len() as int),
        q.pending().len() == 0 ==> q.taken() == q.pushed(),
{
    assert(q.taken() =~= q.pushed().subrange(0, q.taken().len() as int));
    if q.pending().len() == 0 {
        assert(q.taken() =~= q.pushed());
    }
}

} // verus!
