//! The bounded queue between the morsel iterator and the GPU consumer.
//!
//! At most two batches are in flight. A producer that finds the queue full
//! waits for the consumer; a consumer that finds it empty waits for the
//! producer, or learns that there will be no more. The queue itself never
//! waits: it says what the caller must do.

use vstd::prelude::*;
use crate::batch::{BatchView, ColumnBatch};
use crate::error::{Error, ErrorKind};
use crate::storage::MAX_IN_FLIGHT_TRANSFERS;

verus! {

/// What the queue tells a producer.
#[derive(Debug)]
pub enum Enqueue {
    /// The batch is in the queue.
    Accepted,
    /// The queue is full. The batch comes back; the producer waits until a
    /// batch is taken out and offers it again.
    Suspended(ColumnBatch),
}

/// What the queue tells the consumer.
#[derive(Debug)]
pub enum Dequeue {
    /// The batch that has waited longest.
    Batch(ColumnBatch),
    /// The queue is empty. The consumer waits until a batch is put in.
    Suspended,
    /// The queue is empty and no producer is left.
    Closed,
}

/// A queue as contracts see it.
pub struct QueueView {
    /// The batches in flight, oldest first.
    pub pending: Seq<BatchView>,
    pub sender_open: bool,
    pub receiver_open: bool,
}

/// What the queue tells a producer, as contracts see it.
pub enum EnqueueView {
    Accepted,
    Suspended,
    Closed,
}

/// What the queue tells the consumer, as contracts see it.
pub enum DequeueView {
    Batch(BatchView),
    Suspended,
    Closed,
}

/// Offering a batch: refused when the consumer is gone; sent back when the
/// queue is full; otherwise put last.
pub open spec fn spec_enqueue(q: QueueView, batch: BatchView) -> (QueueView, EnqueueView) {
    if !q.receiver_open {
        (q, EnqueueView::Closed)
    } else if q.pending.len() >= MAX_IN_FLIGHT_TRANSFERS {
        (q, EnqueueView::Suspended)
    } else {
        (
            QueueView {
                pending: q.pending.push(batch),
                sender_open: q.sender_open,
                receiver_open: q.receiver_open,
            },
            EnqueueView::Accepted,
        )
    }
}

/// Asking for a batch: the oldest, if there is one; else the end, if no
/// producer is left; else a wait.
pub open spec fn spec_dequeue(q: QueueView) -> (QueueView, DequeueView) {
    if q.pending.len() > 0 {
        (
            QueueView {
                pending: q.pending.subrange(1, q.pending.len() as int),
                sender_open: q.sender_open,
                receiver_open: q.receiver_open,
            },
            DequeueView::Batch(q.pending[0]),
        )
    } else if !q.sender_open {
        (q, DequeueView::Closed)
    } else {
        (q, DequeueView::Suspended)
    }
}

/// The bounded transfer queue.
#[derive(Debug)]
pub struct GpuTransferQueue {
    pending: Vec<ColumnBatch>,
    sender_open: bool,
    receiver_open: bool,
}

impl View for GpuTransferQueue {
    type V = QueueView;

    closed spec fn view(&self) -> QueueView {
        QueueView {
            pending: crate::batch::spec_views(self.pending@),
            sender_open: self.sender_open,
            receiver_open: self.receiver_open,
        }
    }
}

impl GpuTransferQueue {
    /// No more batches are in flight than the bound allows, and each is
    /// well formed.
    pub closed spec fn wf(&self) -> bool {
        &&& self.pending@.len() <= MAX_IN_FLIGHT_TRANSFERS
        &&& forall|i: int| 0 <= i < self.pending@.len() ==> (#[trigger] self.pending@[i]).wf()
    }

    /// A well-formed queue keeps the bound.
    pub proof fn lemma_bounded(&self)
        requires
            self.wf(),
        ensures
            self@.pending.len() <= MAX_IN_FLIGHT_TRANSFERS,
    {
    }

    /// An empty queue with both ends open.
    pub fn new() -> (q: GpuTransferQueue)
        ensures
            q.wf(),
            q@ == (QueueView { pending: Seq::empty(), sender_open: true, receiver_open: true }),
    {
        let q = GpuTransferQueue { pending: Vec::new(), sender_open: true, receiver_open: true };
        assert(q@.pending =~= Seq::<BatchView>::empty());
        q
    }

    /// The number of batches in flight.
    pub fn len(&self) -> (n: usize)
        ensures
            n == self@.pending.len(),
    {
        self.pending.len()
    }

    /// Offers a batch. Fails with `QueueClosed` when the consumer is gone.
    pub fn enqueue(&mut self, batch: ColumnBatch) -> (r: Result<Enqueue, Error>)
        requires
            old(self).wf(),
            batch.wf(),
        ensures
            final(self).wf(),
            final(self)@ == spec_enqueue(old(self)@, batch@).0,
            match r {
                Ok(Enqueue::Accepted) => spec_enqueue(old(self)@, batch@).1 is Accepted,
                Ok(Enqueue::Suspended(back)) => spec_enqueue(old(self)@, batch@).1 is Suspended
                    && back == batch,
                Err(e) => spec_enqueue(old(self)@, batch@).1 is Closed && e.spec_kind()
                    == ErrorKind::QueueClosed,
            },
    {
        if !self.receiver_open {
            return Err(Error::QueueClosed);
        }
        if self.pending.len() >= MAX_IN_FLIGHT_TRANSFERS {
            return Ok(Enqueue::Suspended(batch));
        }
        self.pending.push(batch);
        assert(self@.pending =~= old(self)@.pending.push(batch@));
        Ok(Enqueue::Accepted)
    }

    /// Asks for the next batch.
    pub fn dequeue(&mut self) -> (r: Dequeue)
        requires
            old(self).wf(),
        ensures
            final(self).wf(),
            final(self)@ == spec_dequeue(old(self)@).0,
            match r {
                Dequeue::Batch(b) => b.wf() && spec_dequeue(old(self)@).1 == DequeueView::Batch(b@),
                Dequeue::Suspended => spec_dequeue(old(self)@).1 is Suspended,
                Dequeue::Closed => spec_dequeue(old(self)@).1 is Closed,
            },
    {
        if self.pending.len() > 0 {
            let b = self.pending.remove(0);
            assert(self@.pending =~= old(self)@.pending.subrange(1, old(self)@.pending.len() as int));
            Dequeue::Batch(b)
        } else if !self.sender_open {
            Dequeue::Closed
        } else {
            Dequeue::Suspended
        }
    }

    /// The last producer is gone: once the queue is empty, the consumer is
    /// told so.
    pub fn close_sender(&mut self)
        requires
            old(self).wf(),
        ensures
            final(self).wf(),
            final(self)@ == (QueueView {
                pending: old(self)@.pending,
                sender_open: false,
                receiver_open: old(self)@.receiver_open,
            }),
    {
        self.sender_open = false;
    }

    /// The consumer is gone: the batches in flight are dropped, and every
    /// later offer is refused.
    pub fn close_receiver(&mut self)
        requires
            old(self).wf(),
        ensures
            final(self).wf(),
            final(self)@ == (QueueView {
                pending: Seq::empty(),
                sender_open: old(self)@.sender_open,
                receiver_open: false,
            }),
    {
        self.receiver_open = false;
        self.pending.clear();
        assert(self@.pending =~= Seq::<BatchView>::empty());
    }
}

impl Default for GpuTransferQueue {
    fn default() -> (q: GpuTransferQueue)
        ensures
            q.wf(),
            q@ == (QueueView { pending: Seq::empty(), sender_open: true, receiver_open: true }),
    {
        GpuTransferQueue::new()
    }
}

/// Transfer queue bound. An offer to a queue that holds as many batches as
/// the bound allows is sent back and changes nothing; once a batch was
/// taken out, the same offer is accepted, and the queue is full again.
pub proof fn lemma_full_queue_suspends_until_dequeue(q: QueueView, batch: BatchView)
    requires
        q.receiver_open,
        q.pending.len() == MAX_IN_FLIGHT_TRANSFERS,
    ensures
        spec_enqueue(q, batch) == (q, EnqueueView::Suspended),
        spec_dequeue(q).1 == DequeueView::Batch(q.pending[0]),
        spec_enqueue(spec_dequeue(q).0, batch).1 is Accepted,
        spec_enqueue(spec_dequeue(q).0, batch).0.pending == q.pending.subrange(
            1,
            q.pending.len() as int,
        ).push(batch),
        spec_enqueue(spec_dequeue(q).0, batch).0.pending.len() == MAX_IN_FLIGHT_TRANSFERS,
{
}

/// From an empty queue, two offers are accepted and the third is sent
/// back.
pub proof fn lemma_third_enqueue_suspends(a: BatchView, b: BatchView, c: BatchView)
    ensures
        ({
            let empty = QueueView { pending: Seq::empty(), sender_open: true, receiver_open: true };
            let one = spec_enqueue(empty, a);
            let two = spec_enqueue(one.0, b);
            let three = spec_enqueue(two.0, c);
            &&& one.1 is Accepted
            &&& two.1 is Accepted
            &&& three.1 is Suspended
            &&& three.0 == two.0
            &&& two.0.pending == seq![a, b]
        }),
{
    let empty = QueueView { pending: Seq::empty(), sender_open: true, receiver_open: true };
    let one = spec_enqueue(empty, a);
    let two = spec_enqueue(one.0, b);
    assert(two.0.pending =~= seq![a, b]);
}

} // verus!
