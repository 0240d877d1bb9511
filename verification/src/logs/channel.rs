//! The aggregator channel: one bounded queue, first in first out, that
//! every worker feeds and the sink drains.
//!
//! A full queue never drops a record: the record is handed back to the
//! worker, which waits and offers it again. The run is over when every
//! producer has closed and the queue is empty.

use crate::logs::{LogRecord, LogRecordView};
use std::collections::VecDeque;
use vstd::prelude::*;

verus! {

/// The capacity of the queue of a run.
pub const CHANNEL_CAPACITY: usize = 200;

/// The bounded queue between the workers and the sink.
#[derive(Debug, PartialEq, Eq)]
pub struct Aggregator {
    queue: VecDeque<LogRecord>,
    capacity: usize,
    producers: usize,
}

/// The mathematical value of an [`Aggregator`]: the records it holds, the
/// oldest first, the number of records it can hold, and the number of
/// producers that have not closed.
pub struct AggregatorView {
    pub queue: Seq<LogRecordView>,
    pub capacity: nat,
    pub producers: nat,
}

/// What the sink gets when it asks for the next record.
#[derive(Debug, PartialEq, Eq)]
pub enum Delivery {
    /// The oldest record of the queue.
    Record(LogRecord),
    /// The queue is empty, and producers are still open: wait.
    Pending,
    /// The queue is empty and every producer has closed: the run is over.
    Finished,
}

/// The mathematical value of a [`Delivery`].
pub enum DeliveryView {
    Record(LogRecordView),
    Pending,
    Finished,
}

impl View for Delivery {
    type V = DeliveryView;

    open spec fn view(&self) -> DeliveryView {
        match self {
            Delivery::Record(record) => DeliveryView::Record(record@),
            Delivery::Pending => DeliveryView::Pending,
            Delivery::Finished => DeliveryView::Finished,
        }
    }
}

impl AggregatorView {
    /// The queue holds no more than its capacity.
    pub open spec fn wf(self) -> bool {
        self.queue.len() <= self.capacity
    }

    /// The queue can take one more record.
    pub open spec fn has_room(self) -> bool {
        self.queue.len() < self.capacity
    }

    /// The queue after `record` was offered: the record stands last where
    /// there was room, and nothing has changed where there was none.
    pub open spec fn offer(self, record: LogRecordView) -> AggregatorView {
        if self.has_room() {
            AggregatorView { queue: self.queue.push(record), ..self }
        } else {
            self
        }
    }

    /// What the sink gets next.
    pub open spec fn next(self) -> DeliveryView {
        if self.queue.len() > 0 {
            DeliveryView::Record(self.queue[0])
        } else if self.producers > 0 {
            DeliveryView::Pending
        } else {
            DeliveryView::Finished
        }
    }

    /// The queue after the sink took what was next.
    pub open spec fn take(self) -> AggregatorView {
        if self.queue.len() > 0 {
            AggregatorView { queue: self.queue.drop_first(), ..self }
        } else {
            self
        }
    }

    /// The queue after one producer closed.
    pub open spec fn close(self) -> AggregatorView {
        if self.producers > 0 {
            AggregatorView { producers: (self.producers - 1) as nat, ..self }
        } else {
            self
        }
    }
}

impl View for Aggregator {
    type V = AggregatorView;

    closed spec fn view(&self) -> AggregatorView {
        AggregatorView {
            queue: self.queue.deep_view(),
            capacity: self.capacity as nat,
            producers: self.producers as nat,
        }
    }
}

impl Aggregator {
    /// The queue holds no more than its capacity. Every constructor
    /// establishes this and every method keeps it.
    pub open spec fn wf(&self) -> bool {
        self@.wf()
    }

    /// An empty queue for `capacity` records, fed by `producers` workers. A
    /// queue for no record at all accepts nothing.
    pub fn new(capacity: usize, producers: usize) -> (channel: Aggregator)
        ensures
            channel.wf(),
            channel@ == (AggregatorView {
                queue: Seq::empty(),
                capacity: capacity as nat,
                producers: producers as nat,
            }),
    {
        let channel = Aggregator { queue: VecDeque::new(), capacity, producers };
        assert(channel.queue.deep_view() =~= Seq::<LogRecordView>::empty());
        channel
    }

    /// The number of records in the queue.
    pub fn len(&self) -> (n: usize)
        ensures
            n == self@.queue.len(),
    {
        self.queue.len()
    }

    /// The number of records the queue can hold.
    pub fn capacity(&self) -> (n: usize)
        ensures
            n == self@.capacity,
    {
        self.capacity
    }

    /// The number of producers that have not closed.
    pub fn producers(&self) -> (n: usize)
        ensures
            n == self@.producers,
    {
        self.producers
    }

    /// Whether the queue can take one more record.
    pub fn has_room(&self) -> (room: bool)
        ensures
            room == self@.has_room(),
    {
        self.queue.len() < self.capacity
    }

    /// Offers `record` to the queue. Where there is room the record is
    /// queued behind all others. Where there is none the queue is left as
    /// it was and the record is handed back: the producer waits and offers
    /// it again.
    pub fn offer(&mut self, record: LogRecord) -> (outcome: Result<(), LogRecord>)
        requires
            old(self).wf(),
        ensures
            final(self).wf(),
            final(self)@ == old(self)@.offer(record@),
            outcome is Ok <==> old(self)@.has_room(),
            outcome matches Err(back) ==> back == record,
    {
        if self.queue.len() < self.capacity {
            let ghost before = self.queue.deep_view();
            self.queue.push_back(record);
            assert(self.queue.deep_view() =~= before.push(record@));
            Ok(())
        } else {
            Err(record)
        }
    }

    /// Takes what is next for the sink: the oldest record, or the news
    /// that the sink has to wait, or that the run is over.
    pub fn take(&mut self) -> (next: Delivery)
        requires
            old(self).wf(),
        ensures
            final(self).wf(),
            next@ == old(self)@.next(),
            final(self)@ == old(self)@.take(),
    {
        let ghost before = self.queue.deep_view();
        match self.queue.pop_front() {
            Some(record) => {
                assert(self.queue.deep_view() =~= before.drop_first());
                Delivery::Record(record)
            },
            None => {
                if self.producers > 0 {
                    Delivery::Pending
                } else {
                    Delivery::Finished
                }
            },
        }
    }

    /// Closes one producer. Closing when none is open changes nothing.
    pub fn close_producer(&mut self)
        requires
            old(self).wf(),
        ensures
            final(self).wf(),
            final(self)@ == old(self)@.close(),
    {
        if self.producers > 0 {
            self.producers = self.producers - 1;
        }
    }
}

/// One use of the channel: a producer offers a record, the sink takes what
/// is next, or a producer closes.
pub enum ChannelOp {
    Offer(LogRecordView),
    Take,
    Close,
}

/// `count` takes, one after the other.
pub open spec fn takes(count: nat) -> Seq<ChannelOp> {
    Seq::new(count, |i: int| ChannelOp::Take)
}

/// The records among `records` that carry `label`, in their order.
pub open spec fn from_source(records: Seq<LogRecordView>, label: Seq<char>) -> Seq<LogRecordView> {
    records.filter(|r: LogRecordView| r.source_label == label)
}

impl AggregatorView {
    /// The queue after one use.
    pub open spec fn apply(self, op: ChannelOp) -> AggregatorView {
        match op {
            ChannelOp::Offer(record) => self.offer(record),
            ChannelOp::Take => self.take(),
            ChannelOp::Close => self.close(),
        }
    }

    /// The queue after the uses `ops`, in their order.
    pub open spec fn after(self, ops: Seq<ChannelOp>) -> AggregatorView
        decreases ops.len(),
    {
        if ops.len() == 0 {
            self
        } else {
            self.after(ops.drop_last()).apply(ops.last())
        }
    }

    /// The records that the queue accepted in the course of `ops`, in the
    /// order in which it accepted them. An offer to a full queue is not
    /// among them: its record went back to the producer.
    pub open spec fn accepted(self, ops: Seq<ChannelOp>) -> Seq<LogRecordView>
        decreases ops.len(),
    {
        if ops.len() == 0 {
            Seq::empty()
        } else {
            let before = self.accepted(ops.drop_last());
            match ops.last() {
                ChannelOp::Offer(record) if self.after(ops.drop_last()).has_room() => before.push(
                    record,
                ),
                _ => before,
            }
        }
    }

    /// The records that the sink was given in the course of `ops`, in the
    /// order in which it was given them.
    pub open spec fn delivered(self, ops: Seq<ChannelOp>) -> Seq<LogRecordView>
        decreases ops.len(),
    {
        if ops.len() == 0 {
            Seq::empty()
        } else {
            let before = self.delivered(ops.drop_last());
            match (ops.last(), self.after(ops.drop_last()).next()) {
                (ChannelOp::Take, DeliveryView::Record(record)) => before.push(record),
                _ => before,
            }
        }
    }
}

/// However the channel is used, it keeps its capacity and never holds more
/// records than that.
pub proof fn lemma_stays_bounded(start: AggregatorView, ops: Seq<ChannelOp>)
    requires
        start.wf(),
    ensures
        start.after(ops).wf(),
        start.after(ops).capacity == start.capacity,
    decreases ops.len(),
{
    if ops.len() > 0 {
        lemma_stays_bounded(start, ops.drop_last());
    }
}

/// Nothing is lost, doubled or reordered: what the queue held at the start
/// followed by what it accepted since is what the sink was given followed
/// by what the queue holds now.
pub proof fn lemma_nothing_is_lost(start: AggregatorView, ops: Seq<ChannelOp>)
    ensures
        start.queue + start.accepted(ops) == start.delivered(ops) + start.after(ops).queue,
    decreases ops.len(),
{
    if ops.len() > 0 {
        let earlier = ops.drop_last();
        lemma_nothing_is_lost(start, earlier);
        let state = start.after(earlier);
        match ops.last() {
            ChannelOp::Offer(record) => {
                // queueing a record behind the queue is queueing it behind
                // all that was delivered and the queue
                assert(start.delivered(earlier) + state.queue.push(record) =~= (start.delivered(
                    earlier,
                ) + state.queue).push(record));
            },
            ChannelOp::Take => {
                // the record taken moves from the head of the queue to the
                // end of what was delivered
                assert(state.queue.len() > 0 ==> start.delivered(earlier).push(state.queue[0])
                    + state.queue.drop_first() =~= start.delivered(earlier) + state.queue);
            },
            ChannelOp::Close => {},
        }
    }
}

/// What a run of uses followed by another gives to the sink is what the
/// first run gives followed by what the second gives from where the first
/// left the queue; and likewise for what the queue accepts.
pub proof fn lemma_uses_in_sequence(
    start: AggregatorView,
    first: Seq<ChannelOp>,
    second: Seq<ChannelOp>,
)
    ensures
        start.after(first + second) == start.after(first).after(second),
        start.delivered(first + second) == start.delivered(first) + start.after(first).delivered(
            second,
        ),
        start.accepted(first + second) == start.accepted(first) + start.after(first).accepted(
            second,
        ),
    decreases second.len(),
{
    if second.len() > 0 {
        // all uses but the last are `first` and then `second` but its last
        assert((first + second).drop_last() =~= first + second.drop_last());
        lemma_uses_in_sequence(start, first, second.drop_last());
    }
}

/// Taking `count` times from a queue that holds at least as many records
/// gives its first `count` records, in order, and leaves the others.
pub proof fn lemma_takes_give_the_oldest(start: AggregatorView, count: nat)
    requires
        count <= start.queue.len(),
    ensures
        start.delivered(takes(count)) == start.queue.take(count as int),
        start.after(takes(count)).queue == start.queue.skip(count as int),
        start.accepted(takes(count)) == Seq::<LogRecordView>::empty(),
    decreases count,
{
    if count > 0 {
        let fewer = (count - 1) as nat;
        lemma_takes_give_the_oldest(start, fewer);
        assert(takes(count).drop_last() =~= takes(fewer));
    }
}

/// Backpressure loses nothing. However the producers and the sink took
/// turns, and however often a full queue sent a producer away, once the
/// sink takes as many times as the queue holds records it has been given
/// everything that the queue held at the start or accepted since, in the
/// order of acceptance, and the queue is empty.
pub proof fn lemma_resumed_sink_yields_everything(start: AggregatorView, ops: Seq<ChannelOp>)
    ensures
        ({
            let drain = takes(start.after(ops).queue.len());
            &&& start.delivered(ops + drain) == start.queue + start.accepted(ops)
            &&& start.after(ops + drain).queue.len() == 0
        }),
{
    let state = start.after(ops);
    let drain = takes(state.queue.len());
    lemma_nothing_is_lost(start, ops);
    lemma_uses_in_sequence(start, ops, drain);
    lemma_takes_give_the_oldest(state, state.queue.len());
}

/// The records of one source keep their order. Among what the queue held
/// and accepted, the records of a label are, in the same order, those of
/// that label that the sink was given, followed by those still queued.
pub proof fn lemma_source_order_is_kept(
    start: AggregatorView,
    ops: Seq<ChannelOp>,
    label: Seq<char>,
)
    ensures
        from_source(start.queue, label) + from_source(start.accepted(ops), label) == from_source(
            start.delivered(ops),
            label,
        ) + from_source(start.after(ops).queue, label),
{
    let same = |r: LogRecordView| r.source_label == label;
    lemma_nothing_is_lost(start, ops);
    Seq::filter_distributes_over_add(start.queue, start.accepted(ops), same);
    Seq::filter_distributes_over_add(start.delivered(ops), start.after(ops).queue, same);
}

} // verus!
