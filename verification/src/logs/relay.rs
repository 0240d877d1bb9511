//! The relay: the whole run as one state and the events that move it.
//!
//! The caller reads the streams and prints the lines. Whenever something
//! happens (a chunk arrived, a stream closed, the sink is ready for more)
//! it tells the relay, and the relay answers with what was done or what is
//! to be done. The relay holds one worker for each endpoint, the queue they
//! share, and the sink.

use crate::logs::channel::{
    from_source, lemma_resumed_sink_yields_everything, lemma_uses_in_sequence, takes, Aggregator,
    AggregatorView, ChannelOp, Delivery, DeliveryView,
};
use crate::logs::sink::{Sink, SinkView};
use crate::logs::worker::{
    decode_chunk, record_of, records_of, StreamWorker, StreamWorkerView, WorkerState,
    WorkerStateView,
};
use crate::logs::{LogRecord, LogRecordView, StreamEndpoint, StreamEndpointView};
use vstd::prelude::*;
use vstd::string::*;
use vstd::utf8::*;

verus! {

/// Why a worker exited.
#[derive(Debug, Clone, Copy, PartialEq, Eq)]
pub enum ExitReason {
    /// The stream ended.
    EndOfStream,
    /// Reading the stream failed.
    StreamError,
}

/// What went wrong for one worker: how many chunks it dropped because they
/// were not UTF-8, and why it exited, if it has. The count stops at the
/// largest number the machine can hold.
#[derive(Debug, Clone, Copy, PartialEq, Eq)]
pub struct WorkerReport {
    pub dropped: usize,
    pub exit: Option<ExitReason>,
}

/// Something that happened outside the relay.
#[derive(Debug, PartialEq, Eq)]
pub enum Event {
    /// The stream of a worker delivered a chunk of bytes.
    Chunk { worker: usize, bytes: Vec<u8> },
    /// A suspended worker tries again to hand over its record.
    Resume { worker: usize },
    /// The stream of a worker closed, for the reason given.
    Closed { worker: usize, reason: ExitReason },
    /// The sink is ready for the next record.
    Drain,
}

/// The mathematical value of an [`Event`].
pub enum EventView {
    Chunk { worker: int, bytes: Seq<u8> },
    Resume { worker: int },
    Closed { worker: int, reason: ExitReason },
    Drain,
}

impl EventView {
    /// The worker that the event speaks of, if it speaks of one.
    pub open spec fn worker(self) -> Option<int> {
        match self {
            EventView::Chunk { worker, .. } => Some(worker),
            EventView::Resume { worker } => Some(worker),
            EventView::Closed { worker, .. } => Some(worker),
            EventView::Drain => None,
        }
    }
}

impl View for Event {
    type V = EventView;

    open spec fn view(&self) -> EventView {
        match self {
            Event::Chunk { worker, bytes } => EventView::Chunk {
                worker: *worker as int,
                bytes: bytes@,
            },
            Event::Resume { worker } => EventView::Resume { worker: *worker as int },
            Event::Closed { worker, reason } => EventView::Closed {
                worker: *worker as int,
                reason: *reason,
            },
            Event::Drain => EventView::Drain,
        }
    }
}

/// The relay's answer to an event.
#[derive(Debug, PartialEq, Eq)]
pub enum Action {
    /// The record of the worker stands in the queue. The worker reads on.
    Forwarded,
    /// The chunk was not UTF-8 and was dropped. The worker reads on.
    Dropped,
    /// The queue is full. The worker holds its record and is to try again
    /// with [`Event::Resume`] once the sink has taken a record.
    Suspended,
    /// The worker has exited for good.
    Exited,
    /// The sink shows this line.
    Emit(String),
    /// The sink took a record that the filter held back.
    Filtered,
    /// The queue is empty but workers are still at work: the sink waits.
    Idle,
    /// Every worker has exited and the queue is empty: the run is over.
    Finished,
    /// The event does not apply: there is no such worker, or the worker
    /// is not in the state that the event speaks of. Nothing has changed.
    Refused,
}

/// The mathematical value of an [`Action`].
pub enum ActionView {
    Forwarded,
    Dropped,
    Suspended,
    Exited,
    Emit(Seq<char>),
    Filtered,
    Idle,
    Finished,
    Refused,
}

impl View for Action {
    type V = ActionView;

    open spec fn view(&self) -> ActionView {
        match self {
            Action::Forwarded => ActionView::Forwarded,
            Action::Dropped => ActionView::Dropped,
            Action::Suspended => ActionView::Suspended,
            Action::Exited => ActionView::Exited,
            Action::Emit(line) => ActionView::Emit(line@),
            Action::Filtered => ActionView::Filtered,
            Action::Idle => ActionView::Idle,
            Action::Finished => ActionView::Finished,
            Action::Refused => ActionView::Refused,
        }
    }
}

/// The state of a run.
#[derive(Debug, PartialEq, Eq)]
pub struct Relay {
    workers: Vec<StreamWorker>,
    channel: Aggregator,
    sink: Sink,
    reports: Vec<WorkerReport>,
}

/// The mathematical value of a [`Relay`].
pub struct RelayView {
    pub workers: Seq<StreamWorkerView>,
    pub channel: AggregatorView,
    pub sink: SinkView,
    /// What went wrong for each worker. Nothing of it is ever shown.
    pub reports: Seq<WorkerReport>,
}

/// 1 for a worker that has not exited, 0 for one that has.
pub open spec fn alive(worker: StreamWorkerView) -> nat {
    if worker.state is Exited {
        0
    } else {
        1
    }
}

/// The number of workers that have not exited.
pub open spec fn live(workers: Seq<StreamWorkerView>) -> nat
    decreases workers.len(),
{
    if workers.len() == 0 {
        0
    } else {
        live(workers.drop_last()) + alive(workers.last())
    }
}

/// One worker for each endpoint, in the order of the endpoints, each about
/// to read.
pub open spec fn fresh_workers(endpoints: Seq<StreamEndpointView>) -> Seq<StreamWorkerView> {
    Seq::new(
        endpoints.len(),
        |i: int| StreamWorkerView { endpoint: endpoints[i], state: WorkerStateView::Reading },
    )
}

/// A report of nothing for each of `count` workers.
pub open spec fn fresh_reports(count: nat) -> Seq<WorkerReport> {
    Seq::new(count, |i: int| WorkerReport { dropped: 0, exit: None })
}

impl RelayView {
    /// A record that a suspended worker holds carries the label of the
    /// worker's endpoint.
    pub open spec fn labels_kept(self) -> bool {
        forall|i: int|
            0 <= i < self.workers.len() ==> ((#[trigger] self.workers[i]).state matches WorkerStateView::Suspended(
                record,
            ) ==> record.source_label == self.workers[i].endpoint.source_label)
    }

    /// The queue is within its capacity, it counts as open producers
    /// exactly the workers that have not exited, what a suspended worker
    /// holds carries the worker's label, and there is a report for each
    /// worker, which gives a reason exactly where the worker has exited.
    pub open spec fn wf(self) -> bool {
        &&& self.channel.wf()
        &&& self.channel.producers == live(self.workers)
        &&& self.labels_kept()
        &&& self.reports.len() == self.workers.len()
        &&& forall|i: int|
            0 <= i < self.workers.len() ==> ((#[trigger] self.reports[i]).exit is Some
                <==> self.workers[i].state is Exited)
    }

    /// All of [`RelayView::wf`] but that the worker `worker`, if it is
    /// suspended, may hold a record under any label.
    pub open spec fn wf_but_for(self, worker: int) -> bool {
        &&& self.channel.wf()
        &&& self.channel.producers == live(self.workers)
        &&& forall|i: int|
            0 <= i < self.workers.len() && i != worker ==> ((
            #[trigger] self.workers[i]).state matches WorkerStateView::Suspended(record)
                ==> record.source_label == self.workers[i].endpoint.source_label)
        &&& self.reports.len() == self.workers.len()
        &&& forall|i: int|
            0 <= i < self.workers.len() ==> ((#[trigger] self.reports[i]).exit is Some
                <==> self.workers[i].state is Exited)
    }

    /// The state in which a run starts: one reading worker for each
    /// endpoint and an empty queue that counts them all as producers.
    pub open spec fn start(
        sink: SinkView,
        endpoints: Seq<StreamEndpointView>,
        capacity: nat,
    ) -> RelayView {
        RelayView {
            workers: fresh_workers(endpoints),
            channel: AggregatorView {
                queue: Seq::empty(),
                capacity,
                producers: endpoints.len(),
            },
            sink,
            reports: fresh_reports(endpoints.len()),
        }
    }

    /// There is a worker `worker`.
    pub open spec fn has_worker(self, worker: int) -> bool {
        0 <= worker < self.workers.len()
    }

    /// This state with the worker `worker` in the state `state`.
    pub open spec fn with_worker_state(self, worker: int, state: WorkerStateView) -> RelayView {
        RelayView {
            workers: self.workers.update(
                worker,
                StreamWorkerView { endpoint: self.workers[worker].endpoint, state },
            ),
            ..self
        }
    }

    /// This state with one more dropped chunk in the report of `worker`.
    pub open spec fn with_drop(self, worker: int) -> RelayView {
        let report = self.reports[worker];
        RelayView {
            reports: self.reports.update(
                worker,
                WorkerReport {
                    dropped: if report.dropped < usize::MAX {
                        (report.dropped + 1) as usize
                    } else {
                        report.dropped
                    },
                    ..report
                },
            ),
            ..self
        }
    }

    /// This state with the reason `reason` in the report of `worker`.
    pub open spec fn with_exit(self, worker: int, reason: ExitReason) -> RelayView {
        RelayView {
            reports: self.reports.update(
                worker,
                WorkerReport { exit: Some(reason), ..self.reports[worker] },
            ),
            ..self
        }
    }

    /// The worker `worker` hands over `record`: where the queue has room
    /// the record is queued and the worker reads; where it has none the
    /// worker holds the record, suspended.
    pub open spec fn hand_over(self, worker: int, record: LogRecordView) -> (
        RelayView,
        ActionView,
    ) {
        if self.channel.has_room() {
            (
                RelayView {
                    channel: self.channel.offer(record),
                    ..self.with_worker_state(worker, WorkerStateView::Reading)
                },
                ActionView::Forwarded,
            )
        } else {
            (
                self.with_worker_state(worker, WorkerStateView::Suspended(record)),
                ActionView::Suspended,
            )
        }
    }

    /// A chunk arrived for `worker`. A reading worker decodes it under
    /// the label of its endpoint; a chunk that does not decode is dropped
    /// and counted in the report of the worker, and the worker reads on.
    /// A worker that is suspended or has exited takes no chunk.
    pub open spec fn on_chunk(self, worker: int, bytes: Seq<u8>) -> (RelayView, ActionView) {
        if self.has_worker(worker) && self.workers[worker].state is Reading {
            match record_of(self.workers[worker].endpoint.source_label, bytes) {
                Some(record) => self.hand_over(worker, record),
                None => (self.with_drop(worker), ActionView::Dropped),
            }
        } else {
            (self, ActionView::Refused)
        }
    }

    /// A suspended worker offers its record again.
    pub open spec fn on_resume(self, worker: int) -> (RelayView, ActionView) {
        if self.has_worker(worker) {
            match self.workers[worker].state {
                WorkerStateView::Suspended(record) => self.hand_over(worker, record),
                _ => (self, ActionView::Refused),
            }
        } else {
            (self, ActionView::Refused)
        }
    }

    /// The stream of a reading worker closed: the worker exits, its
    /// report keeps the reason, and the queue has one producer less. No
    /// other worker is touched.
    pub open spec fn on_closed(self, worker: int, reason: ExitReason) -> (RelayView, ActionView) {
        if self.has_worker(worker) && self.workers[worker].state is Reading {
            (
                RelayView {
                    channel: self.channel.close(),
                    ..self.with_worker_state(worker, WorkerStateView::Exited).with_exit(
                        worker,
                        reason,
                    )
                },
                ActionView::Exited,
            )
        } else {
            (self, ActionView::Refused)
        }
    }

    /// The sink takes what is next in the queue and shows it or not.
    pub open spec fn on_drain(self) -> (RelayView, ActionView) {
        match self.channel.next() {
            DeliveryView::Record(record) => (
                RelayView { channel: self.channel.take(), ..self },
                match self.sink.emitted(record) {
                    Some(line) => ActionView::Emit(line),
                    None => ActionView::Filtered,
                },
            ),
            DeliveryView::Pending => (self, ActionView::Idle),
            DeliveryView::Finished => (self, ActionView::Finished),
        }
    }

    /// The state after `event`, and the relay's answer to it.
    pub open spec fn step(self, event: EventView) -> (RelayView, ActionView) {
        match event {
            EventView::Chunk { worker, bytes } => self.on_chunk(worker, bytes),
            EventView::Resume { worker } => self.on_resume(worker),
            EventView::Closed { worker, reason } => self.on_closed(worker, reason),
            EventView::Drain => self.on_drain(),
        }
    }

    /// The uses of the queue that `event` causes in this state: a record
    /// that a worker hands over is offered, a drain takes, the exit of a
    /// worker closes a producer, and an event that is refused or a chunk
    /// that is dropped does not touch the queue.
    pub open spec fn channel_uses(self, event: EventView) -> Seq<ChannelOp> {
        match event {
            EventView::Chunk { worker, bytes } => {
                if self.has_worker(worker) && self.workers[worker].state is Reading {
                    match record_of(self.workers[worker].endpoint.source_label, bytes) {
                        Some(record) => seq![ChannelOp::Offer(record)],
                        None => Seq::empty(),
                    }
                } else {
                    Seq::empty()
                }
            },
            EventView::Resume { worker } => {
                if self.has_worker(worker) {
                    match self.workers[worker].state {
                        WorkerStateView::Suspended(record) => seq![ChannelOp::Offer(record)],
                        _ => Seq::empty(),
                    }
                } else {
                    Seq::empty()
                }
            },
            EventView::Closed { worker, .. } => {
                if self.has_worker(worker) && self.workers[worker].state is Reading {
                    seq![ChannelOp::Close]
                } else {
                    Seq::empty()
                }
            },
            EventView::Drain => seq![ChannelOp::Take],
        }
    }

    /// The state after the events `events`, in their order.
    pub open spec fn run(self, events: Seq<EventView>) -> RelayView
        decreases events.len(),
    {
        if events.len() == 0 {
            self
        } else {
            self.run(events.drop_last()).step(events.last()).0
        }
    }

    /// The uses of the queue in the course of `events`, in their order.
    pub open spec fn uses(self, events: Seq<EventView>) -> Seq<ChannelOp>
        decreases events.len(),
    {
        if events.len() == 0 {
            Seq::empty()
        } else {
            self.uses(events.drop_last()) + self.run(events.drop_last()).channel_uses(
                events.last(),
            )
        }
    }

    /// The lines that the sink was told to show in the course of `events`,
    /// in their order.
    pub open spec fn shown(self, events: Seq<EventView>) -> Seq<Seq<char>>
        decreases events.len(),
    {
        if events.len() == 0 {
            Seq::empty()
        } else {
            let before = self.shown(events.drop_last());
            match self.run(events.drop_last()).step(events.last()).1 {
                ActionView::Emit(line) => before.push(line),
                _ => before,
            }
        }
    }

    /// The record that the worker `worker` holds while it is suspended, as
    /// a sequence of one record; the empty sequence where it holds none.
    pub open spec fn held(self, worker: int) -> Seq<LogRecordView> {
        match self.workers[worker].state {
            WorkerStateView::Suspended(record) => seq![record],
            _ => Seq::empty(),
        }
    }

    /// The chunks that the worker `worker` read in the course of `events`,
    /// in their order: those that arrived while it was reading.
    pub open spec fn read_by(self, events: Seq<EventView>, worker: int) -> Seq<Seq<u8>>
        decreases events.len(),
    {
        if events.len() == 0 {
            Seq::empty()
        } else {
            let before = self.read_by(events.drop_last(), worker);
            let state = self.run(events.drop_last());
            match events.last() {
                EventView::Chunk { worker: w, bytes } if w == worker && state.has_worker(w)
                    && state.workers[w].state is Reading => before.push(bytes),
                _ => before,
            }
        }
    }

    /// The records of the worker `worker` that entered the queue in the
    /// course of `events`, in the order in which they entered.
    pub open spec fn handed_over(self, events: Seq<EventView>, worker: int) -> Seq<LogRecordView>
        decreases events.len(),
    {
        if events.len() == 0 {
            Seq::empty()
        } else {
            let before = self.handed_over(events.drop_last(), worker);
            let state = self.run(events.drop_last());
            match (events.last(), state.step(events.last()).1) {
                (EventView::Chunk { worker: w, bytes }, ActionView::Forwarded) if w == worker
                    => before.push(
                    record_of(state.workers[w].endpoint.source_label, bytes)->0,
                ),
                (EventView::Resume { worker: w }, ActionView::Forwarded) if w == worker
                    => before + state.held(w),
                _ => before,
            }
        }
    }
}

/// Putting another worker in the place of one changes the number of live
/// workers by the difference between the two.
pub proof fn lemma_live_after_update(
    workers: Seq<StreamWorkerView>,
    at: int,
    worker: StreamWorkerView,
)
    requires
        0 <= at < workers.len(),
    ensures
        live(workers.update(at, worker)) + alive(workers[at]) == live(workers) + alive(worker),
    decreases workers.len(),
{
    let updated = workers.update(at, worker);
    if at == workers.len() - 1 {
        // the last worker was replaced: the others are as before
        assert(updated.drop_last() =~= workers.drop_last());
    } else {
        // an earlier worker was replaced: count the others first
        assert(updated.drop_last() =~= workers.drop_last().update(at, worker));
        lemma_live_after_update(workers.drop_last(), at, worker);
    }
}

/// Where no worker is live, every worker has exited; and the number of
/// live workers never exceeds the number of workers.
pub proof fn lemma_live_counts_the_unexited(workers: Seq<StreamWorkerView>)
    ensures
        live(workers) <= workers.len(),
        live(workers) == 0 <==> forall|i: int|
            0 <= i < workers.len() ==> (#[trigger] workers[i]).state is Exited,
        live(workers) == workers.len() <==> forall|i: int|
            0 <= i < workers.len() ==> !((#[trigger] workers[i]).state is Exited),
    decreases workers.len(),
{
    if workers.len() > 0 {
        // all workers but the last are counted first; they are the same
        // workers in the whole sequence
        let before = workers.drop_last();
        lemma_live_counts_the_unexited(before);
        assert forall|i: int| 0 <= i < before.len() implies before[i] == workers[i] by {}
    }
}

/// A run starts well-formed, with exactly one worker for each endpoint:
/// worker `i` reads endpoint `i` and tags its records with the label of
/// that endpoint.
pub proof fn lemma_one_worker_for_each_endpoint(
    sink: SinkView,
    endpoints: Seq<StreamEndpointView>,
    capacity: nat,
)
    ensures
        RelayView::start(sink, endpoints, capacity).wf(),
        RelayView::start(sink, endpoints, capacity).workers.len() == endpoints.len(),
        forall|i: int|
            0 <= i < endpoints.len() ==> (#[trigger] RelayView::start(
                sink,
                endpoints,
                capacity,
            ).workers[i]).endpoint == endpoints[i],
{
    lemma_live_counts_the_unexited(fresh_workers(endpoints));
}

/// No event breaks the state, adds or removes a worker, or gives a worker
/// another endpoint: the label of a worker is the same for the whole run.
pub proof fn lemma_step_keeps_the_workers(state: RelayView, event: EventView)
    requires
        state.wf(),
    ensures
        state.step(event).0.wf(),
        state.step(event).0.workers.len() == state.workers.len(),
        forall|i: int|
            0 <= i < state.workers.len() ==> (#[trigger] state.step(event).0.workers[i]).endpoint
                == state.workers[i].endpoint,
        state.step(event).0.sink == state.sink,
        state.step(event).0.channel.capacity == state.channel.capacity,
{
    // an event puts at most one worker into another state: only that worker
    // is counted anew
    let after = state.step(event).0;
    match event.worker() {
        Some(worker) => {
            if state.has_worker(worker) {
                assert(after.workers =~= state.workers.update(worker, after.workers[worker]));
                lemma_live_after_update(state.workers, worker, after.workers[worker]);
            }
        },
        None => {},
    }
}

/// An event that speaks of one worker leaves every other worker as it was:
/// the failure of one stream touches no other.
pub proof fn lemma_step_touches_one_worker(state: RelayView, event: EventView, other: int)
    requires
        state.has_worker(other),
        event.worker() != Some(other),
    ensures
        state.step(event).0.workers[other] == state.workers[other],
{
}

/// The states `a` and `b` differ at most in their reports.
pub open spec fn same_but_for_reports(a: RelayView, b: RelayView) -> bool {
    &&& a.workers == b.workers
    &&& a.channel == b.channel
    &&& a.sink == b.sink
}

/// A chunk that is not UTF-8 changes nothing but the report of its worker:
/// the worker still reads, no other worker, the queue and the sink are
/// touched, and nothing is shown.
pub proof fn lemma_undecodable_chunk_changes_nothing(state: RelayView, worker: int, bytes: Seq<u8>)
    requires
        !valid_utf8(bytes),
    ensures
        same_but_for_reports(state.step(EventView::Chunk { worker, bytes }).0, state),
        !(state.step(EventView::Chunk { worker, bytes }).1 is Emit),
{
}

/// The reports decide nothing. Two states that differ at most in their
/// reports answer every event alike and differ at most in their reports
/// afterwards: what is shown never depends on what went wrong before.
pub proof fn lemma_reports_decide_nothing(a: RelayView, b: RelayView, event: EventView)
    requires
        same_but_for_reports(a, b),
    ensures
        a.step(event).1 == b.step(event).1,
        same_but_for_reports(a.step(event).0, b.step(event).0),
{
}

/// The run is reported over only when every worker has exited and the
/// queue is empty.
pub proof fn lemma_finished_means_all_done(state: RelayView)
    requires
        state.wf(),
    ensures
        state.step(EventView::Drain).1 is Finished <==> (state.channel.queue.len() == 0
            && forall|i: int|
            0 <= i < state.workers.len() ==> (#[trigger] state.workers[i]).state is Exited),
{
    lemma_live_counts_the_unexited(state.workers);
}

/// An event moves the queue by the uses it causes and by nothing else, and
/// it never changes the sink.
pub proof fn lemma_event_uses_the_queue(state: RelayView, event: EventView)
    ensures
        state.step(event).0.channel == state.channel.after(state.channel_uses(event)),
        state.step(event).0.sink == state.sink,
{
    let uses = state.channel_uses(event);
    if uses.len() > 0 {
        // an event causes one use at most: before it the queue is untouched
        assert(state.channel.after(uses.drop_last()) == state.channel);
    }
}

/// A run moves the queue by the uses it causes, in their order, and never
/// changes the sink.
pub proof fn lemma_run_uses_the_queue(state: RelayView, events: Seq<EventView>)
    ensures
        state.run(events).channel == state.channel.after(state.uses(events)),
        state.run(events).sink == state.sink,
    decreases events.len(),
{
    if events.len() > 0 {
        let earlier = events.drop_last();
        lemma_run_uses_the_queue(state, earlier);
        lemma_uses_in_sequence(
            state.channel,
            state.uses(earlier),
            state.run(earlier).channel_uses(events.last()),
        );
    }
}

/// What is shown is what the queue gave out. The lines of a run are the
/// lines that the sink makes of the records that the queue delivered, in
/// the order of delivery: nothing is shown twice, nothing out of order,
/// and nothing that did not pass through the queue.
pub proof fn lemma_shown_is_what_was_delivered(state: RelayView, events: Seq<EventView>)
    ensures
        state.shown(events) == state.sink.emitted_all(
            state.channel.delivered(state.uses(events)),
        ),
    decreases events.len(),
{
    if events.len() > 0 {
        let earlier = events.drop_last();
        let middle = state.run(earlier);
        let uses = middle.channel_uses(events.last());
        lemma_shown_is_what_was_delivered(state, earlier);
        lemma_run_uses_the_queue(state, earlier);
        lemma_uses_in_sequence(state.channel, state.uses(earlier), uses);
        let before = state.channel.delivered(state.uses(earlier));
        if uses.len() > 0 {
            // the last event causes one use; where it takes a record, that
            // record is the last that was delivered and the line made of it
            // the last that was shown
            assert(middle.channel.delivered(uses.drop_last()) =~= Seq::<LogRecordView>::empty());
            match (uses.last(), middle.channel.next()) {
                (ChannelOp::Take, DeliveryView::Record(record)) => {
                    assert((before + seq![record]).drop_last() =~= before);
                },
                _ => {},
            }
        }
    }
}

/// A run never adds or removes a worker and never gives a worker another
/// endpoint.
pub proof fn lemma_run_keeps_the_endpoints(state: RelayView, events: Seq<EventView>)
    ensures
        state.run(events).workers.len() == state.workers.len(),
        forall|i: int|
            0 <= i < state.workers.len() ==> (#[trigger] state.run(events).workers[i]).endpoint
                == state.workers[i].endpoint,
    decreases events.len(),
{
    if events.len() > 0 {
        lemma_run_keeps_the_endpoints(state, events.drop_last());
    }
}

/// What a worker reads reaches the queue, whole and in order. The records
/// that a worker makes of the chunks it read are, in the same order, the
/// records of that worker that entered the queue, followed by the one it
/// holds if it is suspended. A full queue delays a record and never drops
/// it; only a chunk that is not UTF-8 leaves no record.
pub proof fn lemma_worker_records_enter_in_order(
    state: RelayView,
    events: Seq<EventView>,
    worker: int,
)
    requires
        state.has_worker(worker),
    ensures
        state.held(worker) + records_of(
            state.workers[worker].endpoint.source_label,
            state.read_by(events, worker),
        ) == state.handed_over(events, worker) + state.run(events).held(worker),
    decreases events.len(),
{
    if events.len() > 0 {
        let earlier = events.drop_last();
        let middle = state.run(earlier);
        lemma_worker_records_enter_in_order(state, earlier, worker);
        lemma_run_keeps_the_endpoints(state, earlier);
        let read = state.read_by(earlier, worker);
        match events.last() {
            EventView::Chunk { worker: w, bytes } => {
                // a chunk that the worker reads is the last it has read
                assert(read.push(bytes).drop_last() =~= read);
            },
            _ => {},
        }
    }
}

/// No run breaks the state.
pub proof fn lemma_run_stays_sound(state: RelayView, events: Seq<EventView>)
    requires
        state.wf(),
    ensures
        state.run(events).wf(),
    decreases events.len(),
{
    if events.len() > 0 {
        lemma_run_stays_sound(state, events.drop_last());
        lemma_step_keeps_the_workers(state.run(events.drop_last()), events.last());
    }
}

/// Among a single record, the records of a label are that record or none.
proof fn lemma_from_source_of_one(record: LogRecordView, label: Seq<char>)
    ensures
        from_source(seq![record], label) == if record.source_label == label {
            seq![record]
        } else {
            Seq::<LogRecordView>::empty()
        },
        from_source(Seq::<LogRecordView>::empty(), label) == Seq::<LogRecordView>::empty(),
{
    reveal_with_fuel(Seq::filter, 2);
}

/// Where a worker shares its label with no other, the records of that
/// label that the queue accepted are the records of that worker, in the
/// order in which the worker handed them over.
pub proof fn lemma_source_is_one_worker(state: RelayView, events: Seq<EventView>, worker: int)
    requires
        state.wf(),
        state.has_worker(worker),
        forall|other: int|
            0 <= other < state.workers.len() && other != worker ==> (
            #[trigger] state.workers[other]).endpoint.source_label
                != state.workers[worker].endpoint.source_label,
    ensures
        from_source(
            state.channel.accepted(state.uses(events)),
            state.workers[worker].endpoint.source_label,
        ) == state.handed_over(events, worker),
    decreases events.len(),
{
    let label = state.workers[worker].endpoint.source_label;
    if events.len() > 0 {
        let earlier = events.drop_last();
        let middle = state.run(earlier);
        let uses = middle.channel_uses(events.last());
        lemma_source_is_one_worker(state, earlier, worker);
        lemma_run_keeps_the_endpoints(state, earlier);
        lemma_run_stays_sound(state, earlier);
        lemma_run_uses_the_queue(state, earlier);
        lemma_uses_in_sequence(state.channel, state.uses(earlier), uses);
        if uses.len() > 0 {
            // the last event causes one use; where it offers a record, the
            // record carries the label of the worker that offers it
            assert(middle.channel.accepted(uses.drop_last()) =~= Seq::<LogRecordView>::empty());
            match uses.last() {
                ChannelOp::Offer(record) => {
                    lemma_from_source_of_one(record, label);
                },
                _ => {},
            }
        }
    }
}

/// `count` times the sink asks for the next record.
pub open spec fn drains(count: nat) -> Seq<EventView> {
    Seq::new(count, |i: int| EventView::Drain)
}

/// A run followed by another is the second run from where the first ended,
/// and it uses the queue as the first does and then as the second does.
pub proof fn lemma_runs_in_sequence(
    state: RelayView,
    first: Seq<EventView>,
    second: Seq<EventView>,
)
    ensures
        state.run(first + second) == state.run(first).run(second),
        state.uses(first + second) == state.uses(first) + state.run(first).uses(second),
    decreases second.len(),
{
    if second.len() > 0 {
        // all events but the last are `first` and then `second` but its last
        assert((first + second).drop_last() =~= first + second.drop_last());
        lemma_runs_in_sequence(state, first, second.drop_last());
    }
}

/// Asking for the next record `count` times takes from the queue `count`
/// times.
pub proof fn lemma_drains_are_takes(state: RelayView, count: nat)
    ensures
        state.uses(drains(count)) == takes(count),
    decreases count,
{
    if count > 0 {
        let fewer = (count - 1) as nat;
        lemma_drains_are_takes(state, fewer);
        assert(drains(count).drop_last() =~= drains(fewer));
    }
}

/// A sink that was paused and then resumes shows everything. Whatever
/// happened in a run, and however often the full queue suspended a
/// worker, once the sink has asked as many times as the queue holds
/// records it has shown what it makes of every record that the queue held
/// at the start or accepted in the run, in the order of acceptance, and
/// the queue is empty.
pub proof fn lemma_resumed_sink_shows_everything(state: RelayView, events: Seq<EventView>)
    ensures
        ({
            let rest = drains(state.run(events).channel.queue.len());
            &&& state.shown(events + rest) == state.sink.emitted_all(
                state.channel.queue + state.channel.accepted(state.uses(events)),
            )
            &&& state.run(events + rest).channel.queue.len() == 0
        }),
{
    let after = state.run(events);
    let count = after.channel.queue.len();
    let rest = drains(count);
    lemma_runs_in_sequence(state, events, rest);
    lemma_drains_are_takes(after, count);
    lemma_run_uses_the_queue(state, events);
    lemma_run_uses_the_queue(state, events + rest);
    lemma_shown_is_what_was_delivered(state, events + rest);
    lemma_resumed_sink_yields_everything(state.channel, state.uses(events));
}

impl View for Relay {
    type V = RelayView;

    closed spec fn view(&self) -> RelayView {
        RelayView {
            workers: self.workers.deep_view(),
            channel: self.channel@,
            sink: self.sink@,
            reports: self.reports@,
        }
    }
}

impl Relay {
    /// The state is sound: see [`RelayView::wf`]. Every constructor
    /// establishes this and every method keeps it.
    pub open spec fn wf(&self) -> bool {
        self@.wf()
    }

    /// Starts a run: one worker for each endpoint, in their order, each
    /// about to read, and an empty queue for `capacity` records.
    pub fn new(
        context: String,
        pattern: Option<String>,
        endpoints: Vec<StreamEndpoint>,
        capacity: usize,
    ) -> (relay: Relay)
        ensures
            relay.wf(),
            relay@ == RelayView::start(
                SinkView {
                    context: context@,
                    pattern: match pattern {
                        Some(p) => Some(p@),
                        None => None,
                    },
                },
                endpoints.deep_view(),
                capacity as nat,
            ),
    {
        let ghost wanted = fresh_workers(endpoints.deep_view());
        let count = endpoints.len();
        let mut workers: Vec<StreamWorker> = Vec::new();
        let mut reports: Vec<WorkerReport> = Vec::new();
        for endpoint in it: endpoints
            invariant
                it.seq() == endpoints@,
                workers.len() == it.index(),
                reports.len() == it.index(),
                forall|i: int|
                    0 <= i < workers.len() ==> (#[trigger] workers[i])@ == (StreamWorkerView {
                        endpoint: endpoints@[i]@,
                        state: WorkerStateView::Reading,
                    }),
                forall|i: int|
                    0 <= i < reports.len() ==> (#[trigger] reports[i]) == (WorkerReport {
                        dropped: 0,
                        exit: None,
                    }),
        {
            workers.push(StreamWorker::new(endpoint));
            reports.push(WorkerReport { dropped: 0, exit: None });
        }
        assert(workers.deep_view() =~= wanted);
        assert(reports@ =~= fresh_reports(count as nat));
        let relay = Relay {
            workers,
            channel: Aggregator::new(capacity, count),
            sink: Sink::new(context, pattern),
            reports,
        };
        proof {
            lemma_one_worker_for_each_endpoint(relay@.sink, endpoints.deep_view(), capacity as nat);
        }
        relay
    }

    /// The number of workers, which is the number of endpoints of the run.
    pub fn worker_count(&self) -> (count: usize)
        ensures
            count == self@.workers.len(),
    {
        self.workers.len()
    }

    /// The endpoint that the worker `worker` reads.
    pub fn endpoint(&self, worker: usize) -> (endpoint: Option<&StreamEndpoint>)
        ensures
            match endpoint {
                Some(e) => self@.has_worker(worker as int) && e@ == self@.workers[worker as int].endpoint,
                None => !self@.has_worker(worker as int),
            },
    {
        if worker < self.workers.len() {
            Some(&self.workers[worker].endpoint)
        } else {
            None
        }
    }

    /// Whether the worker `worker` exists and has not exited.
    pub fn is_live(&self, worker: usize) -> (live: bool)
        ensures
            live == (self@.has_worker(worker as int) && !(self@.workers[worker as int].state
                is Exited)),
    {
        worker < self.workers.len() && self.workers[worker].is_live()
    }

    /// What went wrong for the worker `worker` so far: how many chunks it
    /// dropped, and why it exited, if it has.
    pub fn report(&self, worker: usize) -> (report: Option<WorkerReport>)
        requires
            self.wf(),
        ensures
            match report {
                Some(r) => self@.has_worker(worker as int) && r == self@.reports[worker as int],
                None => !self@.has_worker(worker as int),
            },
    {
        if worker < self.reports.len() {
            Some(self.reports[worker])
        } else {
            None
        }
    }

    /// The number of records waiting in the queue.
    pub fn queued(&self) -> (count: usize)
        ensures
            count == self@.channel.queue.len(),
    {
        self.channel.len()
    }

    fn hand_over(&mut self, worker: usize, record: LogRecord) -> (action: Action)
        requires
            old(self)@.wf_but_for(worker as int),
            old(self)@.has_worker(worker as int),
            !(old(self)@.workers[worker as int].state is Exited),
            record@.source_label == old(self)@.workers[worker as int].endpoint.source_label,
        ensures
            final(self).wf(),
            (final(self)@, action@) == old(self)@.hand_over(worker as int, record@),
    {
        let ghost before = self@;
        let ghost endpoint = before.workers[worker as int].endpoint;
        match self.channel.offer(record) {
            Ok(()) => {
                self.workers[worker].state = WorkerState::Reading;
                proof {
                    assert(self.workers.deep_view() =~= before.workers.update(
                        worker as int,
                        StreamWorkerView { endpoint, state: WorkerStateView::Reading },
                    ));
                    lemma_live_after_update(
                        before.workers,
                        worker as int,
                        StreamWorkerView { endpoint, state: WorkerStateView::Reading },
                    );
                }
                Action::Forwarded
            },
            Err(back) => {
                self.workers[worker].state = WorkerState::Suspended(back);
                proof {
                    assert(self.workers.deep_view() =~= before.workers.update(
                        worker as int,
                        StreamWorkerView { endpoint, state: WorkerStateView::Suspended(record@) },
                    ));
                    lemma_live_after_update(
                        before.workers,
                        worker as int,
                        StreamWorkerView { endpoint, state: WorkerStateView::Suspended(record@) },
                    );
                }
                Action::Suspended
            },
        }
    }

    /// Takes a chunk that the stream of `worker` delivered: see
    /// [`RelayView::on_chunk`].
    pub fn send_message_to_channel(&mut self, worker: usize, message: Vec<u8>) -> (action: Action)
        requires
            old(self).wf(),
        ensures
            final(self).wf(),
            (final(self)@, action@) == old(self)@.on_chunk(worker as int, message@),
    {
        if worker >= self.workers.len() {
            return Action::Refused;
        }
        match &self.workers[worker].state {
            WorkerState::Reading => {},
            _ => {
                return Action::Refused;
            },
        }
        match decode_chunk(
            self.workers[worker].endpoint.source_label.as_str(),
            message.as_slice(),
        ) {
            Some(record) => self.hand_over(worker, record),
            None => {
                let ghost before = self@;
                if self.reports[worker].dropped < usize::MAX {
                    self.reports[worker].dropped = self.reports[worker].dropped + 1;
                }
                assert(self@.reports =~= before.with_drop(worker as int).reports);
                Action::Dropped
            },
        }
    }

    /// Lets a suspended worker offer its record again: see
    /// [`RelayView::on_resume`].
    pub fn resume(&mut self, worker: usize) -> (action: Action)
        requires
            old(self).wf(),
        ensures
            final(self).wf(),
            (final(self)@, action@) == old(self)@.on_resume(worker as int),
    {
        if worker >= self.workers.len() {
            return Action::Refused;
        }
        let ghost before = self@;
        match &self.workers[worker].state {
            WorkerState::Suspended(_) => {},
            _ => {
                return Action::Refused;
            },
        }
        if !self.channel.has_room() {
            proof {
                assert(before.workers.update(worker as int, before.workers[worker as int])
                    =~= before.workers);
            }
            return Action::Suspended;
        }
        let mut state = WorkerState::Reading;
        core::mem::swap(&mut self.workers[worker].state, &mut state);
        proof {
            let endpoint = before.workers[worker as int].endpoint;
            assert(self.workers.deep_view() =~= before.workers.update(
                worker as int,
                StreamWorkerView { endpoint, state: WorkerStateView::Reading },
            ));
            lemma_live_after_update(
                before.workers,
                worker as int,
                StreamWorkerView { endpoint, state: WorkerStateView::Reading },
            );
        }
        match state {
            WorkerState::Suspended(record) => {
                let action = self.hand_over(worker, record);
                proof {
                    assert(final(self)@.workers =~= before.hand_over(
                        worker as int,
                        record@,
                    ).0.workers);
                }
                action
            },
            _ => unreached(),
        }
    }

    /// Takes note that the stream of `worker` has closed: see
    /// [`RelayView::on_closed`].
    pub fn close(&mut self, worker: usize, reason: ExitReason) -> (action: Action)
        requires
            old(self).wf(),
        ensures
            final(self).wf(),
            (final(self)@, action@) == old(self)@.on_closed(worker as int, reason),
    {
        if worker >= self.workers.len() {
            return Action::Refused;
        }
        let ghost before = self@;
        match &self.workers[worker].state {
            WorkerState::Reading => {},
            _ => {
                return Action::Refused;
            },
        }
        self.workers[worker].state = WorkerState::Exited;
        self.reports[worker].exit = Some(reason);
        self.channel.close_producer();
        proof {
            let endpoint = before.workers[worker as int].endpoint;
            assert(self.workers.deep_view() =~= before.workers.update(
                worker as int,
                StreamWorkerView { endpoint, state: WorkerStateView::Exited },
            ));
            lemma_live_after_update(
                before.workers,
                worker as int,
                StreamWorkerView { endpoint, state: WorkerStateView::Exited },
            );
        }
        Action::Exited
    }

    /// Gives the sink what is next: see [`RelayView::on_drain`].
    pub fn drain(&mut self) -> (action: Action)
        requires
            old(self).wf(),
        ensures
            final(self).wf(),
            (final(self)@, action@) == old(self)@.on_drain(),
    {
        match self.channel.take() {
            Delivery::Record(record) => match self.sink.emit(&record) {
                Some(line) => Action::Emit(line),
                None => Action::Filtered,
            },
            Delivery::Pending => Action::Idle,
            Delivery::Finished => Action::Finished,
        }
    }

    /// Moves the run by one event: see [`RelayView::step`].
    pub fn step(&mut self, event: Event) -> (action: Action)
        requires
            old(self).wf(),
        ensures
            final(self).wf(),
            (final(self)@, action@) == old(self)@.step(event@),
    {
        match event {
            Event::Chunk { worker, bytes } => self.send_message_to_channel(worker, bytes),
            Event::Resume { worker } => self.resume(worker),
            Event::Closed { worker, reason } => self.close(worker, reason),
            Event::Drain => self.drain(),
        }
    }
}

} // verus!
