//! The stream worker: what one endpoint's reader makes of the chunks that
//! its stream delivers.

use crate::logs::{LogRecord, LogRecordView, StreamEndpoint, StreamEndpointView};
use crate::text::str_from_utf8;
use vstd::prelude::*;
use vstd::string::*;
use vstd::utf8::*;

verus! {

/// What a worker is doing.
#[derive(Debug, Clone, PartialEq, Eq)]
pub enum WorkerState {
    /// The worker reads its stream.
    Reading,
    /// The queue was full when the worker had a record to hand over. The
    /// worker holds the record and reads nothing until the queue took it.
    Suspended(LogRecord),
    /// The stream ended or failed. The worker produces nothing more.
    Exited,
}

/// The mathematical value of a [`WorkerState`].
pub enum WorkerStateView {
    Reading,
    Suspended(LogRecordView),
    Exited,
}

impl View for WorkerState {
    type V = WorkerStateView;

    open spec fn view(&self) -> WorkerStateView {
        match self {
            WorkerState::Reading => WorkerStateView::Reading,
            WorkerState::Suspended(record) => WorkerStateView::Suspended(record@),
            WorkerState::Exited => WorkerStateView::Exited,
        }
    }
}

/// The reader of one endpoint.
#[derive(Debug, Clone, PartialEq, Eq)]
pub struct StreamWorker {
    pub endpoint: StreamEndpoint,
    pub state: WorkerState,
}

/// The mathematical value of a [`StreamWorker`].
pub struct StreamWorkerView {
    pub endpoint: StreamEndpointView,
    pub state: WorkerStateView,
}

impl View for StreamWorker {
    type V = StreamWorkerView;

    open spec fn view(&self) -> StreamWorkerView {
        StreamWorkerView { endpoint: self.endpoint@, state: self.state@ }
    }
}

impl DeepView for StreamWorker {
    type V = StreamWorkerView;

    open spec fn deep_view(&self) -> StreamWorkerView {
        self@
    }
}

/// The record that a chunk becomes: its text under the worker's label when
/// the chunk is well-formed UTF-8, nothing otherwise.
pub open spec fn record_of(label: Seq<char>, chunk: Seq<u8>) -> Option<LogRecordView> {
    if valid_utf8(chunk) {
        Some(LogRecordView { source_label: label, text: decode_utf8(chunk) })
    } else {
        None
    }
}

/// The records that a worker makes of the chunks of its stream, in the
/// order of the chunks. Chunks that do not decode leave no trace.
pub open spec fn records_of(label: Seq<char>, chunks: Seq<Seq<u8>>) -> Seq<LogRecordView>
    decreases chunks.len(),
{
    if chunks.len() == 0 {
        Seq::empty()
    } else {
        let before = records_of(label, chunks.drop_last());
        match record_of(label, chunks.last()) {
            Some(record) => before.push(record),
            None => before,
        }
    }
}

/// The records of two runs of chunks, one after the other, are the records
/// of the first run followed by those of the second.
pub proof fn lemma_records_of_concat(label: Seq<char>, first: Seq<Seq<u8>>, second: Seq<Seq<u8>>)
    ensures
        records_of(label, first + second) == records_of(label, first) + records_of(label, second),
    decreases second.len(),
{
    if second.len() > 0 {
        // the whole run without its last chunk is `first` and then `second`
        // without its last chunk
        assert((first + second).drop_last() =~= first + second.drop_last());
        lemma_records_of_concat(label, first, second.drop_last());
    }
}

/// A chunk that is not UTF-8 is dropped and nothing else: the worker goes
/// on, and what it makes of the chunks before and after is what it would
/// have made of them had the chunk never arrived.
pub proof fn lemma_undecodable_chunk_is_skipped(
    label: Seq<char>,
    before: Seq<Seq<u8>>,
    chunk: Seq<u8>,
    after: Seq<Seq<u8>>,
)
    requires
        !valid_utf8(chunk),
    ensures
        records_of(label, before + seq![chunk] + after) == records_of(label, before + after),
{
    lemma_records_of_concat(label, before + seq![chunk], after);
    lemma_records_of_concat(label, before, seq![chunk]);
    lemma_records_of_concat(label, before, after);
    assert(records_of(label, seq![chunk]) =~= Seq::<LogRecordView>::empty()) by {
        reveal_with_fuel(records_of, 2);
    }
}

/// Every record of a worker carries the worker's label.
pub proof fn lemma_records_carry_the_label(label: Seq<char>, chunks: Seq<Seq<u8>>)
    ensures
        records_of(label, chunks).len() <= chunks.len(),
        forall|i: int|
            0 <= i < records_of(label, chunks).len() ==> (#[trigger] records_of(
                label,
                chunks,
            )[i]).source_label == label,
    decreases chunks.len(),
{
    if chunks.len() > 0 {
        lemma_records_carry_the_label(label, chunks.drop_last());
    }
}

/// Decodes one chunk of a stream into a record under `label`: see
/// [`record_of`].
pub fn decode_chunk(label: &str, chunk: &[u8]) -> (record: Option<LogRecord>)
    ensures
        match record {
            Some(r) => record_of(label@, chunk@) == Some(r@),
            None => record_of(label@, chunk@) is None,
        },
{
    match str_from_utf8(chunk) {
        Some(text) => Some(LogRecord { source_label: label.to_owned(), text: text.to_owned() }),
        None => None,
    }
}

impl StreamWorker {
    /// A worker that is about to read `endpoint`.
    pub fn new(endpoint: StreamEndpoint) -> (worker: StreamWorker)
        ensures
            worker@ == (StreamWorkerView { endpoint: endpoint@, state: WorkerStateView::Reading }),
    {
        StreamWorker { endpoint, state: WorkerState::Reading }
    }

    /// Whether the worker has not exited.
    pub fn is_live(&self) -> (live: bool)
        ensures
            live == !(self@.state is Exited),
    {
        match self.state {
            WorkerState::Exited => false,
            _ => true,
        }
    }
}

} // verus!
