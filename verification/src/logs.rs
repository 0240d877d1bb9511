//! Following the logs of several services at once.
//!
//! Each target is resolved to the endpoints that can be streamed, one
//! worker reads each endpoint, a bounded queue merges what the workers
//! produce, and a sink filters and formats what leaves the queue. Reading
//! the streams and printing the lines is left to the caller, who tells the
//! relay what happens and does what the relay answers.
//!
//! - [`discovery`]: from a target and the entities listed for it to its
//!   endpoints. Of the sub-components of an entity that match, only the
//!   first is streamed.
//! - [`worker`]: from the chunks of a stream to records. A chunk that is
//!   not UTF-8 is dropped and the worker reads on.
//! - [`channel`]: the bounded queue. A full queue hands a record back, so
//!   the worker waits; it never drops one. What is accepted leaves in the
//!   order of acceptance.
//! - [`sink`]: which records are shown, and as what line.
//! - [`relay`]: all of these as one state that events move, and what holds
//!   of every run: one worker for each endpoint, each worker's records in
//!   the order of its chunks, nothing lost when the sink was paused, and
//!   the end of the run only when every worker has exited and the queue
//!   is empty.
//!
//! The order of lines from different endpoints is the order in which their
//! records reached the queue. Nothing orders them by time, nothing is
//! kept, and a worker that has exited is not started again.

use crate::logs::channel::CHANNEL_CAPACITY;
use crate::logs::discovery::{resolve_all, resolved_all, TargetInventory};
use crate::logs::relay::{Relay, RelayView};
use crate::logs::sink::SinkView;
use vstd::prelude::*;

pub mod channel;
pub mod discovery;
pub mod relay;
pub mod sink;
pub mod worker;

verus! {

/// One container of one entity whose log can be followed.
#[derive(Debug, Clone, PartialEq, Eq)]
pub struct StreamEndpoint {
    /// The label under which lines of this endpoint are shown. It is set
    /// when the endpoint is resolved and never changes.
    pub source_label: String,
    pub namespace: String,
    pub entity_id: String,
    pub container_id: String,
}

/// The mathematical value of a [`StreamEndpoint`].
pub struct StreamEndpointView {
    pub source_label: Seq<char>,
    pub namespace: Seq<char>,
    pub entity_id: Seq<char>,
    pub container_id: Seq<char>,
}

impl View for StreamEndpoint {
    type V = StreamEndpointView;

    open spec fn view(&self) -> StreamEndpointView {
        StreamEndpointView {
            source_label: self.source_label@,
            namespace: self.namespace@,
            entity_id: self.entity_id@,
            container_id: self.container_id@,
        }
    }
}

impl DeepView for StreamEndpoint {
    type V = StreamEndpointView;

    open spec fn deep_view(&self) -> StreamEndpointView {
        self@
    }
}

/// One decoded line, tagged with the label of the endpoint it came from.
#[derive(Debug, Clone, PartialEq, Eq)]
pub struct LogRecord {
    pub source_label: String,
    pub text: String,
}

/// The mathematical value of a [`LogRecord`].
pub struct LogRecordView {
    pub source_label: Seq<char>,
    pub text: Seq<char>,
}

impl View for LogRecord {
    type V = LogRecordView;

    open spec fn view(&self) -> LogRecordView {
        LogRecordView { source_label: self.source_label@, text: self.text@ }
    }
}

impl DeepView for LogRecord {
    type V = LogRecordView;

    open spec fn deep_view(&self) -> LogRecordView {
        self@
    }
}

/// Sets up a run: resolves the targets to their endpoints and starts one
/// worker for each endpoint, with an empty queue of the usual capacity
/// between the workers and the sink.
///
/// `inventories` holds each target with the entities that the inventory
/// listed for it. The run is then moved by telling the relay what happens.
pub fn process(context: String, pattern: Option<String>, inventories: &Vec<TargetInventory>) -> (relay:
    Relay)
    ensures
        relay.wf(),
        relay@ == RelayView::start(
            SinkView {
                context: context@,
                pattern: match pattern {
                    Some(p) => Some(p@),
                    None => None,
                },
            },
            resolved_all(inventories.deep_view()),
            CHANNEL_CAPACITY as nat,
        ),
{
    Relay::new(context, pattern, resolve_all(inventories), CHANNEL_CAPACITY)
}

} // verus!
