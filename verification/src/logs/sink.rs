//! The filter and sink: which records are shown, and as what line.

use crate::logs::{LogRecord, LogRecordView};
use crate::text::{contains, is_substring, strip_line_end, without_line_end};
use vstd::prelude::*;
use vstd::string::*;

verus! {

/// What the sink of a run needs to know: the label of the execution
/// context, fixed when the run starts, and the pattern, if one was given.
#[derive(Debug, Clone, PartialEq, Eq)]
pub struct Sink {
    pub context: String,
    pub pattern: Option<String>,
}

/// The mathematical value of a [`Sink`].
pub struct SinkView {
    pub context: Seq<char>,
    pub pattern: Option<Seq<char>>,
}

impl View for Sink {
    type V = SinkView;

    open spec fn view(&self) -> SinkView {
        SinkView {
            context: self.context@,
            pattern: match self.pattern {
                Some(p) => Some(p@),
                None => None,
            },
        }
    }
}

/// Whether a line passes the filter: without a pattern every line does,
/// with one the lines that hold it, letter for letter.
pub open spec fn admits(pattern: Option<Seq<char>>, text: Seq<char>) -> bool {
    match pattern {
        Some(p) => is_substring(text, p),
        None => true,
    }
}

/// The line as it is shown: context, label and text, separated by a hyphen
/// between two spaces.
pub open spec fn line_of(context: Seq<char>, label: Seq<char>, text: Seq<char>) -> Seq<char> {
    context + seq![' ', '-', ' '] + label + seq![' ', '-', ' '] + text
}

impl SinkView {
    /// What the sink shows for `record`: its text loses one trailing line
    /// feed, and if what is left passes the filter, the line made of it is
    /// shown.
    pub open spec fn emitted(self, record: LogRecordView) -> Option<Seq<char>> {
        let text = without_line_end(record.text);
        if admits(self.pattern, text) {
            Some(line_of(self.context, record.source_label, text))
        } else {
            None
        }
    }

    /// The lines that the sink shows for the records it is given, in the
    /// order of the records.
    pub open spec fn emitted_all(self, records: Seq<LogRecordView>) -> Seq<Seq<char>>
        decreases records.len(),
    {
        if records.len() == 0 {
            Seq::empty()
        } else {
            let before = self.emitted_all(records.drop_last());
            match self.emitted(records.last()) {
                Some(line) => before.push(line),
                None => before,
            }
        }
    }
}

/// Without a pattern the sink shows one line for each record, in the order
/// of the records.
pub proof fn lemma_without_pattern_every_record_is_shown(
    sink: SinkView,
    records: Seq<LogRecordView>,
)
    requires
        sink.pattern is None,
    ensures
        sink.emitted_all(records).len() == records.len(),
        forall|i: int|
            0 <= i < records.len() ==> #[trigger] sink.emitted_all(records)[i] == line_of(
                sink.context,
                records[i].source_label,
                without_line_end(records[i].text),
            ),
    decreases records.len(),
{
    if records.len() > 0 {
        lemma_without_pattern_every_record_is_shown(sink, records.drop_last());
    }
}

/// Whether `text` passes the filter of `pattern`.
pub fn passes(pattern: &Option<String>, text: &str) -> (shown: bool)
    ensures
        shown == admits(
            match pattern {
                Some(p) => Some(p@),
                None => None,
            },
            text@,
        ),
{
    match pattern {
        Some(p) => contains(text, p.as_str()),
        None => true,
    }
}

/// The line as it is shown: see [`line_of`].
pub fn format_line(context: &str, label: &str, text: &str) -> (line: String)
    ensures
        line@ == line_of(context@, label@, text@),
{
    proof {
        reveal_strlit(" - ");
    }
    let mut line = context.to_owned();
    line.append(" - ");
    line.append(label);
    line.append(" - ");
    line.append(text);
    line
}

impl Sink {
    /// The sink of a run under `context`, filtering by `pattern`.
    pub fn new(context: String, pattern: Option<String>) -> (sink: Sink)
        ensures
            sink@.context == context@,
            sink@.pattern == match pattern {
                Some(p) => Some(p@),
                None => None,
            },
    {
        Sink { context, pattern }
    }

    /// The line to show for `record`, or nothing when the filter holds the
    /// record back: see [`SinkView::emitted`].
    pub fn emit(&self, record: &LogRecord) -> (line: Option<String>)
        ensures
            match line {
                Some(l) => self@.emitted(record@) == Some(l@),
                None => self@.emitted(record@) is None,
            },
    {
        let text = strip_line_end(record.text.as_str());
        if passes(&self.pattern, text.as_str()) {
            Some(format_line(self.context.as_str(), record.source_label.as_str(), text.as_str()))
        } else {
            None
        }
    }
}

} // verus!
