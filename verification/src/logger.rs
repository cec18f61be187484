//! The records that log-streaming tasks hand to the printer, and the lines
//! that the printer writes.

use crate::state::{ColoredLabel, State, StreamTask};
use vstd::prelude::*;

verus! {

/// One line of one pod's log, with the label that names the pod.
#[derive(Debug)]
pub struct LogRecord {
    pub label: ColoredLabel,
    pub line: String,
}

/// What a pod's log stream yields next.
#[derive(Debug)]
pub enum StreamEvent {
    /// One more line of the log.
    Line(String),
    /// The stream has ended.
    Closed,
    /// The stream could not be opened, or broke while it was read.
    Failed,
}

/// What a log-streaming task does next.
#[derive(Debug)]
pub enum TaskStep {
    /// It sends the record to the printer and reads on.
    Forward(LogRecord),
    /// It ends, and reports nothing.
    Finish,
}

/// The label of the pod of that name: `[pod: ` before the name and `]` after it.
pub open spec fn label_text(name: Seq<char>) -> Seq<char> {
    seq!['[', 'p', 'o', 'd', ':', ' '] + name + seq![']']
}

/// The line that the printer writes for a record: the label, one space, the
/// line of the log.
pub open spec fn line_text(label: Seq<char>, line: Seq<char>) -> Seq<char> {
    label + seq![' '] + line
}

impl StreamTask {
    /// The label of the task's pod, in the task's colour.
    pub fn label(&self) -> (label: ColoredLabel)
        ensures
            label.text@ == label_text(self.pod.name@),
            label.color == self.color,
    {
        let mut text = String::from_str("[pod: ");
        text.append(self.pod.name.as_str());
        text.append("]");
        proof {
            reveal_strlit("[pod: ");
            reveal_strlit("]");
            assert(text@ =~= label_text(self.pod.name@));
        }
        State::get_colored_string(text.as_str(), &self.color)
    }

    /// The task's answer to what its stream yields: a line is sent on under
    /// the pod's label, unchanged; the end of the stream and a failure both
    /// end the task.
    pub fn on_event(&self, event: StreamEvent) -> (step: TaskStep)
        ensures
            match event {
                StreamEvent::Line(text) => step matches TaskStep::Forward(record)
                    && record.label.text@ == label_text(self.pod.name@) && record.label.color
                    == self.color && record.line@ == text@,
                StreamEvent::Closed => step is Finish,
                StreamEvent::Failed => step is Finish,
            },
    {
        match event {
            StreamEvent::Line(text) => TaskStep::Forward(
                LogRecord { label: self.label(), line: text },
            ),
            StreamEvent::Closed => TaskStep::Finish,
            StreamEvent::Failed => TaskStep::Finish,
        }
    }
}

/// The line that the printer writes for a record whose label reads `label`
/// and whose log line reads `line`.
pub fn output_line(label: &str, line: &str) -> (out: String)
    ensures
        out@ == line_text(label@, line@),
{
    let mut out = String::from_str(label);
    out.append(" ");
    out.append(line);
    proof {
        reveal_strlit(" ");
        assert(out@ =~= line_text(label@, line@));
    }
    out
}

} // verus!
