//! Renders a finished script run as one message for a language model.
//!
//! A message opens with a label. The label of a failure differs from the label
//! of a success in its first character, so no diagnostic can pass for output.
//! Sizes are counted in characters.

use crate::script::{ScriptId, ScriptRecord, ScriptStatus, StatusView};
use vstd::prelude::*;

verus! {

/// Opens the message of a run that succeeded.
pub open spec fn success_label() -> Seq<char> {
    "Output: "@
}

/// Opens the message of a run that failed.
pub open spec fn failure_label() -> Seq<char> {
    "Error: "@
}

/// Closes an output that was cut short.
pub open spec fn truncation_marker() -> Seq<char> {
    "[truncated]"@
}

/// The output as it is shown under a limit of `limit` characters: whole if it
/// fits, else its first `limit` characters followed by the truncation marker.
pub open spec fn clipped(output: Seq<char>, limit: nat) -> Seq<char> {
    if output.len() <= limit {
        output
    } else {
        output.take(limit as int) + truncation_marker()
    }
}

/// The message for a status, if the status is terminal.
pub open spec fn rendered(status: StatusView, limit: nat) -> Option<Seq<char>> {
    match status {
        StatusView::Succeeded(output) => Some(success_label() + clipped(output, limit)),
        StatusView::Failed(diagnostic) => Some(failure_label() + diagnostic),
        StatusView::Pending => None,
        StatusView::Running => None,
    }
}

/// A message was asked for a run that has not ended.
#[derive(Clone, Copy, Debug, PartialEq, Eq, Structural)]
pub struct PreconditionError {
    /// The record that is not terminal yet.
    pub id: ScriptId,
}

/// Renders terminal records, showing at most a configured number of
/// characters of a script's output.
#[derive(Clone, Copy, Debug)]
pub struct OutputFormatter {
    max_output_len: usize,
}

impl OutputFormatter {
    /// The number of characters of output that a message shows at most.
    pub closed spec fn limit(&self) -> nat {
        self.max_output_len as nat
    }

    /// A formatter that shows at most `max_output_len` characters of output.
    pub fn new(max_output_len: usize) -> (formatter: Self)
        ensures
            formatter.limit() == max_output_len,
    {
        OutputFormatter { max_output_len }
    }

    pub fn max_output_len(&self) -> (max_output_len: usize)
        ensures
            max_output_len == self.limit(),
    {
        self.max_output_len
    }

    /// The message for `record`: its output under the success label, clipped to
    /// the limit, or its diagnostic under the failure label. A record that is
    /// not terminal gives a `PreconditionError` and no message.
    pub fn format(&self, record: &ScriptRecord) -> (result: Result<String, PreconditionError>)
        ensures
            result is Ok <==> record@.status.is_terminal(),
            match result {
                Ok(message) => rendered(record@.status, self.limit()) == Some(message@),
                Err(e) => e.id@ == record@.id,
            },
    {
        match record.status() {
            ScriptStatus::Succeeded(output) => {
                let output = output.as_str();
                let mut message = String::from_str("Output: ");
                if output.unicode_len() <= self.max_output_len {
                    message.append(output);
                } else {
                    message.append(output.substring_char(0, self.max_output_len));
                    message.append("[truncated]");
                }
                assert(message@ =~= success_label() + clipped(output@, self.limit()));
                Ok(message)
            },
            ScriptStatus::Failed(diagnostic) => {
                let mut message = String::from_str("Error: ");
                message.append(diagnostic.as_str());
                Ok(message)
            },
            _ => Err(PreconditionError { id: record.id() }),
        }
    }
}

/// A failure never reads as a success: whatever the output, the diagnostic and
/// the limits, the two messages differ, already in their first character.
pub proof fn lemma_failure_never_reads_as_success(
    output: Seq<char>,
    diagnostic: Seq<char>,
    output_limit: nat,
    diagnostic_limit: nat,
)
    ensures
        rendered(StatusView::Succeeded(output), output_limit) is Some,
        rendered(StatusView::Failed(diagnostic), diagnostic_limit) is Some,
        rendered(StatusView::Succeeded(output), output_limit)->0[0] != rendered(
            StatusView::Failed(diagnostic),
            diagnostic_limit,
        )->0[0],
        rendered(StatusView::Succeeded(output), output_limit) != rendered(
            StatusView::Failed(diagnostic),
            diagnostic_limit,
        ),
{
    reveal_strlit("Output: ");
    reveal_strlit("Error: ");
}

/// A message carries its label in front and shows the output behind it: all of
/// it where it fits the limit, else exactly the first `limit` characters, with
/// the truncation marker closing the message.
pub proof fn lemma_success_message_shape(output: Seq<char>, limit: nat)
    ensures
        ({
            let message = rendered(StatusView::Succeeded(output), limit)->0;
            let label = success_label().len() as int;
            &&& success_label().is_prefix_of(message)
            &&& output.len() <= limit ==> message.skip(label) == output
            &&& output.len() > limit ==> {
                &&& message.len() == label + limit + truncation_marker().len()
                &&& message.subrange(label, label + limit) == output.take(limit as int)
                &&& message.skip(label + limit) == truncation_marker()
            }
        }),
{
    let message = rendered(StatusView::Succeeded(output), limit)->0;
    let label = success_label().len() as int;
    assert(message.take(label) =~= success_label());
    if output.len() <= limit {
        assert(message.skip(label) =~= output);
    } else {
        assert(message.subrange(label, label + limit) =~= output.take(limit as int));
        assert(message.skip(label + limit) =~= truncation_marker());
    }
}

/// The message of a failure is the failure label followed by the whole
/// diagnostic.
pub proof fn lemma_failure_message_shape(diagnostic: Seq<char>, limit: nat)
    ensures
        ({
            let message = rendered(StatusView::Failed(diagnostic), limit)->0;
            &&& failure_label().is_prefix_of(message)
            &&& message.skip(failure_label().len() as int) == diagnostic
        }),
{
    let message = rendered(StatusView::Failed(diagnostic), limit)->0;
    assert(message.take(failure_label().len() as int) =~= failure_label());
    assert(message.skip(failure_label().len() as int) =~= diagnostic);
}

} // verus!
