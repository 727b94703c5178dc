//! The record of one script run and the states it moves through.

use vstd::prelude::*;

verus! {

/// Identifier of one submitted script, unique within the session that issued it.
#[derive(Clone, Copy, Debug, PartialEq, Eq, Hash, Structural)]
pub struct ScriptId(pub u64);

impl View for ScriptId {
    type V = nat;

    open spec fn view(&self) -> nat {
        self.0 as nat
    }
}

/// Where a script run stands.
#[derive(Debug)]
pub enum ScriptStatus {
    /// Submitted, not yet started.
    Pending,
    /// Handed to the interpreter.
    Running,
    /// The interpreter returned this output.
    Succeeded(String),
    /// The interpreter reported this diagnostic.
    Failed(String),
}

/// A status as a mathematical value.
pub enum StatusView {
    Pending,
    Running,
    Succeeded(Seq<char>),
    Failed(Seq<char>),
}

impl StatusView {
    /// `Succeeded` and `Failed` are terminal: no transition leaves them.
    pub open spec fn is_terminal(self) -> bool {
        self is Succeeded || self is Failed
    }

    /// Position along `Pending`, `Running`, terminal.
    pub open spec fn rank(self) -> nat {
        match self {
            StatusView::Pending => 0,
            StatusView::Running => 1,
            StatusView::Succeeded(_) => 2,
            StatusView::Failed(_) => 2,
        }
    }

    /// The terminal status that records what the interpreter returned.
    pub open spec fn of_outcome(outcome: Result<Seq<char>, Seq<char>>) -> StatusView {
        match outcome {
            Ok(output) => StatusView::Succeeded(output),
            Err(diagnostic) => StatusView::Failed(diagnostic),
        }
    }
}

impl View for ScriptStatus {
    type V = StatusView;

    open spec fn view(&self) -> StatusView {
        match self {
            ScriptStatus::Pending => StatusView::Pending,
            ScriptStatus::Running => StatusView::Running,
            ScriptStatus::Succeeded(output) => StatusView::Succeeded(output@),
            ScriptStatus::Failed(diagnostic) => StatusView::Failed(diagnostic@),
        }
    }
}

impl ScriptStatus {
    /// Whether the run has ended.
    pub fn is_terminal(&self) -> (terminal: bool)
        ensures
            terminal == self@.is_terminal(),
    {
        match self {
            ScriptStatus::Pending => false,
            ScriptStatus::Running => false,
            ScriptStatus::Succeeded(_) => true,
            ScriptStatus::Failed(_) => true,
        }
    }
}

impl Clone for ScriptStatus {
    fn clone(&self) -> (copy: Self)
        ensures
            copy@ == self@,
    {
        match self {
            ScriptStatus::Pending => ScriptStatus::Pending,
            ScriptStatus::Running => ScriptStatus::Running,
            ScriptStatus::Succeeded(output) => ScriptStatus::Succeeded(output.clone()),
            ScriptStatus::Failed(diagnostic) => ScriptStatus::Failed(diagnostic.clone()),
        }
    }
}

/// A transition was asked of a record that is not in the state it starts from.
#[derive(Clone, Copy, Debug, PartialEq, Eq, Structural)]
pub struct OutOfOrder {
    /// The record that was left unchanged.
    pub id: ScriptId,
}

/// One submitted script run: what was submitted, when, and where the run stands.
///
/// The identifier, the script text and the creation time never change. The
/// status changes only through [`ScriptRecord::start`] and
/// [`ScriptRecord::finish`], so it only ever moves forward.
#[derive(Debug)]
pub struct ScriptRecord {
    id: ScriptId,
    script_text: String,
    status: ScriptStatus,
    created_at: u64,
}

/// A record as a mathematical value.
pub struct RecordView {
    pub id: nat,
    pub script_text: Seq<char>,
    pub status: StatusView,
    pub created_at: u64,
}

impl RecordView {
    /// The record of a script that was just submitted.
    pub open spec fn pending(id: nat, script_text: Seq<char>, created_at: u64) -> RecordView {
        RecordView { id, script_text, status: StatusView::Pending, created_at }
    }

    /// The record after its run was started: a `Pending` record becomes
    /// `Running`, any other stays as it is.
    pub open spec fn started(self) -> RecordView {
        if self.status is Pending {
            RecordView { status: StatusView::Running, ..self }
        } else {
            self
        }
    }

    /// The record after the interpreter returned: a `Running` record takes the
    /// terminal status of the outcome, any other stays as it is.
    pub open spec fn finished(self, outcome: Result<Seq<char>, Seq<char>>) -> RecordView {
        if self.status is Running {
            RecordView { status: StatusView::of_outcome(outcome), ..self }
        } else {
            self
        }
    }
}

impl View for ScriptRecord {
    type V = RecordView;

    closed spec fn view(&self) -> RecordView {
        RecordView {
            id: self.id@,
            script_text: self.script_text@,
            status: self.status@,
            created_at: self.created_at,
        }
    }
}

/// What the interpreter returned, as a mathematical value.
pub open spec fn outcome_view(outcome: Result<String, String>) -> Result<Seq<char>, Seq<char>> {
    match outcome {
        Ok(output) => Ok(output@),
        Err(diagnostic) => Err(diagnostic@),
    }
}

impl ScriptRecord {
    /// A `Pending` record for a script submitted at `created_at`.
    pub fn new(id: ScriptId, script_text: String, created_at: u64) -> (record: Self)
        ensures
            record@ == RecordView::pending(id@, script_text@, created_at),
    {
        ScriptRecord { id, script_text, status: ScriptStatus::Pending, created_at }
    }

    pub fn id(&self) -> (id: ScriptId)
        ensures
            id@ == self@.id,
    {
        self.id
    }

    pub fn script_text(&self) -> (text: &str)
        ensures
            text@ == self@.script_text,
    {
        self.script_text.as_str()
    }

    pub fn status(&self) -> (status: &ScriptStatus)
        ensures
            status@ == self@.status,
    {
        &self.status
    }

    pub fn created_at(&self) -> (created_at: u64)
        ensures
            created_at == self@.created_at,
    {
        self.created_at
    }

    /// Whether the run has ended.
    pub fn is_terminal(&self) -> (terminal: bool)
        ensures
            terminal == self@.status.is_terminal(),
    {
        self.status.is_terminal()
    }

    /// Moves a `Pending` record to `Running`. Any other record is left as it
    /// is and reported as out of order.
    pub fn start(&mut self) -> (result: Result<(), OutOfOrder>)
        ensures
            final(self)@ == old(self)@.started(),
            result is Ok <==> old(self)@.status is Pending,
            result matches Err(e) ==> e.id@ == old(self)@.id,
    {
        match self.status {
            ScriptStatus::Pending => {
                self.status = ScriptStatus::Running;
                Ok(())
            },
            _ => Err(OutOfOrder { id: self.id }),
        }
    }

    /// Moves a `Running` record to the terminal status of `outcome`. Any other
    /// record is left as it is and reported as out of order.
    pub fn finish(&mut self, outcome: Result<String, String>) -> (result: Result<(), OutOfOrder>)
        ensures
            final(self)@ == old(self)@.finished(outcome_view(outcome)),
            result is Ok <==> old(self)@.status is Running,
            result matches Err(e) ==> e.id@ == old(self)@.id,
    {
        match self.status {
            ScriptStatus::Running => {
                self.status = match outcome {
                    Ok(output) => ScriptStatus::Succeeded(output),
                    Err(diagnostic) => ScriptStatus::Failed(diagnostic),
                };
                Ok(())
            },
            _ => Err(OutOfOrder { id: self.id }),
        }
    }
}

impl Clone for ScriptRecord {
    fn clone(&self) -> (copy: Self)
        ensures
            copy@ == self@,
    {
        ScriptRecord {
            id: self.id,
            script_text: self.script_text.clone(),
            status: self.status.clone(),
            created_at: self.created_at,
        }
    }
}

} // verus!
