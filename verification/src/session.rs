//! The session: identifier allocation, record storage and the steps of an
//! execution task.

use crate::script::{outcome_view, OutOfOrder, RecordView, ScriptId, ScriptRecord, StatusView};
use vstd::prelude::*;

verus! {

/// A session as a mathematical value: its records, in the order in which they
/// were submitted. The record of identifier `id` stands at position `id`.
pub struct SessionView {
    pub records: Seq<RecordView>,
}

impl SessionView {
    /// The session without any record.
    pub open spec fn empty() -> SessionView {
        SessionView { records: Seq::empty() }
    }

    /// Every record carries the identifier of its position.
    pub open spec fn well_formed(self) -> bool {
        forall|i: int| 0 <= i < self.records.len() ==> (#[trigger] self.records[i]).id == i
    }

    /// Whether `id` was issued by this session.
    pub open spec fn knows(self, id: nat) -> bool {
        id < self.records.len()
    }

    /// The identifier that the next submission gets.
    pub open spec fn next_id(self) -> nat {
        self.records.len()
    }

    /// The record of `id`. Meaningful where the session knows `id`.
    pub open spec fn record(self, id: nat) -> RecordView
        recommends
            self.knows(id),
    {
        self.records[id as int]
    }

    /// Whether the run of `id` has ended.
    pub open spec fn resolved(self, id: nat) -> bool {
        self.knows(id) && self.record(id).status.is_terminal()
    }

    /// The session after a submission: one more record, `Pending`, under the
    /// next identifier.
    pub open spec fn submitted(self, script_text: Seq<char>, created_at: u64) -> SessionView {
        SessionView {
            records: self.records.push(RecordView::pending(self.next_id(), script_text, created_at)),
        }
    }

    /// The session after the task of `id` was started. Nothing changes unless
    /// `id` is known and its record is `Pending`.
    pub open spec fn started(self, id: nat) -> SessionView {
        if self.knows(id) {
            SessionView { records: self.records.update(id as int, self.record(id).started()) }
        } else {
            self
        }
    }

    /// The session after the interpreter returned `outcome` for `id`. Nothing
    /// changes unless `id` is known and its record is `Running`.
    pub open spec fn finished(self, id: nat, outcome: Result<Seq<char>, Seq<char>>) -> SessionView {
        if self.knows(id) {
            SessionView {
                records: self.records.update(id as int, self.record(id).finished(outcome)),
            }
        } else {
            self
        }
    }
}

/// The identifier was not issued by the session that was asked.
#[derive(Clone, Copy, Debug, PartialEq, Eq, Structural)]
pub struct LookupError {
    pub id: ScriptId,
}

/// Why a step of an execution task was refused. A refused step changes nothing.
#[derive(Clone, Copy, Debug, PartialEq, Eq, Structural)]
pub enum TaskError {
    /// The identifier was not issued by this session.
    Lookup(LookupError),
    /// The record is not in the state that the step starts from.
    OutOfOrder(OutOfOrder),
}

/// Names the completion of one script run. It counts as resolved once the
/// record of that run is terminal.
#[derive(Clone, Copy, Debug, PartialEq, Eq, Structural)]
pub struct CompletionHandle {
    /// The run whose completion this handle names.
    pub id: ScriptId,
}

/// The records of the scripts submitted under one project context.
pub struct ScriptSession<P> {
    project: P,
    records: Vec<ScriptRecord>,
}

impl<P> View for ScriptSession<P> {
    type V = SessionView;

    closed spec fn view(&self) -> SessionView {
        SessionView { records: Seq::new(self.records.len() as nat, |i: int| self.records[i]@) }
    }
}

impl<P> ScriptSession<P> {
    /// The project context that the session was created with.
    pub closed spec fn context(&self) -> P {
        self.project
    }

    /// The invariant of every session: each record carries the identifier
    /// under which it is stored.
    #[verifier::type_invariant]
    pub open spec fn wf(&self) -> bool {
        self@.well_formed()
    }

    /// An empty session bound to `project`.
    pub fn create(project: P) -> (session: Self)
        ensures
            session@ == SessionView::empty(),
            session.context() == project,
    {
        let session = ScriptSession { project, records: Vec::new() };
        assert(session@.records =~= Seq::empty());
        session
    }

    /// The project context, to hand to the interpreter.
    pub fn project(&self) -> (project: &P)
        ensures
            *project == self.context(),
    {
        &self.project
    }

    /// Takes a script in: gives it the next identifier and stores a `Pending`
    /// record for it. Returns the identifier and the handle that names the
    /// completion of the run.
    pub fn submit(&mut self, script_text: String, created_at: u64) -> (issued: (
        ScriptId,
        CompletionHandle,
    ))
        ensures
            final(self)@ == old(self)@.submitted(script_text@, created_at),
            final(self)@.well_formed(),
            final(self).context() == old(self).context(),
            issued.0@ == old(self)@.next_id(),
            issued.1 == (CompletionHandle { id: issued.0 }),
            !old(self)@.knows(issued.0@),
            final(self)@.knows(issued.0@),
            final(self)@.record(issued.0@).status is Pending,
    {
        proof {
            use_type_invariant(&*self);
        }
        let mut records = Vec::new();
        std::mem::swap(&mut records, &mut self.records);
        let id = ScriptId(records.len() as u64);
        records.push(ScriptRecord::new(id, script_text, created_at));
        assert forall|i: int| 0 <= i < records.len() implies (#[trigger] records[i])@.id == i by {
            if i < old(self).records.len() {
                assert(old(self)@.records[i].id == i);
            }
        }
        self.records = records;
        assert(self@.records =~= old(self)@.submitted(script_text@, created_at).records);
        (id, CompletionHandle { id })
    }

    /// The record of `id`, or a `LookupError` if this session never issued `id`.
    pub fn get(&self, id: ScriptId) -> (result: Result<&ScriptRecord, LookupError>)
        ensures
            match result {
                Ok(record) => self@.knows(id@) && record@ == self@.record(id@) && record@.id == id@,
                Err(e) => !self@.knows(id@) && e.id == id,
            },
    {
        proof {
            use_type_invariant(self);
        }
        if id.0 < self.records.len() as u64 {
            Ok(&self.records[id.0 as usize])
        } else {
            Err(LookupError { id })
        }
    }

    /// Whether the run that `handle` names has ended.
    pub fn is_resolved(&self, handle: &CompletionHandle) -> (resolved: bool)
        ensures
            resolved == self@.resolved(handle.id@),
    {
        let id = handle.id;
        if id.0 < self.records.len() as u64 {
            self.records[id.0 as usize].is_terminal()
        } else {
            false
        }
    }

    /// First step of the execution task of `id`: moves the record from
    /// `Pending` to `Running` and returns the script text to hand to the
    /// interpreter.
    pub fn start(&mut self, id: ScriptId) -> (result: Result<String, TaskError>)
        ensures
            final(self)@ == old(self)@.started(id@),
            final(self)@.well_formed(),
            final(self).context() == old(self).context(),
            match result {
                Ok(script_text) => {
                    &&& old(self)@.knows(id@)
                    &&& old(self)@.record(id@).status is Pending
                    &&& script_text@ == old(self)@.record(id@).script_text
                },
                Err(TaskError::Lookup(e)) => !old(self)@.knows(id@) && e.id == id,
                Err(TaskError::OutOfOrder(e)) => {
                    &&& old(self)@.knows(id@)
                    &&& !(old(self)@.record(id@).status is Pending)
                    &&& e.id == id
                },
            },
    {
        proof {
            use_type_invariant(&*self);
        }
        if id.0 >= self.records.len() as u64 {
            return Err(TaskError::Lookup(LookupError { id }));
        }
        let index = id.0 as usize;
        let mut records = Vec::new();
        std::mem::swap(&mut records, &mut self.records);
        let started = records[index].start();
        let result = match started {
            Ok(()) => Ok(records[index].script_text().to_owned()),
            Err(e) => Err(TaskError::OutOfOrder(e)),
        };
        assert forall|i: int| 0 <= i < records.len() implies (#[trigger] records[i])@.id == i by {
            assert(old(self)@.records[i].id == i);
        }
        self.records = records;
        assert(self@.records =~= old(self)@.started(id@).records);
        result
    }

    /// Last step of the execution task of `id`: records what the interpreter
    /// returned, which makes the record terminal, and returns the handle to
    /// signal.
    pub fn finish(&mut self, id: ScriptId, outcome: Result<String, String>) -> (result: Result<
        CompletionHandle,
        TaskError,
    >)
        ensures
            final(self)@ == old(self)@.finished(id@, outcome_view(outcome)),
            final(self)@.well_formed(),
            final(self).context() == old(self).context(),
            match result {
                Ok(handle) => {
                    &&& old(self)@.knows(id@)
                    &&& old(self)@.record(id@).status is Running
                    &&& handle == (CompletionHandle { id })
                    &&& final(self)@.resolved(id@)
                    &&& final(self)@.record(id@).status == StatusView::of_outcome(
                        outcome_view(outcome),
                    )
                },
                Err(TaskError::Lookup(e)) => !old(self)@.knows(id@) && e.id == id,
                Err(TaskError::OutOfOrder(e)) => {
                    &&& old(self)@.knows(id@)
                    &&& !(old(self)@.record(id@).status is Running)
                    &&& e.id == id
                },
            },
    {
        proof {
            use_type_invariant(&*self);
        }
        if id.0 >= self.records.len() as u64 {
            return Err(TaskError::Lookup(LookupError { id }));
        }
        let index = id.0 as usize;
        let mut records = Vec::new();
        std::mem::swap(&mut records, &mut self.records);
        let finished = records[index].finish(outcome);
        assert forall|i: int| 0 <= i < records.len() implies (#[trigger] records[i])@.id == i by {
            assert(old(self)@.records[i].id == i);
        }
        self.records = records;
        assert(self@.records =~= old(self)@.finished(id@, outcome_view(outcome)).records);
        match finished {
            Ok(()) => Ok(CompletionHandle { id }),
            Err(e) => Err(TaskError::OutOfOrder(e)),
        }
    }
}

} // verus!
