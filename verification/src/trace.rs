//! What holds of a session along every sequence of steps.
//!
//! Each operation that changes a session is one step. Tasks that share a
//! session take their steps one at a time, in some order; a sequence of steps
//! stands for one such order, so what is proved of every sequence holds however
//! the tasks interleave.

use crate::formatter::rendered;
use crate::script::{RecordView, StatusView};
use crate::session::SessionView;
use vstd::prelude::*;

verus! {

/// One operation that changes a session.
pub enum Step {
    /// A script is submitted.
    Submit { script_text: Seq<char>, created_at: u64 },
    /// The task of `id` starts.
    Start { id: nat },
    /// The interpreter returned `outcome` to the task of `id`.
    Finish { id: nat, outcome: Result<Seq<char>, Seq<char>> },
}

impl Step {
    /// Whether the step belongs to the task of `id`.
    pub open spec fn touches(self, id: nat) -> bool {
        match self {
            Step::Submit { .. } => false,
            Step::Start { id: started } => started == id,
            Step::Finish { id: finished, .. } => finished == id,
        }
    }

    /// Whether the step hands the task of `id` an outcome that reads as `status`.
    pub open spec fn finishes(self, id: nat, status: StatusView) -> bool {
        match self {
            Step::Finish { id: finished, outcome } => finished == id && StatusView::of_outcome(
                outcome,
            ) == status,
            _ => false,
        }
    }
}

/// Whether no step of `steps` belongs to the task of `id`.
pub open spec fn leaves_alone(steps: Seq<Step>, id: nat) -> bool {
    forall|k: int| 0 <= k < steps.len() ==> !(#[trigger] steps[k]).touches(id)
}

impl SessionView {
    /// The session after one step.
    pub open spec fn step(self, step: Step) -> SessionView {
        match step {
            Step::Submit { script_text, created_at } => self.submitted(script_text, created_at),
            Step::Start { id } => self.started(id),
            Step::Finish { id, outcome } => self.finished(id, outcome),
        }
    }

    /// The session after `steps`, taken in order.
    pub open spec fn run(self, steps: Seq<Step>) -> SessionView
        decreases steps.len(),
    {
        if steps.len() == 0 {
            self
        } else {
            self.run(steps.drop_last()).step(steps.last())
        }
    }

    /// Whether step `k` of `steps` changes the session.
    pub open spec fn takes_effect(self, steps: Seq<Step>, k: int) -> bool {
        self.run(steps.take(k + 1)) != self.run(steps.take(k))
    }

    /// The identifier that a submission at position `k` of `steps` is given.
    pub open spec fn issued_at(self, steps: Seq<Step>, k: int) -> nat {
        self.run(steps.take(k)).next_id()
    }
}

/// One step keeps every record that is there, with its identifier, script text
/// and creation time, and moves its status forward or not at all. It changes
/// no record but that of the task it belongs to, and no terminal record.
pub proof fn lemma_step_keeps_records(session: SessionView, step: Step, id: nat)
    requires
        session.knows(id),
    ensures
        session.step(step).knows(id),
        session.step(step).record(id).id == session.record(id).id,
        session.step(step).record(id).script_text == session.record(id).script_text,
        session.step(step).record(id).created_at == session.record(id).created_at,
        session.step(step).record(id).status == session.record(id).status
            || session.step(step).record(id).status.rank() > session.record(id).status.rank(),
        !step.touches(id) || session.record(id).status.is_terminal() ==> session.step(step).record(
            id,
        ) == session.record(id),
        session.step(step).record(id).status.is_terminal() && !session.record(
            id,
        ).status.is_terminal() ==> step.finishes(id, session.step(step).record(id).status),
{
}

/// One step keeps the invariant of a session.
pub proof fn lemma_step_preserves_well_formed(session: SessionView, step: Step)
    requires
        session.well_formed(),
    ensures
        session.step(step).well_formed(),
{
}

/// A step of a task changes the session only where it finds the record in the
/// state it starts from: `Pending` for a start, `Running` for a finish.
pub proof fn lemma_effective_step_finds_its_state(session: SessionView, step: Step, id: nat)
    requires
        step.touches(id),
        session.step(step) != session,
    ensures
        session.knows(id),
        step is Start ==> session.record(id).status is Pending && session.step(step).record(
            id,
        ).status is Running,
        step is Finish ==> session.record(id).status is Running && session.step(step).record(
            id,
        ).status.is_terminal(),
{
    if !session.knows(id) {
        assert(session.step(step) == session);
    } else if step is Start && !(session.record(id).status is Pending) {
        assert(session.step(step).records =~= session.records);
    } else if step is Finish && !(session.record(id).status is Running) {
        assert(session.step(step).records =~= session.records);
    }
}

/// Steps taken one after the other are the steps of the joined sequence.
pub proof fn lemma_run_concat(session: SessionView, first: Seq<Step>, second: Seq<Step>)
    ensures
        session.run(first + second) == session.run(first).run(second),
    decreases second.len(),
{
    if second.len() == 0 {
        assert(first + second =~= first);
    } else {
        lemma_run_concat(session, first, second.drop_last());
        assert((first + second).drop_last() =~= first + second.drop_last());
        assert((first + second).last() == second.last());
    }
}

/// The invariant of a session holds after every sequence of steps.
pub proof fn lemma_run_preserves_well_formed(session: SessionView, steps: Seq<Step>)
    requires
        session.well_formed(),
    ensures
        session.run(steps).well_formed(),
    decreases steps.len(),
{
    if steps.len() > 0 {
        lemma_run_preserves_well_formed(session, steps.drop_last());
        lemma_step_preserves_well_formed(session.run(steps.drop_last()), steps.last());
    }
}

/// A record, once stored, is there for the rest of the session: after any
/// steps the identifier is still known, and the record still holds the same
/// identifier, script text and creation time.
pub proof fn lemma_records_persist(session: SessionView, steps: Seq<Step>, id: nat)
    requires
        session.knows(id),
    ensures
        session.run(steps).knows(id),
        session.run(steps).record(id).id == session.record(id).id,
        session.run(steps).record(id).script_text == session.record(id).script_text,
        session.run(steps).record(id).created_at == session.record(id).created_at,
    decreases steps.len(),
{
    if steps.len() > 0 {
        lemma_records_persist(session, steps.drop_last(), id);
        lemma_step_keeps_records(session.run(steps.drop_last()), steps.last(), id);
    }
}

/// A status only moves forward along `Pending`, `Running`, terminal: after any
/// steps it is the status it was, or one of higher rank. So no status is left
/// and entered again.
pub proof fn lemma_status_only_advances(session: SessionView, steps: Seq<Step>, id: nat)
    requires
        session.knows(id),
    ensures
        session.run(steps).knows(id),
        session.run(steps).record(id).status == session.record(id).status || session.run(
            steps,
        ).record(id).status.rank() > session.record(id).status.rank(),
    decreases steps.len(),
{
    if steps.len() > 0 {
        lemma_status_only_advances(session, steps.drop_last(), id);
        lemma_step_keeps_records(session.run(steps.drop_last()), steps.last(), id);
    }
}

/// Once the run of `id` has ended, it stays ended: after any steps the record
/// is terminal and is the very record it was when the run ended.
pub proof fn lemma_resolved_stays_resolved(session: SessionView, steps: Seq<Step>, id: nat)
    requires
        session.resolved(id),
    ensures
        session.run(steps).resolved(id),
        session.run(steps).record(id) == session.record(id),
    decreases steps.len(),
{
    if steps.len() > 0 {
        lemma_resolved_stays_resolved(session, steps.drop_last(), id);
        lemma_step_keeps_records(session.run(steps.drop_last()), steps.last(), id);
    }
}

/// Steps of other tasks, and submissions, leave the record of `id` as it is.
pub proof fn lemma_other_tasks_leave_record(session: SessionView, steps: Seq<Step>, id: nat)
    requires
        session.knows(id),
        leaves_alone(steps, id),
    ensures
        session.run(steps).knows(id),
        session.run(steps).record(id) == session.record(id),
    decreases steps.len(),
{
    if steps.len() > 0 {
        let earlier = steps.drop_last();
        assert forall|k: int| 0 <= k < earlier.len() implies !(#[trigger] earlier[k]).touches(
            id,
        ) by {
            assert(earlier[k] == steps[k]);
        }
        lemma_other_tasks_leave_record(session, earlier, id);
        assert(!steps[steps.len() - 1].touches(id));
        lemma_step_keeps_records(session.run(earlier), steps.last(), id);
    }
}

/// A terminal status comes from the record's own task and from nowhere else:
/// where a run has ended after some steps and had not ended before them, one
/// of the steps handed the task of that very identifier the outcome that the
/// record shows.
pub proof fn lemma_outcome_comes_from_own_task(session: SessionView, steps: Seq<Step>, id: nat)
    requires
        session.knows(id),
        !session.resolved(id),
        session.run(steps).resolved(id),
    ensures
        exists|k: int|
            0 <= k < steps.len() && (#[trigger] steps[k]).finishes(
                id,
                session.run(steps).record(id).status,
            ),
    decreases steps.len(),
{
    let earlier = steps.drop_last();
    let before = session.run(earlier);
    lemma_records_persist(session, earlier, id);
    lemma_step_keeps_records(before, steps.last(), id);
    if before.resolved(id) {
        lemma_outcome_comes_from_own_task(session, earlier, id);
        let k = choose|k: int|
            0 <= k < earlier.len() && (#[trigger] earlier[k]).finishes(
                id,
                before.record(id).status,
            );
        assert(steps[k] == earlier[k]);
    } else {
        assert(steps[steps.len() - 1].finishes(id, session.run(steps).record(id).status));
    }
}

/// The next identifier never goes back, and a submission moves it on by one.
pub proof fn lemma_next_id_grows(session: SessionView, steps: Seq<Step>, i: int, j: int)
    requires
        0 <= i <= j <= steps.len(),
    ensures
        session.issued_at(steps, i) <= session.issued_at(steps, j),
        i < j && steps[i] is Submit ==> session.issued_at(steps, i) < session.issued_at(steps, j),
    decreases j - i,
{
    if i < j {
        assert(steps.take(i + 1).drop_last() =~= steps.take(i));
        assert(steps.take(i + 1).last() == steps[i]);
        lemma_next_id_grows(session, steps, i + 1, j);
    }
}

/// Two submissions on one session never get the same identifier, whatever
/// other steps are taken before, between and after them.
pub proof fn lemma_issued_ids_are_distinct(session: SessionView, steps: Seq<Step>, i: int, j: int)
    requires
        0 <= i < steps.len(),
        0 <= j < steps.len(),
        i != j,
        steps[i] is Submit,
        steps[j] is Submit,
    ensures
        session.issued_at(steps, i) != session.issued_at(steps, j),
{
    if i < j {
        lemma_next_id_grows(session, steps, i, j);
    } else {
        lemma_next_id_grows(session, steps, j, i);
    }
}

/// Each submission is stored under the identifier it was given and under no
/// other: after all the steps, the record of that identifier holds the script
/// text and the creation time of that submission.
pub proof fn lemma_record_holds_its_submission(session: SessionView, steps: Seq<Step>, k: int)
    requires
        session.well_formed(),
        0 <= k < steps.len(),
        steps[k] is Submit,
    ensures
        ({
            let id = session.issued_at(steps, k);
            &&& session.run(steps).knows(id)
            &&& session.run(steps).record(id).id == id
            &&& session.run(steps).record(id).script_text == steps[k]->script_text
            &&& session.run(steps).record(id).created_at == steps[k]->created_at
        }),
{
    let id = session.issued_at(steps, k);
    let before = session.run(steps.take(k));
    let after = session.run(steps.take(k + 1));
    assert(steps.take(k + 1).drop_last() =~= steps.take(k));
    assert(steps.take(k + 1).last() == steps[k]);
    assert(after == before.step(steps[k]));
    assert(after.record(id) == RecordView::pending(
        id,
        steps[k]->script_text,
        steps[k]->created_at,
    ));
    assert(steps =~= steps.take(k + 1) + steps.skip(k + 1));
    lemma_run_concat(session, steps.take(k + 1), steps.skip(k + 1));
    lemma_records_persist(after, steps.skip(k + 1), id);
}

/// A task that is started and handed an outcome ends with that outcome, however
/// the steps of other tasks and further submissions fall between and after its
/// own two steps.
pub proof fn lemma_task_ends_with_its_outcome(
    session: SessionView,
    id: nat,
    outcome: Result<Seq<char>, Seq<char>>,
    between: Seq<Step>,
    after: Seq<Step>,
)
    requires
        session.knows(id),
        session.record(id).status is Pending,
        leaves_alone(between, id),
    ensures
        ({
            let end = session.step(Step::Start { id }).run(between).step(
                Step::Finish { id, outcome },
            ).run(after);
            &&& end.resolved(id)
            &&& end.record(id).status == StatusView::of_outcome(outcome)
            &&& end.record(id).script_text == session.record(id).script_text
        }),
{
    let started = session.step(Step::Start { id });
    lemma_other_tasks_leave_record(started, between, id);
    let finished = started.run(between).step(Step::Finish { id, outcome });
    lemma_resolved_stays_resolved(finished, after, id);
}

/// A record is written by one task: of the steps that belong to the task of
/// `id`, at most two ever change the session, and they are one start followed
/// by one finish. A second start, a second finish, or a finish that comes
/// before the start changes nothing.
pub proof fn lemma_one_task_writes_a_record(
    session: SessionView,
    steps: Seq<Step>,
    id: nat,
    i: int,
    j: int,
)
    requires
        0 <= i < j < steps.len(),
        steps[i].touches(id),
        steps[j].touches(id),
        session.takes_effect(steps, i),
        session.takes_effect(steps, j),
    ensures
        steps[i] is Start,
        steps[j] is Finish,
{
    let before_i = session.run(steps.take(i));
    let after_i = session.run(steps.take(i + 1));
    assert(steps.take(i + 1).drop_last() =~= steps.take(i));
    assert(steps.take(i + 1).last() == steps[i]);
    lemma_effective_step_finds_its_state(before_i, steps[i], id);
    lemma_step_keeps_records(before_i, steps[i], id);

    let between = steps.subrange(i + 1, j);
    let before_j = session.run(steps.take(j));
    assert(steps.take(j) =~= steps.take(i + 1) + between);
    lemma_run_concat(session, steps.take(i + 1), between);
    lemma_status_only_advances(after_i, between, id);

    assert(steps.take(j + 1).drop_last() =~= steps.take(j));
    assert(steps.take(j + 1).last() == steps[j]);
    lemma_effective_step_finds_its_state(before_j, steps[j], id);
}

/// From submission to message: a script that is submitted, started and handed
/// an outcome is rendered as the message of that outcome, success or failure,
/// whatever other tasks do on the session in between and afterwards.
pub proof fn lemma_submission_ends_in_its_message(
    session: SessionView,
    script_text: Seq<char>,
    created_at: u64,
    outcome: Result<Seq<char>, Seq<char>>,
    waiting: Seq<Step>,
    running: Seq<Step>,
    after: Seq<Step>,
    limit: nat,
)
    requires
        leaves_alone(waiting, session.next_id()),
        leaves_alone(running, session.next_id()),
    ensures
        ({
            let id = session.next_id();
            let end = session.step(Step::Submit { script_text, created_at }).run(waiting).step(
                Step::Start { id },
            ).run(running).step(Step::Finish { id, outcome }).run(after);
            &&& end.resolved(id)
            &&& end.record(id).script_text == script_text
            &&& rendered(end.record(id).status, limit) is Some
            &&& rendered(end.record(id).status, limit) == rendered(
                StatusView::of_outcome(outcome),
                limit,
            )
        }),
{
    let id = session.next_id();
    let submitted = session.step(Step::Submit { script_text, created_at });
    lemma_other_tasks_leave_record(submitted, waiting, id);
    lemma_task_ends_with_its_outcome(submitted.run(waiting), id, outcome, running, after);
}

} // verus!
