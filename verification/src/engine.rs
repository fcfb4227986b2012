//! The transfer engine's bookkeeping: the tasks that are running, each with
//! its cancellation flag, and one run of a task on a connection.

use vstd::prelude::*;
use vstd::string::*;
use crate::connection::{count_res_view, CancelCheck, ClientCall, ConnectionTrait, ProgressCallback};
use crate::keyed::{
    keys_of, lemma_to_map_at, lemma_to_map_dom, lemma_to_map_push, lemma_to_map_remove,
    lemma_to_map_update, to_map,
};
use crate::transfer::{
    direction_of_task, task_outcome, task_outcome_spec, upload_text, TaskOutcome,
    TransferDirection, TransferStatus, TransferTask,
};

verus! {

pub open spec fn msg_task_not_found(id: Seq<char>) -> Seq<char> {
    "Transfer "@ + id + " not found"@
}

spec fn task_key() -> spec_fn((String, bool)) -> Seq<char> {
    |e: (String, bool)| e.0@
}

spec fn task_flag() -> spec_fn((String, bool)) -> bool {
    |e: (String, bool)| e.1
}

spec fn key_seq(s: Seq<(String, bool)>) -> Seq<Seq<char>> {
    keys_of(s, task_key())
}

spec fn flag_map(s: Seq<(String, bool)>) -> Map<Seq<char>, bool> {
    to_map(s, task_key(), task_flag())
}

/// The tasks submitted and not yet finished, each with whether it has been
/// asked to stop.
pub struct TaskRegistry {
    tasks: Vec<(String, bool)>,
}

impl View for TaskRegistry {
    type V = Map<Seq<char>, bool>;

    closed spec fn view(&self) -> Map<Seq<char>, bool> {
        flag_map(self.tasks@)
    }
}

impl TaskRegistry {
    /// No task is listed twice.
    pub closed spec fn wf(&self) -> bool {
        key_seq(self.tasks@).no_duplicates()
    }

    /// No task running.
    pub fn new() -> (r: Self)
        ensures
            r.wf(),
            r@ == Map::<Seq<char>, bool>::empty(),
    {
        let r = TaskRegistry { tasks: Vec::new() };
        assert(key_seq(r.tasks@) =~= Seq::<Seq<char>>::empty());
        r
    }

    fn find(&self, id: &str) -> (r: Option<usize>)
        requires
            self.wf(),
        ensures
            match r {
                Some(i) => i < self.tasks@.len() && self.tasks@[i as int].0@ == id@,
                None => !self@.contains_key(id@),
            },
    {
        let key = String::from_str(id);
        let mut i: usize = 0;
        while i < self.tasks.len()
            invariant
                i <= self.tasks@.len(),
                key@ == id@,
                forall|k: int| 0 <= k < i ==> self.tasks@[k].0@ != id@,
            decreases self.tasks.len() - i,
        {
            if self.tasks[i].0 == key {
                return Some(i);
            }
            i += 1;
        }
        proof {
            lemma_to_map_dom(self.tasks@, task_key(), task_flag());
            if self@.contains_key(id@) {
                let ks = key_seq(self.tasks@);
                let k = choose|k: int| 0 <= k < ks.len() && ks[k] == id@;
                assert(self.tasks@[k].0@ == id@);
            }
        }
        None
    }

    /// Registers a submitted task, not cancelled; a task already listed
    /// under that id starts over as not cancelled.
    pub fn insert(&mut self, id: String)
        requires
            old(self).wf(),
        ensures
            final(self).wf(),
            final(self)@ == old(self)@.insert(id@, false),
    {
        match self.find(id.as_str()) {
            Some(i) => {
                let ghost s = self.tasks@;
                proof {
                    lemma_to_map_update(s, task_key(), task_flag(), i as int, (s[i as int].0, false));
                }
                let entry = (self.tasks[i].0.clone(), false);
                self.tasks[i] = entry;
                assert(self.tasks@ =~= s.update(i as int, (s[i as int].0, false)));
            },
            None => {
                let ghost s = self.tasks@;
                proof {
                    lemma_to_map_push(s, task_key(), task_flag(), (id, false));
                }
                self.tasks.push((id, false));
            },
        }
    }

    /// Asks a running task to stop. An unknown id is refused with
    /// `Transfer {id} not found`.
    pub fn cancel(&mut self, id: &str) -> (r: Result<(), String>)
        requires
            old(self).wf(),
        ensures
            final(self).wf(),
            old(self)@.contains_key(id@) ==> r is Ok && final(self)@ == old(self)@.insert(id@, true),
            !old(self)@.contains_key(id@) ==> (r matches Err(e) && e@ == msg_task_not_found(id@))
                && final(self)@ == old(self)@,
    {
        match self.find(id) {
            Some(i) => {
                let ghost s = self.tasks@;
                proof {
                    lemma_to_map_at(s, task_key(), task_flag(), i as int);
                    lemma_to_map_update(s, task_key(), task_flag(), i as int, (s[i as int].0, true));
                }
                let entry = (self.tasks[i].0.clone(), true);
                self.tasks[i] = entry;
                assert(self.tasks@ =~= s.update(i as int, (s[i as int].0, true)));
                Ok(())
            },
            None => {
                let mut msg = String::from_str("Transfer ");
                msg.append(id);
                msg.append(" not found");
                Err(msg)
            },
        }
    }

    /// Whether a task has been asked to stop; `None` when it is not listed.
    pub fn cancel_flag(&self, id: &str) -> (r: Option<bool>)
        requires
            self.wf(),
        ensures
            r == (if self@.contains_key(id@) {
                Some(self@[id@])
            } else {
                None::<bool>
            }),
    {
        match self.find(id) {
            Some(i) => {
                proof {
                    lemma_to_map_at(self.tasks@, task_key(), task_flag(), i as int);
                }
                Some(self.tasks[i].1)
            },
            None => None,
        }
    }

    /// Forgets a finished task; forgetting an unknown id changes nothing.
    pub fn remove(&mut self, id: &str)
        requires
            old(self).wf(),
        ensures
            final(self).wf(),
            final(self)@ == old(self)@.remove(id@),
    {
        match self.find(id) {
            Some(i) => {
                let ghost s = self.tasks@;
                proof {
                    lemma_to_map_remove(s, task_key(), task_flag(), i as int);
                }
                let _gone = self.tasks.remove(i);
            },
            None => {
                assert(self@.remove(id@) =~= self@);
            },
        }
    }

    /// The ids of the running tasks, each once.
    pub fn ids(&self) -> (r: Vec<String>)
        requires
            self.wf(),
        ensures
            r@.map_values(|s: String| s@).to_set() == self@.dom(),
            r@.map_values(|s: String| s@).no_duplicates(),
    {
        let mut v: Vec<String> = Vec::new();
        let mut i: usize = 0;
        while i < self.tasks.len()
            invariant
                i <= self.tasks@.len(),
                v@.map_values(|s: String| s@) == key_seq(self.tasks@).take(i as int),
            decreases self.tasks.len() - i,
        {
            let ghost prev = v@;
            let id = self.tasks[i].0.clone();
            v.push(id);
            proof {
                let ks = key_seq(self.tasks@);
                assert(v@ == prev.push(id));
                assert(v@.map_values(|s: String| s@) =~= prev.map_values(|s: String| s@).push(id@));
                assert(ks.take(i + 1) =~= ks.take(i as int).push(ks[i as int]));
            }
            i += 1;
        }
        proof {
            assert(key_seq(self.tasks@).take(self.tasks@.len() as int) =~= key_seq(self.tasks@));
            lemma_to_map_dom(self.tasks@, task_key(), task_flag());
        }
        v
    }
}

/// The client call a run makes: its direction, the path read from, the
/// path written to, and the offset the transfer resumes from.
#[derive(Debug)]
pub struct TransferCall {
    pub direction: TransferDirection,
    pub from: String,
    pub to: String,
    pub offset: u64,
}

/// The call a run of `task` makes from `resume_offset`: an upload from the
/// local path to the remote one when the task says `upload`, a download
/// from the remote path to the local one otherwise.
pub open spec fn transfer_call_spec(task: TransferTask, resume_offset: u64) -> (TransferDirection, Seq<char>, Seq<char>, u64) {
    if task.direction@ == upload_text() {
        (TransferDirection::Upload, task.local_path@, task.remote_path@, resume_offset)
    } else {
        (TransferDirection::Download, task.remote_path@, task.local_path@, resume_offset)
    }
}

/// Decides the client call a run of `task` makes.
pub fn plan_transfer(task: &TransferTask, resume_offset: u64) -> (c: TransferCall)
    ensures
        (c.direction, c.from@, c.to@, c.offset) == transfer_call_spec(*task, resume_offset),
{
    match direction_of_task(task.direction.as_str()) {
        TransferDirection::Upload => TransferCall {
            direction: TransferDirection::Upload,
            from: task.local_path.clone(),
            to: task.remote_path.clone(),
            offset: resume_offset,
        },
        TransferDirection::Download => TransferCall {
            direction: TransferDirection::Download,
            from: task.remote_path.clone(),
            to: task.local_path.clone(),
            offset: resume_offset,
        },
    }
}

/// The entry a client's record of calls gains for the call
/// `(direction, from, to, offset)` that returned `result`.
pub open spec fn call_record(
    call: (TransferDirection, Seq<char>, Seq<char>, u64),
    result: Result<u64, Seq<char>>,
) -> ClientCall {
    match call.0 {
        TransferDirection::Upload => ClientCall::Upload {
            local: call.1,
            remote: call.2,
            offset: call.3,
            result: result,
        },
        TransferDirection::Download => ClientCall::Download {
            remote: call.1,
            local: call.2,
            offset: call.3,
            result: result,
        },
    }
}

/// Makes the planned call on the client, with the progress and
/// cancellation callbacks, and hands back what the client returned: an
/// upload from `from` to `to`, or a download from `from` to `to`, at
/// `offset`.
pub fn perform_call<C: ConnectionTrait + ?Sized>(
    client: &mut C,
    call: &TransferCall,
    progress: &dyn ProgressCallback,
    cancel: &dyn CancelCheck,
) -> (r: Result<u64, String>)
    ensures
        old(client).calls() matches Some(log) ==> final(client).calls() == Some(
            log.push(call_record((call.direction, call.from@, call.to@, call.offset), count_res_view(r))),
        ),
{
    match call.direction {
        TransferDirection::Upload => client.upload(
            call.from.as_str(),
            call.to.as_str(),
            call.offset,
            Some(progress),
            Some(cancel),
        ),
        TransferDirection::Download => client.download(
            call.from.as_str(),
            call.to.as_str(),
            call.offset,
            Some(progress),
            Some(cancel),
        ),
    }
}

/// One run of a task on a client: the call `plan_transfer` decides, made
/// once with the progress and cancellation callbacks (a client that keeps
/// a record of calls gains exactly that call, with its answer); then the
/// outcome
/// `task_outcome` gives for whether cancellation was asked once the client
/// returned and for what the client returned.
pub fn run_transfer<C: ConnectionTrait + ?Sized>(
    client: &mut C,
    task: &TransferTask,
    resume_offset: u64,
    progress: &dyn ProgressCallback,
    cancel: &dyn CancelCheck,
) -> (o: TaskOutcome)
    ensures
        exists|cancelled: bool, result: Result<u64, String>|
            o == task_outcome_spec(cancelled, result, resume_offset) && (old(client).calls() matches Some(
                log,
            ) ==> final(client).calls() == Some(
                log.push(call_record(transfer_call_spec(*task, resume_offset), count_res_view(result))),
            )),
{
    let call = plan_transfer(task, resume_offset);
    let result = perform_call(client, &call, progress, cancel);
    let cancelled = cancel.is_cancelled();
    let ghost r0 = result;
    let o = task_outcome(cancelled, result, resume_offset);
    assert(o == task_outcome_spec(cancelled, r0, resume_offset));
    o
}

/// What happens to a task's saved resume state when its run ends.
#[derive(Debug, PartialEq, Eq, Structural, Clone, Copy)]
pub enum ResumeAction {
    /// Left as it is, so that the transfer can go on later.
    Keep,
    /// Deleted: the file is complete.
    Delete,
    /// Replaced by a record with nothing transferred.
    StartOver,
}

/// How a finished run is recorded: the history status, the bytes and error
/// stored with it, and what becomes of the resume state.
#[derive(Debug)]
pub struct FinishPlan {
    pub status: TransferStatus,
    pub transferred: u64,
    pub error: Option<String>,
    pub resume: ResumeAction,
}

/// A cancelled run is recorded with nothing transferred and keeps its
/// resume state; a completed run records its bytes and drops the resume
/// state; a failed run records its error and starts the resume state over.
pub open spec fn finish_plan_spec(o: TaskOutcome) -> FinishPlan {
    match o {
        TaskOutcome::Cancelled => FinishPlan {
            status: TransferStatus::Cancelled,
            transferred: 0,
            error: None,
            resume: ResumeAction::Keep,
        },
        TaskOutcome::Completed { transferred } => FinishPlan {
            status: TransferStatus::Success,
            transferred: transferred,
            error: None,
            resume: ResumeAction::Delete,
        },
        TaskOutcome::Failed { error } => FinishPlan {
            status: TransferStatus::Failed,
            transferred: 0,
            error: Some(error),
            resume: ResumeAction::StartOver,
        },
    }
}

/// Ends a task's run: the task leaves the running set, whatever the
/// outcome, and the plan for recording the outcome is returned.
pub fn conclude(registry: &mut TaskRegistry, id: &str, outcome: TaskOutcome) -> (p: FinishPlan)
    requires
        old(registry).wf(),
    ensures
        final(registry).wf(),
        final(registry)@ == old(registry)@.remove(id@),
        p == finish_plan_spec(outcome),
{
    registry.remove(id);
    match outcome {
        TaskOutcome::Cancelled => FinishPlan {
            status: TransferStatus::Cancelled,
            transferred: 0,
            error: None,
            resume: ResumeAction::Keep,
        },
        TaskOutcome::Completed { transferred } => FinishPlan {
            status: TransferStatus::Success,
            transferred,
            error: None,
            resume: ResumeAction::Delete,
        },
        TaskOutcome::Failed { error } => FinishPlan {
            status: TransferStatus::Failed,
            transferred: 0,
            error: Some(error),
            resume: ResumeAction::StartOver,
        },
    }
}

/// How a task's run ended: before its history row was written, or after,
/// with an outcome.
#[derive(Debug)]
pub enum RunEnd {
    NotRecorded,
    Recorded(TaskOutcome),
}

/// Ends a task's run, whichever way it went: the task leaves the running
/// set (no other task is touched), and a run that has a history row gets
/// the plan for recording its outcome; one without gets none.
pub fn end_run(registry: &mut TaskRegistry, id: &str, end: RunEnd) -> (p: Option<FinishPlan>)
    requires
        old(registry).wf(),
    ensures
        final(registry).wf(),
        final(registry)@ == old(registry)@.remove(id@),
        end is NotRecorded ==> p is None,
        end matches RunEnd::Recorded(o) ==> p == Some(finish_plan_spec(o)),
{
    match end {
        RunEnd::NotRecorded => {
            registry.remove(id);
            None
        },
        RunEnd::Recorded(o) => Some(conclude(registry, id, o)),
    }
}

/// A recorded run always ends in a final status: success, failure or
/// cancellation, never pending or in progress.
pub proof fn finish_status_is_final(o: TaskOutcome)
    ensures
        finish_plan_spec(o).status == TransferStatus::Success || finish_plan_spec(o).status
            == TransferStatus::Failed || finish_plan_spec(o).status == TransferStatus::Cancelled,
{
}

/// Ending a run never leaves the task running, and leaves every other task
/// as it was.
pub proof fn end_run_leaves_only_others(before: Map<Seq<char>, bool>, id: Seq<char>, other: Seq<char>)
    requires
        other != id,
    ensures
        !before.remove(id).contains_key(id),
        before.contains_key(other) ==> before.remove(id).contains_key(other) && before.remove(id)[other]
            == before[other],
        !before.contains_key(other) ==> !before.remove(id).contains_key(other),
{
}
} // verus!
