//! Jobs and the states they go through.
use vstd::prelude::*;
use vstd::string::*;

use crate::json::Value;
use crate::utils;

verus! {

broadcast use vstd::string::group_string_axioms;

/// The identifier of a job.
#[derive(Debug, PartialEq, Eq, Hash)]
pub struct JobId(String);

impl JobId {
    /// The text of the identifier.
    pub closed spec fn view(&self) -> Seq<char> {
        self.0@
    }

    /// An identifier made of random bytes, or of the time where there are none.
    pub fn new(random: &Option<Vec<u8>>, now_ns: u128) -> (r: JobId)
        ensures
            r@ == (match *random {
                Some(b) => utils::hex_bytes(b@),
                None => utils::hex(now_ns as nat),
            }),
    {
        JobId(utils::generate_id(random, now_ns))
    }

    /// The text of the identifier.
    pub fn as_str(&self) -> (r: &str)
        ensures
            r@ == self@,
    {
        self.0.as_str()
    }
}

/// Where a job stands.
#[derive(Debug, Clone, Copy, PartialEq, Eq, Structural)]
pub enum JobState {
    Pending,
    Validating,
    Validated,
    Executing,
    Completed,
    Failed,
    /// A completed job that was undone.
    RolledBack,
}

impl JobState {
    /// The name of the state.
    pub open spec fn name(self) -> Seq<char> {
        match self {
            JobState::Pending => "Pending"@,
            JobState::Validating => "Validating"@,
            JobState::Validated => "Validated"@,
            JobState::Executing => "Executing"@,
            JobState::Completed => "Completed"@,
            JobState::Failed => "Failed"@,
            JobState::RolledBack => "RolledBack"@,
        }
    }

    /// The name of the state.
    pub fn as_str(&self) -> (r: &'static str)
        ensures
            r@ == self.name(),
    {
        match self {
            JobState::Pending => "Pending",
            JobState::Validating => "Validating",
            JobState::Validated => "Validated",
            JobState::Executing => "Executing",
            JobState::Completed => "Completed",
            JobState::Failed => "Failed",
            JobState::RolledBack => "RolledBack",
        }
    }
}

/// A job may go from one state to the other.
pub open spec fn may_follow(from: JobState, to: JobState) -> bool {
    match from {
        JobState::Pending => to == JobState::Validating,
        JobState::Validating => to == JobState::Validated || to == JobState::Failed,
        JobState::Validated => to == JobState::Executing,
        JobState::Executing => to == JobState::Completed || to == JobState::Failed,
        JobState::Completed => to == JobState::RolledBack,
        JobState::Failed => false,
        JobState::RolledBack => false,
    }
}

/// How far a job has come in a state.
pub open spec fn progress(s: JobState) -> int {
    match s {
        JobState::Pending => 0,
        JobState::Validating => 1,
        JobState::Validated => 2,
        JobState::Executing => 3,
        JobState::Completed => 4,
        JobState::Failed => 4,
        JobState::RolledBack => 5,
    }
}

/// Every step of a job takes it further, so that no state comes twice and a job takes five steps
/// at most.
pub proof fn law_jobs_advance(from: JobState, to: JobState)
    requires
        may_follow(from, to),
    ensures
        progress(from) < progress(to) <= 5,
{
}

/// Nothing follows on a failure or on an undone job.
pub proof fn law_final_states(from: JobState, to: JobState)
    requires
        from == JobState::Failed || from == JobState::RolledBack,
    ensures
        !may_follow(from, to),
{
}

/// Only a completed job can be undone, and only one that is validated gets executed.
pub proof fn law_entry_states(from: JobState)
    ensures
        may_follow(from, JobState::RolledBack) <==> from == JobState::Completed,
        may_follow(from, JobState::Executing) <==> from == JobState::Validated,
        may_follow(from, JobState::Completed) <==> from == JobState::Executing,
        !may_follow(from, JobState::Pending),
{
}

/// A unit of work.
#[derive(Debug)]
pub struct Job {
    pub id: JobId,
    /// Name of the capability to execute.
    pub capability: String,
    pub args: Value,
    pub state: JobState,
    /// Unix time at which the job was made, in seconds.
    pub created_at: u64,
    /// Unix time of the last change of state, in seconds.
    pub updated_at: u64,
    pub output: Option<Value>,
    pub error: Option<String>,
    pub dry_run: bool,
}

impl Job {
    /// A job that waits to be processed.
    pub fn new(capability: String, args: Value, dry_run: bool, id: JobId, now: u64) -> (r: Job)
        ensures
            r == (Job {
                id,
                capability,
                args,
                state: JobState::Pending,
                created_at: now,
                updated_at: now,
                output: None,
                error: None,
                dry_run,
            }),
    {
        Job {
            id,
            capability,
            args,
            state: JobState::Pending,
            created_at: now,
            updated_at: now,
            output: None,
            error: None,
            dry_run,
        }
    }

    /// Takes the job to another state at the time `now`. A step that is not allowed is refused
    /// and leaves the job as it is.
    pub fn transition_to(&mut self, new_state: JobState, now: u64) -> (r: Result<(), String>)
        ensures
            r is Ok <==> may_follow(old(self).state, new_state),
            match r {
                Ok(()) => *final(self) == (Job { state: new_state, updated_at: now, ..*old(self) }),
                Err(m) => *final(self) == *old(self) && m@ == "Invalid state transition: "@ + old(
                    self,
                ).state.name() + " -> "@ + new_state.name(),
            },
    {
        let valid = match (self.state, new_state) {
            (JobState::Pending, JobState::Validating) => true,
            (JobState::Validating, JobState::Validated) => true,
            (JobState::Validating, JobState::Failed) => true,
            (JobState::Validated, JobState::Executing) => true,
            (JobState::Executing, JobState::Completed) => true,
            (JobState::Executing, JobState::Failed) => true,
            (JobState::Completed, JobState::RolledBack) => true,
            _ => false,
        };
        if valid {
            self.state = new_state;
            self.updated_at = now;
            Ok(())
        } else {
            let mut m = "Invalid state transition: ".to_owned();
            m.append(self.state.as_str());
            m.append(" -> ");
            m.append(new_state.as_str());
            Err(m)
        }
    }
}


/// The steps that there are, from the first state to the last.
pub proof fn law_steps(from: JobState, to: JobState)
    ensures
        may_follow(from, to) <==> {
            ||| from == JobState::Pending && to == JobState::Validating
            ||| from == JobState::Validating && to == JobState::Validated
            ||| from == JobState::Validated && to == JobState::Executing
            ||| from == JobState::Executing && to == JobState::Completed
            ||| from == JobState::Completed && to == JobState::RolledBack
            ||| to == JobState::Failed && (from == JobState::Validating || from
                == JobState::Executing)
        },
{
}

/// Each state goes by its own name.
pub proof fn law_state_names(s: JobState)
    ensures
        JobState::Pending.name() == "Pending"@,
        JobState::Validating.name() == "Validating"@,
        JobState::Validated.name() == "Validated"@,
        JobState::Executing.name() == "Executing"@,
        JobState::Completed.name() == "Completed"@,
        JobState::Failed.name() == "Failed"@,
        JobState::RolledBack.name() == "RolledBack"@,
{
}

/// A new job is pending, holds what was asked for, and has neither output nor error.
pub proof fn law_new_job(
    capability: String,
    args: Value,
    dry_run: bool,
    id: JobId,
    now: u64,
    r: Job,
)
    requires
        call_ensures(Job::new, (capability, args, dry_run, id, now), r),
    ensures
        r.state == JobState::Pending,
        r.capability == capability,
        r.args == args,
        r.dry_run == dry_run,
        r.id == id,
        r.created_at == now,
        r.updated_at == now,
        r.output is None,
        r.error is None,
{
}

/// A step that there is changes the state and the time of a job and nothing else; any other
/// changes nothing and is answered by the names of the two states.
pub proof fn law_transition(before: Job, after: Job, to: JobState, now: u64, r: Result<(), String>)
    requires
        exists|j: &mut Job|
            *j == before && *final(j) == after && #[trigger] call_ensures(
                Job::transition_to,
                (j, to, now),
                r,
            ),
    ensures
        r is Ok <==> may_follow(before.state, to),
        r is Ok ==> after.state == to && after.updated_at == now,
        r is Ok ==> after.id == before.id && after.capability == before.capability,
        r is Ok ==> after.args == before.args && after.dry_run == before.dry_run,
        r is Ok ==> after.created_at == before.created_at && after.output == before.output,
        r is Ok ==> after.error == before.error,
        r is Err ==> after == before,
        r is Err ==> (r->Err_0)@ == "Invalid state transition: "@ + before.state.name() + " -> "@
            + to.name(),
{
}

/// The name of a job is made of random bytes where there are some, else of the time.
pub proof fn law_job_names(random: Option<Vec<u8>>, now_ns: u128, r: JobId)
    requires
        call_ensures(JobId::new, (&random, now_ns), r),
    ensures
        random is Some ==> r@ == utils::hex_bytes((random->0)@),
        random is None ==> r@ == utils::hex(now_ns as nat),
{
}

} // verus!
