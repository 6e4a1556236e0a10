//! The key of a process in a run.
use vstd::prelude::*;
use vstd::string::*;

use crate::text;

verus! {

broadcast use vstd::string::group_string_axioms;

/// Names a process. The system gives the number of an ended process to another, so the number
/// comes with the start time.
#[derive(Debug, Eq)]
pub struct RunProcessKey {
    /// Identifier of the run.
    pub run_id: String,
    /// Process number.
    pub pid: u32,
    /// Start time of the process: field 22 of its `stat` file.
    pub process_start_time: u64,
}

impl PartialEq for RunProcessKey {
    fn eq(&self, other: &Self) -> (r: bool) {
        text::same(self.run_id.as_str(), other.run_id.as_str()) && self.pid == other.pid
            && self.process_start_time == other.process_start_time
    }
}

impl vstd::std_specs::cmp::PartialEqSpecImpl for RunProcessKey {
    open spec fn obeys_eq_spec() -> bool {
        true
    }

    open spec fn eq_spec(&self, other: &Self) -> bool {
        self.run_id@ == other.run_id@ && self.pid == other.pid && self.process_start_time
            == other.process_start_time
    }
}

impl Clone for RunProcessKey {
    fn clone(&self) -> (r: Self)
        ensures
            r == *self,
    {
        RunProcessKey {
            run_id: self.run_id.clone(),
            pid: self.pid,
            process_start_time: self.process_start_time,
        }
    }
}

impl RunProcessKey {
    /// The key of a process in the run `run_id`, which must have a name.
    pub fn new(run_id: String, pid: u32, process_start_time: u64) -> (r: Self)
        requires
            run_id@.len() > 0,
        ensures
            r == (RunProcessKey { run_id, pid, process_start_time }),
    {
        RunProcessKey { run_id, pid, process_start_time }
    }
}

/// Two processes of which one got the number of the other have different keys, in every run.
pub proof fn law_reused_numbers_stay_apart(a: RunProcessKey, b: RunProcessKey)
    requires
        a.process_start_time != b.process_start_time,
    ensures
        !vstd::std_specs::cmp::PartialEqSpec::eq_spec(&a, &b),
{
}


/// Two keys are the same exactly where run, number and time of start are.
pub proof fn law_keys(a: RunProcessKey, b: RunProcessKey)
    ensures
        vstd::std_specs::cmp::PartialEqSpec::eq_spec(&a, &b) <==> a.run_id@ == b.run_id@ && a.pid
            == b.pid && a.process_start_time == b.process_start_time,
{
}

} // verus!
