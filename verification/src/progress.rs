use vstd::prelude::*;

verus! {

use vstd::string::StringExecFns;

/// The lifecycle phase of the one outstanding (or last) generation job.
#[derive(Clone, Copy, PartialEq, Eq, Structural, Debug)]
pub enum Status {
    Idle,
    Running,
    Completed,
}

impl Status {
    /// The conventional text for this status, as the polling client sees it.
    pub open spec fn text_spec(self) -> Seq<char> {
        match self {
            Status::Idle => "idle"@,
            Status::Running => "running"@,
            Status::Completed => "completed"@,
        }
    }

    pub fn text(&self) -> (r: String)
        ensures
            r@ == self.text_spec(),
    {
        match self {
            Status::Idle => "idle".to_owned(),
            Status::Running => "running".to_owned(),
            Status::Completed => "completed".to_owned(),
        }
    }
}

/// The single shared record describing the state of the one outstanding (or
/// last) generation job.  It is read by the poller and written by the
/// pipeline; the caller is expected to guard it with exclusive locking for
/// every read and write.
pub struct Progress {
    pub status: Status,
    /// Count of steps started so far: set to `i + 1` when step `i` (0-based)
    /// of the plan starts.
    pub iteration: u32,
    /// Total number of steps in the current run's plan.
    pub max_iteration: u32,
    /// Append-only log of human-readable progress messages; cleared when a
    /// run begins and on reset.
    pub output: String,
    /// True only once the pipeline has finished its last step.
    pub completed: bool,
}

/// The progress record as a process starts: idle, nothing logged, and a
/// placeholder step bound not yet tied to any plan.
pub fn init_progress() -> (r: Progress)
    ensures
        r.status == Status::Idle,
        r.iteration == 0,
        r.max_iteration == 50,
        r.output@ == Seq::<char>::empty(),
        r.completed == false,
{
    Progress {
        status: Status::Idle,
        iteration: 0,
        max_iteration: 50,
        output: String::new(),
        completed: false,
    }
}

impl Progress {
    /// Sets every field back to its zero or empty value.
    pub fn reset(&mut self)
        ensures
            final(self).status == Status::Idle,
            final(self).iteration == 0,
            final(self).max_iteration == 0,
            final(self).output@ == Seq::<char>::empty(),
            final(self).completed == false,
    {
        self.status = Status::Idle;
        self.iteration = 0;
        self.max_iteration = 0;
        self.output = String::new();
        self.completed = false;
    }

    /// Marks the record as running at the start of a pipeline run: the step
    /// counter returns to zero, the log is cleared, and the bound is set to
    /// the number of steps the run will attempt.
    pub fn begin(&mut self, max_iteration: u32)
        ensures
            final(self).status == Status::Running,
            final(self).iteration == 0,
            final(self).max_iteration == max_iteration,
            final(self).output@ == Seq::<char>::empty(),
            final(self).completed == false,
    {
        self.status = Status::Running;
        self.iteration = 0;
        self.max_iteration = max_iteration;
        self.output = String::new();
        self.completed = false;
    }

    /// Moves the step counter to `step_index` and appends one progress
    /// message; nothing else changes.
    pub fn advance(&mut self, step_index: u32, message: &str)
        ensures
            final(self).iteration == step_index,
            final(self).output@ == old(self).output@ + message@,
            final(self).status == old(self).status,
            final(self).max_iteration == old(self).max_iteration,
            final(self).completed == old(self).completed,
    {
        self.iteration = step_index;
        self.output.append(message);
    }

    /// Appends an error message to the log without touching any other field.
    pub fn fail(&mut self, message: &str)
        ensures
            final(self).output@ == old(self).output@ + message@,
            final(self).status == old(self).status,
            final(self).iteration == old(self).iteration,
            final(self).max_iteration == old(self).max_iteration,
            final(self).completed == old(self).completed,
    {
        self.output.append(message);
    }

    /// Marks the run as completed and appends one final message; the step
    /// counter and its bound keep their values.
    pub fn finish(&mut self, message: &str)
        ensures
            final(self).status == Status::Completed,
            final(self).completed == true,
            final(self).output@ == old(self).output@ + message@,
            final(self).iteration == old(self).iteration,
            final(self).max_iteration == old(self).max_iteration,
    {
        self.status = Status::Completed;
        self.completed = true;
        self.output.append(message);
    }

    /// A full copy of the current record, for the poller: the reader gets a
    /// snapshot equal to the state at the moment of the call.
    pub fn snapshot(&self) -> (r: Progress)
        ensures
            r == *self,
    {
        Progress {
            status: self.status,
            iteration: self.iteration,
            max_iteration: self.max_iteration,
            output: self.output.clone(),
            completed: self.completed,
        }
    }
}

} // verus!
