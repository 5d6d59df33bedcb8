use vstd::prelude::*;

verus! {

use crate::history::{history_json_spec, history_to_json, HistoryEntry};
use crate::messages::{
    build_initial_prompt, build_step_prompt, completion_message, dir_error_message,
    file_write_error_message, file_written_message, file_operation_message, generating_message,
    history_write_error_message, initial_prompt_spec, llm_error_message, llm_output_message,
    parent_dir_error_message, using_directory_message,
};
use crate::plan::{app_directory, file_spec, plan_spec, FileSpecEntry};
use crate::progress::{Progress, Status};
use crate::sanitizer::clean_llm_output;
use crate::sanitizer::clean_spec;

/// What the outside world reported back for one step, after the backend was
/// called with the step's prompt: the backend failed; the backend answered
/// but the file's parent directory could not be created; or the sanitized
/// answer was written to the step's path — successfully or not.
pub enum StepEvent {
    /// The generation backend returned a failure with this description.
    BackendFailed { error: String },
    /// A parent directory of the step's file could not be created.
    ParentDirFailed { parent: String, error: String },
    /// The sanitized content was written to the step's path.
    FileWritten { path: String, content: String },
    /// Writing the sanitized content to the step's path failed.
    FileWriteFailed { path: String, content: String, error: String },
}

/// The history entries hold 1-based step indices that never pass the number
/// of steps attempted, strictly increasing: at most one entry per step, in
/// step order.
pub open spec fn history_wf(h: Seq<HistoryEntry>, next: int) -> bool {
    &&& forall|i: int| 0 <= i < h.len() ==> 1 <= (#[trigger] h[i]).step <= next
    &&& forall|i: int, j: int| 0 <= i < j < h.len() ==> h[i].step < h[j].step
}

/// One generation run over the fixed plan: the walk's position, the shared
/// instruction context built once from the user's request, and the history
/// accumulated so far.
pub struct Pipeline {
    /// The fixed application output directory of this run.
    pub dir_name: String,
    /// The shared instruction context sent ahead of every step instruction.
    pub initial_prompt: String,
    /// The fixed ordered plan the run walks.
    pub plan: Vec<FileSpecEntry>,
    /// Index of the next plan entry to attempt (0-based); equals the number
    /// of steps attempted so far.
    pub next_step: usize,
    /// One record per step whose sanitized answer was written (or whose
    /// write at least ran), in step order.
    pub history: Vec<HistoryEntry>,
}

impl Pipeline {
    /// The run's structural invariant.
    pub open spec fn wf(self) -> bool {
        &&& self.plan@.len() == plan_spec().len()
        &&& forall|i: int| 0 <= i < self.plan@.len() ==> (#[trigger] self.plan@[i])@ == plan_spec()[i]
        &&& self.next_step <= self.plan@.len()
        &&& history_wf(self.history@, self.next_step as int)
    }

    /// How the run and the shared progress record stand to each other
    /// between steps: the poller sees the number of attempted steps and the
    /// plan's length, a running status, and no completion yet.
    pub open spec fn coupled(self, p: Progress) -> bool {
        &&& self.wf()
        &&& p.status == Status::Running
        &&& p.completed == false
        &&& p.iteration == self.next_step
        &&& p.max_iteration == self.plan@.len()
    }

    /// As `coupled`, but while a step is in flight: the poller already sees
    /// the 1-based index of the step being attempted.
    pub open spec fn mid_step(self, p: Progress) -> bool {
        &&& self.wf()
        &&& self.next_step < self.plan@.len()
        &&& p.status == Status::Running
        &&& p.completed == false
        &&& p.iteration == self.next_step + 1
        &&& p.max_iteration == self.plan@.len()
    }

    /// Sets up a run for one user request: the fixed directory and plan, the
    /// shared instruction context, no step attempted, no history.
    pub fn new(user_input: &str) -> (r: Pipeline)
        ensures
            r.wf(),
            r.next_step == 0,
            r.history@.len() == 0,
            r.dir_name@ == "flask_app"@,
            r.initial_prompt@ == initial_prompt_spec(user_input@),
            r.plan@.len() == plan_spec().len(),
    {
        Pipeline {
            dir_name: app_directory(),
            initial_prompt: build_initial_prompt(user_input),
            plan: file_spec(),
            next_step: 0,
            history: Vec::new(),
        }
    }

    /// Records the one fatal failure a run knows: the output root could not
    /// be created.  The record keeps its status, so this run never reports
    /// completion; no step is attempted after it.
    pub fn record_fatal_dir_error(p: &mut Progress, err: &str)
        ensures
            final(p).output@ == old(p).output@ + ("Error creating directory: "@ + err@ + "\n"@),
            final(p).status == old(p).status,
            final(p).iteration == old(p).iteration,
            final(p).max_iteration == old(p).max_iteration,
            final(p).completed == old(p).completed,
    {
        let msg = dir_error_message(err);
        p.fail(msg.as_str());
    }

    /// Starts the run: the shared record switches to running with the step
    /// bound set to the plan's length, and the log opens with the directory
    /// note.
    pub fn start_run(&self, p: &mut Progress)
        requires
            self.wf(),
            self.next_step == 0,
        ensures
            self.coupled(*final(p)),
            final(p).status == Status::Running,
            final(p).iteration == 0,
            final(p).max_iteration == self.plan@.len(),
            final(p).completed == false,
            final(p).output@ == "Using application directory: "@ + self.dir_name@ + "\n"@,
    {
        let bound = self.plan.len();
        p.begin(bound as u32);
        let msg = using_directory_message(self.dir_name.as_str());
        p.fail(msg.as_str());
        proof {
            assert(Seq::<char>::empty() + msg@ =~= msg@);
        }
    }

    /// Starts the next step: the poller-visible counter moves to the step's
    /// 1-based index — never down, never past the bound — the log announces
    /// the step's file, and the full prompt for the backend is returned.
    pub fn begin_step(&self, p: &mut Progress) -> (prompt: String)
        requires
            self.coupled(*old(p)),
            self.next_step < self.plan@.len(),
        ensures
            self.mid_step(*final(p)),
            final(p).iteration == self.next_step + 1,
            old(p).iteration <= final(p).iteration <= final(p).max_iteration,
            final(p).status == old(p).status,
            final(p).completed == old(p).completed,
            final(p).max_iteration == old(p).max_iteration,
            final(p).output@ == old(p).output@ + ("\nGenerating or updating "@ + plan_spec()[self.next_step as int].0 + "...\n"@),
            prompt@ == self.initial_prompt@ + "\n\n"@ + plan_spec()[self.next_step as int].1,
    {
        let entry = &self.plan[self.next_step];
        let msg = generating_message(entry.path.as_str());
        p.advance((self.next_step + 1) as u32, msg.as_str());
        build_step_prompt(self.initial_prompt.as_str(), entry.instruction.as_str())
    }

    /// Sanitizes one raw backend answer; what the run writes and records is
    /// always the sanitized text.
    pub fn sanitize(raw: &str) -> (r: String)
        ensures
            r@ == clean_spec(raw@),
    {
        clean_llm_output(raw)
    }

    /// The full output path of the current step's file under the run's
    /// directory.
    pub fn current_path(&self) -> (r: String)
        requires
            self.wf(),
            self.next_step < self.plan@.len(),
        ensures
            r@ == self.dir_name@ + "/"@ + plan_spec()[self.next_step as int].0,
    {
        crate::join_path(self.dir_name.as_str(), self.plan[self.next_step].path.as_str())
    }

    /// Finishes the step the event belongs to and moves to the next one.
    /// The counter the poller sees does not move; the log grows by the
    /// step's messages; and exactly the written events — successful write or
    /// failed write, but neither backend nor directory failure — leave one
    /// history entry, tagged with this step's 1-based index.
    pub fn complete_step(&mut self, p: &mut Progress, ev: &StepEvent)
        requires
            old(self).mid_step(*old(p)),
        ensures
            final(self).coupled(*final(p)),
            final(self).next_step == old(self).next_step + 1,
            final(self).dir_name == old(self).dir_name,
            final(self).initial_prompt == old(self).initial_prompt,
            final(self).plan == old(self).plan,
            final(p).status == old(p).status,
            final(p).completed == old(p).completed,
            final(p).iteration == old(p).iteration,
            final(p).max_iteration == old(p).max_iteration,
            forall|i: int|
                0 <= i < old(self).history@.len() ==> final(self).history@[i] == old(
                    self,
                ).history@[i],
            ev matches StepEvent::BackendFailed { error } ==> {
                &&& final(self).history@ == old(self).history@
                &&& final(p).output@ == old(p).output@ + ("Error in LLM interaction: "@ + error@
                    + "\n"@)
            },
            ev matches StepEvent::ParentDirFailed { parent, error } ==> {
                &&& final(self).history@ == old(self).history@
                &&& final(p).output@ == old(p).output@ + ("Error creating directory "@ + parent@
                    + ": "@ + error@ + "\n"@)
            },
            ev matches StepEvent::FileWritten { path, content } ==> {
                &&& final(self).history@.len() == old(self).history@.len() + 1
                &&& final(self).history@.last().step == old(self).next_step + 1
                &&& final(self).history@.last().file_name@ == plan_spec()[old(self).next_step as int].0
                &&& final(self).history@.last().file_operation@ == "Created/Updated file: "@
                    + path@
                &&& final(self).history@.last().file_content@ == content@
                &&& final(p).output@ == old(p).output@ + ("LLM Output for "@ + plan_spec()[old(self).next_step as int].0 + ":\n"@ + content@ + "\n"@) + ("File operation: "@ + (
                "Created/Updated file: "@ + path@) + "\n"@)
            },
            ev matches StepEvent::FileWriteFailed { path, content, error } ==> {
                &&& final(self).history@.len() == old(self).history@.len() + 1
                &&& final(self).history@.last().step == old(self).next_step + 1
                &&& final(self).history@.last().file_name@ == plan_spec()[old(self).next_step as int].0
                &&& final(self).history@.last().file_operation@ == "Error creating/updating file "@
                    + path@ + ": "@ + error@
                &&& final(self).history@.last().file_content@ == content@
                &&& final(p).output@ == old(p).output@ + ("LLM Output for "@ + plan_spec()[old(self).next_step as int].0 + ":\n"@ + content@ + "\n"@) + ("File operation: "@ + (
                "Error creating/updating file "@ + path@ + ": "@ + error@) + "\n"@)
            },
    {
        match ev {
            StepEvent::BackendFailed { error } => {
                let msg = llm_error_message(error.as_str());
                p.fail(msg.as_str());
            },
            StepEvent::ParentDirFailed { parent, error } => {
                let msg = parent_dir_error_message(parent.as_str(), error.as_str());
                p.fail(msg.as_str());
            },
            StepEvent::FileWritten { path, content } => {
                let file_result = file_written_message(path.as_str());
                self.record_written_step(p, content, file_result);
            },
            StepEvent::FileWriteFailed { path, content, error } => {
                let file_result = file_write_error_message(path.as_str(), error.as_str());
                self.record_written_step(p, content, file_result);
            },
        }
        self.next_step = self.next_step + 1;
    }

    /// Logs a write outcome and appends its history entry.
    fn record_written_step(&mut self, p: &mut Progress, content: &String, file_result: String)
        requires
            old(self).mid_step(*old(p)),
        ensures
            final(self).history@.len() == old(self).history@.len() + 1,
            final(self).history@.last().step == old(self).next_step + 1,
            final(self).history@.last().file_name@ == plan_spec()[old(self).next_step as int].0,
            final(self).history@.last().file_operation@ == file_result@,
            final(self).history@.last().file_content@ == content@,
            forall|i: int|
                0 <= i < old(self).history@.len() ==> final(self).history@[i] == old(
                    self,
                ).history@[i],
            final(self).next_step == old(self).next_step,
            final(self).dir_name == old(self).dir_name,
            final(self).initial_prompt == old(self).initial_prompt,
            final(self).plan == old(self).plan,
            final(p).status == old(p).status,
            final(p).completed == old(p).completed,
            final(p).iteration == old(p).iteration,
            final(p).max_iteration == old(p).max_iteration,
            final(p).output@ == old(p).output@ + ("LLM Output for "@ + plan_spec()[old(self).next_step as int].0 + ":\n"@ + content@ + "\n"@) + ("File operation: "@
                + file_result@ + "\n"@),
    {
        let entry = &self.plan[self.next_step];
        let msg = llm_output_message(entry.path.as_str(), content.as_str());
        p.fail(msg.as_str());
        let msg2 = file_operation_message(file_result.as_str());
        p.fail(msg2.as_str());
        let record = HistoryEntry {
            step: (self.next_step + 1) as u32,
            file_name: entry.path.clone(),
            file_operation: file_result,
            file_content: content.clone(),
        };
        self.history.push(record);
    }

    /// The history artifact's content for this run: the output-root tag and
    /// the accumulated entries, serialized.
    pub fn history_json(&self) -> (r: String)
        ensures
            r@ == history_json_spec(self.dir_name@, self.history@),
    {
        history_to_json(self.dir_name.as_str(), &self.history)
    }

    /// Records a failed write of the history artifact; non-fatal, nothing
    /// but the log changes.
    pub fn record_history_error(p: &mut Progress, err: &str)
        ensures
            final(p).output@ == old(p).output@ + ("Error writing history file: "@ + err@ + "\n"@),
            final(p).status == old(p).status,
            final(p).iteration == old(p).iteration,
            final(p).max_iteration == old(p).max_iteration,
            final(p).completed == old(p).completed,
    {
        let msg = history_write_error_message(err);
        p.fail(msg.as_str());
    }

    /// Ends the run.  Only here does `completed` become true, and the
    /// precondition admits it only once every step of the plan has been
    /// attempted — however each step fared.
    pub fn finish_run(&self, p: &mut Progress)
        requires
            self.wf(),
            self.next_step == self.plan@.len(),
            old(p).iteration == self.next_step,
            old(p).max_iteration == self.plan@.len(),
        ensures
            final(p).status == Status::Completed,
            final(p).completed == true,
            final(p).iteration == old(p).iteration,
            final(p).max_iteration == old(p).max_iteration,
            final(p).output@ == old(p).output@ + (
            "\nFlask application generation/update completed! Files are in the '"@ + self.dir_name@
                + "' directory.\n"@ + "Redirecting to main page in 3 seconds..."@),
    {
        let msg = completion_message(self.dir_name.as_str());
        p.finish(msg.as_str());
    }

    /// Law: at every point of a run — between steps and while one is in
    /// flight — the poller-visible step counter never exceeds its bound;
    /// that it also never moves backwards is part of the contract of each
    /// operation above.
    pub proof fn lemma_iteration_bounded(self, p: Progress)
        requires
            self.coupled(p) || self.mid_step(p),
        ensures
            p.iteration <= p.max_iteration,
    {
    }

    /// Law: a run reports completion exactly once, at its end.  At every
    /// state a run passes through, `completed` is still false; `finish_run`
    /// is the only operation that sets it, and its precondition admits the
    /// call only once every step of the plan has been attempted.
    pub proof fn lemma_not_completed_during_run(self, p: Progress)
        requires
            self.coupled(p) || self.mid_step(p),
        ensures
            !p.completed,
    {
    }

    /// Law: in any well-formed run the history holds at most one entry per
    /// step, in step order, each tagged with its 1-based index, and none for
    /// a step that was not attempted; a step that failed simply has no
    /// entry.
    pub proof fn lemma_history_ordered(self)
        requires
            self.wf(),
        ensures
            forall|i: int, j: int|
                0 <= i < j < self.history@.len() ==> self.history@[i].step
                    < self.history@[j].step,
            forall|i: int|
                0 <= i < self.history@.len() ==> 1 <= (#[trigger] self.history@[i]).step
                    <= self.next_step,
            self.history@.len() <= self.next_step,
    {
        if self.history@.len() > self.next_step {
            lemma_steps_pigeonhole(self.history@);
            assert(self.history@.last().step >= self.history@.len());
        }
    }
}

/// In a strictly increasing history the step of the last entry is at least
/// the number of entries.
proof fn lemma_steps_pigeonhole(h: Seq<HistoryEntry>)
    requires
        h.len() > 0,
        forall|i: int| 0 <= i < h.len() ==> 1 <= (#[trigger] h[i]).step,
        forall|i: int, j: int| 0 <= i < j < h.len() ==> h[i].step < h[j].step,
    ensures
        h.last().step >= h.len(),
    decreases h.len(),
{
    if h.len() > 1 {
        let front = h.drop_last();
        assert(forall|i: int, j: int| 0 <= i < j < front.len() ==> front[i].step < front[j].step);
        lemma_steps_pigeonhole(front);
        assert(front.last() == h[h.len() - 2]);
        assert(h[h.len() - 2].step < h.last().step);
    }
}

} // verus!
