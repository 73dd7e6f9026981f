//! One evaluation run against a checkout directory: the fixed invocation
//! (command, argument list, helper-script path) and the run lifecycle that
//! places the helper script, runs the evaluator, and removes the script
//! again whatever the evaluator's outcome was.
//!
//! The filesystem writes and the process execution themselves are the
//! caller's: this component fixes what is invoked and in which order.

use vstd::prelude::*;

use crate::listing::views_of;

verus! {

/// The state fixed at construction for one evaluation run: the checkout
/// directory and whether package metadata is evaluated too.
pub struct OutPaths {
    path: String,
    check_meta: bool,
}

impl OutPaths {
    /// The checkout directory the run works against.
    pub closed spec fn dir(&self) -> Seq<char> {
        self.path@
    }

    /// Whether package metadata is evaluated too.
    pub closed spec fn meta(&self) -> bool {
        self.check_meta
    }

    pub fn new(path: String, check_meta: bool) -> (r: OutPaths)
        ensures
            r.dir() == path@,
            r.meta() == check_meta,
    {
        OutPaths { path, check_meta }
    }

    /// The reserved file name the helper script is placed under.
    pub open spec fn script_file_name() -> Seq<char> {
        ".gc-of-borg-outpaths.nix"@
    }

    /// Where the helper script stands inside the directory `dir`.
    pub open spec fn script_path(dir: Seq<char>) -> Seq<char> {
        if dir.len() == 0 {
            Self::script_file_name()
        } else if dir.last() == '/' {
            dir + Self::script_file_name()
        } else {
            dir + "/"@ + Self::script_file_name()
        }
    }

    /// The full path of the helper script for this run's directory.
    pub fn nix_path(&self) -> (r: String)
        ensures
            r@ == Self::script_path(self.dir()),
    {
        let name: &str = ".gc-of-borg-outpaths.nix";
        let n = self.path.as_str().unicode_len();
        if n == 0 {
            name.to_owned()
        } else if self.path.as_str().get_char(n - 1) == '/' {
            self.path.clone().concat(name)
        } else {
            let mut r = self.path.clone();
            r.append("/");
            r.append(name);
            r
        }
    }

    /// The command the evaluator is invoked as.
    pub fn command(&self) -> (r: String)
        ensures
            r@ == "nix-env"@,
    {
        let r: &str = "nix-env";
        r.to_owned()
    }

    /// The fixed argument list of one evaluation run: evaluate the placed
    /// helper script, list what is available with output paths and no name
    /// column, show a trace on error, and hand the script the metadata flag.
    pub open spec fn invocation_args(meta: bool) -> Seq<Seq<char>> {
        seq![
            "-f"@,
            ".gc-of-borg-outpaths.nix"@,
            "-qaP"@,
            "--no-name"@,
            "--out-path"@,
            "--show-trace"@,
            "--arg"@,
            "checkMeta"@,
            if meta {
                "true"@
            } else {
                "false"@
            },
        ]
    }

    /// The invocation is marked as requiring isolation at the call
    /// boundary: every evaluation run is owed a safely-sandboxed execution
    /// by the process-execution collaborator that performs it.
    pub fn isolation_required(&self) -> (r: bool)
        ensures
            r,
    {
        true
    }

    /// The argument vector the evaluator is invoked with.
    pub fn args(&self) -> (r: Vec<String>)
        ensures
            views_of(r@) == Self::invocation_args(self.meta()),
    {
        let mut r: Vec<String> = Vec::new();
        r.push(String::from_str("-f"));
        r.push(String::from_str(".gc-of-borg-outpaths.nix"));
        r.push(String::from_str("-qaP"));
        r.push(String::from_str("--no-name"));
        r.push(String::from_str("--out-path"));
        r.push(String::from_str("--show-trace"));
        r.push(String::from_str("--arg"));
        r.push(String::from_str("checkMeta"));
        if self.check_meta {
            r.push(String::from_str("true"));
        } else {
            r.push(String::from_str("false"));
        }
        proof {
            assert(views_of(r@) =~= Self::invocation_args(self.meta()));
        }
        r
    }
}

/// Where one evaluation run stands.
#[derive(Clone, Copy, PartialEq, Eq, Structural, Debug)]
pub enum RunPhase {
    /// Nothing done yet; the directory holds no helper script.
    Ready,
    /// The helper script has been written into the directory.
    ScriptPlaced,
    /// The evaluator has returned; the helper script is still in place.
    Evaluated,
    /// The helper script has been removed again; the run is over.
    Finished,
}

/// What the caller has to do next to carry one run forward.
#[derive(Clone, Copy, PartialEq, Eq, Structural, Debug)]
pub enum RunAction {
    /// Write the helper script into the directory; failing to is fatal.
    PlaceScript,
    /// Invoke the evaluator with the fixed command and argument list.
    RunEvaluator,
    /// Delete the helper script; failing to is fatal.
    RemoveScript,
    /// Nothing: the run is over.
    Done,
}

/// The lifecycle of one evaluation run: place the helper script, run the
/// evaluator, remove the script. The removal is owed whatever the
/// evaluator's outcome was, so the script never outlives the run.
pub struct EvalRun {
    phase: RunPhase,
    succeeded: Option<bool>,
}

impl EvalRun {
    pub closed spec fn phase(&self) -> RunPhase {
        self.phase
    }

    /// The evaluator's outcome, once it has returned.
    pub closed spec fn outcome(&self) -> Option<bool> {
        self.succeeded
    }

    /// Whether the helper script stands in the directory at this phase.
    pub open spec fn script_present(&self) -> bool {
        self.phase() == RunPhase::ScriptPlaced || self.phase() == RunPhase::Evaluated
    }

    /// The action owed in each phase.
    pub open spec fn action_for(phase: RunPhase) -> RunAction {
        match phase {
            RunPhase::Ready => RunAction::PlaceScript,
            RunPhase::ScriptPlaced => RunAction::RunEvaluator,
            RunPhase::Evaluated => RunAction::RemoveScript,
            RunPhase::Finished => RunAction::Done,
        }
    }

    /// A run that has not started: no helper script in the directory.
    pub fn new() -> (r: EvalRun)
        ensures
            r.phase() == RunPhase::Ready,
            !r.script_present(),
            r.outcome() is None,
    {
        EvalRun { phase: RunPhase::Ready, succeeded: None }
    }

    /// What the caller must do next.
    pub fn next_action(&self) -> (a: RunAction)
        ensures
            a == Self::action_for(self.phase()),
    {
        match self.phase {
            RunPhase::Ready => RunAction::PlaceScript,
            RunPhase::ScriptPlaced => RunAction::RunEvaluator,
            RunPhase::Evaluated => RunAction::RemoveScript,
            RunPhase::Finished => RunAction::Done,
        }
    }

    /// The helper script has been written into the directory.
    pub fn on_script_placed(&mut self)
        requires
            old(self).phase() == RunPhase::Ready,
        ensures
            final(self).phase() == RunPhase::ScriptPlaced,
            final(self).script_present(),
            final(self).outcome() == old(self).outcome(),
    {
        self.phase = RunPhase::ScriptPlaced;
    }

    /// The evaluator has returned. The next action is the script's removal
    /// whether the evaluator succeeded or failed.
    pub fn on_evaluated(&mut self, success: bool)
        requires
            old(self).phase() == RunPhase::ScriptPlaced,
        ensures
            final(self).phase() == RunPhase::Evaluated,
            Self::action_for(final(self).phase()) == RunAction::RemoveScript,
            final(self).outcome() == Some(success),
    {
        self.phase = RunPhase::Evaluated;
        self.succeeded = Some(success);
    }

    /// The helper script has been removed again: the run is over and the
    /// directory is as clean as it started.
    pub fn on_script_removed(&mut self)
        requires
            old(self).phase() == RunPhase::Evaluated,
        ensures
            final(self).phase() == RunPhase::Finished,
            !final(self).script_present(),
            final(self).outcome() == old(self).outcome(),
    {
        self.phase = RunPhase::Finished;
    }
}

/// Before a run starts and after it finishes the helper script is absent
/// from the directory, on the success and the failure path alike.
pub proof fn lemma_script_scoped_to_run(r: EvalRun)
    ensures
        r.phase() == RunPhase::Ready || r.phase() == RunPhase::Finished ==> !r.script_present(),
{
}

} // verus!
