//! The process orchestrator, as a step machine.
//!
//! Spawning, changing directory and waiting are I/O; what the library
//! owns is every decision around them.  For one line of input the machine
//! walks the descriptors left to right and says at each point what to do
//! next (`next_action`): run `cd` in-process, end the loop on `exit`,
//! spawn an ordinary stage with its streams wired, wait on the final
//! stage, or finish the line.  The caller performs the action and reports
//! what happened (`apply_event`); the machine moves to the next state.
//!
//! The wiring rule: a stage's standard input is the previous stage's
//! captured output where one is in flight and the shell's own otherwise;
//! its standard output is captured exactly when a later stage exists.  A
//! spawn failure aborts the rest of the line (later stages are skipped,
//! the loop goes on); a failed wait is fatal; a failed `cd` never is.

use vstd::prelude::*;
use crate::builtins::BuiltinClass;
use crate::builtins::cd_target_spec;
use crate::builtins::cd_target;
use crate::builtins::classify_spec;
use crate::builtins::classify;
use crate::command::CommandView;
use crate::command::ShellCommand;

verus! {

/// Where the machine stands while one line's pipeline is processed.
#[derive(Debug, Clone, Copy, PartialEq, Eq, Structural)]
pub enum RunState {
    /// Stages up to `idx` are dealt with; `has_prev` says whether the
    /// previous stage left a captured output stream in flight.
    Running { idx: usize, has_prev: bool },
    /// The line is finished; the shell prompts for the next one.
    Done,
    /// A wait on the final stage failed; the shell terminates with an
    /// error.
    Failed,
}

/// What the caller reports back after performing an action.
#[derive(Debug, Clone, Copy, PartialEq, Eq, Structural)]
pub enum Event {
    /// A directory change was attempted; `ok` says whether it succeeded.
    CdDone { ok: bool },
    /// A spawn was attempted; `ok` says whether the child started.
    SpawnDone { ok: bool },
    /// The wait on the final stage returned; `ok` says whether an exit
    /// status was obtained.
    WaitDone { ok: bool },
}

/// The next thing the shell must do for the current line.
#[derive(Debug, PartialEq, Eq)]
pub enum Action {
    /// Change the shell's own working directory to `target`, discarding
    /// any in-flight handle without waiting on it; report failure to the
    /// user and go on.
    ChangeDir { target: String },
    /// Spawn `program` with `args`.  Its standard input is the previous
    /// stage's captured output if `stdin_from_pipe`, and the shell's own
    /// otherwise; its standard output is captured for the next stage if
    /// `capture_stdout`, and inherited otherwise.
    Spawn { program: String, args: Vec<String>, stdin_from_pipe: bool, capture_stdout: bool },
    /// Wait on the in-flight final stage for its exit status.
    Wait,
    /// Nothing is left to do for this line; prompt again.
    FinishLine,
    /// Terminate the read-eval loop cleanly.
    Exit,
    /// Terminate the shell with an error: the final wait failed.
    Abort,
}

/// The mathematical shape of an action.
pub enum ActionV {
    ChangeDir { target: Seq<char> },
    Spawn { program: Seq<char>, args: Seq<Seq<char>>, stdin_from_pipe: bool, capture_stdout: bool },
    Wait,
    FinishLine,
    Exit,
    Abort,
}

impl View for Action {
    type V = ActionV;

    open spec fn view(&self) -> ActionV {
        match self {
            Action::ChangeDir { target } => ActionV::ChangeDir { target: target@ },
            Action::Spawn { program, args, stdin_from_pipe, capture_stdout } => ActionV::Spawn {
                program: program@,
                args: args.deep_view(),
                stdin_from_pipe: *stdin_from_pipe,
                capture_stdout: *capture_stdout,
            },
            Action::Wait => ActionV::Wait,
            Action::FinishLine => ActionV::FinishLine,
            Action::Exit => ActionV::Exit,
            Action::Abort => ActionV::Abort,
        }
    }
}

/// The action the machine demands in state `st`, for the line `cmds`.
pub open spec fn next_action_spec(cmds: Seq<CommandView>, st: RunState) -> ActionV {
    match st {
        RunState::Running { idx, has_prev } => {
            if (idx as int) < cmds.len() {
                match classify_spec(cmds[idx as int].program) {
                    BuiltinClass::Exit => ActionV::Exit,
                    BuiltinClass::DirChange => ActionV::ChangeDir {
                        target: cd_target_spec(cmds[idx as int].args),
                    },
                    BuiltinClass::Ordinary => ActionV::Spawn {
                        program: cmds[idx as int].program,
                        args: cmds[idx as int].args,
                        stdin_from_pipe: has_prev,
                        capture_stdout: idx + 1 < cmds.len(),
                    },
                }
            } else if has_prev {
                ActionV::Wait
            } else {
                ActionV::FinishLine
            }
        },
        RunState::Done => ActionV::FinishLine,
        RunState::Failed => ActionV::Abort,
    }
}

/// The state the machine moves to when, in state `st` over a line of `n`
/// stages, the caller reports `ev`.  An event that answers no pending
/// action leaves the state unchanged.
pub open spec fn apply_event_spec(n: nat, st: RunState, ev: Event) -> RunState {
    match st {
        RunState::Running { idx, has_prev } => {
            if (idx as nat) < n {
                match ev {
                    Event::CdDone { ok } => RunState::Running {
                        idx: (idx + 1) as usize,
                        has_prev: false,
                    },
                    Event::SpawnDone { ok } => if ok {
                        RunState::Running { idx: (idx + 1) as usize, has_prev: true }
                    } else {
                        RunState::Done
                    },
                    Event::WaitDone { ok } => st,
                }
            } else {
                match ev {
                    Event::WaitDone { ok } => if has_prev {
                        if ok {
                            RunState::Done
                        } else {
                            RunState::Failed
                        }
                    } else {
                        st
                    },
                    _ => st,
                }
            }
        },
        _ => st,
    }
}

impl RunState {
    /// The state a fresh line starts in: at the first stage, no handle in
    /// flight.
    pub fn initial() -> (st: RunState)
        ensures
            st == (RunState::Running { idx: 0, has_prev: false }),
    {
        RunState::Running { idx: 0, has_prev: false }
    }
}

/// Says what the shell must do next in state `st` for the line `cmds`.
pub fn next_action(cmds: &Vec<ShellCommand>, st: &RunState) -> (a: Action)
    ensures
        a@ == next_action_spec(cmds.deep_view(), *st),
{
    match *st {
        RunState::Running { idx, has_prev } => {
            if idx < cmds.len() {
                let cmd = &cmds[idx];
                proof {
                    assert(cmds.deep_view()[idx as int] == cmds@[idx as int]@);
                }
                match classify(cmd) {
                    BuiltinClass::Exit => Action::Exit,
                    BuiltinClass::DirChange => Action::ChangeDir { target: cd_target(cmd) },
                    BuiltinClass::Ordinary => Action::Spawn {
                        program: cmd.command.clone(),
                        args: cmd.args.clone(),
                        stdin_from_pipe: has_prev,
                        capture_stdout: idx + 1 < cmds.len(),
                    },
                }
            } else if has_prev {
                Action::Wait
            } else {
                Action::FinishLine
            }
        },
        RunState::Done => Action::FinishLine,
        RunState::Failed => Action::Abort,
    }
}

/// Moves the machine one step, on the caller's report of what the last
/// action did.
pub fn apply_event(cmds: &Vec<ShellCommand>, st: RunState, ev: Event) -> (r: RunState)
    ensures
        r == apply_event_spec(cmds@.len() as nat, st, ev),
{
    match st {
        RunState::Running { idx, has_prev } => {
            if idx < cmds.len() {
                match ev {
                    Event::CdDone { ok: _ } => RunState::Running { idx: idx + 1, has_prev: false },
                    Event::SpawnDone { ok } => if ok {
                        RunState::Running { idx: idx + 1, has_prev: true }
                    } else {
                        RunState::Done
                    },
                    Event::WaitDone { ok: _ } => st,
                }
            } else {
                match ev {
                    Event::WaitDone { ok } => if has_prev {
                        if ok {
                            RunState::Done
                        } else {
                            RunState::Failed
                        }
                    } else {
                        st
                    },
                    _ => st,
                }
            }
        },
        _ => st,
    }
}

/// The state after the machine has answered each event of `evs` in order,
/// over a line of `n` stages.
pub open spec fn run_events(n: nat, st: RunState, evs: Seq<Event>) -> RunState
    decreases evs.len(),
{
    if evs.len() == 0 {
        st
    } else {
        run_events(n, apply_event_spec(n, st, evs[0]), evs.skip(1))
    }
}

/// A state the machine can be in for a line of `n` stages: the stage
/// index never runs past the end of the line.
pub open spec fn state_wf(st: RunState, n: nat) -> bool {
    match st {
        RunState::Running { idx, has_prev } => idx as nat <= n,
        _ => true,
    }
}

/// Law: the machine never leaves the line.  The state a line starts in is
/// well formed, and every step keeps it so: the stage index stays within
/// the line, whatever the caller reports.
pub proof fn lemma_step_preserves_wf(n: nat, st: RunState, ev: Event)
    requires
        state_wf(st, n),
    ensures
        state_wf((RunState::Running { idx: 0, has_prev: false }), n),
        state_wf(apply_event_spec(n, st, ev), n),
{
}

/// Law: `exit` ends the read-eval loop the moment its stage is reached,
/// wherever in the line that stage stands; and while stages remain the
/// machine never demands a wait, so `exit` is not held up by any earlier
/// stage still running.
pub proof fn lemma_exit_is_immediate(cmds: Seq<CommandView>, idx: usize, has_prev: bool)
    requires
        idx < cmds.len(),
    ensures
        classify_spec(cmds[idx as int].program) == BuiltinClass::Exit ==> next_action_spec(
            cmds,
            RunState::Running { idx, has_prev },
        ) == ActionV::Exit,
        next_action_spec(cmds, RunState::Running { idx, has_prev }) != ActionV::Wait,
{
}

/// Law: a failed directory change never ends the shell.  Whatever a `cd`
/// reports, the machine drops any in-flight handle without waiting on it
/// and moves to the next stage: the state after a failed change is the
/// very state after a successful one.
pub proof fn lemma_cd_failure_continues(n: nat, idx: usize, has_prev: bool)
    requires
        (idx as nat) < n,
    ensures
        apply_event_spec(n, RunState::Running { idx, has_prev }, Event::CdDone { ok: false })
            == apply_event_spec(
            n,
            RunState::Running { idx, has_prev },
            Event::CdDone { ok: true },
        ),
        apply_event_spec(n, RunState::Running { idx, has_prev }, Event::CdDone { ok: false }) == (
        RunState::Running { idx: (idx + 1) as usize, has_prev: false }),
{
}

/// Law: a spawn failure aborts the rest of the line but not the shell.
/// The remaining stages are skipped, nothing is waited on, and the next
/// action is to prompt again — never an exit and never an abort.
pub proof fn lemma_spawn_failure_aborts_line(
    cmds: Seq<CommandView>,
    idx: usize,
    has_prev: bool,
)
    requires
        (idx as int) < cmds.len(),
    ensures
        apply_event_spec(
            cmds.len(),
            RunState::Running { idx, has_prev },
            Event::SpawnDone { ok: false },
        ) == RunState::Done,
        next_action_spec(cmds, RunState::Done) == ActionV::FinishLine,
{
}

proof fn lemma_run_spawn_successes(n: nat, idx: usize, has_prev: bool, k: nat)
    requires
        idx + k <= n,
        n <= usize::MAX,
    ensures
        run_events(
            n,
            RunState::Running { idx, has_prev },
            Seq::new(k, |t: int| (Event::SpawnDone { ok: true })),
        ) == (RunState::Running {
            idx: (idx + k) as usize,
            has_prev: if k > 0 {
                true
            } else {
                has_prev
            },
        }),
    decreases k,
{
    let evs = Seq::new(k, |t: int| (Event::SpawnDone { ok: true }));
    if k > 0 {
        assert(evs[0] == (Event::SpawnDone { ok: true }));
        assert(evs.skip(1) =~= Seq::new((k - 1) as nat, |t: int| (Event::SpawnDone { ok: true })));
        lemma_run_spawn_successes(n, (idx + 1) as usize, true, (k - 1) as nat);
    }
}

/// Law: a pipeline of ordinary stages whose spawns all succeed runs
/// strictly left to right.  After `i` successful spawns the machine is at
/// stage `i` and demands its spawn: reading from the previous stage's
/// captured output exactly when an earlier stage exists, capturing its
/// own output exactly when a later one does — so each stage's output
/// feeds the next stage's input, and no stage's exit status is consulted
/// in between.  Only after the last stage is spawned does the machine
/// demand the one wait, on that final stage.
pub proof fn lemma_pipeline_left_to_right(cmds: Seq<CommandView>, i: usize)
    requires
        0 < cmds.len() <= usize::MAX,
        i <= cmds.len(),
        forall|j: int| 0 <= j < cmds.len() ==> classify_spec(#[trigger] cmds[j].program)
            == BuiltinClass::Ordinary,
    ensures
        run_events(
            cmds.len(),
            RunState::Running { idx: 0, has_prev: false },
            Seq::new(i as nat, |t: int| (Event::SpawnDone { ok: true })),
        ) == (RunState::Running { idx: i, has_prev: i > 0 }),
        i < cmds.len() ==> next_action_spec(cmds, RunState::Running { idx: i, has_prev: i > 0 })
            == (ActionV::Spawn {
            program: cmds[i as int].program,
            args: cmds[i as int].args,
            stdin_from_pipe: i > 0,
            capture_stdout: i + 1 < cmds.len(),
        }),
        i == cmds.len() ==> next_action_spec(cmds, RunState::Running { idx: i, has_prev: i > 0 })
            == ActionV::Wait,
{
    lemma_run_spawn_successes(cmds.len(), 0, false, i as nat);
}

} // verus!
