//! The pipeline executor, modelled as a state machine.
//!
//! Planning turns the lexed stages into a [`PipelinePlan`]: redirections
//! peeled off, every stage non-empty, builtins admitted only in the last
//! position.  Execution then walks a fixed order of phases — resolve every
//! external command, open every redirection target, spawn left to right,
//! reap in spawn order, then drain and run a trailing builtin — and the
//! driver performs one [`ExecAction`] at a time, handing the outcome back.
//! A resolution or open failure ends the run before anything is spawned; a
//! spawn failure stops spawning and still reaps everything already spawned.
//! The machine's invariant makes the no-zombie rule checkable: when the run
//! is done, exactly as many children were waited for as were spawned.

use vstd::prelude::*;
use vstd::string::*;
use crate::errors::{ShellError, ShellErrorView, ShellResult};
use crate::redirection::{
    parse_redirection, redir_view, spec_parse_redirection, Redirection, RedirectionMode,
};
use crate::registry::{find_in, BuiltinHandle, BuiltinRegistry};
use crate::resolver::command_not_found_message;

verus! {

/// One stage of a planned pipeline: its argument vector with redirections
/// already removed, and the redirection of each stream.
pub struct PlannedStage {
    pub argv: Vec<String>,
    pub stdout_redir: Option<Redirection>,
    pub stderr_redir: Option<Redirection>,
}

/// The mathematical value of a [`PlannedStage`].
pub struct StageView {
    pub argv: Seq<Seq<char>>,
    pub stdout_redir: Option<(Seq<char>, RedirectionMode)>,
    pub stderr_redir: Option<(Seq<char>, RedirectionMode)>,
}

impl View for PlannedStage {
    type V = StageView;

    open spec fn view(&self) -> StageView {
        StageView {
            argv: self.argv.deep_view(),
            stdout_redir: redir_view(self.stdout_redir),
            stderr_redir: redir_view(self.stderr_redir),
        }
    }
}

/// A planned pipeline: one or more stages, the last possibly a builtin.
pub struct PipelinePlan {
    pub stages: Vec<PlannedStage>,
    pub last_is_builtin: bool,
}

/// The mathematical value of a [`PipelinePlan`].
pub struct PlanView {
    pub stages: Seq<StageView>,
    pub last_is_builtin: bool,
}

impl View for PipelinePlan {
    type V = PlanView;

    open spec fn view(&self) -> PlanView {
        PlanView {
            stages: self.stages@.map_values(|s: PlannedStage| s@),
            last_is_builtin: self.last_is_builtin,
        }
    }
}

/// Planning from stage `i` on: redirections parsed, empty stages rejected
/// (a single stage of only redirections is a no-op line), and a builtin name
/// in any position but the last treated as a resolution failure — only a
/// trailing builtin runs in process.
pub open spec fn plan_from(
    argvs: Seq<Seq<Seq<char>>>,
    cmds: Seq<BuiltinHandle>,
    i: int,
    acc: Seq<StageView>,
) -> Result<Option<PlanView>, ShellErrorView>
    decreases argvs.len() - i,
{
    if i < 0 || i >= argvs.len() {
        Result::Ok(
            Option::Some(
                PlanView {
                    stages: acc,
                    last_is_builtin: acc.len() > 0 && find_in(cmds, acc.last().argv[0]) is Some,
                },
            ),
        )
    } else {
        match spec_parse_redirection(argvs[i]) {
            Result::Err(m) => Result::Err(ShellErrorView::RedirectionError(m)),
            Result::Ok(pr) => {
                if pr.filtered.len() == 0 {
                    if argvs.len() == 1 {
                        Result::Ok(Option::None)
                    } else {
                        Result::Err(
                            ShellErrorView::ExecutionError("pipeline stage has no command"@),
                        )
                    }
                } else if i < argvs.len() - 1 && find_in(cmds, pr.filtered[0]) is Some {
                    Result::Err(
                        ShellErrorView::CommandNotFound(pr.filtered[0] + ": command not found"@),
                    )
                } else {
                    plan_from(
                        argvs,
                        cmds,
                        i + 1,
                        acc.push(
                            StageView {
                                argv: pr.filtered,
                                stdout_redir: pr.stdout_redir,
                                stderr_redir: pr.stderr_redir,
                            },
                        ),
                    )
                }
            },
        }
    }
}

/// The whole planning pass.
pub open spec fn spec_plan(argvs: Seq<Seq<Seq<char>>>, cmds: Seq<BuiltinHandle>) -> Result<
    Option<PlanView>,
    ShellErrorView,
> {
    plan_from(argvs, cmds, 0, Seq::empty())
}

/// The mathematical value of a planning result.
pub open spec fn plan_result_view(r: ShellResult<Option<PipelinePlan>>) -> Result<
    Option<PlanView>,
    ShellErrorView,
> {
    match r {
        Result::Ok(Option::Some(p)) => Result::Ok(Option::Some(p@)),
        Result::Ok(Option::None) => Result::Ok(Option::None),
        Result::Err(e) => Result::Err(e@),
    }
}

/// Plans a pipeline from its lexed stages.
///
/// Returns the plan exactly as [`spec_plan`] describes it: `Ok(None)` for a
/// single stage that was nothing but redirections (a no-op line), an error
/// when an operator misses its target, when a stage of a longer pipeline is
/// empty, or when a builtin stands before the last position.
pub fn plan_pipeline(stage_argvs: &Vec<Vec<String>>, registry: &BuiltinRegistry) -> (r: ShellResult<
    Option<PipelinePlan>,
>)
    requires
        stage_argvs@.len() >= 1,
    ensures
        plan_result_view(r) == spec_plan(stage_argvs.deep_view(), registry.spec_commands()),
        r matches Ok(Some(p)) ==> p.stages@.len() == stage_argvs@.len() && (forall|j: int|
            0 <= j < p.stages@.len() ==> (#[trigger] p.stages@[j])@.argv.len() >= 1),
{
    let ghost dv = stage_argvs.deep_view();
    let ghost cmds = registry.spec_commands();
    let n = stage_argvs.len();
    let mut stages: Vec<PlannedStage> = Vec::new();
    proof {
        assert(stages@.map_values(|s: PlannedStage| s@) =~= Seq::<StageView>::empty());
        assert(dv.len() == stage_argvs@.len());
    }
    let mut i: usize = 0;
    while i < n
        invariant
            n == stage_argvs@.len(),
            dv == stage_argvs.deep_view(),
            dv.len() == n,
            cmds == registry.spec_commands(),
            i <= n,
            stages@.len() == i,
            forall|j: int| 0 <= j < i ==> (#[trigger] stages@[j])@.argv.len() >= 1,
            spec_plan(dv, cmds) == plan_from(
                dv,
                cmds,
                i as int,
                stages@.map_values(|s: PlannedStage| s@),
            ),
        decreases n - i,
    {
        let ghost acc = stages@.map_values(|s: PlannedStage| s@);
        proof {
            assert(dv[i as int] == stage_argvs@[i as int].deep_view());
        }
        match parse_redirection(&stage_argvs[i]) {
            Err(e) => {
                return Err(e);
            },
            Ok((filtered, stdout_redir, stderr_redir)) => {
                if filtered.len() == 0 {
                    if n == 1 {
                        return Ok(None);
                    } else {
                        return Err(
                            ShellError::ExecutionError("pipeline stage has no command".to_owned()),
                        );
                    }
                }
                proof {
                    assert(filtered.deep_view()[0] == filtered@[0]@);
                }
                if i < n - 1 && registry.is_builtin(filtered[0].as_str()) {
                    let msg = command_not_found_message(filtered[0].as_str());
                    return Err(ShellError::CommandNotFound(msg));
                }
                let stage = PlannedStage { argv: filtered, stdout_redir, stderr_redir };
                stages.push(stage);
                proof {
                    assert(stages@.map_values(|s: PlannedStage| s@) =~= acc.push(
                        stages@[i as int]@,
                    ));
                }
            },
        }
        i = i + 1;
    }
    let last_argv0 = &stages[stages.len() - 1].argv[0];
    let last_is_builtin = registry.is_builtin(last_argv0.as_str());
    let plan = PipelinePlan { stages, last_is_builtin };
    proof {
        let acc = plan.stages@.map_values(|s: PlannedStage| s@);
        assert(acc.last() == plan.stages@[dv.len() - 1]@);
        assert(acc.last().argv[0] == plan.stages@[dv.len() - 1].argv@[0]@);
    }
    Ok(Some(plan))
}

/// Where a spawned stage reads its standard input.
#[derive(Clone, Copy, Debug, PartialEq, Eq, Structural)]
pub enum StdinWiring {
    /// The shell's own stdin (first stage).
    Inherit,
    /// The read end of the numbered pipe.
    FromPipe { index: usize },
}

/// Where a spawned stage writes one of its output streams.
#[derive(Clone, Copy, Debug, PartialEq, Eq, Structural)]
pub enum OutWiring {
    /// The shell's own stream (last stage, no redirection).
    Inherit,
    /// The write end of the numbered pipe.
    ToPipe { index: usize },
    /// The redirection target opened under this slot.
    ToFile { slot: usize },
}

/// One redirection target to open before anything spawns.  Slot `2*i` is
/// stage `i`'s stdout target, slot `2*i + 1` its stderr target.
pub struct OpenRequest {
    pub slot: usize,
    pub path: String,
    pub append: bool,
}

/// The mathematical value of an [`OpenRequest`].
pub struct OpenView {
    pub slot: int,
    pub path: Seq<char>,
    pub append: bool,
}

impl View for OpenRequest {
    type V = OpenView;

    open spec fn view(&self) -> OpenView {
        OpenView { slot: self.slot as int, path: self.path@, append: self.append }
    }
}

/// The open requests of one stage, in stdout-then-stderr order.
pub open spec fn stage_opens(st: StageView, i: int) -> Seq<OpenView> {
    (match st.stdout_redir {
        Option::Some((p, m)) => seq![
            OpenView { slot: 2 * i, path: p, append: m is Append },
        ],
        Option::None => Seq::empty(),
    }) + (match st.stderr_redir {
        Option::Some((p, m)) => seq![
            OpenView { slot: 2 * i + 1, path: p, append: m is Append },
        ],
        Option::None => Seq::empty(),
    })
}

/// The open requests of stages `i..`, in stage order.
pub open spec fn opens_from(stages: Seq<StageView>, i: int) -> Seq<OpenView>
    decreases stages.len() - i,
{
    if i < 0 || i >= stages.len() {
        Seq::empty()
    } else {
        stage_opens(stages[i], i) + opens_from(stages, i + 1)
    }
}

/// What the driver must do next.
pub enum ExecAction {
    /// Resolve this command word to an executable path.
    Resolve { name: String },
    /// Open this redirection target, truncating or appending, and keep the
    /// file under the slot.
    OpenRedir { slot: usize, path: String, append: bool },
    /// Spawn stage `stage` from the resolved `path` with these arguments
    /// (the command word itself excluded) and this wiring.
    Spawn {
        stage: usize,
        path: String,
        args: Vec<String>,
        stdin: StdinWiring,
        stdout: OutWiring,
        stderr: OutWiring,
    },
    /// Wait for the numbered child, in spawn order.
    Wait { child: usize },
    /// Read the upstream pipe to end-of-file and discard it.
    Drain { pipe: usize },
    /// Probe the trailing builtin for an exit request, then run it with its
    /// redirections installed.
    RunBuiltin { stage: usize },
}

/// The phase of a pipeline run.
#[derive(Clone, Copy, Debug)]
pub enum ExecPhase {
    /// Resolving external stage `next`.
    Resolving { next: usize },
    /// Opening redirection target `next`.
    Opening { next: usize },
    /// Spawning external stage `next`.
    Spawning { next: usize },
    /// Waiting for child `next`.
    Reaping { next: usize },
    /// Draining the upstream pipe before a trailing builtin.
    Draining,
    /// Running the trailing builtin.
    RunningBuiltin,
    /// Finished; the result stands in `failure`.
    Done,
}

/// The number of external stages: all of them, minus a trailing builtin.
pub open spec fn spec_n_ext(plan: PlanView) -> int {
    plan.stages.len() - if plan.last_is_builtin {
        1int
    } else {
        0int
    }
}

/// The phase after skipping every boundary that asks for no action: an
/// exhausted counter falls through to the next phase, and an exhausted reap
/// ends the run or hands over to the trailing builtin.
pub open spec fn settled_phase(
    plan: PlanView,
    opens_len: int,
    p: ExecPhase,
    spawned: int,
    failed: bool,
) -> ExecPhase {
    let ne = spec_n_ext(plan);
    let p1 = match p {
        ExecPhase::Resolving { next } => if next == ne {
            ExecPhase::Opening { next: 0 }
        } else {
            p
        },
        _ => p,
    };
    let p2 = match p1 {
        ExecPhase::Opening { next } => if next == opens_len {
            ExecPhase::Spawning { next: 0 }
        } else {
            p1
        },
        _ => p1,
    };
    let p3 = match p2 {
        ExecPhase::Spawning { next } => if next == ne {
            ExecPhase::Reaping { next: 0 }
        } else {
            p2
        },
        _ => p2,
    };
    match p3 {
        ExecPhase::Reaping { next } => if next == spawned {
            if failed || !plan.last_is_builtin {
                ExecPhase::Done
            } else if plan.stages.len() >= 2 {
                ExecPhase::Draining
            } else {
                ExecPhase::RunningBuiltin
            }
        } else {
            p3
        },
        _ => p3,
    }
}

/// A pipeline run in progress.
pub struct PipelineExec {
    /// The plan being executed.
    pub plan: PipelinePlan,
    /// Every redirection target, in open order.
    pub opens: Vec<OpenRequest>,
    /// The resolved path of each external stage resolved so far.
    pub resolved: Vec<String>,
    /// The current phase.
    pub phase: ExecPhase,
    /// How many children have been spawned.
    pub spawned: usize,
    /// How many children have been waited for.
    pub waited: usize,
    /// The error to report when the run is done.
    pub failure: Option<ShellError>,
}

impl PipelineExec {
    /// A plan the machine will execute: at least one stage, none of them
    /// empty, and few enough stages that slot numbers cannot overflow.
    pub open spec fn wf_plan(plan: PlanView) -> bool {
        &&& 1 <= plan.stages.len() <= 0x10000000
        &&& forall|i: int| 0 <= i < plan.stages.len() ==> (#[trigger] plan.stages[i]).argv.len() >= 1
    }

    /// The machine's invariant.  It ties every counter to the phase; its
    /// last clause is the no-zombie rule: a finished run has waited for
    /// exactly the children it spawned.
    pub open spec fn inv(&self) -> bool {
        let plan = self.plan@;
        let ne = spec_n_ext(plan);
        &&& Self::wf_plan(plan)
        &&& self.opens@.map_values(|o: OpenRequest| o@) == opens_from(plan.stages, 0)
        &&& self.waited <= self.spawned <= ne
        &&& match self.phase {
            ExecPhase::Resolving { next } => {
                &&& next < ne
                &&& self.resolved@.len() == next
                &&& self.spawned == 0
                &&& self.waited == 0
                &&& self.failure is None
            },
            ExecPhase::Opening { next } => {
                &&& next < self.opens@.len()
                &&& self.resolved@.len() == ne
                &&& self.spawned == 0
                &&& self.waited == 0
                &&& self.failure is None
            },
            ExecPhase::Spawning { next } => {
                &&& next < ne
                &&& self.resolved@.len() == ne
                &&& self.spawned == next
                &&& self.waited == 0
                &&& self.failure is None
            },
            ExecPhase::Reaping { next } => {
                &&& next < self.spawned
                &&& self.waited == next
            },
            ExecPhase::Draining => {
                &&& self.waited == self.spawned
                &&& plan.last_is_builtin
                &&& plan.stages.len() >= 2
                &&& self.failure is None
            },
            ExecPhase::RunningBuiltin => {
                &&& self.waited == self.spawned
                &&& plan.last_is_builtin
                &&& self.failure is None
            },
            ExecPhase::Done => self.waited == self.spawned,
        }
    }

    /// The number of external stages.
    pub fn n_ext(&self) -> (r: usize)
        requires
            self.plan.stages@.len() >= 1,
        ensures
            r == spec_n_ext(self.plan@),
    {
        if self.plan.last_is_builtin {
            self.plan.stages.len() - 1
        } else {
            self.plan.stages.len()
        }
    }

    /// Skips every phase boundary that asks for no action.
    fn settle(&mut self)
        requires
            old(self).plan.stages@.len() >= 1,
        ensures
            final(self).plan == old(self).plan,
            final(self).opens == old(self).opens,
            final(self).resolved == old(self).resolved,
            final(self).spawned == old(self).spawned,
            final(self).waited == old(self).waited,
            final(self).failure == old(self).failure,
            final(self).phase == settled_phase(
                old(self).plan@,
                old(self).opens@.len() as int,
                old(self).phase,
                old(self).spawned as int,
                old(self).failure is Some,
            ),
    {
        let ne = self.n_ext();
        match self.phase {
            ExecPhase::Resolving { next } => {
                if next == ne {
                    self.phase = ExecPhase::Opening { next: 0 };
                }
            },
            _ => {},
        }
        match self.phase {
            ExecPhase::Opening { next } => {
                if next == self.opens.len() {
                    self.phase = ExecPhase::Spawning { next: 0 };
                }
            },
            _ => {},
        }
        match self.phase {
            ExecPhase::Spawning { next } => {
                if next == ne {
                    self.phase = ExecPhase::Reaping { next: 0 };
                }
            },
            _ => {},
        }
        match self.phase {
            ExecPhase::Reaping { next } => {
                if next == self.spawned {
                    let failed = match &self.failure {
                        Some(_) => true,
                        None => false,
                    };
                    if failed || !self.plan.last_is_builtin {
                        self.phase = ExecPhase::Done;
                    } else if self.plan.stages.len() >= 2 {
                        self.phase = ExecPhase::Draining;
                    } else {
                        self.phase = ExecPhase::RunningBuiltin;
                    }
                }
            },
            _ => {},
        }
    }

    /// Starts a run of `plan`.
    pub fn new(plan: PipelinePlan) -> (r: Self)
        requires
            Self::wf_plan(plan@),
        ensures
            r.inv(),
            r.plan == plan,
            r.spawned == 0,
            r.waited == 0,
            r.failure is None,
            r.phase == settled_phase(
                plan@,
                opens_from(plan@.stages, 0).len() as int,
                ExecPhase::Resolving { next: 0 },
                0,
                false,
            ),
    {
        let ghost pv = plan@;
        let mut opens: Vec<OpenRequest> = Vec::new();
        let n = plan.stages.len();
        proof {
            assert(opens@.map_values(|o: OpenRequest| o@) =~= Seq::<OpenView>::empty());
            assert(opens_from(pv.stages, 0) =~= Seq::<OpenView>::empty() + opens_from(
                pv.stages,
                0,
            ));
            assert(pv.stages.len() == plan.stages@.len());
        }
        let mut i: usize = 0;
        while i < n
            invariant
                n == plan.stages@.len(),
                pv == plan@,
                pv.stages.len() == n,
                i <= n,
                n <= 0x10000000,
                opens_from(pv.stages, 0) == opens@.map_values(|o: OpenRequest| o@) + opens_from(
                    pv.stages,
                    i as int,
                ),
            decreases n - i,
        {
            let ghost pre = opens@.map_values(|o: OpenRequest| o@);
            let stage = &plan.stages[i];
            proof {
                assert(pv.stages[i as int] == plan.stages@[i as int]@);
            }
            match &stage.stdout_redir {
                Some(redir) => {
                    let append = match redir.mode {
                        RedirectionMode::Append => true,
                        RedirectionMode::Overwrite => false,
                    };
                    opens.push(OpenRequest { slot: 2 * i, path: redir.file.clone(), append });
                },
                None => {},
            }
            match &stage.stderr_redir {
                Some(redir) => {
                    let append = match redir.mode {
                        RedirectionMode::Append => true,
                        RedirectionMode::Overwrite => false,
                    };
                    opens.push(OpenRequest { slot: 2 * i + 1, path: redir.file.clone(), append });
                },
                None => {},
            }
            proof {
                assert(opens@.map_values(|o: OpenRequest| o@) =~= pre + stage_opens(
                    pv.stages[i as int],
                    i as int,
                ));
                assert(pre + (stage_opens(pv.stages[i as int], i as int) + opens_from(
                    pv.stages,
                    i + 1,
                )) =~= (pre + stage_opens(pv.stages[i as int], i as int)) + opens_from(
                    pv.stages,
                    i + 1,
                ));
            }
            i = i + 1;
        }
        proof {
            assert(opens_from(pv.stages, n as int) =~= Seq::<OpenView>::empty());
            assert(opens@.map_values(|o: OpenRequest| o@) + Seq::<OpenView>::empty()
                =~= opens@.map_values(|o: OpenRequest| o@));
        }
        let mut machine = PipelineExec {
            plan,
            opens,
            resolved: Vec::new(),
            phase: ExecPhase::Resolving { next: 0 },
            spawned: 0,
            waited: 0,
            failure: None,
        };
        machine.settle();
        machine
    }

    /// Whether the run is finished.
    pub fn is_done(&self) -> (r: bool)
        ensures
            r == (self.phase is Done),
    {
        match self.phase {
            ExecPhase::Done => true,
            _ => false,
        }
    }

    /// The outcome of a finished run: nothing on success, the error to
    /// print otherwise.
    pub fn outcome(&self) -> (r: &Option<ShellError>)
        requires
            self.phase is Done,
        ensures
            r == &self.failure,
    {
        &self.failure
    }
}

/// Where stage `i` reads standard input: the shell's stdin for the first
/// stage, the previous pipe for every other.
pub open spec fn spec_stdin_wiring(i: int) -> StdinWiring {
    if i == 0 {
        StdinWiring::Inherit
    } else {
        StdinWiring::FromPipe { index: (i - 1) as usize }
    }
}

/// Where stage `i` writes standard output: its own redirection target when
/// it has one — explicit redirection wins over the pipe — else the next
/// pipe, else the shell's stdout for the last stage.
pub open spec fn spec_stdout_wiring(plan: PlanView, i: int) -> OutWiring {
    if plan.stages[i].stdout_redir is Some {
        OutWiring::ToFile { slot: (2 * i) as usize }
    } else if i < plan.stages.len() - 1 {
        OutWiring::ToPipe { index: i as usize }
    } else {
        OutWiring::Inherit
    }
}

/// Where stage `i` writes standard error: its redirection target when it
/// has one, the shell's stderr otherwise.
pub open spec fn spec_stderr_wiring(plan: PlanView, i: int) -> OutWiring {
    if plan.stages[i].stderr_redir is Some {
        OutWiring::ToFile { slot: (2 * i + 1) as usize }
    } else {
        OutWiring::Inherit
    }
}

/// A copy of `v` without its first element.
fn clone_tail(v: &Vec<String>) -> (r: Vec<String>)
    requires
        v@.len() >= 1,
    ensures
        r.deep_view() == v.deep_view().skip(1),
{
    let mut out: Vec<String> = Vec::new();
    let mut i: usize = 1;
    proof {
        assert(out.deep_view() =~~= v.deep_view().skip(1).take(0));
    }
    while i < v.len()
        invariant
            1 <= i <= v@.len(),
            v.deep_view().len() == v@.len(),
            out.deep_view() == v.deep_view().skip(1).take(i - 1),
        decreases v@.len() - i,
    {
        let ghost pre = out.deep_view();
        out.push(v[i].clone());
        proof {
            assert(v.deep_view()[i as int] == v@[i as int]@);
            assert(v.deep_view().skip(1)[i - 1] == v.deep_view()[i as int]);
            assert(out.deep_view() =~~= pre.push(v.deep_view().skip(1)[i - 1]));
            assert(v.deep_view().skip(1).take(i as int) =~~= pre.push(
                v.deep_view().skip(1)[i - 1],
            ));
        }
        i = i + 1;
    }
    proof {
        assert(v.deep_view().skip(1).take(v@.len() - 1) =~~= v.deep_view().skip(1));
    }
    out
}

impl PipelineExec {
    /// The action the driver must perform now.
    pub fn next_action(&self) -> (r: ExecAction)
        requires
            self.inv(),
            !(self.phase is Done),
        ensures
            self.phase matches ExecPhase::Resolving { next } ==> r matches ExecAction::Resolve {
                name,
            } && name@ == self.plan.stages@[next as int].argv@[0]@,
            self.phase matches ExecPhase::Opening { next } ==> r matches ExecAction::OpenRedir {
                slot,
                path,
                append,
            } && slot as int == self.opens@[next as int]@.slot && path@ == self.opens@[
                next as int
            ]@.path && append == self.opens@[next as int]@.append,
            self.phase matches ExecPhase::Spawning { next } ==> r matches ExecAction::Spawn {
                stage,
                path,
                args,
                stdin,
                stdout,
                stderr,
            } && stage == next && path@ == self.resolved@[next as int]@ && args.deep_view()
                == self.plan.stages@[next as int].argv.deep_view().skip(1) && stdin
                == spec_stdin_wiring(next as int) && stdout == spec_stdout_wiring(
                self.plan@,
                next as int,
            ) && stderr == spec_stderr_wiring(self.plan@, next as int),
            self.phase matches ExecPhase::Reaping { next } ==> r matches ExecAction::Wait { child }
                && child == next,
            self.phase is Draining ==> (r matches ExecAction::Drain { pipe } && pipe as int
                == self.plan.stages@.len() - 2),
            self.phase is RunningBuiltin ==> (r matches ExecAction::RunBuiltin { stage } && stage
                as int == self.plan.stages@.len() - 1),
    {
        match self.phase {
            ExecPhase::Resolving { next } => {
                proof {
                    assert(self.plan@.stages[next as int] == self.plan.stages@[next as int]@);
                }
                ExecAction::Resolve { name: self.plan.stages[next].argv[0].clone() }
            },
            ExecPhase::Opening { next } => {
                let req = &self.opens[next];
                ExecAction::OpenRedir { slot: req.slot, path: req.path.clone(), append: req.append }
            },
            ExecPhase::Spawning { next } => {
                let ghost pv = self.plan@;
                proof {
                    assert(pv.stages[next as int] == self.plan.stages@[next as int]@);
                }
                let stage_ref = &self.plan.stages[next];
                let args = clone_tail(&stage_ref.argv);
                let stdin = if next == 0 {
                    StdinWiring::Inherit
                } else {
                    StdinWiring::FromPipe { index: next - 1 }
                };
                let stdout = match &stage_ref.stdout_redir {
                    Some(_) => OutWiring::ToFile { slot: 2 * next },
                    None => {
                        if next < self.plan.stages.len() - 1 {
                            OutWiring::ToPipe { index: next }
                        } else {
                            OutWiring::Inherit
                        }
                    },
                };
                let stderr = match &stage_ref.stderr_redir {
                    Some(_) => OutWiring::ToFile { slot: 2 * next + 1 },
                    None => OutWiring::Inherit,
                };
                ExecAction::Spawn {
                    stage: next,
                    path: self.resolved[next].clone(),
                    args,
                    stdin,
                    stdout,
                    stderr,
                }
            },
            ExecPhase::Reaping { next } => ExecAction::Wait { child: next },
            ExecPhase::Draining => ExecAction::Drain { pipe: self.plan.stages.len() - 2 },
            ExecPhase::RunningBuiltin => ExecAction::RunBuiltin {
                stage: self.plan.stages.len() - 1,
            },
            // Excluded by the precondition: a finished run asks for nothing.
            ExecPhase::Done => ExecAction::Wait { child: 0 },
        }
    }

    /// Reports what the resolver found for the stage being resolved: its
    /// executable path, or nothing, which ends the run with
    /// `CommandNotFound` before anything is spawned.
    pub fn on_resolved(&mut self, path: Option<String>)
        requires
            old(self).inv(),
            old(self).phase is Resolving,
        ensures
            final(self).inv(),
            final(self).plan == old(self).plan,
            final(self).opens == old(self).opens,
            final(self).spawned == old(self).spawned,
            final(self).waited == old(self).waited,
            old(self).phase matches ExecPhase::Resolving { next } ==> match path {
                Option::Some(p) => {
                    &&& final(self).resolved@ == old(self).resolved@.push(p)
                    &&& final(self).failure is None
                    &&& final(self).phase == settled_phase(
                        old(self).plan@,
                        old(self).opens@.len() as int,
                        ExecPhase::Resolving { next: (next + 1) as usize },
                        old(self).spawned as int,
                        false,
                    )
                },
                Option::None => {
                    &&& final(self).resolved == old(self).resolved
                    &&& final(self).phase is Done
                    &&& final(self).failure matches Some(e) && e@
                        == ShellErrorView::CommandNotFound(
                        old(self).plan.stages@[next as int].argv@[0]@ + ": command not found"@,
                    )
                },
            },
    {
        match self.phase {
            ExecPhase::Resolving { next } => {
                match path {
                    Some(p) => {
                        self.resolved.push(p);
                        self.phase = ExecPhase::Resolving { next: next + 1 };
                        self.settle();
                    },
                    None => {
                        proof {
                            assert(self.plan@.stages.len() == self.plan.stages@.len());
                            assert(self.plan@.stages[next as int] == self.plan.stages@[
                                next as int
                            ]@);
                        }
                        let name = &self.plan.stages[next].argv[0];
                        let msg = command_not_found_message(name.as_str());
                        self.failure = Some(ShellError::CommandNotFound(msg));
                        self.phase = ExecPhase::Done;
                    },
                }
            },
            _ => {},
        }
    }

    /// Reports whether the redirection target being opened could be opened;
    /// a failure ends the run with `RedirectionError` before anything is
    /// spawned.
    pub fn on_opened(&mut self, ok: bool, err: String)
        requires
            old(self).inv(),
            old(self).phase is Opening,
        ensures
            final(self).inv(),
            final(self).plan == old(self).plan,
            final(self).opens == old(self).opens,
            final(self).resolved == old(self).resolved,
            final(self).spawned == old(self).spawned,
            final(self).waited == old(self).waited,
            old(self).phase matches ExecPhase::Opening { next } ==> if ok {
                &&& final(self).failure is None
                &&& final(self).phase == settled_phase(
                    old(self).plan@,
                    old(self).opens@.len() as int,
                    ExecPhase::Opening { next: (next + 1) as usize },
                    old(self).spawned as int,
                    false,
                )
            } else {
                &&& final(self).phase is Done
                &&& final(self).failure matches Some(e) && e@ == ShellErrorView::RedirectionError(
                    "Failed to open '"@ + old(self).opens@[next as int]@.path + "': "@ + err@,
                )
            },
    {
        match self.phase {
            ExecPhase::Opening { next } => {
                if ok {
                    let cap = self.opens.len();
                    self.phase = ExecPhase::Opening { next: next + 1 };
                    self.settle();
                } else {
                    let mut msg = String::from_str("Failed to open '");
                    msg.append(self.opens[next].path.as_str());
                    msg.append("': ");
                    msg.append(err.as_str());
                    self.failure = Some(ShellError::RedirectionError(msg));
                    self.phase = ExecPhase::Done;
                }
            },
            _ => {},
        }
    }

    /// Reports whether the stage being spawned could be spawned.  A failure
    /// stops spawning, records `ExecutionError`, and still reaps every
    /// child already spawned before the run ends.
    pub fn on_spawned(&mut self, ok: bool, err: String)
        requires
            old(self).inv(),
            old(self).phase is Spawning,
        ensures
            final(self).inv(),
            final(self).plan == old(self).plan,
            final(self).opens == old(self).opens,
            final(self).resolved == old(self).resolved,
            final(self).waited == old(self).waited,
            old(self).phase matches ExecPhase::Spawning { next } ==> if ok {
                &&& final(self).spawned == old(self).spawned + 1
                &&& final(self).failure is None
                &&& final(self).phase == settled_phase(
                    old(self).plan@,
                    old(self).opens@.len() as int,
                    ExecPhase::Spawning { next: (next + 1) as usize },
                    old(self).spawned + 1,
                    false,
                )
            } else {
                &&& final(self).spawned == old(self).spawned
                &&& final(self).failure matches Some(e) && e@ == ShellErrorView::ExecutionError(
                    "Failed to execute "@ + old(self).plan.stages@[next as int].argv@[0]@ + ": "@
                        + err@,
                )
                &&& final(self).phase == settled_phase(
                    old(self).plan@,
                    old(self).opens@.len() as int,
                    ExecPhase::Reaping { next: 0 },
                    old(self).spawned as int,
                    true,
                )
            },
    {
        match self.phase {
            ExecPhase::Spawning { next } => {
                if ok {
                    self.spawned = self.spawned + 1;
                    self.phase = ExecPhase::Spawning { next: next + 1 };
                    self.settle();
                } else {
                    proof {
                        assert(self.plan@.stages.len() == self.plan.stages@.len());
                        assert(self.plan@.stages[next as int] == self.plan.stages@[next as int]@);
                    }
                    let mut msg = String::from_str("Failed to execute ");
                    msg.append(self.plan.stages[next].argv[0].as_str());
                    msg.append(": ");
                    msg.append(err.as_str());
                    self.failure = Some(ShellError::ExecutionError(msg));
                    self.phase = ExecPhase::Reaping { next: 0 };
                    self.settle();
                }
            },
            _ => {},
        }
    }

    /// Reports that the child being waited for has been reaped.  Its exit
    /// status does not fail the pipeline.
    pub fn on_waited(&mut self)
        requires
            old(self).inv(),
            old(self).phase is Reaping,
        ensures
            final(self).inv(),
            final(self).plan == old(self).plan,
            final(self).opens == old(self).opens,
            final(self).resolved == old(self).resolved,
            final(self).spawned == old(self).spawned,
            final(self).waited == old(self).waited + 1,
            final(self).failure == old(self).failure,
            old(self).phase matches ExecPhase::Reaping { next } ==> final(self).phase
                == settled_phase(
                old(self).plan@,
                old(self).opens@.len() as int,
                ExecPhase::Reaping { next: (next + 1) as usize },
                old(self).spawned as int,
                old(self).failure is Some,
            ),
    {
        match self.phase {
            ExecPhase::Reaping { next } => {
                self.waited = self.waited + 1;
                self.phase = ExecPhase::Reaping { next: next + 1 };
                self.settle();
            },
            _ => {},
        }
    }

    /// Reports that the upstream pipe has been drained; the trailing
    /// builtin runs next.
    pub fn on_drained(&mut self)
        requires
            old(self).inv(),
            old(self).phase is Draining,
        ensures
            final(self).inv(),
            final(self).plan == old(self).plan,
            final(self).opens == old(self).opens,
            final(self).resolved == old(self).resolved,
            final(self).spawned == old(self).spawned,
            final(self).waited == old(self).waited,
            final(self).failure == old(self).failure,
            final(self).phase is RunningBuiltin,
    {
        self.phase = ExecPhase::RunningBuiltin;
    }

    /// Reports the trailing builtin's result; the run is done and carries
    /// it as its own.
    pub fn on_builtin_done(&mut self, err: Option<ShellError>)
        requires
            old(self).inv(),
            old(self).phase is RunningBuiltin,
        ensures
            final(self).inv(),
            final(self).plan == old(self).plan,
            final(self).opens == old(self).opens,
            final(self).resolved == old(self).resolved,
            final(self).spawned == old(self).spawned,
            final(self).waited == old(self).waited,
            final(self).phase is Done,
            final(self).failure == err,
    {
        self.failure = err;
        self.phase = ExecPhase::Done;
    }
}

/// Sets up the run of one external command line, redirections included: a
/// single-stage pipeline with no trailing builtin.
///
/// Returns nothing when the line was only redirections (a no-op), the
/// ready machine otherwise, or the redirection parser's error.
pub fn run_external_command(args: &Vec<String>) -> (r: ShellResult<Option<PipelineExec>>)
    ensures
        match spec_parse_redirection(args.deep_view()) {
            Result::Err(m) => r matches Err(e) && e@ == ShellErrorView::RedirectionError(m),
            Result::Ok(pr) => if pr.filtered.len() == 0 {
                r matches Ok(o) && o is None
            } else {
                r matches Ok(o) && o matches Some(m) && {
                    &&& m.inv()
                    &&& m.phase == settled_phase(
                        m.plan@,
                        opens_from(m.plan@.stages, 0).len() as int,
                        ExecPhase::Resolving { next: 0 },
                        0,
                        false,
                    )
                    &&& m.plan@.stages.len() == 1
                    &&& !m.plan@.last_is_builtin
                    &&& m.plan@.stages[0].argv == pr.filtered
                    &&& m.plan@.stages[0].stdout_redir == pr.stdout_redir
                    &&& m.plan@.stages[0].stderr_redir == pr.stderr_redir
                    &&& m.spawned == 0
                    &&& m.waited == 0
                    &&& m.failure is None
                }
            },
        },
{
    match parse_redirection(args) {
        Err(e) => Err(e),
        Ok((filtered, stdout_redir, stderr_redir)) => {
            if filtered.len() == 0 {
                Ok(None)
            } else {
                let stage = PlannedStage { argv: filtered, stdout_redir, stderr_redir };
                let mut stages: Vec<PlannedStage> = Vec::new();
                stages.push(stage);
                let plan = PipelinePlan { stages, last_is_builtin: false };
                proof {
                    assert(plan@.stages.len() == 1);
                    assert(plan@.stages[0] == plan.stages@[0]@);
                    assert(plan@.stages[0].argv.len() == plan.stages@[0].argv@.len());
                    assert(PipelineExec::wf_plan(plan@));
                }
                let machine = PipelineExec::new(plan);
                Ok(Some(machine))
            }
        },
    }
}

/// Law: a finished run has waited for exactly the children it spawned — no
/// child is left unreaped, on the success path or on any failure path.
pub proof fn lemma_done_all_reaped(m: &PipelineExec)
    requires
        m.inv(),
        m.phase is Done,
    ensures
        m.waited == m.spawned,
{
}

} // verus!
