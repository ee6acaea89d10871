use vstd::prelude::*;

verus! {

/// How the stages of one run are combined.
#[derive(PartialEq, Eq, Structural, Clone, Copy, Debug)]
pub enum Mode {
    /// In order, in the foreground, while each one exits with status 0.
    AllSucceed,
    /// In order, in the foreground, until one exits with status 0.
    FirstSuccess,
    /// All at once as one process group, joined by pipes.
    Pipeline,
    /// One stage, not waited for, recorded as a job.
    Background,
}

/// Where a run stands.
#[derive(PartialEq, Eq, Structural, Clone, Copy, Debug)]
pub enum Phase {
    /// Nothing has been asked yet.
    Start,
    /// The next stage, if any, is to be chosen.
    Decide,
    /// A stage of a sequential run was asked to be launched.
    Launching,
    /// A built-in stage of a sequential run was asked to be carried out.
    RunningBuiltin,
    /// The terminal was granted to the group of this process.
    Foreground(i32),
    /// This foreground process is being waited for.
    Waiting(i32),
    /// The pipes of a pipeline were asked to be opened.
    PipesOpened,
    /// A pipeline stage was asked to be launched.
    PipeLaunching,
    /// A built-in pipeline stage was asked to be carried out.
    PipeBuiltin,
    /// Every stage of the pipeline runs and the parent closed the pipes.
    PipesClosed,
    /// The pipeline's stages are waited for, one after another.
    Reaping,
    /// The pipes could not be opened, or a pipeline stage could not be
    /// created, and the parent closed the pipes.
    Aborted,
    /// The stages of an aborted pipeline were killed and are waited for.
    AbortReaping,
    /// The run is over.
    Finished,
}

/// What the caller reports about the operation it performed last.
#[derive(PartialEq, Eq, Structural, Clone, Copy, Debug)]
pub enum Event {
    /// A process was created with this id.
    Launched(i32),
    /// No process could be created.
    LaunchFailed,
    /// The pipes could not be opened.
    OpenFailed,
    /// The waited-for process exited normally with this status, or the
    /// built-in ended with it (0 on success).
    Exited(i32),
    /// The operation is over (and, after a wait, the process ended abnormally).
    Completed,
}

/// The next operation that the caller is to perform.
#[derive(PartialEq, Eq, Structural, Clone, Copy, Debug)]
pub enum Action {
    /// Create a process for stage `stage`. Its standard input is the read end
    /// of pipe `stdin_pipe` (else the inherited one), its standard output the
    /// write end of pipe `stdout_pipe` (else the inherited one); it joins the
    /// group `group_leader`, or leads a group of its own.
    Launch { stage: usize, stdin_pipe: Option<usize>, stdout_pipe: Option<usize>, group_leader: Option<i32> },
    /// Carry out the built-in command of stage `stage` in the shell itself,
    /// without a process, and report `Exited(0)` when it succeeded and
    /// another status when it failed.
    RunBuiltin { stage: usize },
    /// Open this many pipes.
    OpenPipes(usize),
    /// Close, in the parent, every pipe end opened for this run.
    ClosePipes,
    /// Hand the terminal to this process group.
    GrantForeground(i32),
    /// Hand the terminal back to this process group.
    RestoreForeground(i32),
    /// Wait until this process ends.
    Wait(i32),
    /// Kill every process of this group.
    KillGroup(i32),
    /// Record this process as a background job of stage `stage`.
    RegisterJob { stage: usize, pid: i32 },
    /// Nothing is left to do.
    Finish,
}

/// The decisions of one run of a command: which processes to create, how to
/// wire them, when to hand over the terminal and what to wait for.
///
/// The caller performs each `Action` that `step` returns and reports its
/// outcome as the next `Event`, until `Action::Finish`.
pub struct Engine {
    pub mode: Mode,
    pub stages: usize,
    /// Which stages are built-in commands.
    pub builtins: Vec<bool>,
    pub shell_group: i32,
    pub phase: Phase,
    /// The next pipeline stage to start.
    pub next_stage: usize,
    /// Exit statuses of the sequential stages run so far.
    pub statuses: Vec<i32>,
    /// Processes launched so far, in order.
    pub pids: Vec<i32>,
    /// Processes waited for so far, in order.
    pub waited: Vec<i32>,
}

/// An engine as plain values.
pub struct EngineView {
    pub mode: Mode,
    pub stages: nat,
    pub builtins: Seq<bool>,
    pub shell_group: i32,
    pub phase: Phase,
    pub next_stage: nat,
    pub statuses: Seq<i32>,
    pub pids: Seq<i32>,
    pub waited: Seq<i32>,
}

impl View for Engine {
    type V = EngineView;

    open spec fn view(&self) -> EngineView {
        EngineView {
            mode: self.mode,
            stages: self.stages as nat,
            builtins: self.builtins@,
            shell_group: self.shell_group,
            phase: self.phase,
            next_stage: self.next_stage as nat,
            statuses: self.statuses@,
            pids: self.pids@,
            waited: self.waited@,
        }
    }
}

/// Whether a sequential run goes on after these statuses.
pub open spec fn may_continue(mode: Mode, statuses: Seq<i32>) -> bool {
    match mode {
        Mode::AllSucceed => forall|j: int| 0 <= j < statuses.len() ==> #[trigger] statuses[j] == 0,
        Mode::FirstSuccess => forall|j: int| 0 <= j < statuses.len() ==> #[trigger] statuses[j] != 0,
        _ => true,
    }
}

/// Whether stage `i` is a built-in command.
pub open spec fn is_builtin_stage(m: EngineView, i: nat) -> bool {
    i < m.builtins.len() && m.builtins[i as int]
}

/// The launch of stage `i` of a pipeline of `n` stages, where `pids` were
/// launched before it: the first of them leads the pipeline's group.
pub open spec fn pipe_stage(i: nat, n: nat, pids: Seq<i32>) -> Action {
    Action::Launch {
        stage: i as usize,
        stdin_pipe: if i > 0 {
            Some((i - 1) as usize)
        } else {
            None
        },
        stdout_pipe: if i + 1 < n {
            Some(i as usize)
        } else {
            None
        },
        group_leader: if pids.len() > 0 {
            Some(pids[0])
        } else {
            None
        },
    }
}

/// The next step of a pipeline once the stages before `m.next_stage` were
/// started: start that stage, or close the pipes once all were.
pub open spec fn pipe_advance(m: EngineView) -> (EngineView, Action) {
    if m.next_stage < m.stages {
        if is_builtin_stage(m, m.next_stage) {
            (
                EngineView { phase: Phase::PipeBuiltin, ..m },
                Action::RunBuiltin { stage: m.next_stage as usize },
            )
        } else {
            (
                EngineView { phase: Phase::PipeLaunching, ..m },
                pipe_stage(m.next_stage, m.stages, m.pids),
            )
        }
    } else {
        (EngineView { phase: Phase::PipesClosed, ..m }, Action::ClosePipes)
    }
}

/// The stage after `m.next_stage`, kept within the stages.
pub open spec fn after_stage(m: EngineView) -> nat {
    if m.next_stage < m.stages {
        m.next_stage + 1
    } else {
        m.stages
    }
}

/// The choice of a sequential run: the next stage, or the end.
pub open spec fn decide(m: EngineView) -> (EngineView, Action) {
    if m.statuses.len() < m.stages && may_continue(m.mode, m.statuses) && is_builtin_stage(
        m,
        m.statuses.len(),
    ) {
        (
            EngineView { phase: Phase::RunningBuiltin, ..m },
            Action::RunBuiltin { stage: m.statuses.len() as usize },
        )
    } else if m.statuses.len() < m.stages && may_continue(m.mode, m.statuses) {
        (
            EngineView { phase: Phase::Launching, ..m },
            Action::Launch {
                stage: m.statuses.len() as usize,
                stdin_pipe: None,
                stdout_pipe: None,
                group_leader: None,
            },
        )
    } else {
        (EngineView { phase: Phase::Finished, ..m }, Action::Finish)
    }
}

/// The state after `m` and the action it asks for, given the outcome `ev` of
/// the action asked before.
pub open spec fn next(m: EngineView, ev: Event) -> (EngineView, Action) {
    match m.phase {
        Phase::Start => if m.mode == Mode::Pipeline {
            if m.stages == 0 {
                (EngineView { phase: Phase::Finished, ..m }, Action::Finish)
            } else {
                (
                    EngineView { phase: Phase::PipesOpened, ..m },
                    Action::OpenPipes((m.stages - 1) as usize),
                )
            }
        } else {
            decide(m)
        },
        Phase::Decide => decide(m),
        Phase::Launching => match ev {
            Event::Launched(pid) => if m.mode == Mode::Background {
                (
                    EngineView { phase: Phase::Finished, pids: m.pids.push(pid), ..m },
                    Action::RegisterJob { stage: m.statuses.len() as usize, pid },
                )
            } else {
                (
                    EngineView { phase: Phase::Foreground(pid), pids: m.pids.push(pid), ..m },
                    Action::GrantForeground(pid),
                )
            },
            _ => decide(EngineView { statuses: m.statuses.push(1), ..m }),
        },
        Phase::RunningBuiltin => {
            let code = match ev {
                Event::Exited(c) => c,
                _ => 1,
            };
            decide(EngineView { statuses: m.statuses.push(code), ..m })
        },
        Phase::Foreground(pid) => (
            EngineView { phase: Phase::Waiting(pid), waited: m.waited.push(pid), ..m },
            Action::Wait(pid),
        ),
        Phase::Waiting(pid) => {
            let code = match ev {
                Event::Exited(c) => c,
                _ => 1,
            };
            (
                EngineView { phase: Phase::Decide, statuses: m.statuses.push(code), ..m },
                Action::RestoreForeground(m.shell_group),
            )
        },
        Phase::PipesOpened => match ev {
            Event::OpenFailed => (EngineView { phase: Phase::Aborted, ..m }, Action::ClosePipes),
            _ => pipe_advance(m),
        },
        Phase::PipeLaunching => match ev {
            Event::Launched(pid) => pipe_advance(
                EngineView { pids: m.pids.push(pid), next_stage: after_stage(m), ..m },
            ),
            _ => (EngineView { phase: Phase::Aborted, ..m }, Action::ClosePipes),
        },
        Phase::PipeBuiltin => pipe_advance(EngineView { next_stage: after_stage(m), ..m }),
        Phase::PipesClosed => if m.pids.len() > 0 {
            (EngineView { phase: Phase::Reaping, ..m }, Action::GrantForeground(m.pids[0]))
        } else {
            (EngineView { phase: Phase::Finished, ..m }, Action::Finish)
        },
        Phase::Reaping => if m.waited.len() < m.pids.len() {
            let pid = m.pids[m.waited.len() as int];
            (EngineView { waited: m.waited.push(pid), ..m }, Action::Wait(pid))
        } else {
            (
                EngineView { phase: Phase::Finished, ..m },
                Action::RestoreForeground(m.shell_group),
            )
        },
        Phase::Aborted => if m.pids.len() > 0 {
            (EngineView { phase: Phase::AbortReaping, ..m }, Action::KillGroup(m.pids[0]))
        } else {
            (EngineView { phase: Phase::Finished, ..m }, Action::Finish)
        },
        Phase::AbortReaping => if m.waited.len() < m.pids.len() {
            let pid = m.pids[m.waited.len() as int];
            (EngineView { waited: m.waited.push(pid), ..m }, Action::Wait(pid))
        } else {
            (EngineView { phase: Phase::Finished, ..m }, Action::Finish)
        },
        Phase::Finished => (m, Action::Finish),
    }
}

fn statuses_all(v: &Vec<i32>, zero: bool) -> (r: bool)
    ensures
        r == (forall|j: int| 0 <= j < v@.len() ==> (#[trigger] v@[j] == 0) == zero),
{
    let mut i: usize = 0;
    while i < v.len()
        invariant
            i <= v@.len(),
            forall|j: int| 0 <= j < i ==> (#[trigger] v@[j] == 0) == zero,
        decreases v@.len() - i,
    {
        if (v[i] == 0) != zero {
            return false;
        }
        i = i + 1;
    }
    true
}

impl Engine {
    /// A run of one stage per entry of `builtins` (which tells the built-in
    /// commands apart), combined by `mode`, for a shell whose own process
    /// group is `shell_group`.
    pub fn new(mode: Mode, builtins: Vec<bool>, shell_group: i32) -> (r: Engine)
        ensures
            r@ == (EngineView {
                mode,
                stages: builtins@.len(),
                builtins: builtins@,
                shell_group,
                phase: Phase::Start,
                next_stage: 0,
                statuses: seq![],
                pids: seq![],
                waited: seq![],
            }),
    {
        let stages = builtins.len();
        let r = Engine {
            mode,
            stages,
            builtins,
            shell_group,
            phase: Phase::Start,
            next_stage: 0,
            statuses: Vec::new(),
            pids: Vec::new(),
            waited: Vec::new(),
        };
        assert(r@.statuses =~= seq![]);
        r
    }

    fn decide(&mut self) -> (r: Action)
        ensures
            (final(self)@, r) == decide(old(self)@),
    {
        let go_on = match self.mode {
            Mode::AllSucceed => statuses_all(&self.statuses, true),
            Mode::FirstSuccess => statuses_all(&self.statuses, false),
            _ => true,
        };
        let k = self.statuses.len();
        if k < self.stages && go_on && self.is_builtin_stage(k) {
            self.phase = Phase::RunningBuiltin;
            Action::RunBuiltin { stage: k }
        } else if k < self.stages && go_on {
            self.phase = Phase::Launching;
            Action::Launch {
                stage: self.statuses.len(),
                stdin_pipe: None,
                stdout_pipe: None,
                group_leader: None,
            }
        } else {
            self.phase = Phase::Finished;
            Action::Finish
        }
    }

    fn is_builtin_stage(&self, i: usize) -> (r: bool)
        ensures
            r == is_builtin_stage(self@, i as nat),
    {
        i < self.builtins.len() && self.builtins[i]
    }

    fn pipe_advance(&mut self) -> (r: Action)
        ensures
            (final(self)@, r) == pipe_advance(old(self)@),
    {
        let i = self.next_stage;
        if i < self.stages {
            if self.is_builtin_stage(i) {
                self.phase = Phase::PipeBuiltin;
                Action::RunBuiltin { stage: i }
            } else {
                self.phase = Phase::PipeLaunching;
                Action::Launch {
                    stage: i,
                    stdin_pipe: if i > 0 {
                        Some(i - 1)
                    } else {
                        None
                    },
                    stdout_pipe: if i + 1 < self.stages {
                        Some(i)
                    } else {
                        None
                    },
                    group_leader: if self.pids.len() > 0 {
                        Some(self.pids[0])
                    } else {
                        None
                    },
                }
            }
        } else {
            self.phase = Phase::PipesClosed;
            Action::ClosePipes
        }
    }

    fn after_stage(&self) -> (r: usize)
        ensures
            r == after_stage(self@),
    {
        if self.next_stage < self.stages {
            self.next_stage + 1
        } else {
            self.stages
        }
    }

    /// Takes the outcome of the last action and returns the next one.
    pub fn step(&mut self, ev: Event) -> (r: Action)
        ensures
            (final(self)@, r) == next(old(self)@, ev),
    {
        match self.phase {
            Phase::Start => {
                if self.mode == Mode::Pipeline {
                    if self.stages == 0 {
                        self.phase = Phase::Finished;
                        Action::Finish
                    } else {
                        self.phase = Phase::PipesOpened;
                        Action::OpenPipes(self.stages - 1)
                    }
                } else {
                    self.decide()
                }
            },
            Phase::Decide => self.decide(),
            Phase::Launching => match ev {
                Event::Launched(pid) => {
                    self.pids.push(pid);
                    if self.mode == Mode::Background {
                        self.phase = Phase::Finished;
                        Action::RegisterJob { stage: self.statuses.len(), pid }
                    } else {
                        self.phase = Phase::Foreground(pid);
                        Action::GrantForeground(pid)
                    }
                },
                _ => {
                    self.statuses.push(1);
                    self.decide()
                },
            },
            Phase::RunningBuiltin => {
                let code = match ev {
                    Event::Exited(c) => c,
                    _ => 1,
                };
                self.statuses.push(code);
                self.decide()
            },
            Phase::Foreground(pid) => {
                self.phase = Phase::Waiting(pid);
                self.waited.push(pid);
                Action::Wait(pid)
            },
            Phase::Waiting(_) => {
                let code = match ev {
                    Event::Exited(c) => c,
                    _ => 1,
                };
                self.phase = Phase::Decide;
                self.statuses.push(code);
                Action::RestoreForeground(self.shell_group)
            },
            Phase::PipesOpened => match ev {
                Event::OpenFailed => {
                    self.phase = Phase::Aborted;
                    Action::ClosePipes
                },
                _ => self.pipe_advance(),
            },
            Phase::PipeLaunching => match ev {
                Event::Launched(pid) => {
                    self.pids.push(pid);
                    self.next_stage = self.after_stage();
                    self.pipe_advance()
                },
                _ => {
                    self.phase = Phase::Aborted;
                    Action::ClosePipes
                },
            },
            Phase::PipeBuiltin => {
                self.next_stage = self.after_stage();
                self.pipe_advance()
            },
            Phase::PipesClosed => {
                if self.pids.len() > 0 {
                    self.phase = Phase::Reaping;
                    Action::GrantForeground(self.pids[0])
                } else {
                    self.phase = Phase::Finished;
                    Action::Finish
                }
            },
            Phase::Reaping => {
                if self.waited.len() < self.pids.len() {
                    let pid = self.pids[self.waited.len()];
                    self.waited.push(pid);
                    Action::Wait(pid)
                } else {
                    self.phase = Phase::Finished;
                    Action::RestoreForeground(self.shell_group)
                }
            },
            Phase::Aborted => {
                if self.pids.len() > 0 {
                    self.phase = Phase::AbortReaping;
                    Action::KillGroup(self.pids[0])
                } else {
                    self.phase = Phase::Finished;
                    Action::Finish
                }
            },
            Phase::AbortReaping => {
                if self.waited.len() < self.pids.len() {
                    let pid = self.pids[self.waited.len()];
                    self.waited.push(pid);
                    Action::Wait(pid)
                } else {
                    self.phase = Phase::Finished;
                    Action::Finish
                }
            },
            Phase::Finished => Action::Finish,
        }
    }
}

} // verus!
