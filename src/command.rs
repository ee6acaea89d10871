use vstd::prelude::*;
use vstd::string::*;

use crate::engine::{Engine, EngineView, Mode, Phase};

verus! {

/// What one input line asks the shell to do.
pub enum Command {
    SimpleCommand(SimpleCommand),
    CommandList(CommandList),
    NoCommand,
}

/// The empty command: nothing to run.
pub struct NoCommand {}

/// One program invocation.
///
/// `args` is the full argument vector handed to the program, its own name
/// first; `command` is the program that is looked up on the search path.
pub struct SimpleCommand {
    pub command: String,
    pub args: Vec<String>,
    pub background: bool,
}

/// Several invocations combined by one strategy.
pub struct CommandList {
    pub commands: Vec<SimpleCommand>,
    pub kind: CommandListType,
}

/// How the invocations of a `CommandList` are combined.
#[derive(PartialEq, Eq, Structural, Clone, Copy, Debug)]
pub enum CommandListType {
    /// Run in order while each one succeeds.
    AND,
    /// Run in order until one succeeds.
    OR,
    /// Run all at once, each one's output feeding the next one's input.
    PIPE,
}

/// A background job as the registry tracks it.
pub struct ProcessStatus {
    pub name: String,
    pub pid: i32,
    pub status: i32,
}

/// A command that the shell carries out itself, without a process.
pub enum Builtin {
    /// `cd` without an argument: go to the user's home directory.
    ChangeDirHome,
    /// `cd` with one argument: go to that directory.
    ChangeDir(String),
    /// `cd` with this many arguments, more than it takes.
    CdUsage(usize),
    /// `exit`: end the shell.
    Exit,
}

/// What carrying out a command takes.
pub enum Execution {
    /// Nothing at all.
    Nothing,
    /// A built-in command.
    Builtin(Builtin),
    /// Processes, as the engine's run decides.
    Run(Engine),
}

/// Carrying out a command, for a shell whose own process group is `shell_group`.
pub trait Execute {
    fn execute(&self, shell_group: i32) -> Execution;
}

/// The built-in that `cd` with the argument vector `args` (its own name
/// first) stands for.
pub open spec fn is_cd_of(b: Builtin, args: Seq<Seq<char>>) -> bool {
    if args.len() <= 1 {
        b is ChangeDirHome
    } else if args.len() == 2 {
        match b {
            Builtin::ChangeDir(p) => p@ == args[1],
            _ => false,
        }
    } else {
        b == Builtin::CdUsage((args.len() - 1) as usize)
    }
}

/// A run that has not begun, of one stage per entry of `builtins` (true for
/// a built-in stage), combined by `mode`.
pub open spec fn fresh_run(e: Engine, mode: Mode, builtins: Seq<bool>, shell_group: i32) -> bool {
    e@ == (EngineView {
        mode,
        stages: builtins.len(),
        builtins,
        shell_group,
        phase: Phase::Start,
        next_stage: 0,
        statuses: seq![],
        pids: seq![],
        waited: seq![],
    })
}

/// The strategy of a run of a list of this kind.
pub open spec fn mode_of(kind: CommandListType) -> Mode {
    match kind {
        CommandListType::AND => Mode::AllSucceed,
        CommandListType::OR => Mode::FirstSuccess,
        CommandListType::PIPE => Mode::Pipeline,
    }
}

/// Whether `c` is one of the commands that the shell carries out itself.
pub open spec fn is_builtin_command(c: SimpleCommand) -> bool {
    c.command@ == seq!['c', 'd'] || c.command@ == seq!['e', 'x', 'i', 't']
}

/// The built-in that `c` stands for, if any: `cd` as `is_cd_of` says, or `exit`.
pub open spec fn builtin_of(c: SimpleCommand, r: Option<Builtin>) -> bool {
    if c.command@ == seq!['c', 'd'] {
        match r {
            Some(b) => is_cd_of(b, c.args_view()),
            None => false,
        }
    } else if c.command@ == seq!['e', 'x', 'i', 't'] {
        r matches Some(Builtin::Exit)
    } else {
        r is None
    }
}

/// What carrying out `c` takes: `cd` and `exit` are built in, any other
/// invocation is a run of one stage, in the background when it asks for it.
pub open spec fn simple_execution(c: SimpleCommand, shell_group: i32, r: Execution) -> bool {
    if is_builtin_command(c) {
        match r {
            Execution::Builtin(b) => builtin_of(c, Some(b)),
            _ => false,
        }
    } else {
        match r {
            Execution::Run(e) => fresh_run(
                e,
                if c.background {
                    Mode::Background
                } else {
                    Mode::AllSucceed
                },
                seq![false],
                shell_group,
            ),
            _ => false,
        }
    }
}

/// What carrying out the list `c` takes: one run of all its commands, whose
/// built-in commands the shell carries out itself.
pub open spec fn list_execution(c: CommandList, shell_group: i32, r: Execution) -> bool {
    match r {
        Execution::Run(e) => fresh_run(
            e,
            mode_of(c.kind),
            c.commands@.map_values(|sc: SimpleCommand| is_builtin_command(sc)),
            shell_group,
        ),
        _ => false,
    }
}

fn same_text(a: &str, b: &str) -> (r: bool)
    ensures
        r == (a@ == b@),
{
    let n = a.unicode_len();
    if n != b.unicode_len() {
        return false;
    }
    let mut i: usize = 0;
    while i < n
        invariant
            n == a@.len(),
            n == b@.len(),
            i <= n,
            a@.subrange(0, i as int) == b@.subrange(0, i as int),
        decreases n - i,
    {
        if a.get_char(i) != b.get_char(i) {
            return false;
        }
        i = i + 1;
        assert(a@.subrange(0, i as int) =~= b@.subrange(0, i as int)) by {
            assert(a@.subrange(0, i - 1) == b@.subrange(0, i - 1));
            assert forall|k: int| 0 <= k < i implies a@.subrange(0, i as int)[k] == b@.subrange(
                0,
                i as int,
            )[k] by {
                if k < i - 1 {
                    assert(a@.subrange(0, i - 1)[k] == b@.subrange(0, i - 1)[k]);
                }
            }
        }
    }
    assert(a@ =~= a@.subrange(0, n as int));
    assert(b@ =~= b@.subrange(0, n as int));
    true
}

impl SimpleCommand {
    /// The argument vector as a sequence of character sequences.
    pub open spec fn args_view(&self) -> Seq<Seq<char>> {
        self.args@.map_values(|a: String| a@)
    }

    /// The built-in that `cd` with this argument vector stands for.
    pub fn cd_builtin(&self) -> (r: Builtin)
        ensures
            is_cd_of(r, self.args_view()),
    {
        let n = self.args.len();
        if n <= 1 {
            Builtin::ChangeDirHome
        } else if n == 2 {
            Builtin::ChangeDir(self.args[1].clone())
        } else {
            Builtin::CdUsage(n - 1)
        }
    }
}

impl SimpleCommand {
    /// The built-in command that this invocation stands for, if any.
    pub fn builtin(&self) -> (r: Option<Builtin>)
        ensures
            builtin_of(*self, r),
            r is Some <==> is_builtin_command(*self),
    {
        let cd: &str = "cd";
        let exit: &str = "exit";
        proof {
            reveal_strlit("cd");
            reveal_strlit("exit");
            assert(cd@ =~= seq!['c', 'd']);
            assert(exit@ =~= seq!['e', 'x', 'i', 't']);
        }
        if same_text(self.command.as_str(), cd) {
            Some(self.cd_builtin())
        } else if same_text(self.command.as_str(), exit) {
            Some(Builtin::Exit)
        } else {
            None
        }
    }
}

impl Execute for SimpleCommand {
    fn execute(&self, shell_group: i32) -> (r: Execution)
        ensures
            simple_execution(*self, shell_group, r),
    {
        match self.builtin() {
            Some(b) => Execution::Builtin(b),
            None => {
                let mode = if self.background {
                    Mode::Background
                } else {
                    Mode::AllSucceed
                };
                let one = vec![false];
                assert(one@ =~= seq![false]);
                Execution::Run(Engine::new(mode, one, shell_group))
            },
        }
    }
}

impl Execute for CommandList {
    fn execute(&self, shell_group: i32) -> (r: Execution)
        ensures
            list_execution(*self, shell_group, r),
    {
        let mode = match self.kind {
            CommandListType::AND => Mode::AllSucceed,
            CommandListType::OR => Mode::FirstSuccess,
            CommandListType::PIPE => Mode::Pipeline,
        };
        let mut builtins: Vec<bool> = Vec::new();
        let mut i: usize = 0;
        while i < self.commands.len()
            invariant
                i <= self.commands@.len(),
                builtins@ =~= self.commands@.subrange(0, i as int).map_values(
                    |sc: SimpleCommand| is_builtin_command(sc),
                ),
            decreases self.commands@.len() - i,
        {
            let b = self.commands[i].builtin();
            builtins.push(b.is_some());
            i = i + 1;
            assert(builtins@ =~= self.commands@.subrange(0, i as int).map_values(
                |sc: SimpleCommand| is_builtin_command(sc),
            ));
        }
        assert(self.commands@.subrange(0, i as int) =~= self.commands@);
        Execution::Run(Engine::new(mode, builtins, shell_group))
    }
}

impl Command {
    /// What carrying out this command takes.
    pub fn execute(&self, shell_group: i32) -> (r: Execution)
        ensures
            match self {
                Command::SimpleCommand(c) => simple_execution(*c, shell_group, r),
                Command::CommandList(c) => list_execution(*c, shell_group, r),
                Command::NoCommand => r is Nothing,
            },
    {
        match self {
            Command::CommandList(cmd) => cmd.execute(shell_group),
            Command::SimpleCommand(cmd) => cmd.execute(shell_group),
            Command::NoCommand => Execution::Nothing,
        }
    }
}

} // verus!
