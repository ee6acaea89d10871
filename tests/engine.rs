use bshell::{
    parse, Action, Builtin, Command, Engine, Event, Execute, Execution, JobRegistry, Mode, Phase,
    SimpleCommand,
};

fn launch(stage: usize, stdin_pipe: Option<usize>, stdout_pipe: Option<usize>, group_leader: Option<i32>) -> Action {
    Action::Launch { stage, stdin_pipe, stdout_pipe, group_leader }
}

fn run_of(line: &str, shell: i32) -> Engine {
    let mut s = String::from(line);
    match parse(&mut s).execute(shell) {
        Execution::Run(e) => e,
        _ => panic!("expected a run"),
    }
}

#[test]
fn single_foreground_restores_terminal() {
    let mut e = run_of("ls\n", 100);
    assert_eq!(e.mode, Mode::AllSucceed);
    assert_eq!(e.stages, 1);
    assert_eq!(e.step(Event::Completed), launch(0, None, None, None));
    assert_eq!(e.step(Event::Launched(7)), Action::GrantForeground(7));
    assert_eq!(e.step(Event::Completed), Action::Wait(7));
    assert_eq!(e.step(Event::Exited(0)), Action::RestoreForeground(100));
    assert_eq!(e.step(Event::Completed), Action::Finish);
    assert_eq!(e.phase, Phase::Finished);
    assert_eq!(e.statuses, vec![0]);
    assert_eq!(e.step(Event::Completed), Action::Finish);
}

#[test]
fn killed_foreground_counts_as_failure_and_still_restores() {
    let mut e = Engine::new(Mode::AllSucceed, vec![false; 2], 5);
    e.step(Event::Completed);
    e.step(Event::Launched(8));
    e.step(Event::Completed);
    assert_eq!(e.step(Event::Completed), Action::RestoreForeground(5));
    assert_eq!(e.statuses, vec![1]);
    assert_eq!(e.step(Event::Completed), Action::Finish);
}

#[test]
fn and_chain_stops_after_failing_command() {
    let mut e = run_of("a && b && c\n", 100);
    assert_eq!(e.stages, 3);
    assert_eq!(e.step(Event::Completed), launch(0, None, None, None));
    assert_eq!(e.step(Event::Launched(11)), Action::GrantForeground(11));
    assert_eq!(e.step(Event::Completed), Action::Wait(11));
    assert_eq!(e.step(Event::Exited(0)), Action::RestoreForeground(100));
    assert_eq!(e.step(Event::Completed), launch(1, None, None, None));
    assert_eq!(e.step(Event::Launched(12)), Action::GrantForeground(12));
    assert_eq!(e.step(Event::Completed), Action::Wait(12));
    assert_eq!(e.step(Event::Exited(2)), Action::RestoreForeground(100));
    assert_eq!(e.step(Event::Completed), Action::Finish);
    assert_eq!(e.statuses, vec![0, 2]);
}

#[test]
fn or_chain_stops_after_first_success() {
    let mut e = run_of("a || b || c\n", 100);
    assert_eq!(e.mode, Mode::FirstSuccess);
    assert_eq!(e.step(Event::Completed), launch(0, None, None, None));
    assert_eq!(e.step(Event::Launched(11)), Action::GrantForeground(11));
    assert_eq!(e.step(Event::Completed), Action::Wait(11));
    assert_eq!(e.step(Event::Exited(0)), Action::RestoreForeground(100));
    assert_eq!(e.step(Event::Completed), Action::Finish);
}

#[test]
fn or_chain_goes_on_after_launch_failure() {
    let mut e = Engine::new(Mode::FirstSuccess, vec![false; 2], 100);
    assert_eq!(e.step(Event::Completed), launch(0, None, None, None));
    assert_eq!(e.step(Event::LaunchFailed), launch(1, None, None, None));
    assert_eq!(e.statuses, vec![1]);
    let mut a = Engine::new(Mode::AllSucceed, vec![false; 2], 100);
    a.step(Event::Completed);
    assert_eq!(a.step(Event::LaunchFailed), Action::Finish);
}

#[test]
fn pipeline_wires_stages_closes_pipes_then_waits_all() {
    let mut e = run_of("a | b | c\n", 100);
    assert_eq!(e.mode, Mode::Pipeline);
    assert_eq!(e.step(Event::Completed), Action::OpenPipes(2));
    assert_eq!(e.step(Event::Completed), launch(0, None, Some(0), None));
    assert_eq!(e.step(Event::Launched(21)), launch(1, Some(0), Some(1), Some(21)));
    assert_eq!(e.step(Event::Launched(22)), launch(2, Some(1), None, Some(21)));
    assert_eq!(e.step(Event::Launched(23)), Action::ClosePipes);
    assert_eq!(e.step(Event::Completed), Action::GrantForeground(21));
    assert_eq!(e.step(Event::Completed), Action::Wait(21));
    assert_eq!(e.step(Event::Completed), Action::Wait(22));
    assert_eq!(e.step(Event::Completed), Action::Wait(23));
    assert_eq!(e.step(Event::Completed), Action::RestoreForeground(100));
    assert_eq!(e.step(Event::Completed), Action::Finish);
    assert_eq!(e.waited, e.pids);
}

#[test]
fn echo_into_cat_uses_one_pipe() {
    let mut e = run_of("echo hello | cat\n", 1);
    assert_eq!(e.step(Event::Completed), Action::OpenPipes(1));
    assert_eq!(e.step(Event::Completed), launch(0, None, Some(0), None));
    assert_eq!(e.step(Event::Launched(2)), launch(1, Some(0), None, Some(2)));
    assert_eq!(e.step(Event::Launched(3)), Action::ClosePipes);
}

#[test]
fn pipeline_creation_failure_kills_and_reaps_launched_stages() {
    let mut e = Engine::new(Mode::Pipeline, vec![false; 3], 100);
    e.step(Event::Completed);
    e.step(Event::Completed);
    e.step(Event::Launched(21));
    assert_eq!(e.step(Event::LaunchFailed), Action::ClosePipes);
    assert_eq!(e.step(Event::Completed), Action::KillGroup(21));
    assert_eq!(e.step(Event::Completed), Action::Wait(21));
    assert_eq!(e.step(Event::Completed), Action::Finish);
}

#[test]
fn empty_pipeline_finishes_at_once() {
    let mut e = Engine::new(Mode::Pipeline, Vec::new(), 100);
    assert_eq!(e.step(Event::Completed), Action::Finish);
}

#[test]
fn background_command_is_registered_not_waited() {
    let mut e = run_of("sleep &\n", 100);
    assert_eq!(e.mode, Mode::Background);
    assert_eq!(e.step(Event::Completed), launch(0, None, None, None));
    assert_eq!(e.step(Event::Launched(30)), Action::RegisterJob { stage: 0, pid: 30 });
    assert_eq!(e.step(Event::Completed), Action::Finish);
}

#[test]
fn job_leaves_registry_once_exited() {
    let mut jobs = JobRegistry::new();
    jobs.register(String::from("sleep"), 30);
    jobs.register(String::from("yes"), 31);
    assert!(jobs.tracks(30));
    jobs.reap(30, false);
    assert!(jobs.tracks(30));
    jobs.reap(30, true);
    assert!(!jobs.tracks(30));
    assert!(jobs.tracks(31));
    assert_eq!(jobs.jobs.len(), 1);
    assert_eq!(jobs.jobs[0].name, "yes");
    jobs.reap(99, true);
    assert_eq!(jobs.jobs.len(), 1);
}

fn simple(args: &[&str]) -> SimpleCommand {
    SimpleCommand {
        command: args[0].to_string(),
        args: args.iter().map(|a| a.to_string()).collect(),
        background: false,
    }
}

#[test]
fn cd_without_argument_goes_home() {
    assert!(matches!(simple(&["cd"]).execute(1), Execution::Builtin(Builtin::ChangeDirHome)));
}

#[test]
fn cd_with_two_arguments_is_a_usage_error() {
    assert!(matches!(simple(&["cd", "a", "b"]).execute(1), Execution::Builtin(Builtin::CdUsage(2))));
}

#[test]
fn cd_with_one_argument_changes_to_it() {
    match simple(&["cd", "/nonexistent"]).execute(1) {
        Execution::Builtin(Builtin::ChangeDir(p)) => assert_eq!(p, "/nonexistent"),
        _ => panic!("expected cd"),
    }
}

#[test]
fn exit_is_built_in_and_no_command_does_nothing() {
    assert!(matches!(simple(&["exit"]).execute(1), Execution::Builtin(Builtin::Exit)));
    assert!(matches!(Command::NoCommand.execute(1), Execution::Nothing));
    assert!(matches!(simple(&["cdx"]).execute(1), Execution::Run(_)));
}

#[test]
fn builtin_in_and_chain_runs_in_the_shell() {
    let mut e = run_of("cd && ls\n", 100);
    assert_eq!(e.builtins, vec![true, false]);
    assert_eq!(e.step(Event::Completed), Action::RunBuiltin { stage: 0 });
    assert_eq!(e.step(Event::Exited(0)), launch(1, None, None, None));
    let mut f = run_of("cd && ls\n", 100);
    f.step(Event::Completed);
    assert_eq!(f.step(Event::Exited(1)), Action::Finish);
    assert_eq!(f.statuses, vec![1]);
}

#[test]
fn builtin_in_pipeline_is_not_launched() {
    let mut e = run_of("cd | cat\n", 100);
    assert_eq!(e.step(Event::Completed), Action::OpenPipes(1));
    assert_eq!(e.step(Event::Completed), Action::RunBuiltin { stage: 0 });
    assert_eq!(e.step(Event::Exited(0)), launch(1, Some(0), None, None));
    assert_eq!(e.step(Event::Launched(40)), Action::ClosePipes);
    assert_eq!(e.step(Event::Completed), Action::GrantForeground(40));
    assert_eq!(e.step(Event::Completed), Action::Wait(40));
    assert_eq!(e.step(Event::Completed), Action::RestoreForeground(100));
    assert_eq!(e.step(Event::Completed), Action::Finish);
}

#[test]
fn failed_pipe_opening_launches_nothing() {
    let mut e = Engine::new(Mode::Pipeline, vec![false; 2], 100);
    assert_eq!(e.step(Event::Completed), Action::OpenPipes(1));
    assert_eq!(e.step(Event::OpenFailed), Action::ClosePipes);
    assert_eq!(e.step(Event::Completed), Action::Finish);
    assert!(e.pids.is_empty());
}
