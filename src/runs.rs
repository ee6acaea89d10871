use vstd::prelude::*;

use crate::engine::{Action, EngineView, Event, Mode, Phase, next};

verus! {

/// The process group that owns the terminal while the engine is in state `m`.
pub open spec fn owner(m: EngineView) -> i32 {
    match m.phase {
        Phase::Foreground(p) => p,
        Phase::Waiting(p) => p,
        Phase::Reaping => if m.pids.len() > 0 {
            m.pids[0]
        } else {
            m.shell_group
        },
        _ => m.shell_group,
    }
}

/// The owner of the terminal once `a` is performed, when `o` owned it before.
pub open spec fn owner_after(o: i32, a: Action) -> i32 {
    match a {
        Action::GrantForeground(g) => g,
        Action::RestoreForeground(g) => g,
        _ => o,
    }
}

/// The owner of the terminal once all of `acts` are performed, in order.
pub open spec fn owner_through(o: i32, acts: Seq<Action>) -> i32
    decreases acts.len(),
{
    if acts.len() == 0 {
        o
    } else {
        owner_after(owner_through(o, acts.drop_last()), acts.last())
    }
}

/// The state reached from `m` on the events `evs`, and the actions asked on the way.
pub open spec fn run(m: EngineView, evs: Seq<Event>) -> (EngineView, Seq<Action>)
    decreases evs.len(),
{
    if evs.len() == 0 {
        (m, seq![])
    } else {
        let (m1, acts) = run(m, evs.drop_last());
        let (m2, a) = next(m1, evs.last());
        (m2, acts.push(a))
    }
}

/// A run that has not begun.
pub open spec fn fresh(m: EngineView) -> bool {
    &&& m.phase == Phase::Start
    &&& m.statuses.len() == 0
    &&& m.pids.len() == 0
    &&& m.waited.len() == 0
}

/// What holds of every state that a run reaches.
pub open spec fn reachable_shape(m: EngineView) -> bool {
    &&& m.stages <= usize::MAX
    &&& m.waited.len() <= m.pids.len()
    &&& m.waited == m.pids.subrange(0, m.waited.len() as int)
    &&& match m.mode {
        Mode::Pipeline => match m.phase {
            Phase::Decide | Phase::Launching | Phase::RunningBuiltin | Phase::Foreground(_)
            | Phase::Waiting(_) => false,
            Phase::Start => m.pids.len() == 0,
            Phase::Finished => m.waited == m.pids,
            _ => true,
        },
        Mode::Background => match m.phase {
            Phase::Start | Phase::Decide | Phase::Launching | Phase::RunningBuiltin => m.pids
                == m.waited,
            Phase::Finished => true,
            _ => false,
        },
        _ => match m.phase {
            Phase::PipesOpened | Phase::PipeLaunching | Phase::PipeBuiltin | Phase::PipesClosed
            | Phase::Reaping | Phase::Aborted | Phase::AbortReaping => false,
            Phase::Foreground(p) => m.pids == m.waited.push(p),
            Phase::Finished => true,
            _ => m.pids == m.waited,
        },
    }
}

/// The parent has closed the pipe ends, or is past doing so.
pub open spec fn pipes_released(p: Phase) -> bool {
    match p {
        Phase::PipesClosed | Phase::Reaping | Phase::Aborted | Phase::AbortReaping => true,
        _ => false,
    }
}

/// The stage that `a` starts, as a process or as a built-in, if any.
pub open spec fn started_stage(a: Action) -> Option<usize> {
    match a {
        Action::Launch { stage, .. } => Some(stage),
        Action::RunBuiltin { stage } => Some(stage),
        _ => None,
    }
}

/// A sequential run may start a stage only after earlier ones allow it.
pub open spec fn launch_allowed(mode: Mode, statuses: Seq<i32>, a: Action) -> bool {
    match started_stage(a) {
        Some(stage) => stage <= statuses.len() && crate::engine::may_continue(
            mode,
            statuses.subrange(0, stage as int),
        ),
        None => true,
    }
}

proof fn lemma_step(m: EngineView, ev: Event)
    requires
        reachable_shape(m),
    ensures
        reachable_shape(next(m, ev).0),
        next(m, ev).0.mode == m.mode,
        next(m, ev).0.shell_group == m.shell_group,
        owner(next(m, ev).0) == owner_after(owner(m), next(m, ev).1),
        next(m, ev).1 == Action::Finish ==> next(m, ev).0.phase == Phase::Finished,
        m.statuses.len() <= next(m, ev).0.statuses.len(),
        next(m, ev).0.statuses.subrange(0, m.statuses.len() as int) == m.statuses,
        m.mode != Mode::Pipeline && started_stage(next(m, ev).1) is Some ==> started_stage(
            next(m, ev).1,
        )->0 == next(m, ev).0.statuses.len() && crate::engine::may_continue(
            m.mode,
            next(m, ev).0.statuses,
        ),
        m.mode == Mode::Pipeline && next(m, ev).1 is Wait ==> pipes_released(m.phase),
        m.mode == Mode::Pipeline && pipes_released(next(m, ev).0.phase) ==> pipes_released(m.phase)
            || next(m, ev).1 == Action::ClosePipes,
        m.mode == Mode::Background ==> !(next(m, ev).1 is GrantForeground) && !(next(
            m,
            ev,
        ).1 is Wait),
{
    let (m2, a) = next(m, ev);
    assert(m2.statuses.subrange(0, m.statuses.len() as int) =~= m.statuses);
    assert(m2.waited =~= m2.pids.subrange(0, m2.waited.len() as int));
    if m.mode == Mode::Pipeline && m2.phase == Phase::Finished {
        assert(m2.waited =~= m2.pids);
    }
}

proof fn lemma_run(m: EngineView, evs: Seq<Event>)
    requires
        reachable_shape(m),
    ensures
        reachable_shape(run(m, evs).0),
        run(m, evs).0.mode == m.mode,
        run(m, evs).0.shell_group == m.shell_group,
        run(m, evs).1.len() == evs.len(),
        owner(run(m, evs).0) == owner_through(owner(m), run(m, evs).1),
        run(m, evs).1.len() > 0 && run(m, evs).1.last() == Action::Finish ==> run(
            m,
            evs,
        ).0.phase == Phase::Finished,
        m.statuses.len() <= run(m, evs).0.statuses.len(),
        run(m, evs).0.statuses.subrange(0, m.statuses.len() as int) == m.statuses,
        m.mode != Mode::Pipeline ==> forall|k: int|
            0 <= k < run(m, evs).1.len() ==> launch_allowed(
                m.mode,
                run(m, evs).0.statuses,
                #[trigger] run(m, evs).1[k],
            ),
        m.mode == Mode::Pipeline ==> forall|k: int|
            0 <= k < run(m, evs).1.len() && (#[trigger] run(m, evs).1[k]) is Wait ==> pipes_released(
                m.phase,
            ) || exists|k2: int| 0 <= k2 < k && run(m, evs).1[k2] == Action::ClosePipes,
        m.mode == Mode::Pipeline && pipes_released(run(m, evs).0.phase) ==> pipes_released(m.phase)
            || exists|k2: int| 0 <= k2 < run(m, evs).1.len() && run(m, evs).1[k2] == Action::ClosePipes,
        m.mode == Mode::Background ==> forall|k: int|
            0 <= k < run(m, evs).1.len() ==> !(#[trigger] run(m, evs).1[k] is GrantForeground) && !(run(
                m,
                evs,
            ).1[k] is Wait),
    decreases evs.len(),
{
    if evs.len() > 0 {
        let (m1, acts1) = run(m, evs.drop_last());
        lemma_run(m, evs.drop_last());
        lemma_step(m1, evs.last());
        let (m2, a) = next(m1, evs.last());
        let acts = acts1.push(a);
        assert(run(m, evs) == (m2, acts));
        assert(acts.drop_last() =~= acts1);
        assert(m2.statuses.subrange(0, m.statuses.len() as int) =~= m.statuses) by {
            assert(m2.statuses.subrange(0, m.statuses.len() as int) =~= m2.statuses.subrange(
                0,
                m1.statuses.len() as int,
            ).subrange(0, m.statuses.len() as int));
        }
        if m.mode != Mode::Pipeline {
            assert forall|k: int| 0 <= k < acts.len() implies launch_allowed(
                m.mode,
                m2.statuses,
                #[trigger] acts[k],
            ) by {
                if k < acts1.len() {
                    assert(acts[k] == acts1[k]);
                    assert(launch_allowed(m.mode, m1.statuses, acts1[k]));
                    match started_stage(acts1[k]) {
                        Some(stage) => {
                            assert(m2.statuses.subrange(0, stage as int) =~= m1.statuses.subrange(
                                0,
                                stage as int,
                            )) by {
                                assert(m2.statuses.subrange(0, stage as int) =~= m2.statuses.subrange(
                                    0,
                                    m1.statuses.len() as int,
                                ).subrange(0, stage as int));
                            }
                        },
                        _ => {},
                    }
                } else {
                    assert(acts[k] == a);
                    assert(m2.statuses.subrange(0, m2.statuses.len() as int) =~= m2.statuses);
                }
            }
        }
        if m.mode == Mode::Pipeline {
            assert forall|k: int| 0 <= k < acts.len() && (#[trigger] acts[k]) is Wait implies pipes_released(
                m.phase,
            ) || exists|k2: int| 0 <= k2 < k && acts[k2] == Action::ClosePipes by {
                if k < acts1.len() {
                    assert(acts[k] == acts1[k]);
                    if !pipes_released(m.phase) {
                        let k2 = choose|k2: int| 0 <= k2 < k && acts1[k2] == Action::ClosePipes;
                        assert(acts[k2] == acts1[k2]);
                    }
                } else {
                    if !pipes_released(m.phase) {
                        let k2 = choose|k2: int|
                            0 <= k2 < acts1.len() && acts1[k2] == Action::ClosePipes;
                        assert(acts[k2] == acts1[k2]);
                    }
                }
            }
            if pipes_released(m2.phase) && !pipes_released(m.phase) {
                if pipes_released(m1.phase) {
                    let k2 = choose|k2: int| 0 <= k2 < acts1.len() && acts1[k2] == Action::ClosePipes;
                    assert(acts[k2] == acts1[k2]);
                } else {
                    assert(acts[acts1.len() as int] == Action::ClosePipes);
                }
            }
        }
        if m.mode == Mode::Background {
            assert forall|k: int| 0 <= k < acts.len() implies !(#[trigger] acts[k] is GrantForeground)
                && !(acts[k] is Wait) by {
                if k < acts1.len() {
                    assert(acts[k] == acts1[k]);
                }
            }
        }
    } else {
        assert(m.statuses.subrange(0, m.statuses.len() as int) =~= m.statuses);
    }
}

proof fn lemma_fresh_shape(m: EngineView)
    requires
        fresh(m),
        m.stages <= usize::MAX,
    ensures
        reachable_shape(m),
{
    assert(m.pids =~= m.waited);
    assert(m.waited =~= m.pids.subrange(0, 0));
}

/// Whatever the outcomes reported, once a run has finished, the terminal
/// belongs again to the shell's own process group: every grant of the
/// terminal is followed by its restoration.
pub proof fn foreground_returns_to_shell(m: EngineView, evs: Seq<Event>)
    requires
        fresh(m),
        m.stages <= usize::MAX,
    ensures
        run(m, evs).1.len() > 0 && run(m, evs).1.last() == Action::Finish ==> owner_through(
            m.shell_group,
            run(m, evs).1,
        ) == m.shell_group,
{
    lemma_fresh_shape(m);
    lemma_run(m, evs);
}

/// In a chain whose commands must all succeed, no command after one that
/// failed is ever started, as a process or as a built-in.
pub proof fn and_chain_stops_at_failure(m: EngineView, evs: Seq<Event>, j: int)
    requires
        fresh(m),
        m.stages <= usize::MAX,
        m.mode == Mode::AllSucceed,
        0 <= j < run(m, evs).0.statuses.len(),
        run(m, evs).0.statuses[j] != 0,
    ensures
        forall|k: int|
            0 <= k < run(m, evs).1.len() && started_stage(#[trigger] run(m, evs).1[k]) is Some
                ==> started_stage(run(m, evs).1[k])->0 <= j,
{
    lemma_fresh_shape(m);
    lemma_run(m, evs);
    let (f, acts) = run(m, evs);
    assert forall|k: int| 0 <= k < acts.len() && started_stage(#[trigger] acts[k]) is Some implies started_stage(
        acts[k],
    )->0 <= j by {
        assert(launch_allowed(m.mode, f.statuses, acts[k]));
        let stage = started_stage(acts[k])->0;
        if stage > j {
            assert(f.statuses.subrange(0, stage as int)[j] == f.statuses[j]);
        }
    }
}

/// In a chain that stops at the first success, no command after one that
/// succeeded is ever started, as a process or as a built-in.
pub proof fn or_chain_stops_at_success(m: EngineView, evs: Seq<Event>, j: int)
    requires
        fresh(m),
        m.stages <= usize::MAX,
        m.mode == Mode::FirstSuccess,
        0 <= j < run(m, evs).0.statuses.len(),
        run(m, evs).0.statuses[j] == 0,
    ensures
        forall|k: int|
            0 <= k < run(m, evs).1.len() && started_stage(#[trigger] run(m, evs).1[k]) is Some
                ==> started_stage(run(m, evs).1[k])->0 <= j,
{
    lemma_fresh_shape(m);
    lemma_run(m, evs);
    let (f, acts) = run(m, evs);
    assert forall|k: int| 0 <= k < acts.len() && started_stage(#[trigger] acts[k]) is Some implies started_stage(
        acts[k],
    )->0 <= j by {
        assert(launch_allowed(m.mode, f.statuses, acts[k]));
        let stage = started_stage(acts[k])->0;
        if stage > j {
            assert(f.statuses.subrange(0, stage as int)[j] == f.statuses[j]);
        }
    }
}

/// A pipeline waits for a stage only after the parent closed its copies of
/// every pipe end, and when it finishes it has waited for every stage it
/// launched, once each, in launch order.
pub proof fn pipeline_closes_then_reaps_all(m: EngineView, evs: Seq<Event>)
    requires
        fresh(m),
        m.stages <= usize::MAX,
        m.mode == Mode::Pipeline,
    ensures
        forall|k: int|
            0 <= k < run(m, evs).1.len() && (#[trigger] run(m, evs).1[k]) is Wait ==> exists|k2: int|
                0 <= k2 < k && run(m, evs).1[k2] == Action::ClosePipes,
        run(m, evs).1.len() > 0 && run(m, evs).1.last() == Action::Finish ==> run(m, evs).0.waited
            == run(m, evs).0.pids,
{
    lemma_fresh_shape(m);
    lemma_run(m, evs);
}

/// A background run never takes the terminal and never waits for its process.
pub proof fn background_never_waits(m: EngineView, evs: Seq<Event>)
    requires
        fresh(m),
        m.stages <= usize::MAX,
        m.mode == Mode::Background,
    ensures
        forall|k: int|
            0 <= k < run(m, evs).1.len() ==> !(#[trigger] run(m, evs).1[k] is GrantForeground) && !(run(
                m,
                evs,
            ).1[k] is Wait),
{
    lemma_fresh_shape(m);
    lemma_run(m, evs);
}

} // verus!
