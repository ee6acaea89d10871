use vstd::prelude::*;

use crate::command::ProcessStatus;

verus! {

/// `jobs` without the entries of process `pid`, the others kept in order.
pub open spec fn without(jobs: Seq<ProcessStatus>, pid: i32) -> Seq<ProcessStatus>
    decreases jobs.len(),
{
    if jobs.len() == 0 {
        seq![]
    } else if jobs[0].pid == pid {
        without(jobs.drop_first(), pid)
    } else {
        seq![jobs[0]] + without(jobs.drop_first(), pid)
    }
}

/// The process ids of `jobs`, in order.
pub open spec fn pids_of(jobs: Seq<ProcessStatus>) -> Seq<i32> {
    jobs.map_values(|j: ProcessStatus| j.pid)
}

/// The background jobs that the shell tracks. Entries are added when a
/// background process starts and removed once it has exited.
pub struct JobRegistry {
    pub jobs: Vec<ProcessStatus>,
}

impl JobRegistry {
    /// An empty registry.
    pub fn new() -> (r: JobRegistry)
        ensures
            r.jobs@.len() == 0,
    {
        JobRegistry { jobs: Vec::new() }
    }

    /// Records the background process `pid`, started for the program `name`.
    pub fn register(&mut self, name: String, pid: i32)
        ensures
            final(self).jobs@ == old(self).jobs@.push(ProcessStatus { name, pid, status: 0 }),
    {
        self.jobs.push(ProcessStatus { name, pid, status: 0 });
    }

    /// Whether process `pid` is a tracked job.
    pub fn tracks(&self, pid: i32) -> (r: bool)
        ensures
            r == pids_of(self.jobs@).contains(pid),
    {
        let mut i: usize = 0;
        while i < self.jobs.len()
            invariant
                i <= self.jobs@.len(),
                forall|k: int| 0 <= k < i ==> (#[trigger] self.jobs@[k]).pid != pid,
            decreases self.jobs@.len() - i,
        {
            if self.jobs[i].pid == pid {
                assert(pids_of(self.jobs@)[i as int] == pid);
                return true;
            }
            i = i + 1;
        }
        assert forall|k: int| 0 <= k < pids_of(self.jobs@).len() implies pids_of(self.jobs@)[k]
            != pid by {
            assert(self.jobs@[k].pid != pid);
        }
        false
    }

    /// Handles a notification about process `pid`: its entries leave the
    /// registry when it has `exited`, and stay when it only stopped or
    /// resumed.
    pub fn reap(&mut self, pid: i32, exited: bool)
        ensures
            exited ==> final(self).jobs@ == without(old(self).jobs@, pid),
            !exited ==> final(self).jobs@ == old(self).jobs@,
    {
        if !exited {
            return;
        }
        let ghost orig = self.jobs@;
        let mut i: usize = 0;
        assert(self.jobs@.subrange(0, 0) + without(self.jobs@.subrange(0, self.jobs@.len() as int), pid)
            =~= without(orig, pid)) by {
            assert(self.jobs@.subrange(0, self.jobs@.len() as int) =~= orig);
        }
        while i < self.jobs.len()
            invariant
                i <= self.jobs@.len(),
                without(orig, pid) == self.jobs@.subrange(0, i as int) + without(
                    self.jobs@.subrange(i as int, self.jobs@.len() as int),
                    pid,
                ),
            decreases self.jobs@.len() - i,
        {
            let ghost before = self.jobs@;
            let ghost rest = before.subrange(i as int, before.len() as int);
            assert(rest.drop_first() =~= before.subrange(i + 1, before.len() as int));
            if self.jobs[i].pid == pid {
                self.jobs.remove(i);
                assert(self.jobs@.subrange(0, i as int) =~= before.subrange(0, i as int));
                assert(self.jobs@.subrange(i as int, self.jobs@.len() as int) =~= before.subrange(
                    i + 1,
                    before.len() as int,
                ));
            } else {
                assert(before.subrange(0, i + 1) =~= before.subrange(0, i as int) + seq![before[i as int]]);
                i = i + 1;
            }
        }
        assert(self.jobs@.subrange(0, i as int) =~= self.jobs@);
        assert(self.jobs@.subrange(i as int, self.jobs@.len() as int) =~= seq![]);
        assert(without(orig, pid) =~= self.jobs@);
    }
}

/// Once a process has exited and its notification was handled, the registry
/// holds no entry of it, and every other job is kept, in order.
pub proof fn reaped_job_is_gone(jobs: Seq<ProcessStatus>, pid: i32)
    ensures
        !pids_of(without(jobs, pid)).contains(pid),
        forall|k: int| 0 <= k < jobs.len() && jobs[k].pid != pid ==> without(jobs, pid).contains(
            #[trigger] jobs[k],
        ),
    decreases jobs.len(),
{
    if jobs.len() > 0 {
        reaped_job_is_gone(jobs.drop_first(), pid);
        let w = without(jobs.drop_first(), pid);
        assert forall|k: int| 0 <= k < jobs.len() && jobs[k].pid != pid implies without(
            jobs,
            pid,
        ).contains(#[trigger] jobs[k]) by {
            if k > 0 {
                assert(jobs.drop_first()[k - 1] == jobs[k]);
                let i = choose|i: int| 0 <= i < w.len() && w[i] == jobs[k];
                if jobs[0].pid != pid {
                    assert(without(jobs, pid)[i + 1] == jobs[k]);
                }
            } else {
                assert(without(jobs, pid)[0] == jobs[0]);
            }
        }
        assert forall|k: int| 0 <= k < without(jobs, pid).len() implies #[trigger] without(
            jobs,
            pid,
        )[k].pid != pid by {
            if jobs[0].pid != pid && k > 0 {
                assert(without(jobs, pid)[k] == w[k - 1]);
                assert(pids_of(w)[k - 1] == w[k - 1].pid);
            } else if jobs[0].pid == pid {
                assert(pids_of(w)[k] == w[k].pid);
            }
        }
        assert(!pids_of(without(jobs, pid)).contains(pid)) by {
            if pids_of(without(jobs, pid)).contains(pid) {
                let k = choose|k: int|
                    0 <= k < pids_of(without(jobs, pid)).len() && pids_of(without(jobs, pid))[k] == pid;
                assert(without(jobs, pid)[k].pid != pid);
            }
        }
    }
}

} // verus!
