//! The download queue: tasks wait in order, and a task id that is waiting or
//! running is not accepted again, so that one task never runs in two
//! downloader processes at once.

use vstd::prelude::*;
use std::collections::VecDeque;
use crate::download::DownloadTask;
use crate::text::{chars_of, same};

verus! {

/// Mathematical value of a task.
pub struct TaskView {
    pub id: Seq<char>,
    pub url: Seq<char>,
    pub save_path: Seq<char>,
    pub filename: Option<Seq<char>>,
}

pub open spec fn task_view(t: DownloadTask) -> TaskView {
    TaskView {
        id: t.id@,
        url: t.url@,
        save_path: t.save_path@,
        filename: match t.filename {
            Some(f) => Some(f@),
            None => None,
        },
    }
}

pub open spec fn task_views(v: Seq<DownloadTask>) -> Seq<TaskView> {
    v.map_values(|t: DownloadTask| task_view(t))
}

/// Waiting tasks in order, and the ids of the tasks that are waiting or
/// running.
pub struct DownloadQueue {
    tasks: VecDeque<DownloadTask>,
    enqueued: Vec<String>,
}

impl DownloadQueue {
    /// The waiting tasks, first to run first.
    pub closed spec fn waiting(&self) -> Seq<TaskView> {
        task_views(self.tasks@)
    }

    /// The ids of the tasks waiting or running.
    pub closed spec fn active_ids(&self) -> Set<Seq<char>> {
        self.enqueued@.map_values(|s: String| s@).to_set()
    }

    /// No id is recorded twice.
    pub closed spec fn wf(&self) -> bool {
        forall|i: int, j: int|
            0 <= i < j < self.enqueued@.len() ==> (#[trigger] self.enqueued@[i])@
                != (#[trigger] self.enqueued@[j])@
    }

    pub fn new() -> (q: Self)
        ensures
            q.wf(),
            q.waiting() == Seq::<TaskView>::empty(),
            q.active_ids() == Set::<Seq<char>>::empty(),
    {
        let q = DownloadQueue { tasks: VecDeque::new(), enqueued: Vec::new() };
        assert(q.enqueued@.map_values(|s: String| s@) =~= Seq::<Seq<char>>::empty());
        assert(q.active_ids() =~= Set::<Seq<char>>::empty());
        assert(q.waiting() =~= Seq::<TaskView>::empty());
        q
    }

    fn position_of(&self, id: &str) -> (r: Option<usize>)
        ensures
            match r {
                Some(i) => i < self.enqueued@.len() && self.enqueued@[i as int]@ == id@,
                None => forall|k: int| 0 <= k < self.enqueued@.len() ==> self.enqueued@[k]@ != id@,
            },
    {
        let want = chars_of(id);
        let mut i: usize = 0;
        while i < self.enqueued.len()
            invariant
                i <= self.enqueued.len(),
                want@ == id@,
                forall|k: int| 0 <= k < i ==> self.enqueued@[k]@ != id@,
            decreases self.enqueued.len() - i,
        {
            let e = chars_of(self.enqueued[i].as_str());
            if same(&e, &want) {
                return Some(i);
            }
            i += 1;
        }
        None
    }

    proof fn lemma_active(&self, id: Seq<char>)
        ensures
            self.active_ids().contains(id) <==> exists|k: int|
                0 <= k < self.enqueued@.len() && self.enqueued@[k]@ == id,
    {
        let m = self.enqueued@.map_values(|s: String| s@);
        if self.active_ids().contains(id) {
            assert(m.contains(id));
            let k = choose|k: int| 0 <= k < m.len() && m[k] == id;
            assert(self.enqueued@[k]@ == id);
        }
        if exists|k: int| 0 <= k < self.enqueued@.len() && self.enqueued@[k]@ == id {
            let k = choose|k: int| 0 <= k < self.enqueued@.len() && self.enqueued@[k]@ == id;
            assert(m[k] == id);
        }
    }

    /// Is a task with this id waiting or running?
    pub fn is_active(&self, id: &str) -> (r: bool)
        ensures
            r == self.active_ids().contains(id@),
    {
        proof {
            self.lemma_active(id@);
        }
        self.position_of(id).is_some()
    }

    /// Queues a task unless a task with its id is waiting or running; says
    /// whether it was queued.
    pub fn add_task(&mut self, task: DownloadTask) -> (r: bool)
        requires
            old(self).wf(),
        ensures
            final(self).wf(),
            r == !old(self).active_ids().contains(task.id@),
            final(self).active_ids().contains(task.id@),
            r ==> final(self).waiting() == old(self).waiting().push(task_view(task))
                && final(self).active_ids() == old(self).active_ids().insert(task.id@),
            !r ==> final(self).waiting() == old(self).waiting() && final(self).active_ids()
                == old(self).active_ids(),
    {
        proof {
            old(self).lemma_active(task.id@);
        }
        if self.position_of(task.id.as_str()).is_some() {
            return false;
        }
        let ghost e0 = self.enqueued@;
        let ghost t0 = self.tasks@;
        self.enqueued.push(task.id.clone());
        assert(self.enqueued@.map_values(|s: String| s@) =~= e0.map_values(|s: String| s@).push(
            task.id@,
        ));
        proof {
            let m0 = e0.map_values(|s: String| s@);
            let m1 = self.enqueued@.map_values(|s: String| s@);
            assert forall|x: Seq<char>| m1.to_set().contains(x) <==> m0.to_set().insert(
                task.id@,
            ).contains(x) by {
                if m1.contains(x) {
                    let k = choose|k: int| 0 <= k < m1.len() && m1[k] == x;
                    if k < m0.len() {
                        assert(m0[k] == x);
                    }
                }
                if m0.contains(x) {
                    let k = choose|k: int| 0 <= k < m0.len() && m0[k] == x;
                    assert(m1[k] == x);
                }
                if x == task.id@ {
                    assert(m1[m0.len() as int] == x);
                }
            }
            assert(self.active_ids() =~= m0.to_set().insert(task.id@));
        }
        self.tasks.push_back(task);
        assert(task_views(self.tasks@) =~= task_views(t0).push(task_view(task)));
        true
    }

    /// Takes the next waiting task to run; its id stays active until it
    /// finishes or is stopped.
    pub fn pop_next(&mut self) -> (r: Option<DownloadTask>)
        requires
            old(self).wf(),
        ensures
            final(self).wf(),
            final(self).active_ids() == old(self).active_ids(),
            old(self).waiting().len() == 0 ==> r is None && final(self).waiting() == old(
                self,
            ).waiting(),
            old(self).waiting().len() > 0 ==> (r matches Some(t) && task_view(t) == old(
                self,
            ).waiting()[0]) && final(self).waiting() == old(self).waiting().drop_first(),
    {
        let ghost t0 = self.tasks@;
        let t = self.tasks.pop_front();
        if t.is_some() {
            assert(task_views(self.tasks@) =~= task_views(t0).drop_first());
        }
        t
    }

    /// Forgets the id of a task that finished, so that it can be queued again.
    pub fn finish(&mut self, id: &str)
        requires
            old(self).wf(),
        ensures
            final(self).wf(),
            final(self).waiting() == old(self).waiting(),
            final(self).active_ids() == old(self).active_ids().remove(id@),
    {
        match self.position_of(id) {
            None => {
                proof {
                    self.lemma_active(id@);
                }
                assert(self.active_ids() =~= self.active_ids().remove(id@));
            },
            Some(i) => {
                let ghost e0 = self.enqueued@;
                self.enqueued.remove(i);
                proof {
                    let m0 = e0.map_values(|s: String| s@);
                    let m1 = self.enqueued@.map_values(|s: String| s@);
                    assert(m1 =~= m0.remove(i as int));
                    assert forall|x: Seq<char>| m1.to_set().contains(x) <==> m0.to_set().remove(id@).contains(x) by {
                        if m1.to_set().contains(x) {
                            assert(m1.contains(x));
                            let k = choose|k: int| 0 <= k < m1.len() && m1[k] == x;
                            if k < i {
                                assert(m1[k] == m0[k]);
                                assert(m0[k] != m0[i as int]);
                            } else {
                                assert(m1[k] == m0[k + 1]);
                                assert(m0[k + 1] != m0[i as int]);
                            }
                            assert(m0.contains(x));
                        }
                        if m0.to_set().remove(id@).contains(x) {
                            assert(m0.contains(x));
                            let k = choose|k: int| 0 <= k < m0.len() && m0[k] == x;
                            assert(k != i);
                            if k < i {
                                assert(m1[k] == x);
                            } else {
                                assert(m1[k - 1] == x);
                            }
                            assert(m1.contains(x));
                        }
                    }
                    assert(self.active_ids() =~= m0.to_set().remove(id@));
                }
            },
        }
    }

    /// Stops a task: forgets its id and takes it out of the waiting line.
    pub fn stop(&mut self, id: &str)
        requires
            old(self).wf(),
        ensures
            final(self).wf(),
            final(self).waiting() == old(self).waiting().filter(|t: TaskView| t.id != id@),
            final(self).active_ids() == old(self).active_ids().remove(id@),
    {
        self.finish(id);
        let want = chars_of(id);
        let ghost t0 = task_views(self.tasks@);
        let ghost f = |t: TaskView| t.id != id@;
        let mut kept: VecDeque<DownloadTask> = VecDeque::new();
        let mut old_tasks: VecDeque<DownloadTask> = VecDeque::new();
        std::mem::swap(&mut old_tasks, &mut self.tasks);
        assert(task_views(old_tasks@) == t0);
        let mut i: usize = 0;
        while i < old_tasks.len()
            invariant
                i <= old_tasks.len(),
                task_views(old_tasks@) == t0,
                want@ == id@,
                f == (|t: TaskView| t.id != id@),
                task_views(kept@) == t0.take(i as int).filter(f),
            decreases old_tasks.len() - i,
        {
            reveal_with_fuel(Seq::<_>::filter, 1);
            assert(t0.take(i + 1).drop_last() =~= t0.take(i as int));
            assert(t0[i as int] == task_view(old_tasks@[i as int]));
            let tid = chars_of(old_tasks[i].id.as_str());
            if !same(&tid, &want) {
                let t = DownloadTask {
                    id: old_tasks[i].id.clone(),
                    url: old_tasks[i].url.clone(),
                    save_path: old_tasks[i].save_path.clone(),
                    filename: match &old_tasks[i].filename {
                        Some(s) => Some(s.clone()),
                        None => None,
                    },
                };
                let ghost before = task_views(kept@);
                kept.push_back(t);
                assert(task_views(kept@) =~= before.push(t0[i as int]));
            }
            i += 1;
            assert(task_views(kept@) =~= t0.take(i as int).filter(f));
        }
        assert(t0.take(old_tasks.len() as int) =~= t0);
        self.tasks = kept;
    }

    /// Empties the queue and forgets every id (shutdown).
    pub fn clear(&mut self)
        ensures
            final(self).wf(),
            final(self).waiting() == Seq::<TaskView>::empty(),
            final(self).active_ids() == Set::<Seq<char>>::empty(),
    {
        self.tasks = VecDeque::new();
        self.enqueued = Vec::new();
        assert(self.enqueued@.map_values(|s: String| s@) =~= Seq::<Seq<char>>::empty());
        assert(self.active_ids() =~= Set::<Seq<char>>::empty());
        assert(self.waiting() =~= Seq::<TaskView>::empty());
    }
}

// ------------------------------------------------------------------
// Concurrency limit
// ------------------------------------------------------------------

/// What changing the number of concurrent downloads does to the permits.
#[derive(Debug, Clone, Copy)]
pub struct ConcurrencyChange {
    /// The new limit (at least 1).
    pub max: usize,
    /// Permits to add.
    pub add: usize,
    /// Permits to withdraw.
    pub forget: usize,
    /// Withdrawals still owed from an earlier lowering are dropped.
    pub clear_pending: bool,
}

/// Raising the limit adds the difference and drops owed withdrawals;
/// lowering it withdraws the difference; the limit is at least 1.
pub open spec fn concurrency_change_of(previous: usize, requested: usize) -> ConcurrencyChange {
    let max = if requested < 1 {
        1usize
    } else {
        requested
    };
    if max > previous {
        ConcurrencyChange { max, add: (max - previous) as usize, forget: 0, clear_pending: true }
    } else if max < previous {
        ConcurrencyChange { max, add: 0, forget: (previous - max) as usize, clear_pending: false }
    } else {
        ConcurrencyChange { max, add: 0, forget: 0, clear_pending: false }
    }
}

pub fn concurrency_change(previous: usize, requested: usize) -> (r: ConcurrencyChange)
    ensures
        r == concurrency_change_of(previous, requested),
{
    let max = if requested < 1 {
        1
    } else {
        requested
    };
    if max > previous {
        ConcurrencyChange { max, add: max - previous, forget: 0, clear_pending: true }
    } else if max < previous {
        ConcurrencyChange { max, add: 0, forget: previous - max, clear_pending: false }
    } else {
        ConcurrencyChange { max, add: 0, forget: 0, clear_pending: false }
    }
}

/// Withdrawals still owed after `forgotten` of `owed` permits could be withdrawn.
pub fn remaining_to_forget(owed: usize, forgotten: usize) -> (r: usize)
    ensures
        r == (if forgotten >= owed {
            0
        } else {
            owed - forgotten
        }),
{
    owed.saturating_sub(forgotten)
}

} // verus!
