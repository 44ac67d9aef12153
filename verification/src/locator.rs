//! The search for candidates: a stack of tasks that the host works off one
//! observation at a time.

use crate::plan::{
    drive_tasks, drive_tasks_for, located_candidates, located_lines, plan, search_plan,
    HostEnvironment,
};
use crate::platform::PlatformConventions;
use crate::scan::{
    lemma_scans_below_within_budget, scans_below, scans_for, task_views, Observation,
    ObservationView, Task, TaskView,
};
use crate::text::texts;
use vstd::prelude::*;

verus! {

/// The state of a search: the tasks still to run, the next one last, and
/// the candidates recorded so far, in the order in which they were found.
pub ghost struct LocatorView {
    pub pending: Seq<TaskView>,
    pub found: Seq<Seq<char>>,
}

/// Every scan among `tasks` keeps to its budget.
pub open spec fn all_within_budget(tasks: Seq<TaskView>) -> bool {
    forall|i: int| 0 <= i < tasks.len() ==> (#[trigger] tasks[i]).within_budget()
}

/// The candidates that a task records, given what the host observed for it.
pub open spec fn recorded(task: TaskView, observed: ObservationView) -> Seq<Seq<char>> {
    match task {
        TaskView::Fixed { path } => seq![path],
        TaskView::IfFile { path } => if observed == ObservationView::Present(true) {
            seq![path]
        } else {
            Seq::empty()
        },
        TaskView::Drive { .. } => Seq::empty(),
        TaskView::Scan { filtered, .. } => match observed {
            ObservationView::Listing(listing) => if listing.present && !filtered {
                listing.executables
            } else {
                Seq::empty()
            },
            _ => Seq::empty(),
        },
        TaskView::Locate { .. } => match observed {
            ObservationView::Output(Some(answer)) => located_candidates(answer),
            _ => Seq::empty(),
        },
    }
}

/// The tasks that follow from a task, given what the host observed for it,
/// in the order in which they are to run. Only a drive that is present and a
/// directory that could be listed have any.
pub open spec fn follow_ups(task: TaskView, observed: ObservationView) -> Seq<TaskView> {
    match task {
        TaskView::Drive { root } => if observed == ObservationView::Present(true) {
            drive_tasks(root)
        } else {
            Seq::empty()
        },
        TaskView::Scan { depth, level, budget, filtered, .. } => match observed {
            ObservationView::Listing(listing) => if listing.present {
                scans_below(listing.subdirs, depth, level, budget, filtered)
            } else {
                Seq::empty()
            },
            _ => Seq::empty(),
        },
        _ => Seq::empty(),
    }
}

/// The state after the host has observed the task on top: the task is
/// gone, what it records is appended to the candidates, and its follow-ups
/// are stacked so that the first of them runs next. A search with nothing
/// pending stays as it is.
pub open spec fn step(state: LocatorView, observed: ObservationView) -> LocatorView {
    if state.pending.len() == 0 {
        state
    } else {
        let task = state.pending.last();
        LocatorView {
            pending: state.pending.drop_last() + follow_ups(task, observed).reverse(),
            found: state.found + recorded(task, observed),
        }
    }
}

/// The root scans of a drive keep to their budgets.
pub proof fn lemma_drive_tasks_within_budget(root: Seq<char>)
    ensures
        all_within_budget(drive_tasks(root)),
{
}

/// Every scan that a search begins with keeps to its budget.
pub proof fn lemma_plan_within_budget(
    conv: PlatformConventions,
    env: crate::plan::HostEnvironmentView,
)
    ensures
        all_within_budget(plan(conv, env)),
{
}

/// A step never stacks a scan that leaves its budget: if every pending scan
/// lies above the depth its root was given, so does every scan pending
/// after the step.
pub proof fn lemma_step_within_budget(state: LocatorView, observed: ObservationView)
    requires
        all_within_budget(state.pending),
    ensures
        all_within_budget(step(state, observed).pending),
{
    if state.pending.len() > 0 {
        let task = state.pending.last();
        let next = follow_ups(task, observed);
        assert(task.within_budget());
        assert(all_within_budget(next)) by {
            match task {
                TaskView::Drive { root } => {
                    lemma_drive_tasks_within_budget(root);
                },
                TaskView::Scan { depth, level, budget, filtered, .. } => {
                    match observed {
                        ObservationView::Listing(listing) => {
                            lemma_scans_below_within_budget(
                                listing.subdirs,
                                depth,
                                level,
                                budget,
                                filtered,
                            );
                        },
                        _ => {},
                    }
                },
                _ => {},
            }
        }
        let after = step(state, observed).pending;
        assert forall|i: int| 0 <= i < after.len() implies (#[trigger] after[i]).within_budget() by {
            if i < state.pending.len() - 1 {
                assert(after[i] == state.pending[i]);
            } else {
                let k = i - (state.pending.len() - 1);
                assert(after[i] == next.reverse()[k]);
                assert(next.reverse()[k] == next[next.len() - 1 - k]);
            }
        }
    }
}

/// Stacks `tasks` so that the first of them comes to lie on top.
pub fn push_reversed(stack: &mut Vec<Task>, tasks: Vec<Task>)
    ensures
        task_views(final(stack)@) == task_views(old(stack)@) + task_views(tasks@).reverse(),
{
    let ghost start = task_views(stack@);
    let ghost all = task_views(tasks@);
    let mut rest = tasks;
    proof {
        assert(start + all.reverse().take(0) =~= start);
        assert(all.take(all.len() as int) =~= all);
    }
    loop
        invariant
            start == task_views(old(stack)@),
            all == task_views(tasks@),
            rest@.len() <= all.len(),
            task_views(rest@) == all.take(rest@.len() as int),
            task_views(stack@) == start + all.reverse().take(all.len() - rest@.len()),
        decreases rest@.len(),
    {
        let ghost before = task_views(stack@);
        let ghost earlier = rest@;
        let ghost n = earlier.len() as int;
        match rest.pop() {
            Some(task) => {
                proof {
                    assert(task@ == task_views(earlier)[n - 1]);
                    assert(task@ == all[n - 1]);
                    assert(task_views(rest@) =~= all.take(n - 1));
                }
                stack.push(task);
                proof {
                    assert(task_views(stack@) =~= before.push(task@));
                    assert(start + all.reverse().take(all.len() - n + 1) =~= (start
                        + all.reverse().take(all.len() - n)).push(all[n - 1]));
                }
            },
            None => {
                proof {
                    assert(all.reverse().take(all.len() as int) =~= all.reverse());
                }
                return ;
            },
        }
    }
}

/// A search for candidates in progress.
#[derive(Debug)]
pub struct CandidateLocator {
    pending: Vec<Task>,
    found: Vec<String>,
}

impl View for CandidateLocator {
    type V = LocatorView;

    closed spec fn view(&self) -> LocatorView {
        LocatorView { pending: task_views(self.pending@), found: texts(self.found@) }
    }
}

impl CandidateLocator {
    /// Every pending scan keeps to its budget.
    pub open spec fn wf(&self) -> bool {
        all_within_budget(self@.pending)
    }

    /// Begins a search on a host of the given family.
    pub fn new(conv: PlatformConventions, env: &HostEnvironment) -> (r: Self)
        ensures
            r@.pending == plan(conv, env@).reverse(),
            r@.found == Seq::<Seq<char>>::empty(),
            r.wf(),
    {
        let tasks = search_plan(conv, env);
        let mut pending: Vec<Task> = Vec::new();
        proof {
            assert(task_views(pending@) =~= Seq::<TaskView>::empty());
        }
        push_reversed(&mut pending, tasks);
        let found: Vec<String> = Vec::new();
        let r = CandidateLocator { pending, found };
        proof {
            let order = plan(conv, env@);
            assert(r@.pending =~= order.reverse());
            assert(r@.found =~= Seq::<Seq<char>>::empty());
            lemma_plan_within_budget(conv, env@);
            assert forall|i: int| 0 <= i < r@.pending.len() implies (
            #[trigger] r@.pending[i]).within_budget() by {
                assert(order.reverse()[i] == order[order.len() - 1 - i]);
            }
        }
        r
    }

    /// The task that the host is to observe next, or `None` when the search
    /// is over.
    pub fn next_task(&self) -> (r: Option<&Task>)
        ensures
            match r {
                Some(task) => self@.pending.len() > 0 && task@ == self@.pending.last(),
                None => self@.pending.len() == 0,
            },
            self.wf() && r is Some ==> r->0@.within_budget(),
    {
        let n: usize = self.pending.len();
        if n == 0 {
            None
        } else {
            proof {
                assert(self@.pending[n - 1] == self.pending@[n - 1]@);
            }
            Some(&self.pending[n - 1])
        }
    }

    /// Whether nothing is left to observe.
    pub fn is_done(&self) -> (r: bool)
        ensures
            r == (self@.pending.len() == 0),
    {
        self.pending.len() == 0
    }

    /// Takes what the host observed for the task on top and moves on.
    pub fn advance(&mut self, observed: Observation)
        requires
            old(self).wf(),
        ensures
            final(self)@ == step(old(self)@, observed@),
            final(self).wf(),
    {
        let ghost before = self@;
        proof {
            lemma_step_within_budget(before, observed@);
        }
        let task = match self.pending.pop() {
            Some(task) => task,
            None => {
                return ;
            },
        };
        proof {
            assert(task@ == before.pending.last());
            assert(task@.within_budget());
            assert(task_views(self.pending@) =~= before.pending.drop_last());
        }
        let ghost rest = task_views(self.pending@);
        let ghost had = texts(self.found@);
        match task {
            Task::Fixed { path } => {
                self.found.push(path);
                proof {
                    assert(texts(self.found@) =~= had + seq![path@]);
                    assert(rest + Seq::<TaskView>::empty().reverse() =~= rest);
                }
            },
            Task::IfFile { path } => {
                let present = match observed {
                    Observation::Present(p) => p,
                    _ => false,
                };
                if present {
                    self.found.push(path);
                    proof {
                        assert(texts(self.found@) =~= had + seq![path@]);
                    }
                } else {
                    proof {
                        assert(had + Seq::<Seq<char>>::empty() =~= had);
                    }
                }
                proof {
                    assert(rest + Seq::<TaskView>::empty().reverse() =~= rest);
                }
            },
            Task::Drive { root } => {
                let present = match observed {
                    Observation::Present(p) => p,
                    _ => false,
                };
                if present {
                    let below = drive_tasks_for(root.as_str());
                    push_reversed(&mut self.pending, below);
                } else {
                    proof {
                        assert(rest + Seq::<TaskView>::empty().reverse() =~= rest);
                    }
                }
                proof {
                    assert(had + Seq::<Seq<char>>::empty() =~= had);
                }
            },
            Task::Scan { dir, depth, level, budget, filtered } => {
                match observed {
                    Observation::Listing(listing) => {
                        if listing.present {
                            let below = scans_for(&listing.subdirs, depth, level, budget, filtered);
                            push_reversed(&mut self.pending, below);
                            if !filtered {
                                let mut executables = listing.executables;
                                let ghost added = texts(executables@);
                                self.found.append(&mut executables);
                                proof {
                                    assert(texts(self.found@) =~= had + added);
                                }
                            } else {
                                proof {
                                    assert(had + Seq::<Seq<char>>::empty() =~= had);
                                }
                            }
                        } else {
                            proof {
                                assert(rest + Seq::<TaskView>::empty().reverse() =~= rest);
                                assert(had + Seq::<Seq<char>>::empty() =~= had);
                            }
                        }
                    },
                    _ => {
                        proof {
                            assert(rest + Seq::<TaskView>::empty().reverse() =~= rest);
                            assert(had + Seq::<Seq<char>>::empty() =~= had);
                        }
                    },
                }
            },
            Task::Locate { name } => {
                match observed {
                    Observation::Output(Some(answer)) => {
                        let mut lines = located_lines(answer.as_str());
                        let ghost added = texts(lines@);
                        self.found.append(&mut lines);
                        proof {
                            assert(texts(self.found@) =~= had + added);
                        }
                    },
                    _ => {
                        proof {
                            assert(had + Seq::<Seq<char>>::empty() =~= had);
                        }
                    },
                }
                proof {
                    assert(rest + Seq::<TaskView>::empty().reverse() =~= rest);
                }
            },
        }
    }

    /// The candidates recorded so far, in the order in which they were
    /// found.
    pub fn candidates(&self) -> (r: &Vec<String>)
        ensures
            texts(r@) == self@.found,
    {
        &self.found
    }

    /// Ends the search and gives up its candidates.
    pub fn into_candidates(self) -> (r: Vec<String>)
        ensures
            texts(r@) == self@.found,
    {
        self.found
    }
}

} // verus!
