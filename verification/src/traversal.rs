//! What a whole search amounts to, on a host whose answers depend on the
//! task alone: a depth-first walk that ends after a number of tasks known
//! beforehand.

use crate::locator::{
    all_within_budget, follow_ups, lemma_step_within_budget, recorded, step, LocatorView,
};
use crate::plan::{plan, HostEnvironmentView};
use crate::platform::PlatformConventions;
use crate::scan::{scans_below, ObservationView, SubDirView, TaskView};
use vstd::prelude::*;

verus! {

/// A bound on how many generations of follow-ups a task can have: the levels
/// left to a scan, one more than the deepest root scan for a drive, none for
/// the others.
pub open spec fn generations(task: TaskView) -> nat {
    match task {
        TaskView::Scan { depth, .. } => depth as nat,
        TaskView::Drive { .. } => 5,
        _ => 0,
    }
}

/// Every one of `tasks` has at most `bound` generations of follow-ups.
pub open spec fn all_bounded(tasks: Seq<TaskView>, bound: nat) -> bool {
    forall|i: int| 0 <= i < tasks.len() ==> generations(#[trigger] tasks[i]) <= bound
}

/// The candidates of a depth-first walk through `tasks`: for each task in
/// turn what it records, then the candidates of its follow-ups, before the
/// next task is looked at.
pub open spec fn outcome(
    host: spec_fn(TaskView) -> ObservationView,
    tasks: Seq<TaskView>,
    bound: nat,
) -> Seq<Seq<char>>
    decreases bound, tasks.len(),
{
    if tasks.len() == 0 {
        Seq::empty()
    } else {
        let task = tasks.first();
        let below = if bound == 0 {
            Seq::empty()
        } else {
            outcome(host, follow_ups(task, host(task)), (bound - 1) as nat)
        };
        recorded(task, host(task)) + below + outcome(host, tasks.drop_first(), bound)
    }
}

/// The number of tasks that a depth-first walk through `tasks` looks at.
pub open spec fn visits(
    host: spec_fn(TaskView) -> ObservationView,
    tasks: Seq<TaskView>,
    bound: nat,
) -> nat
    decreases bound, tasks.len(),
{
    if tasks.len() == 0 {
        0
    } else {
        let task = tasks.first();
        let below = if bound == 0 {
            0
        } else {
            visits(host, follow_ups(task, host(task)), (bound - 1) as nat)
        };
        1 + below + visits(host, tasks.drop_first(), bound)
    }
}

/// The state of a search after the host has answered `steps` tasks, or all
/// of them where fewer are pending.
pub open spec fn run(
    host: spec_fn(TaskView) -> ObservationView,
    state: LocatorView,
    steps: nat,
) -> LocatorView
    decreases steps,
{
    if steps == 0 || state.pending.len() == 0 {
        state
    } else {
        run(host, step(state, host(state.pending.last())), (steps - 1) as nat)
    }
}

/// Running `a + b` steps is running `a` steps and then `b` more.
pub proof fn lemma_run_add(
    host: spec_fn(TaskView) -> ObservationView,
    state: LocatorView,
    a: nat,
    b: nat,
)
    ensures
        run(host, state, a + b) == run(host, run(host, state, a), b),
    decreases a,
{
    if a > 0 && state.pending.len() > 0 {
        lemma_run_add(host, step(state, host(state.pending.last())), (a - 1) as nat, b);
    }
}

/// The scans below a scan have one level less left than it has.
pub proof fn lemma_scans_below_generations(
    subdirs: Seq<SubDirView>,
    depth: u32,
    level: u32,
    budget: u32,
    filtered: bool,
)
    ensures
        forall|i: int|
            0 <= i < scans_below(subdirs, depth, level, budget, filtered).len() ==> generations(
                #[trigger] scans_below(subdirs, depth, level, budget, filtered)[i],
            ) + 1 == depth,
    decreases subdirs.len(),
{
    if depth > 1 && subdirs.len() > 0 {
        lemma_scans_below_generations(subdirs.drop_last(), depth, level, budget, filtered);
        let earlier = scans_below(subdirs.drop_last(), depth, level, budget, filtered);
        let all = scans_below(subdirs, depth, level, budget, filtered);
        assert forall|i: int| 0 <= i < all.len() implies generations(#[trigger] all[i]) + 1
            == depth by {
            if i < earlier.len() {
                assert(all[i] == earlier[i]);
            }
        }
    }
}

/// Every follow-up of a task has fewer generations of follow-ups than the
/// task itself.
pub proof fn lemma_follow_ups_generations(task: TaskView, observed: ObservationView)
    ensures
        forall|i: int|
            0 <= i < follow_ups(task, observed).len() ==> generations(
                #[trigger] follow_ups(task, observed)[i],
            ) < generations(task),
{
    match task {
        TaskView::Scan { depth, level, budget, filtered, .. } => {
            match observed {
                ObservationView::Listing(listing) => {
                    lemma_scans_below_generations(listing.subdirs, depth, level, budget, filtered);
                },
                _ => {},
            }
        },
        _ => {},
    }
}

/// With `front` stacked on `back`, the first of `front` on top, a search
/// works off `front` depth first: after as many steps as the walk through
/// `front` has visits, `back` is what is pending, untouched, and the
/// candidates of the walk have been appended to those found before.
pub proof fn lemma_run_front(
    host: spec_fn(TaskView) -> ObservationView,
    back: Seq<TaskView>,
    front: Seq<TaskView>,
    found: Seq<Seq<char>>,
    bound: nat,
)
    requires
        all_bounded(front, bound),
    ensures
        run(
            host,
            LocatorView { pending: back + front.reverse(), found },
            visits(host, front, bound),
        ) == (LocatorView { pending: back, found: found + outcome(host, front, bound) }),
    decreases bound, front.len(),
{
    let start = LocatorView { pending: back + front.reverse(), found };
    if front.len() == 0 {
        assert(start.pending =~= back);
        assert(found + outcome(host, front, bound) =~= found);
    } else {
        let task = front.first();
        let rest = front.drop_first();
        let seen = host(task);
        let kids = follow_ups(task, seen);
        let beneath = back + rest.reverse();
        assert(start.pending.last() == task);
        assert(start.pending.drop_last() =~= beneath);
        let after_task = step(start, seen);
        let found_task = found + recorded(task, seen);
        assert(after_task == (LocatorView { pending: beneath + kids.reverse(), found: found_task }));
        lemma_follow_ups_generations(task, seen);
        assert(generations(task) <= bound);
        let below_visits = if bound == 0 {
            0nat
        } else {
            visits(host, kids, (bound - 1) as nat)
        };
        let below = if bound == 0 {
            Seq::<Seq<char>>::empty()
        } else {
            outcome(host, kids, (bound - 1) as nat)
        };
        let after_kids = LocatorView { pending: beneath, found: found_task + below };
        if bound == 0 {
            assert(kids.len() == 0) by {
                if kids.len() > 0 {
                    assert(generations(kids[0]) < generations(task));
                }
            }
            assert(after_task.pending =~= beneath);
            assert(found_task + below =~= found_task);
            assert(run(host, after_task, below_visits) == after_kids);
        } else {
            assert(all_bounded(kids, (bound - 1) as nat));
            lemma_run_front(host, beneath, kids, found_task, (bound - 1) as nat);
        }
        assert(all_bounded(rest, bound)) by {
            assert forall|i: int| 0 <= i < rest.len() implies generations(#[trigger] rest[i])
                <= bound by {
                assert(rest[i] == front[i + 1]);
            }
        }
        lemma_run_front(host, back, rest, found_task + below, bound);
        let rest_visits = visits(host, rest, bound);
        lemma_run_add(host, after_task, below_visits, rest_visits);
        assert(visits(host, front, bound) == 1 + below_visits + rest_visits);
        assert(run(host, start, visits(host, front, bound)) == run(
            host,
            after_task,
            (below_visits + rest_visits) as nat,
        ));
        assert(found_task + below + outcome(host, rest, bound) =~= found + outcome(
            host,
            front,
            bound,
        ));
    }
}

/// However long a search runs, no scan leaves its budget: every scan that
/// is pending lies fewer levels below the root of its scan than that root
/// was given.
pub proof fn lemma_run_within_budget(
    host: spec_fn(TaskView) -> ObservationView,
    state: LocatorView,
    steps: nat,
)
    requires
        all_within_budget(state.pending),
    ensures
        all_within_budget(run(host, state, steps).pending),
        forall|i: int|
            0 <= i < run(host, state, steps).pending.len() ==> match #[trigger] run(
                host,
                state,
                steps,
            ).pending[i] {
                TaskView::Scan { level, budget, .. } => level < budget,
                _ => true,
            },
    decreases steps,
{
    if steps > 0 && state.pending.len() > 0 {
        let seen = host(state.pending.last());
        lemma_step_within_budget(state, seen);
        lemma_run_within_budget(host, step(state, seen), (steps - 1) as nat);
    }
    let end = run(host, state, steps).pending;
    assert forall|i: int| 0 <= i < end.len() implies match #[trigger] end[i] {
        TaskView::Scan { level, budget, .. } => level < budget,
        _ => true,
    } by {
        assert(end[i].within_budget());
    }
}

/// The state in which a search begins.
pub open spec fn start_of(conv: PlatformConventions, env: HostEnvironmentView) -> LocatorView {
    LocatorView { pending: plan(conv, env).reverse(), found: Seq::empty() }
}

/// Tasks and their follow-ups never number more generations than five: a
/// drive, then its root scans of at most four levels.
pub proof fn lemma_plan_generations(conv: PlatformConventions, env: HostEnvironmentView)
    ensures
        all_bounded(plan(conv, env), 5),
{
}

/// On a host whose answers depend on the task alone a search ends, after a
/// number of tasks that only the host's answers fix, with nothing pending
/// and with the candidates of the depth-first walk through its plan: no
/// directory below the budget of its root scan is ever asked about, however
/// deep the tree.
pub proof fn lemma_search_is_depth_first(
    host: spec_fn(TaskView) -> ObservationView,
    conv: PlatformConventions,
    env: HostEnvironmentView,
)
    ensures
        run(host, start_of(conv, env), visits(host, plan(conv, env), 5)).pending.len() == 0,
        run(host, start_of(conv, env), visits(host, plan(conv, env), 5)).found == outcome(
            host,
            plan(conv, env),
            5,
        ),
{
    let order = plan(conv, env);
    lemma_plan_generations(conv, env);
    lemma_run_front(host, Seq::empty(), order, Seq::empty(), 5);
    assert(Seq::<TaskView>::empty() + order.reverse() =~= order.reverse());
    assert(Seq::<Seq<char>>::empty() + outcome(host, order, 5) =~= outcome(host, order, 5));
}

} // verus!
