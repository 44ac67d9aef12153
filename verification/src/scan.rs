//! The tasks of a candidate search and what the host observes for each.
//!
//! A search is a stack of tasks. The host takes the task on top, looks at
//! the file system or runs the locator as the task asks, and hands back what
//! it observed; the search then records candidates and stacks the tasks
//! that follow from the observation.

use crate::keywords::{is_suggestive_name, suggestive};
use crate::text::{text_view, texts};
use vstd::prelude::*;

verus! {

/// A subdirectory as the host lists it.
#[derive(Debug)]
pub struct SubDir {
    /// Path of the subdirectory.
    pub path: String,
    /// Its final component.
    pub name: String,
}

/// The mathematical content of a [`SubDir`].
pub ghost struct SubDirView {
    pub path: Seq<char>,
    pub name: Seq<char>,
}

impl View for SubDir {
    type V = SubDirView;

    open spec fn view(&self) -> SubDirView {
        SubDirView { path: self.path@, name: self.name@ }
    }
}

/// What the host found in one directory.
#[derive(Debug)]
pub struct DirListing {
    /// Whether the directory exists and can be read as one.
    pub present: bool,
    /// Paths of the executables found at the conventional places below it,
    /// in the order of the conventions.
    pub executables: Vec<String>,
    /// Its immediate subdirectories, in the order in which the host lists
    /// them.
    pub subdirs: Vec<SubDir>,
}

/// The mathematical content of a [`DirListing`].
pub ghost struct DirListingView {
    pub present: bool,
    pub executables: Seq<Seq<char>>,
    pub subdirs: Seq<SubDirView>,
}

/// The views of a sequence of subdirectories.
pub open spec fn subdir_views(subdirs: Seq<SubDir>) -> Seq<SubDirView> {
    Seq::new(subdirs.len(), |i: int| subdirs[i]@)
}

impl View for DirListing {
    type V = DirListingView;

    open spec fn view(&self) -> DirListingView {
        DirListingView {
            present: self.present,
            executables: texts(self.executables@),
            subdirs: subdir_views(self.subdirs@),
        }
    }
}

/// What the host hands back for a task.
#[derive(Debug)]
pub enum Observation {
    /// Nothing was to be observed.
    Nothing,
    /// Whether the file or directory asked about exists.
    Present(bool),
    /// The listing of the directory asked about.
    Listing(DirListing),
    /// Standard output of the locator, or `None` where it could not be run.
    Output(Option<String>),
}

/// The mathematical content of an [`Observation`].
pub ghost enum ObservationView {
    Nothing,
    Present(bool),
    Listing(DirListingView),
    Output(Option<Seq<char>>),
}

impl View for Observation {
    type V = ObservationView;

    open spec fn view(&self) -> ObservationView {
        match self {
            Observation::Nothing => ObservationView::Nothing,
            Observation::Present(p) => ObservationView::Present(*p),
            Observation::Listing(l) => ObservationView::Listing(l@),
            Observation::Output(o) => ObservationView::Output(text_view(*o)),
        }
    }
}

/// One step of a candidate search.
#[derive(Debug)]
pub enum Task {
    /// Record `path` as a candidate; nothing is to be observed.
    Fixed { path: String },
    /// Record `path` as a candidate if the host finds it present.
    IfFile { path: String },
    /// Search the conventional places of the drive `root` if the host finds
    /// it present.
    Drive { root: String },
    /// List `dir`. `depth` is the number of levels still to be looked at,
    /// this one included; `level` is how far `dir` lies below the root of
    /// its scan, and `budget` the depth that scan began with. A filtered
    /// scan records nothing itself and descends only into subdirectories
    /// with a suggestive name.
    Scan { dir: String, depth: u32, level: u32, budget: u32, filtered: bool },
    /// Ask the locator for `name`; each line of its answer is a candidate.
    Locate { name: String },
}

/// The mathematical content of a [`Task`].
pub ghost enum TaskView {
    Fixed { path: Seq<char> },
    IfFile { path: Seq<char> },
    Drive { root: Seq<char> },
    Scan { dir: Seq<char>, depth: u32, level: u32, budget: u32, filtered: bool },
    Locate { name: Seq<char> },
}

impl View for Task {
    type V = TaskView;

    open spec fn view(&self) -> TaskView {
        match self {
            Task::Fixed { path } => TaskView::Fixed { path: path@ },
            Task::IfFile { path } => TaskView::IfFile { path: path@ },
            Task::Drive { root } => TaskView::Drive { root: root@ },
            Task::Scan { dir, depth, level, budget, filtered } => TaskView::Scan {
                dir: dir@,
                depth: *depth,
                level: *level,
                budget: *budget,
                filtered: *filtered,
            },
            Task::Locate { name } => TaskView::Locate { name: name@ },
        }
    }
}

/// The views of a sequence of tasks.
pub open spec fn task_views(tasks: Seq<Task>) -> Seq<TaskView> {
    Seq::new(tasks.len(), |i: int| tasks[i]@)
}

impl TaskView {
    /// A scan keeps to its budget: it has at least one level left to look
    /// at, and the levels above it and those left add up to the depth its
    /// root began with.
    pub open spec fn within_budget(self) -> bool {
        match self {
            TaskView::Scan { depth, level, budget, .. } => depth >= 1 && level + depth == budget,
            _ => true,
        }
    }
}

/// The first scan of a directory: at level 0, with all of its budget left.
pub open spec fn root_scan(dir: Seq<char>, budget: u32, filtered: bool) -> TaskView {
    TaskView::Scan { dir, depth: budget, level: 0, budget, filtered }
}

/// The scans that follow from the subdirectories of a directory scanned
/// with `depth` levels left at level `level`, in the order in which they are
/// to run. With one level left nothing follows. An unfiltered scan goes on
/// into every subdirectory. A filtered scan goes on into those with a
/// suggestive name only, each first unfiltered, then filtered.
pub open spec fn scans_below(
    subdirs: Seq<SubDirView>,
    depth: u32,
    level: u32,
    budget: u32,
    filtered: bool,
) -> Seq<TaskView>
    decreases subdirs.len(),
{
    if depth <= 1 || subdirs.len() == 0 {
        Seq::empty()
    } else {
        let earlier = scans_below(subdirs.drop_last(), depth, level, budget, filtered);
        let sub = subdirs.last();
        let plain = TaskView::Scan {
            dir: sub.path,
            depth: (depth - 1) as u32,
            level: (level + 1) as u32,
            budget,
            filtered: false,
        };
        let narrow = TaskView::Scan {
            dir: sub.path,
            depth: (depth - 1) as u32,
            level: (level + 1) as u32,
            budget,
            filtered: true,
        };
        if !filtered {
            earlier.push(plain)
        } else if suggestive(sub.name) {
            earlier.push(plain).push(narrow)
        } else {
            earlier
        }
    }
}

/// Every scan below a scan that keeps to its budget keeps to it too, one
/// level further down.
pub proof fn lemma_scans_below_within_budget(
    subdirs: Seq<SubDirView>,
    depth: u32,
    level: u32,
    budget: u32,
    filtered: bool,
)
    requires
        depth >= 1,
        level + depth == budget,
    ensures
        forall|i: int|
            0 <= i < scans_below(subdirs, depth, level, budget, filtered).len() ==> {
                let t = #[trigger] scans_below(subdirs, depth, level, budget, filtered)[i];
                &&& t.within_budget()
                &&& t is Scan
                &&& t->Scan_level == level + 1
                &&& t->Scan_budget == budget
            },
    decreases subdirs.len(),
{
    if depth > 1 && subdirs.len() > 0 {
        lemma_scans_below_within_budget(subdirs.drop_last(), depth, level, budget, filtered);
    }
}

/// Builds the scans that follow from a directory's subdirectories.
pub fn scans_for(subdirs: &Vec<SubDir>, depth: u32, level: u32, budget: u32, filtered: bool) -> (r:
    Vec<Task>)
    requires
        depth >= 1,
        level + depth == budget,
    ensures
        task_views(r@) == scans_below(subdir_views(subdirs@), depth, level, budget, filtered),
{
    let mut out: Vec<Task> = Vec::new();
    if depth <= 1 {
        proof {
            assert(task_views(out@) =~= Seq::<TaskView>::empty());
        }
        return out;
    }
    let mut i: usize = 0;
    proof {
        assert(task_views(out@) =~= Seq::<TaskView>::empty());
        assert(subdir_views(subdirs@).take(0) =~= Seq::<SubDirView>::empty());
    }
    while i < subdirs.len()
        invariant
            i <= subdirs@.len(),
            depth > 1,
            level + depth == budget,
            task_views(out@) == scans_below(
                subdir_views(subdirs@).take(i as int),
                depth,
                level,
                budget,
                filtered,
            ),
        decreases subdirs@.len() - i,
    {
        let ghost before = task_views(out@);
        let ghost upto = subdir_views(subdirs@).take(i + 1);
        proof {
            assert(upto.drop_last() =~= subdir_views(subdirs@).take(i as int));
            assert(upto.last() == subdirs@[i as int]@);
        }
        let sub = &subdirs[i];
        if !filtered {
            let plain = Task::Scan {
                dir: sub.path.clone(),
                depth: depth - 1,
                level: level + 1,
                budget,
                filtered: false,
            };
            out.push(plain);
            proof {
                assert(task_views(out@) =~= before.push(plain@));
            }
        } else if is_suggestive_name(sub.name.as_str()) {
            let plain = Task::Scan {
                dir: sub.path.clone(),
                depth: depth - 1,
                level: level + 1,
                budget,
                filtered: false,
            };
            let narrow = Task::Scan {
                dir: sub.path.clone(),
                depth: depth - 1,
                level: level + 1,
                budget,
                filtered: true,
            };
            out.push(plain);
            out.push(narrow);
            proof {
                assert(task_views(out@) =~= before.push(plain@).push(narrow@));
            }
        }
        i = i + 1;
    }
    proof {
        assert(subdir_views(subdirs@).take(subdirs@.len() as int) =~= subdir_views(subdirs@));
    }
    out
}

} // verus!
