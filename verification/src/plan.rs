//! Where a search for candidates begins: the places that each family of
//! operating systems conventionally keeps its runtimes in.

use crate::platform::{strs, PlatformConventions};
use crate::scan::{root_scan, task_views, Task, TaskView};
use crate::text::{
    chars_of, lines_of, split_lines, string_from, text_view, texts, trim_chars, trimmed, views,
};
use vstd::prelude::*;
use vstd::string::*;

verus! {

/// The environment variables that a search consults, as the host read them.
#[derive(Debug)]
pub struct HostEnvironment {
    /// The home of the preferred installation (`JAVA_HOME`).
    pub java_home: Option<String>,
    /// The user's profile or home directory.
    pub user_home: Option<String>,
    /// The directory of per-user application data, on Windows-like hosts.
    pub app_data: Option<String>,
}

/// The mathematical content of a [`HostEnvironment`].
pub ghost struct HostEnvironmentView {
    pub java_home: Option<Seq<char>>,
    pub user_home: Option<Seq<char>>,
    pub app_data: Option<Seq<char>>,
}

impl View for HostEnvironment {
    type V = HostEnvironmentView;

    open spec fn view(&self) -> HostEnvironmentView {
        HostEnvironmentView {
            java_home: text_view(self.java_home),
            user_home: text_view(self.user_home),
            app_data: text_view(self.app_data),
        }
    }
}

/// Installation directories of the vendors, relative to a drive's root.
pub open spec fn drive_install_dirs() -> Seq<Seq<char>> {
    seq![
        "Program Files\\Java"@,
        "Program Files (x86)\\Java"@,
        "Program Files\\Eclipse Adoptium"@,
        "Program Files\\AdoptOpenJDK"@,
        "Program Files\\Zulu"@,
        "Program Files\\BellSoft"@,
        "Program Files\\Amazon Corretto"@,
        "Program Files\\Microsoft"@,
        "Program Files\\Common Files\\Oracle\\Java\\javapath"@,
        "Program Files\\GraalVM"@,
    ]
}

/// Directories that users commonly make for runtimes, relative to a drive's
/// root.
pub open spec fn drive_custom_dirs() -> Seq<Seq<char>> {
    seq!["Java"@, "java"@, "jdk"@, "jre"@]
}

/// Directories of game libraries, relative to a drive's root.
pub open spec fn drive_game_dirs() -> Seq<Seq<char>> {
    seq!["Game"@, "Games"@, "game"@, "games"@]
}

/// Tool caches below the user's profile on Windows-like hosts.
pub open spec fn profile_dirs() -> Seq<Seq<char>> {
    seq![
        "\\AppData\\Roaming\\.minecraft\\runtime"@,
        "\\scoop\\apps"@,
        "\\.jdks"@,
        "\\.gradle\\jdks"@,
        "\\.sdkman\\candidates\\java"@,
        "\\AppData\\Local\\Programs"@,
    ]
}

/// Launcher runtimes below the application-data directory.
pub open spec fn app_data_dirs() -> Seq<Seq<char>> {
    seq!["\\..\\Roaming\\.minecraft\\runtime"@, "\\.minecraft\\runtime"@]
}

/// System-wide installation roots on Unix-like and Mac-like hosts.
pub open spec fn system_jvm_dirs() -> Seq<Seq<char>> {
    seq!["/usr/lib/jvm"@, "/usr/local/lib/jvm"@, "/Library/Java/JavaVirtualMachines"@]
}

/// Tool caches below the user's home on Unix-like and Mac-like hosts.
pub open spec fn home_dirs() -> Seq<Seq<char>> {
    seq!["/.jdks"@, "/.sdkman/candidates/java"@, "/.gradle/jdks"@]
}

/// One root scan for each of `suffixes` appended to `base`, all with the
/// same budget.
pub open spec fn scans(base: Seq<char>, suffixes: Seq<Seq<char>>, budget: u32, filtered: bool) -> Seq<
    TaskView,
> {
    Seq::new(suffixes.len(), |i: int| root_scan(base + suffixes[i], budget, filtered))
}

/// The scans of `scans(base, suffixes, ..)` where `base` is known, none
/// where it is not.
pub open spec fn scans_if(
    base: Option<Seq<char>>,
    suffixes: Seq<Seq<char>>,
    budget: u32,
    filtered: bool,
) -> Seq<TaskView> {
    match base {
        Some(b) => scans(b, suffixes, budget, filtered),
        None => Seq::empty(),
    }
}

/// What is searched on a drive that exists: the vendors' directories two
/// levels deep, the users' three levels deep, and the game libraries four
/// levels deep through suggestive names only.
pub open spec fn drive_tasks(root: Seq<char>) -> Seq<TaskView> {
    scans(root, drive_install_dirs(), 2, false) + scans(root, drive_custom_dirs(), 3, false)
        + scans(root, drive_game_dirs(), 4, true)
}

/// The root of the drive with the `index`-th letter, `A` having index 0.
pub open spec fn drive_root(index: int) -> Seq<char> {
    seq![((65 + index) as u8) as char, ':', '\\']
}

/// One check for each of the 26 drive letters, `A` first.
pub open spec fn drive_checks() -> Seq<TaskView> {
    Seq::new(26, |i: int| TaskView::Drive { root: drive_root(i) })
}

/// The check of the preferred installation, where its home is known.
pub open spec fn preferred(conv: PlatformConventions, java_home: Option<Seq<char>>) -> Seq<
    TaskView,
> {
    match java_home {
        Some(home) => seq![TaskView::IfFile { path: conv.home_executable(home) }],
        None => Seq::empty(),
    }
}

/// The tasks of a search in the order in which they run: the bare name for
/// the default lookup, the preferred installation, then the host family's
/// conventional places.
pub open spec fn plan(conv: PlatformConventions, env: HostEnvironmentView) -> Seq<TaskView> {
    let head = seq![TaskView::Fixed { path: "java"@ }] + preferred(conv, env.java_home);
    if conv == PlatformConventions::WindowsLike {
        head + drive_checks() + scans_if(env.user_home, profile_dirs(), 4, false) + scans_if(
            env.app_data,
            app_data_dirs(),
            4,
            false,
        ) + seq![TaskView::Locate { name: "java"@ }]
    } else {
        head + seq![
            TaskView::Fixed { path: "/usr/bin/java"@ },
            TaskView::Fixed { path: "/usr/local/bin/java"@ },
        ] + scans(Seq::empty(), system_jvm_dirs(), 3, false) + scans_if(
            env.user_home,
            home_dirs(),
            3,
            false,
        )
    }
}

/// The lines that are not blank, each trimmed.
pub open spec fn trimmed_nonblank(lines: Seq<Seq<char>>) -> Seq<Seq<char>>
    decreases lines.len(),
{
    if lines.len() == 0 {
        Seq::empty()
    } else {
        let earlier = trimmed_nonblank(lines.drop_last());
        let line = trimmed(lines.last());
        if line.len() == 0 {
            earlier
        } else {
            earlier.push(line)
        }
    }
}

/// The candidates that the locator's answer names: its lines, trimmed,
/// without the blank ones.
pub open spec fn located_candidates(answer: Seq<char>) -> Seq<Seq<char>> {
    trimmed_nonblank(lines_of(answer))
}

/// Reads the candidates out of the locator's answer.
pub fn located_lines(answer: &str) -> (r: Vec<String>)
    ensures
        texts(r@) == located_candidates(answer@),
{
    let chars = chars_of(answer);
    let lines = split_lines(&chars);
    let mut out: Vec<String> = Vec::new();
    let mut i: usize = 0;
    proof {
        assert(texts(out@) =~= Seq::<Seq<char>>::empty());
        assert(views(lines@).take(0) =~= Seq::<Seq<char>>::empty());
    }
    while i < lines.len()
        invariant
            i <= lines@.len(),
            views(lines@) == lines_of(answer@),
            texts(out@) == trimmed_nonblank(views(lines@).take(i as int)),
        decreases lines@.len() - i,
    {
        let ghost before = texts(out@);
        let ghost upto = views(lines@).take(i + 1);
        proof {
            assert(upto.drop_last() =~= views(lines@).take(i as int));
            assert(upto.last() == lines@[i as int]@);
        }
        let line = trim_chars(&lines[i]);
        if line.len() > 0 {
            let kept = string_from(&line);
            out.push(kept);
            proof {
                assert(texts(out@) =~= before.push(kept@));
            }
        }
        i = i + 1;
    }
    proof {
        assert(views(lines@).take(lines@.len() as int) =~= views(lines@));
    }
    out
}

/// Appends one root scan for each of `suffixes` appended to `base`.
pub fn append_scans(
    tasks: &mut Vec<Task>,
    base: &str,
    suffixes: &Vec<&'static str>,
    budget: u32,
    filtered: bool,
)
    ensures
        task_views(final(tasks)@) == task_views(old(tasks)@) + scans(
            base@,
            strs(suffixes@),
            budget,
            filtered,
        ),
{
    let ghost start = task_views(tasks@);
    let ghost all = scans(base@, strs(suffixes@), budget, filtered);
    let mut i: usize = 0;
    proof {
        assert(start + all.take(0) =~= start);
    }
    while i < suffixes.len()
        invariant
            i <= suffixes@.len(),
            all == scans(base@, strs(suffixes@), budget, filtered),
            task_views(tasks@) == start + all.take(i as int),
        decreases suffixes@.len() - i,
    {
        let ghost before = task_views(tasks@);
        let mut dir = String::from_str(base);
        dir.append(suffixes[i]);
        let task = Task::Scan { dir, depth: budget, level: 0, budget, filtered };
        proof {
            assert(strs(suffixes@)[i as int] == suffixes@[i as int]@);
            assert(task@ == all[i as int]);
        }
        tasks.push(task);
        proof {
            assert(task_views(tasks@) =~= before.push(task@));
            assert(start + all.take(i + 1) =~= (start + all.take(i as int)).push(all[i as int]));
        }
        i = i + 1;
    }
    proof {
        assert(all.take(suffixes@.len() as int) =~= all);
    }
}

/// The vendors' installation directories.
fn install_dir_names() -> (r: Vec<&'static str>)
    ensures
        strs(r@) == drive_install_dirs(),
{
    let r = vec![
        "Program Files\\Java",
        "Program Files (x86)\\Java",
        "Program Files\\Eclipse Adoptium",
        "Program Files\\AdoptOpenJDK",
        "Program Files\\Zulu",
        "Program Files\\BellSoft",
        "Program Files\\Amazon Corretto",
        "Program Files\\Microsoft",
        "Program Files\\Common Files\\Oracle\\Java\\javapath",
        "Program Files\\GraalVM",
    ];
    proof {
        assert(strs(r@) =~= drive_install_dirs());
    }
    r
}

/// The users' own directories.
fn custom_dir_names() -> (r: Vec<&'static str>)
    ensures
        strs(r@) == drive_custom_dirs(),
{
    let r = vec!["Java", "java", "jdk", "jre"];
    proof {
        assert(strs(r@) =~= drive_custom_dirs());
    }
    r
}

/// The game libraries.
fn game_dir_names() -> (r: Vec<&'static str>)
    ensures
        strs(r@) == drive_game_dirs(),
{
    let r = vec!["Game", "Games", "game", "games"];
    proof {
        assert(strs(r@) =~= drive_game_dirs());
    }
    r
}

/// The tool caches below a Windows-like profile.
fn profile_dir_names() -> (r: Vec<&'static str>)
    ensures
        strs(r@) == profile_dirs(),
{
    let r = vec![
        "\\AppData\\Roaming\\.minecraft\\runtime",
        "\\scoop\\apps",
        "\\.jdks",
        "\\.gradle\\jdks",
        "\\.sdkman\\candidates\\java",
        "\\AppData\\Local\\Programs",
    ];
    proof {
        assert(strs(r@) =~= profile_dirs());
    }
    r
}

/// The launcher runtimes below the application data.
fn app_data_dir_names() -> (r: Vec<&'static str>)
    ensures
        strs(r@) == app_data_dirs(),
{
    let r = vec!["\\..\\Roaming\\.minecraft\\runtime", "\\.minecraft\\runtime"];
    proof {
        assert(strs(r@) =~= app_data_dirs());
    }
    r
}

/// The system-wide installation roots.
fn system_jvm_dir_names() -> (r: Vec<&'static str>)
    ensures
        strs(r@) == system_jvm_dirs(),
{
    let r = vec!["/usr/lib/jvm", "/usr/local/lib/jvm", "/Library/Java/JavaVirtualMachines"];
    proof {
        assert(strs(r@) =~= system_jvm_dirs());
    }
    r
}

/// The tool caches below a Unix-like home.
fn home_dir_names() -> (r: Vec<&'static str>)
    ensures
        strs(r@) == home_dirs(),
{
    let r = vec!["/.jdks", "/.sdkman/candidates/java", "/.gradle/jdks"];
    proof {
        assert(strs(r@) =~= home_dirs());
    }
    r
}

/// Lists what is searched on the drive `root`.
pub fn drive_tasks_for(root: &str) -> (r: Vec<Task>)
    ensures
        task_views(r@) == drive_tasks(root@),
{
    let mut tasks: Vec<Task> = Vec::new();
    proof {
        assert(task_views(tasks@) =~= Seq::<TaskView>::empty());
    }
    append_scans(&mut tasks, root, &install_dir_names(), 2, false);
    append_scans(&mut tasks, root, &custom_dir_names(), 3, false);
    append_scans(&mut tasks, root, &game_dir_names(), 4, true);
    proof {
        assert(task_views(tasks@) =~= drive_tasks(root@));
    }
    tasks
}

/// Appends the checks of the 26 drive letters.
fn append_drive_checks(tasks: &mut Vec<Task>)
    ensures
        task_views(final(tasks)@) == task_views(old(tasks)@) + drive_checks(),
{
    let ghost start = task_views(tasks@);
    let mut i: u8 = 0;
    proof {
        assert(start + drive_checks().take(0) =~= start);
    }
    while i < 26
        invariant
            i <= 26,
            task_views(tasks@) == start + drive_checks().take(i as int),
        decreases 26 - i,
    {
        let ghost before = task_views(tasks@);
        let mut root = String::new();
        root.push((65 + i) as char);
        root.push(':');
        root.push('\\');
        let task = Task::Drive { root };
        proof {
            assert(root@ =~= drive_root(i as int));
            assert(task@ == drive_checks()[i as int]);
        }
        tasks.push(task);
        proof {
            assert(task_views(tasks@) =~= before.push(task@));
            assert(start + drive_checks().take(i + 1) =~= (start + drive_checks().take(
                i as int,
            )).push(drive_checks()[i as int]));
        }
        i = i + 1;
    }
    proof {
        assert(drive_checks().take(26) =~= drive_checks());
    }
}

/// Appends the root scans below `base`, where `base` is known.
fn append_scans_if(
    tasks: &mut Vec<Task>,
    base: &Option<String>,
    suffixes: &Vec<&'static str>,
    budget: u32,
    filtered: bool,
)
    ensures
        task_views(final(tasks)@) == task_views(old(tasks)@) + scans_if(
            text_view(*base),
            strs(suffixes@),
            budget,
            filtered,
        ),
{
    match base {
        Some(b) => append_scans(tasks, b.as_str(), suffixes, budget, filtered),
        None => {
            proof {
                assert(task_views(tasks@) + Seq::<TaskView>::empty() =~= task_views(tasks@));
            }
        },
    }
}

/// Lays out the tasks of a search, in the order in which they run.
pub fn search_plan(conv: PlatformConventions, env: &HostEnvironment) -> (r: Vec<Task>)
    ensures
        task_views(r@) == plan(conv, env@),
{
    let mut tasks: Vec<Task> = Vec::new();
    let first = Task::Fixed { path: String::from_str("java") };
    tasks.push(first);
    proof {
        assert(task_views(tasks@) =~= seq![first@]);
    }
    match &env.java_home {
        Some(home) => {
            let ghost before = task_views(tasks@);
            let check = Task::IfFile { path: conv.java_exe_under(home.as_str()) };
            tasks.push(check);
            proof {
                assert(task_views(tasks@) =~= before + preferred(conv, env@.java_home));
            }
        },
        None => {
            proof {
                assert(task_views(tasks@) =~= task_views(tasks@) + preferred(
                    conv,
                    env@.java_home,
                ));
            }
        },
    }
    let ghost head = task_views(tasks@);
    match conv {
        PlatformConventions::WindowsLike => {
            append_drive_checks(&mut tasks);
            append_scans_if(&mut tasks, &env.user_home, &profile_dir_names(), 4, false);
            append_scans_if(&mut tasks, &env.app_data, &app_data_dir_names(), 4, false);
            let ghost before = task_views(tasks@);
            let last = Task::Locate { name: String::from_str("java") };
            tasks.push(last);
            proof {
                assert(task_views(tasks@) =~= before + seq![last@]);
            }
        },
        _ => {
            let usr = Task::Fixed { path: String::from_str("/usr/bin/java") };
            let local = Task::Fixed { path: String::from_str("/usr/local/bin/java") };
            tasks.push(usr);
            tasks.push(local);
            proof {
                assert(task_views(tasks@) =~= head + seq![usr@, local@]);
                assert(""@ =~= Seq::<char>::empty()) by {
                    reveal_strlit("");
                }
            }
            append_scans(&mut tasks, "", &system_jvm_dir_names(), 3, false);
            append_scans_if(&mut tasks, &env.user_home, &home_dir_names(), 3, false);
        },
    }
    tasks
}

} // verus!
