use sea_lantern::locator::CandidateLocator;
use sea_lantern::plan::{drive_tasks_for, located_lines, search_plan, HostEnvironment};
use sea_lantern::platform::PlatformConventions;
use sea_lantern::scan::{scans_for, DirListing, Observation, SubDir, Task};

fn env(java_home: Option<&str>, user_home: Option<&str>, app_data: Option<&str>) -> HostEnvironment {
    HostEnvironment {
        java_home: java_home.map(str::to_string),
        user_home: user_home.map(str::to_string),
        app_data: app_data.map(str::to_string),
    }
}

fn describe(task: &Task) -> String {
    match task {
        Task::Fixed { path } => format!("fixed {}", path),
        Task::IfFile { path } => format!("file {}", path),
        Task::Drive { root } => format!("drive {}", root),
        Task::Scan { dir, depth, level, budget, filtered } => {
            format!("scan {} d{} l{} b{} {}", dir, depth, level, budget, if *filtered { "narrow" } else { "plain" })
        }
        Task::Locate { name } => format!("locate {}", name),
    }
}

fn sub(parent: &str, sep: &str, name: &str) -> SubDir {
    SubDir { path: format!("{}{}{}", parent, sep, name), name: name.to_string() }
}

fn absent() -> Observation {
    Observation::Listing(DirListing { present: false, executables: Vec::new(), subdirs: Vec::new() })
}

/// Runs a search against a host described by `observe`, and returns the
/// tasks in the order in which they were handed out, with the candidates.
fn run(mut search: CandidateLocator, observe: &dyn Fn(&Task) -> Observation) -> (Vec<String>, Vec<String>) {
    let mut asked = Vec::new();
    let mut steps = 0;
    while let Some(task) = search.next_task() {
        asked.push(describe(task));
        let seen = observe(task);
        search.advance(seen);
        steps += 1;
        assert!(steps < 10_000, "the search does not end");
    }
    assert!(search.is_done());
    let so_far = search.candidates().clone();
    let all = search.into_candidates();
    assert_eq!(so_far, all);
    (asked, all)
}

#[test]
fn unix_plan_in_order() {
    let plan = search_plan(PlatformConventions::UnixLike, &env(Some("/opt/jdk"), Some("/home/u"), Some("ignored")));
    let got: Vec<String> = plan.iter().map(describe).collect();
    assert_eq!(
        got,
        vec![
            "fixed java",
            "file /opt/jdk/bin/java",
            "fixed /usr/bin/java",
            "fixed /usr/local/bin/java",
            "scan /usr/lib/jvm d3 l0 b3 plain",
            "scan /usr/local/lib/jvm d3 l0 b3 plain",
            "scan /Library/Java/JavaVirtualMachines d3 l0 b3 plain",
            "scan /home/u/.jdks d3 l0 b3 plain",
            "scan /home/u/.sdkman/candidates/java d3 l0 b3 plain",
            "scan /home/u/.gradle/jdks d3 l0 b3 plain",
        ]
    );
}

#[test]
fn mac_plan_is_the_unix_plan() {
    let unix: Vec<String> =
        search_plan(PlatformConventions::UnixLike, &env(None, Some("/Users/u"), None)).iter().map(describe).collect();
    let mac: Vec<String> =
        search_plan(PlatformConventions::MacLike, &env(None, Some("/Users/u"), None)).iter().map(describe).collect();
    assert_eq!(unix, mac);
    assert_eq!(unix.len(), 9);
    assert_eq!(unix[0], "fixed java");
    assert_eq!(unix[1], "fixed /usr/bin/java");
}

#[test]
fn plan_without_environment() {
    let got: Vec<String> =
        search_plan(PlatformConventions::UnixLike, &env(None, None, None)).iter().map(describe).collect();
    assert_eq!(
        got,
        vec![
            "fixed java",
            "fixed /usr/bin/java",
            "fixed /usr/local/bin/java",
            "scan /usr/lib/jvm d3 l0 b3 plain",
            "scan /usr/local/lib/jvm d3 l0 b3 plain",
            "scan /Library/Java/JavaVirtualMachines d3 l0 b3 plain",
        ]
    );
    let windows = search_plan(PlatformConventions::WindowsLike, &env(None, None, None));
    assert_eq!(windows.len(), 1 + 26 + 1);
}

#[test]
fn windows_plan_in_order() {
    let plan = search_plan(
        PlatformConventions::WindowsLike,
        &env(Some("C:\\jdk"), Some("C:\\Users\\u"), Some("C:\\Users\\u\\AppData\\Roaming")),
    );
    let got: Vec<String> = plan.iter().map(describe).collect();
    assert_eq!(got.len(), 2 + 26 + 6 + 2 + 1);
    assert_eq!(got[0], "fixed java");
    assert_eq!(got[1], "file C:\\jdk\\bin\\java.exe");
    assert_eq!(got[2], "drive A:\\");
    assert_eq!(got[4], "drive C:\\");
    assert_eq!(got[27], "drive Z:\\");
    assert_eq!(
        &got[28..34],
        &[
            "scan C:\\Users\\u\\AppData\\Roaming\\.minecraft\\runtime d4 l0 b4 plain",
            "scan C:\\Users\\u\\scoop\\apps d4 l0 b4 plain",
            "scan C:\\Users\\u\\.jdks d4 l0 b4 plain",
            "scan C:\\Users\\u\\.gradle\\jdks d4 l0 b4 plain",
            "scan C:\\Users\\u\\.sdkman\\candidates\\java d4 l0 b4 plain",
            "scan C:\\Users\\u\\AppData\\Local\\Programs d4 l0 b4 plain",
        ]
    );
    assert_eq!(got[34], "scan C:\\Users\\u\\AppData\\Roaming\\..\\Roaming\\.minecraft\\runtime d4 l0 b4 plain");
    assert_eq!(got[35], "scan C:\\Users\\u\\AppData\\Roaming\\.minecraft\\runtime d4 l0 b4 plain");
    assert_eq!(got[36], "locate java");
}

#[test]
fn drive_tasks_in_order() {
    let got: Vec<String> = drive_tasks_for("D:\\").iter().map(describe).collect();
    assert_eq!(
        got,
        vec![
            "scan D:\\Program Files\\Java d2 l0 b2 plain",
            "scan D:\\Program Files (x86)\\Java d2 l0 b2 plain",
            "scan D:\\Program Files\\Eclipse Adoptium d2 l0 b2 plain",
            "scan D:\\Program Files\\AdoptOpenJDK d2 l0 b2 plain",
            "scan D:\\Program Files\\Zulu d2 l0 b2 plain",
            "scan D:\\Program Files\\BellSoft d2 l0 b2 plain",
            "scan D:\\Program Files\\Amazon Corretto d2 l0 b2 plain",
            "scan D:\\Program Files\\Microsoft d2 l0 b2 plain",
            "scan D:\\Program Files\\Common Files\\Oracle\\Java\\javapath d2 l0 b2 plain",
            "scan D:\\Program Files\\GraalVM d2 l0 b2 plain",
            "scan D:\\Java d3 l0 b3 plain",
            "scan D:\\java d3 l0 b3 plain",
            "scan D:\\jdk d3 l0 b3 plain",
            "scan D:\\jre d3 l0 b3 plain",
            "scan D:\\Game d4 l0 b4 narrow",
            "scan D:\\Games d4 l0 b4 narrow",
            "scan D:\\game d4 l0 b4 narrow",
            "scan D:\\games d4 l0 b4 narrow",
        ]
    );
}

#[test]
fn search_on_bare_host_finds_fixed_names_only() {
    let search = CandidateLocator::new(PlatformConventions::UnixLike, &env(Some("/opt/jdk"), None, None));
    let (asked, found) = run(search, &|task| match task {
        Task::IfFile { .. } => Observation::Present(false),
        Task::Scan { .. } => absent(),
        _ => Observation::Nothing,
    });
    assert_eq!(found, vec!["java", "/usr/bin/java", "/usr/local/bin/java"]);
    assert_eq!(asked.len(), 7);
    assert_eq!(asked[0], "fixed java");
    assert_eq!(asked[1], "file /opt/jdk/bin/java");
}

#[test]
fn preferred_installation_is_second_candidate() {
    let search = CandidateLocator::new(PlatformConventions::UnixLike, &env(Some("/opt/jdk"), None, None));
    let (_, found) = run(search, &|task| match task {
        Task::IfFile { .. } => Observation::Present(true),
        Task::Scan { .. } => absent(),
        _ => Observation::Nothing,
    });
    assert_eq!(found, vec!["java", "/opt/jdk/bin/java", "/usr/bin/java", "/usr/local/bin/java"]);
}

#[test]
fn mismatched_observations_count_as_nothing_found() {
    let search = CandidateLocator::new(PlatformConventions::WindowsLike, &env(Some("C:\\jdk"), None, None));
    let (asked, found) = run(search, &|task| match task {
        Task::IfFile { .. } => Observation::Nothing,
        Task::Drive { .. } => Observation::Output(Some("C:\\x\\java.exe".to_string())),
        Task::Locate { .. } => Observation::Present(true),
        _ => Observation::Present(true),
    });
    assert_eq!(found, vec!["java"]);
    assert_eq!(asked.len(), 2 + 26 + 1);
}

#[test]
fn plain_scan_is_depth_first_and_stops_at_its_budget() {
    // /usr/lib/jvm holds a chain a/b/c/d and a sibling z; every directory has an executable.
    let search = CandidateLocator::new(PlatformConventions::UnixLike, &env(None, None, None));
    let (asked, found) = run(search, &|task| match task {
        Task::Scan { dir, .. } if dir.starts_with("/usr/lib/jvm") => {
            let subdirs = match dir.as_str() {
                "/usr/lib/jvm" => vec![sub(dir, "/", "a"), sub(dir, "/", "z")],
                "/usr/lib/jvm/a" => vec![sub(dir, "/", "b")],
                "/usr/lib/jvm/a/b" => vec![sub(dir, "/", "c")],
                "/usr/lib/jvm/a/b/c" => vec![sub(dir, "/", "d")],
                _ => Vec::new(),
            };
            Observation::Listing(DirListing {
                present: true,
                executables: vec![format!("{}/bin/java", dir)],
                subdirs,
            })
        }
        Task::Scan { .. } => absent(),
        _ => Observation::Nothing,
    });
    let scans: Vec<&String> = asked.iter().filter(|a| a.starts_with("scan /usr/lib/jvm")).collect();
    assert_eq!(
        scans,
        vec![
            "scan /usr/lib/jvm d3 l0 b3 plain",
            "scan /usr/lib/jvm/a d2 l1 b3 plain",
            "scan /usr/lib/jvm/a/b d1 l2 b3 plain",
            "scan /usr/lib/jvm/z d2 l1 b3 plain",
        ]
    );
    assert_eq!(
        found,
        vec![
            "java",
            "/usr/bin/java",
            "/usr/local/bin/java",
            "/usr/lib/jvm/bin/java",
            "/usr/lib/jvm/a/bin/java",
            "/usr/lib/jvm/a/b/bin/java",
            "/usr/lib/jvm/z/bin/java",
        ]
    );
}

#[test]
fn scan_of_endless_tree_ends() {
    // Every directory holds two subdirectories, without end.
    let search = CandidateLocator::new(PlatformConventions::UnixLike, &env(None, None, None));
    let (asked, _) = run(search, &|task| match task {
        Task::Scan { dir, .. } => Observation::Listing(DirListing {
            present: true,
            executables: Vec::new(),
            subdirs: vec![sub(dir, "/", "jdk"), sub(dir, "/", "x")],
        }),
        _ => Observation::Nothing,
    });
    // Three roots, each visited on levels 0, 1 and 2: 1 + 2 + 4 directories.
    assert_eq!(asked.iter().filter(|a| a.starts_with("scan")).count(), 3 * 7);
    for a in &asked {
        assert!(!a.contains(" l3 "), "{} lies beyond the budget", a);
    }
}

#[test]
fn narrow_scan_prunes_unsuggestive_names() {
    let search = CandidateLocator::new(PlatformConventions::WindowsLike, &env(None, None, None));
    let (asked, found) = run(search, &|task| match task {
        Task::Drive { root } => Observation::Present(root == "G:\\"),
        Task::Scan { dir, filtered, .. } if dir.starts_with("G:\\Games") => {
            let subdirs = match dir.as_str() {
                "G:\\Games" => vec![sub(dir, "\\", "Steam"), sub(dir, "\\", "Minecraft Launcher")],
                "G:\\Games\\Minecraft Launcher" => vec![sub(dir, "\\", "Runtime"), sub(dir, "\\", "saves")],
                "G:\\Games\\Minecraft Launcher\\Runtime" => vec![sub(dir, "\\", "jre-legacy")],
                "G:\\Games\\Steam" => vec![sub(dir, "\\", "jdk")],
                _ => Vec::new(),
            };
            let executables = if dir.ends_with("jre-legacy") && !*filtered {
                vec![format!("{}\\bin\\java.exe", dir)]
            } else if *filtered {
                vec!["must-not-be-recorded".to_string()]
            } else {
                Vec::new()
            };
            Observation::Listing(DirListing { present: true, executables, subdirs })
        }
        Task::Scan { .. } => absent(),
        Task::Locate { .. } => Observation::Output(None),
        _ => Observation::Nothing,
    });
    let scans: Vec<&String> = asked.iter().filter(|a| a.starts_with("scan G:\\Games\\")).collect();
    assert_eq!(
        scans,
        vec![
            "scan G:\\Games\\Minecraft Launcher d3 l1 b4 plain",
            "scan G:\\Games\\Minecraft Launcher\\Runtime d2 l2 b4 plain",
            "scan G:\\Games\\Minecraft Launcher\\Runtime\\jre-legacy d1 l3 b4 plain",
            "scan G:\\Games\\Minecraft Launcher\\saves d2 l2 b4 plain",
            "scan G:\\Games\\Minecraft Launcher d3 l1 b4 narrow",
            "scan G:\\Games\\Minecraft Launcher\\Runtime d2 l2 b4 plain",
            "scan G:\\Games\\Minecraft Launcher\\Runtime\\jre-legacy d1 l3 b4 plain",
            "scan G:\\Games\\Minecraft Launcher\\Runtime d2 l2 b4 narrow",
            "scan G:\\Games\\Minecraft Launcher\\Runtime\\jre-legacy d1 l3 b4 plain",
            "scan G:\\Games\\Minecraft Launcher\\Runtime\\jre-legacy d1 l3 b4 narrow",
        ]
    );
    assert!(asked.iter().all(|a| !a.contains("Steam")));
    let exe = "G:\\Games\\Minecraft Launcher\\Runtime\\jre-legacy\\bin\\java.exe";
    assert_eq!(found, vec!["java", exe, exe, exe]);
}

#[test]
fn locator_lines_become_candidates() {
    let search = CandidateLocator::new(PlatformConventions::WindowsLike, &env(None, None, None));
    let (_, found) = run(search, &|task| match task {
        Task::Drive { .. } => Observation::Present(false),
        Task::Locate { name } => {
            assert_eq!(name, "java");
            Observation::Output(Some("C:\\a\\java.exe\r\n\r\n   \r\n  C:\\b b\\java.exe  \r\n".to_string()))
        }
        _ => Observation::Nothing,
    });
    assert_eq!(found, vec!["java", "C:\\a\\java.exe", "C:\\b b\\java.exe"]);
}

#[test]
fn located_lines_drop_blank_lines() {
    assert_eq!(located_lines(""), Vec::<String>::new());
    assert_eq!(located_lines("\n \n\t\n"), Vec::<String>::new());
    assert_eq!(located_lines(" /a \n/b"), vec!["/a", "/b"]);
}

#[test]
fn scans_below_last_level_are_none() {
    let subdirs = vec![sub("/r", "/", "jdk"), sub("/r", "/", "jre")];
    assert!(scans_for(&subdirs, 1, 2, 3, false).is_empty());
    assert!(scans_for(&subdirs, 1, 3, 4, true).is_empty());
    let below: Vec<String> = scans_for(&subdirs, 2, 0, 2, false).iter().map(describe).collect();
    assert_eq!(below, vec!["scan /r/jdk d1 l1 b2 plain", "scan /r/jre d1 l1 b2 plain"]);
    let narrow: Vec<String> = scans_for(&subdirs, 3, 1, 4, true).iter().map(describe).collect();
    assert_eq!(
        narrow,
        vec![
            "scan /r/jdk d2 l2 b4 plain",
            "scan /r/jdk d2 l2 b4 narrow",
            "scan /r/jre d2 l2 b4 plain",
            "scan /r/jre d2 l2 b4 narrow",
        ]
    );
}

#[test]
fn advancing_a_finished_search_changes_nothing() {
    let search = CandidateLocator::new(PlatformConventions::UnixLike, &env(None, None, None));
    let mut search = {
        let mut s = search;
        while s.next_task().is_some() {
            s.advance(Observation::Nothing);
        }
        s
    };
    let before = search.candidates().clone();
    search.advance(Observation::Present(true));
    assert!(search.is_done());
    assert_eq!(search.candidates(), &before);
}

#[test]
fn conventions_of_each_family() {
    let w = PlatformConventions::WindowsLike;
    let u = PlatformConventions::UnixLike;
    let m = PlatformConventions::MacLike;
    assert_eq!((w.exe_name(), u.exe_name(), m.exe_name()), ("java.exe", "java", "java"));
    assert_eq!((w.sep(), u.sep(), m.sep()), ("\\", "/", "/"));
    assert_eq!((w.locator(), u.locator(), m.locator()), ("where", "which", "which"));
    assert_eq!((w.home_variable(), u.home_variable()), ("USERPROFILE", "HOME"));
    assert_eq!((w.app_data_variable(), u.app_data_variable()), (Some("APPDATA"), None));
    assert_eq!(PlatformConventions::java_home_variable(), "JAVA_HOME");
    assert!(w.uses_locator() && !u.uses_locator() && !m.uses_locator());
    assert_eq!(w.executable_layouts(), vec![vec!["bin", "java.exe"], vec!["java.exe"]]);
    assert_eq!(u.executable_layouts(), vec![vec!["bin", "java"], vec!["Contents", "Home", "bin", "java"]]);
    assert_eq!(m.executable_layouts(), u.executable_layouts());
    assert_eq!(w.java_exe_under("C:\\jdk"), "C:\\jdk\\bin\\java.exe");
    assert_eq!(m.java_exe_under("/opt/jdk"), "/opt/jdk/bin/java");
}
