use sea_lantern::discovery::{collect_distinct, contains_path, detect_java_installations, rank_by_major};
use sea_lantern::probe::{validate_java, JavaInfo, ProbeReport};

fn runtime(candidate: &str, resolved: &str, version: &str) -> ProbeReport {
    ProbeReport {
        candidate: candidate.to_string(),
        launched: true,
        stdout: String::new(),
        stderr: format!("openjdk version \"{}\"\nOpenJDK 64-Bit Server VM\n", version),
        absolute_and_present: false,
        located: Some(format!("{}\n", resolved)),
    }
}

fn dead(candidate: &str) -> ProbeReport {
    ProbeReport {
        candidate: candidate.to_string(),
        launched: false,
        stdout: String::new(),
        stderr: String::new(),
        absolute_and_present: false,
        located: None,
    }
}

fn info(path: &str, major: u32) -> JavaInfo {
    JavaInfo {
        path: path.to_string(),
        version: format!("{}", major),
        vendor: "openjdk".to_string(),
        is_64bit: true,
        major_version: major,
    }
}

fn paths(infos: &[JavaInfo]) -> Vec<String> {
    infos.iter().map(|i| i.path.clone()).collect()
}

#[test]
fn discovery_of_nothing_is_empty() {
    assert!(detect_java_installations(&Vec::new()).is_empty());
    assert!(detect_java_installations(&vec![dead("java"), dead("/usr/bin/java")]).is_empty());
}

#[test]
fn discovery_skips_failures_and_ranks_newest_first() {
    let reports = vec![
        runtime("java", "/usr/lib/jvm/8/bin/java", "1.8.0_311"),
        dead("/usr/local/bin/java"),
        runtime("/usr/lib/jvm/21/bin/java", "/usr/lib/jvm/21/bin/java", "21.0.1"),
        runtime("/usr/lib/jvm/17/bin/java", "/usr/lib/jvm/17/bin/java", "17.0.2"),
    ];
    let found = detect_java_installations(&reports);
    assert_eq!(
        paths(&found),
        vec!["/usr/lib/jvm/21/bin/java", "/usr/lib/jvm/17/bin/java", "/usr/lib/jvm/8/bin/java"]
    );
    let majors: Vec<u32> = found.iter().map(|i| i.major_version).collect();
    assert_eq!(majors, vec![21, 17, 8]);
}

#[test]
fn discovery_keeps_first_descriptor_of_a_path() {
    let reports = vec![
        runtime("java", "/usr/lib/jvm/17/bin/java", "17.0.2"),
        runtime("/usr/bin/java", "/usr/lib/jvm/17/bin/java", "17.0.9"),
        runtime("/usr/lib/jvm/17/bin/java", "/usr/lib/jvm/17/bin/java", "17.0.5"),
    ];
    let found = detect_java_installations(&reports);
    assert_eq!(found.len(), 1);
    assert_eq!(found[0].path, "/usr/lib/jvm/17/bin/java");
    assert_eq!(found[0].version, "17.0.2");
}

#[test]
fn discovery_has_no_path_twice() {
    let reports = vec![
        runtime("a", "/p/1", "11"),
        runtime("b", "/p/2", "17"),
        runtime("c", "/p/1", "21"),
        runtime("d", "/p/3", "17"),
        runtime("e", "/p/2", "8"),
        runtime("f", "/p/3", "17"),
    ];
    let found = detect_java_installations(&reports);
    assert_eq!(paths(&found), vec!["/p/2", "/p/3", "/p/1"]);
    for i in 0..found.len() {
        for j in (i + 1)..found.len() {
            assert_ne!(found[i].path, found[j].path);
        }
    }
}

#[test]
fn discovery_neighbours_are_ranked() {
    let versions = ["11", "1.8.0", "21", "garbage", "17", "21.0.2", "1.7", "17.0.1", "9"];
    let reports: Vec<ProbeReport> = versions
        .iter()
        .enumerate()
        .map(|(i, v)| runtime("c", &format!("/p/{}", i), v))
        .collect();
    let found = detect_java_installations(&reports);
    assert_eq!(found.len(), versions.len());
    for pair in found.windows(2) {
        assert!(pair[0].major_version >= pair[1].major_version);
    }
    assert_eq!(
        paths(&found),
        vec!["/p/2", "/p/5", "/p/4", "/p/7", "/p/0", "/p/8", "/p/1", "/p/6", "/p/3"]
    );
}

#[test]
fn ranking_is_stable() {
    let found = vec![info("/a", 17), info("/b", 21), info("/c", 17), info("/d", 21), info("/e", 17)];
    let ranked = rank_by_major(&found);
    assert_eq!(paths(&ranked), vec!["/b", "/d", "/a", "/c", "/e"]);
}

#[test]
fn ranking_agrees_with_std_stable_sort() {
    let majors = [3u32, 0, 7, 7, 1, 3, 0, 9, 3, 7, 2, 2, 9, 0];
    let found: Vec<JavaInfo> = majors.iter().enumerate().map(|(i, m)| info(&format!("/{}", i), *m)).collect();
    let mut expected: Vec<(String, u32)> = found.iter().map(|i| (i.path.clone(), i.major_version)).collect();
    expected.sort_by(|a, b| b.1.cmp(&a.1));
    let ranked: Vec<(String, u32)> =
        rank_by_major(&found).iter().map(|i| (i.path.clone(), i.major_version)).collect();
    assert_eq!(ranked, expected);
}

#[test]
fn distinct_collection_keeps_report_order() {
    let reports = vec![
        runtime("a", "/p/1", "11"),
        dead("x"),
        runtime("b", "/p/2", "17"),
        runtime("c", "/p/1", "21"),
    ];
    let found = collect_distinct(&reports);
    assert_eq!(paths(&found), vec!["/p/1", "/p/2"]);
    assert_eq!(found[0].major_version, 11);
    assert!(contains_path(&found, &"/p/2".to_string()));
    assert!(!contains_path(&found, &"/p/3".to_string()));
}

#[test]
fn validating_a_discovered_path_gives_it_back() {
    let reports = vec![
        runtime("java", "/usr/lib/jvm/17/bin/java", "17.0.2"),
        runtime("/opt/jdk8/bin/java", "/opt/jdk8/bin/java", "1.8.0_311"),
    ];
    for found in detect_java_installations(&reports) {
        let again = ProbeReport {
            candidate: found.path.clone(),
            launched: true,
            stdout: String::new(),
            stderr: format!("openjdk version \"{}\"\n", found.version),
            absolute_and_present: true,
            located: None,
        };
        let info = validate_java(&again).expect("a discovered runtime validates");
        assert_eq!(info.path, found.path);
        assert_eq!(info.major_version, found.major_version);
    }
}
