use bonomen::detect::{check_procs_impers, match_pair};
use bonomen::model::{is_whitelisted, ProcProps, SysProc};

fn rule(name: &str, threshold: u32, whitelist: &[&str]) -> ProcProps {
    ProcProps {
        name: name.to_string(),
        threshold,
        whitelist: whitelist.iter().map(|p| p.to_string()).collect(),
    }
}

fn snap(name: &str, exe_path: &str) -> SysProc {
    SysProc { name: name.to_string(), exe_path: exe_path.to_string() }
}

fn distance_between(a: &str, b: &str) -> usize {
    let report = check_procs_impers(&vec![rule(b, u32::MAX, &[])], &vec![snap(a, "/x")]);
    if report.findings.is_empty() {
        0
    } else {
        report.findings[0].distance
    }
}

#[test]
fn end_to_end_scenario() {
    let rules = vec![rule("svchost", 1, &["/usr/bin/svchost"])];
    let procs = vec![
        snap("scvhost", "/tmp/evil/scvhost"),
        snap("svchost", "/usr/bin/svchost"),
        snap("notepad", "/usr/bin/notepad"),
    ];
    let report = check_procs_impers(&rules, &procs);
    assert_eq!(report.suspicious, 1);
    assert_eq!(report.findings.len(), 1);
    let f = &report.findings[0];
    assert_eq!(f.observed_name, "scvhost");
    assert_eq!(f.rule_name, "svchost");
    assert_eq!(f.distance, 1);
    assert_eq!(f.exe_path, "/tmp/evil/scvhost");
}

#[test]
fn identical_name_never_flagged() {
    let rules = vec![rule("svchost", 5, &[])];
    let procs = vec![snap("svchost", "/tmp/anywhere/svchost")];
    let report = check_procs_impers(&rules, &procs);
    assert_eq!(report.suspicious, 0);
    assert!(report.findings.is_empty());
}

#[test]
fn near_name_outside_whitelist_flagged_once() {
    let rules = vec![rule("lsass", 2, &["/sbin/lsass"])];
    let procs = vec![snap("lsas", "/tmp/lsas")];
    let report = check_procs_impers(&rules, &procs);
    assert_eq!(report.suspicious, 1);
    assert_eq!(report.findings[0].distance, 1);
}

#[test]
fn near_name_inside_whitelist_not_flagged() {
    let rules = vec![rule("lsass", 2, &["/sbin/other", "/sbin/lsas"])];
    let procs = vec![snap("lsas", "/sbin/lsas")];
    let report = check_procs_impers(&rules, &procs);
    assert_eq!(report.suspicious, 0);
}

#[test]
fn whitelist_match_is_exact() {
    let rules = vec![rule("lsass", 2, &["/sbin/LSAS"])];
    let procs = vec![snap("lsas", "/sbin/lsas")];
    assert_eq!(check_procs_impers(&rules, &procs).suspicious, 1);
}

#[test]
fn distance_above_threshold_not_flagged() {
    let rules = vec![rule("svchost", 1, &[])];
    let procs = vec![snap("svhst", "/tmp/svhst")];
    assert_eq!(check_procs_impers(&rules, &procs).suspicious, 0);
}

#[test]
fn distance_is_symmetric() {
    let pairs = [("scvhost", "svchost"), ("ab", "bca"), ("", "init"), ("kworker", "kwroker"), ("sshd", "systemd")];
    for (a, b) in pairs.iter() {
        assert_eq!(distance_between(a, b), distance_between(b, a));
    }
}

#[test]
fn transposition_counts_once() {
    assert_eq!(distance_between("scvhost", "svchost"), 1);
    assert_eq!(distance_between("ab", "bca"), 2);
    assert_eq!(distance_between("", "init"), 4);
}

#[test]
fn one_finding_per_matching_rule() {
    let rules = vec![rule("svchost", 2, &[]), rule("svchosts", 2, &[]), rule("explorer", 2, &[])];
    let procs = vec![snap("svchst", "/tmp/a"), snap("explorr", "/tmp/b")];
    let report = check_procs_impers(&rules, &procs);
    assert_eq!(report.suspicious, 3);
    let names: Vec<(String, String, usize)> = report
        .findings
        .iter()
        .map(|f| (f.observed_name.clone(), f.rule_name.clone(), f.distance))
        .collect();
    assert_eq!(
        names,
        vec![
            ("svchst".to_string(), "svchost".to_string(), 1),
            ("svchst".to_string(), "svchosts".to_string(), 2),
            ("explorr".to_string(), "explorer".to_string(), 1),
        ]
    );
}

#[test]
fn empty_inputs_give_no_findings() {
    assert_eq!(check_procs_impers(&vec![], &vec![snap("a", "/a")]).suspicious, 0);
    assert_eq!(check_procs_impers(&vec![rule("a", 3, &[])], &vec![]).suspicious, 0);
}

#[test]
fn match_pair_decides_on_given_distance() {
    let r = rule("svchost", 2, &["/ok"]);
    assert!(match_pair(&snap("x", "/bad"), &r, 0).is_none());
    assert!(match_pair(&snap("x", "/bad"), &r, 3).is_none());
    assert!(match_pair(&snap("x", "/ok"), &r, 1).is_none());
    let f = match_pair(&snap("x", "/bad"), &r, 2).unwrap();
    assert_eq!(f.observed_name, "x");
    assert_eq!(f.rule_name, "svchost");
    assert_eq!(f.distance, 2);
    assert_eq!(f.exe_path, "/bad");
}

#[test]
fn whitelist_membership() {
    let wl = vec!["/usr/bin/a".to_string(), "/usr/bin/b".to_string()];
    assert!(is_whitelisted("/usr/bin/b", &wl));
    assert!(!is_whitelisted("/usr/bin/B", &wl));
    assert!(!is_whitelisted("/usr/bin/b/", &wl));
    assert!(!is_whitelisted("", &vec![]));
}
