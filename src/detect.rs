//! The impersonation detector: every observed process against every rule.
use vstd::prelude::*;

use crate::model::{is_whitelisted, texts, Finding, FindingView, ProcProps, RuleView, SnapView, SysProc};

verus! {

/// The Damerau-Levenshtein distance between two names, as computed by the
/// edit-distance primitive.
pub uninterp spec fn dl_distance(a: Seq<char>, b: Seq<char>) -> nat;

/// Relies on strsim::damerau_levenshtein: the unrestricted Damerau-Levenshtein
/// distance over the characters of the two strings, which is zero for equal strings.
#[verifier::external_body]
fn damerau_levenshtein(a: &str, b: &str) -> (r: usize)
    ensures
        r as nat == dl_distance(a@, b@),
        a@ == b@ ==> r == 0,
{
    strsim::damerau_levenshtein(a, b)
}

/// The views of a sequence of rules.
pub open spec fn rule_views(rules: Seq<ProcProps>) -> Seq<RuleView> {
    rules.map_values(|r: ProcProps| r@)
}

/// The views of a sequence of observed processes.
pub open spec fn snap_views(procs: Seq<SysProc>) -> Seq<SnapView> {
    procs.map_values(|s: SysProc| s@)
}

/// The views of a sequence of findings.
pub open spec fn finding_views(fs: Seq<Finding>) -> Seq<FindingView> {
    fs.map_values(|f: Finding| f@)
}

/// The findings of one (process, rule) pair, given the distance between their
/// names: one finding when the distance is positive, within the rule's
/// threshold, and the process runs from outside the whitelist; none otherwise.
pub open spec fn pair_findings(s: SnapView, r: RuleView, d: nat) -> Seq<FindingView> {
    if 0 < d <= r.threshold && !r.whitelist.contains(s.exe_path) {
        seq![FindingView { observed_name: s.name, rule_name: r.name, distance: d, exe_path: s.exe_path }]
    } else {
        Seq::empty()
    }
}

/// The findings of one (process, rule) pair.
pub open spec fn impersonations(s: SnapView, r: RuleView) -> Seq<FindingView> {
    pair_findings(s, r, dl_distance(s.name, r.name))
}

/// The findings of one process against every rule, in rule order.
pub open spec fn proc_findings(s: SnapView, rules: Seq<RuleView>) -> Seq<FindingView>
    decreases rules.len(),
{
    if rules.len() == 0 {
        Seq::empty()
    } else {
        proc_findings(s, rules.drop_last()) + impersonations(s, rules.last())
    }
}

/// The findings of a whole scan: process by process, each against every rule.
pub open spec fn scan_findings(rules: Seq<RuleView>, procs: Seq<SnapView>) -> Seq<FindingView>
    decreases procs.len(),
{
    if procs.len() == 0 {
        Seq::empty()
    } else {
        scan_findings(rules, procs.drop_last()) + proc_findings(procs.last(), rules)
    }
}

/// The view of an optional finding, as a sequence of zero or one finding.
pub open spec fn opt_findings(o: Option<Finding>) -> Seq<FindingView> {
    match o {
        Some(f) => seq![f@],
        None => Seq::empty(),
    }
}

/// What a scan produced: the findings, and how many there are.
#[derive(Clone, Debug)]
pub struct ScanReport {
    pub findings: Vec<Finding>,
    pub suspicious: usize,
}

/// Decides one (process, rule) pair, given the edit distance between the
/// process's name and the rule's name.
pub fn match_pair(snap: &SysProc, rule: &ProcProps, distance: usize) -> (r: Option<Finding>)
    ensures
        opt_findings(r) == pair_findings(snap@, rule@, distance as nat),
        r is Some <==> 0 < distance <= rule.threshold && !texts(rule.whitelist@).contains(
            snap.exe_path@,
        ),
        r matches Some(f) ==> f@ == (FindingView {
            observed_name: snap.name@,
            rule_name: rule.name@,
            distance: distance as nat,
            exe_path: snap.exe_path@,
        }),
{
    if distance > 0 && distance <= rule.threshold as usize
        && !is_whitelisted(snap.exe_path.as_str(), &rule.whitelist) {
        Some(Finding {
            observed_name: snap.name.clone(),
            rule_name: rule.name.clone(),
            distance,
            exe_path: snap.exe_path.clone(),
        })
    } else {
        None
    }
}

/// Checks every observed process against every rule. The findings come
/// process by process, and for each process in rule order; a process may match
/// several rules, and no finding pairs a process with a rule of the same name.
pub fn check_procs_impers(rules: &Vec<ProcProps>, procs: &Vec<SysProc>) -> (r: ScanReport)
    ensures
        finding_views(r.findings@) == scan_findings(rule_views(rules@), snap_views(procs@)),
        r.suspicious == r.findings@.len(),
        forall|k: int|
            0 <= k < r.findings@.len() ==> r.findings@[k]@.observed_name
                != r.findings@[k]@.rule_name,
{
    let ghost rv = rule_views(rules@);
    let ghost sv = snap_views(procs@);
    let mut findings: Vec<Finding> = Vec::new();
    let mut i: usize = 0;
    while i < procs.len()
        invariant
            i <= procs@.len(),
            rv == rule_views(rules@),
            sv == snap_views(procs@),
            finding_views(findings@) == scan_findings(rv, sv.subrange(0, i as int)),
            forall|k: int|
                0 <= k < findings@.len() ==> findings@[k]@.observed_name
                    != findings@[k]@.rule_name,
        decreases procs@.len() - i,
    {
        let snap = &procs[i];
        let ghost before = finding_views(findings@);
        let mut j: usize = 0;
        while j < rules.len()
            invariant
                i < procs@.len(),
                j <= rules@.len(),
                rv == rule_views(rules@),
                sv == snap_views(procs@),
                *snap == procs@[i as int],
                finding_views(findings@) == before + proc_findings(snap@, rv.subrange(0, j as int)),
                forall|k: int|
                    0 <= k < findings@.len() ==> findings@[k]@.observed_name
                        != findings@[k]@.rule_name,
            decreases rules@.len() - j,
        {
            let rule = &rules[j];
            let d = damerau_levenshtein(snap.name.as_str(), rule.name.as_str());
            let found = match_pair(snap, rule, d);
            let ghost mid = finding_views(findings@);
            assert(rv.subrange(0, j + 1).drop_last() =~= rv.subrange(0, j as int));
            assert(rv[j as int] == rule@);
            match found {
                Some(f) => {
                    assert(opt_findings(Some(f))[0] == f@);
                    findings.push(f);
                    assert(finding_views(findings@) =~= mid.push(f@));
                },
                None => {},
            }
            assert(finding_views(findings@) =~= before + proc_findings(snap@, rv.subrange(0, j + 1)));
            j = j + 1;
        }
        assert(rv.subrange(0, rules@.len() as int) =~= rv);
        assert(sv.subrange(0, i + 1).drop_last() =~= sv.subrange(0, i as int));
        assert(sv[i as int] == snap@);
        i = i + 1;
    }
    assert(sv.subrange(0, procs@.len() as int) =~= sv);
    let suspicious = findings.len();
    ScanReport { findings, suspicious }
}

} // verus!
