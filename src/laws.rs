//! Properties of the detector and of the enumerators, proved over their specifications.
use vstd::prelude::*;

use crate::detect::{dl_distance, impersonations, proc_findings, scan_findings};
use crate::enumerate::{is_absolute, placeholder};
use crate::model::{FindingView, RuleView, SnapView};

verus! {

/// A process whose name is within a rule's threshold of the rule's name, but
/// not equal to it, and which runs from outside the rule's whitelist, gives
/// exactly one finding against that rule, which carries its name, the rule's
/// name, the distance and its path.
pub proof fn lemma_near_name_outside_whitelist_flagged(r: RuleView, s: SnapView)
    requires
        0 < dl_distance(s.name, r.name) <= r.threshold,
        !r.whitelist.contains(s.exe_path),
    ensures
        impersonations(s, r) == seq![
            FindingView {
                observed_name: s.name,
                rule_name: r.name,
                distance: dl_distance(s.name, r.name),
                exe_path: s.exe_path,
            },
        ],
        scan_findings(seq![r], seq![s]) == impersonations(s, r),
{
    lemma_single_pair_scan(r, s);
}

/// A process that runs from a path on a rule's whitelist gives no finding
/// against that rule, whatever the distance between the names.
pub proof fn lemma_whitelisted_never_flagged(r: RuleView, s: SnapView)
    requires
        r.whitelist.contains(s.exe_path),
    ensures
        impersonations(s, r).len() == 0,
        scan_findings(seq![r], seq![s]).len() == 0,
{
    lemma_single_pair_scan(r, s);
}

/// Scanning one process against one rule yields that pair's findings.
pub proof fn lemma_single_pair_scan(r: RuleView, s: SnapView)
    ensures
        scan_findings(seq![r], seq![s]) == impersonations(s, r),
{
    let rs = seq![r];
    let ss = seq![s];
    assert(ss.drop_last() =~= Seq::<SnapView>::empty());
    assert(rs.drop_last() =~= Seq::<RuleView>::empty());
    assert(ss.last() == s && rs.last() == r);
    assert(scan_findings(rs, ss.drop_last()) == Seq::<FindingView>::empty());
    assert(proc_findings(s, rs.drop_last()) == Seq::<FindingView>::empty());
    assert(proc_findings(s, rs) =~= impersonations(s, r));
    assert(scan_findings(rs, ss) =~= impersonations(s, r));
}

/// The placeholder path of a process whose path lookup failed never equals
/// a whitelist entry of a rule whose entries are all absolute paths.
pub proof fn lemma_placeholder_never_whitelisted(msg: Seq<char>, r: RuleView)
    requires
        forall|k: int| 0 <= k < r.whitelist.len() ==> is_absolute(#[trigger] r.whitelist[k]),
    ensures
        !r.whitelist.contains(placeholder(msg)),
{
    let p = placeholder(msg);
    assert(p[0] == '<');
    if r.whitelist.contains(p) {
        let k = choose|k: int| 0 <= k < r.whitelist.len() && r.whitelist[k] == p;
        assert(is_absolute(r.whitelist[k]));
    }
}

} // verus!
