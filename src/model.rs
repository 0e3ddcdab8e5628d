//! The data model: critical-process rules, observed processes and findings.
use vstd::prelude::*;

verus! {

/// A critical process: its canonical name, the largest edit distance that
/// still counts as impersonating it, and the paths it may legitimately run from.
#[derive(Clone, Debug)]
pub struct ProcProps {
    pub name: String,
    pub threshold: u32,
    pub whitelist: Vec<String>,
}

/// Mathematical view of a [`ProcProps`].
pub ghost struct RuleView {
    pub name: Seq<char>,
    pub threshold: nat,
    pub whitelist: Seq<Seq<char>>,
}

/// The text of each string in a vector.
pub open spec fn texts(v: Seq<String>) -> Seq<Seq<char>> {
    v.map_values(|p: String| p@)
}

impl View for ProcProps {
    type V = RuleView;

    open spec fn view(&self) -> RuleView {
        RuleView {
            name: self.name@,
            threshold: self.threshold as nat,
            whitelist: texts(self.whitelist@),
        }
    }
}

impl ProcProps {
    /// A rule is well formed when its name is not empty.
    pub open spec fn wf(&self) -> bool {
        self.name@.len() > 0
    }
}

/// One running process as observed at scan time: its short name and the
/// path of its executable image (or a placeholder when that path could not
/// be resolved).
#[derive(Clone, Debug)]
pub struct SysProc {
    pub name: String,
    pub exe_path: String,
}

/// Mathematical view of a [`SysProc`].
pub ghost struct SnapView {
    pub name: Seq<char>,
    pub exe_path: Seq<char>,
}

impl View for SysProc {
    type V = SnapView;

    open spec fn view(&self) -> SnapView {
        SnapView { name: self.name@, exe_path: self.exe_path@ }
    }
}

/// An observed process that impersonates a critical one.
#[derive(Clone, Debug)]
pub struct Finding {
    pub observed_name: String,
    pub rule_name: String,
    pub distance: usize,
    pub exe_path: String,
}

/// Mathematical view of a [`Finding`].
pub ghost struct FindingView {
    pub observed_name: Seq<char>,
    pub rule_name: Seq<char>,
    pub distance: nat,
    pub exe_path: Seq<char>,
}

impl View for Finding {
    type V = FindingView;

    open spec fn view(&self) -> FindingView {
        FindingView {
            observed_name: self.observed_name@,
            rule_name: self.rule_name@,
            distance: self.distance as nat,
            exe_path: self.exe_path@,
        }
    }
}

/// Whether `path` is, letter for letter, one of the whitelisted paths.
pub fn is_whitelisted(proc_path: &str, whitelist: &Vec<String>) -> (r: bool)
    ensures
        r == texts(whitelist@).contains(proc_path@),
{
    let path = String::from_str(proc_path);
    let mut i: usize = 0;
    while i < whitelist.len()
        invariant
            i <= whitelist@.len(),
            path@ == proc_path@,
            forall|k: int| 0 <= k < i ==> whitelist@[k]@ != proc_path@,
        decreases whitelist@.len() - i,
    {
        if whitelist[i] == path {
            assert(texts(whitelist@)[i as int] == proc_path@);
            return true;
        }
        i = i + 1;
    }
    assert(!texts(whitelist@).contains(proc_path@)) by {
        if texts(whitelist@).contains(proc_path@) {
            let k = choose|k: int| 0 <= k < texts(whitelist@).len() && texts(whitelist@)[k] == proc_path@;
            assert(whitelist@[k]@ == proc_path@);
        }
    }
    false
}

} // verus!
