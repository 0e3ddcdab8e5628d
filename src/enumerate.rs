//! Turning what the operating system reports about each process into
//! [`SysProc`] snapshots, for the Unix-style and the Windows-style listings.
use vstd::prelude::*;

use crate::model::{SnapView, SysProc};

verus! {

/// The placeholder that stands for an executable path that could not be
/// resolved: the reason, in angle brackets.
pub open spec fn placeholder(msg: Seq<char>) -> Seq<char> {
    seq!['<'] + msg + seq!['>']
}

/// Whether a path is absolute, in the Unix style (`/...`), the Windows UNC or
/// root style (`\...`) or the Windows drive style (`C:...`).
pub open spec fn is_absolute(p: Seq<char>) -> bool {
    p.len() > 0 && (p[0] == '/' || p[0] == '\\' || (p.len() > 1 && p[1] == ':' && (('a' <= p[0]
        <= 'z') || ('A' <= p[0] <= 'Z'))))
}

/// The path recorded for a process whose executable path lookup gave `exe`.
pub open spec fn resolved_path(exe: Result<String, String>) -> Seq<char> {
    match exe {
        Ok(p) => p@,
        Err(msg) => placeholder(msg@),
    }
}

/// Builds the placeholder path for a failed lookup.
fn make_placeholder(msg: &String) -> (r: String)
    ensures
        r@ == placeholder(msg@),
        !is_absolute(r@),
{
    let mut p = String::from_str("<");
    p.append(msg.as_str());
    p.append(">");
    proof {
        reveal_strlit("<");
        reveal_strlit(">");
    }
    assert(p@ =~= placeholder(msg@));
    p
}

/// The snapshot of one process of a Unix-style process table: its name, and
/// its executable path, or a placeholder when the lookup failed.
pub fn unix_snapshot(name: &String, exe: &Result<String, String>) -> (r: SysProc)
    ensures
        r@ == (SnapView { name: name@, exe_path: resolved_path(*exe) }),
{
    let exe_path = match exe {
        Ok(p) => p.clone(),
        Err(msg) => make_placeholder(msg),
    };
    SysProc { name: name.clone(), exe_path }
}

/// The snapshots of a whole Unix-style process table, one for each entry
/// and in the same order: an entry whose path lookup failed is kept, with a
/// placeholder path.
pub fn unix_snapshots(entries: &Vec<(String, Result<String, String>)>) -> (r: Vec<SysProc>)
    ensures
        r@.len() == entries@.len(),
        forall|k: int|
            0 <= k < r@.len() ==> (#[trigger] r@[k])@ == (SnapView {
                name: entries@[k].0@,
                exe_path: resolved_path(entries@[k].1),
            }),
{
    let mut out: Vec<SysProc> = Vec::new();
    let mut i: usize = 0;
    while i < entries.len()
        invariant
            i <= entries@.len(),
            out@.len() == i,
            forall|k: int|
                0 <= k < i ==> (#[trigger] out@[k])@ == (SnapView {
                    name: entries@[k].0@,
                    exe_path: resolved_path(entries@[k].1),
                }),
        decreases entries@.len() - i,
    {
        let entry = &entries[i];
        out.push(unix_snapshot(&entry.0, &entry.1));
        i = i + 1;
    }
    out
}

/// What to do after the operating system filled a process-id buffer.
#[derive(PartialEq, Eq, Structural, Clone, Copy, Debug)]
pub enum PidListStep {
    /// The list fit: its first `count` entries are every process id.
    Complete { count: usize },
    /// The buffer was full, so the list may be longer: ask again with a
    /// buffer of `capacity` entries.
    Grow { capacity: usize },
    /// The buffer was full and may not grow past the configured bound:
    /// only its first `count` entries are observed.
    Truncated { count: usize },
}

/// Decides on a process-id buffer of `capacity` entries of which the
/// operating system filled `filled`, when the buffer may hold at most
/// `max_capacity` entries. A full buffer doubles (or becomes one entry
/// when empty), up to the bound.
pub fn pid_list_step(capacity: usize, filled: usize, max_capacity: usize) -> (r: PidListStep)
    requires
        filled <= capacity,
    ensures
        filled < capacity ==> r == (PidListStep::Complete { count: filled }),
        filled == capacity && capacity < max_capacity ==> r == (PidListStep::Grow {
            capacity: if capacity == 0 {
                1
            } else if capacity <= max_capacity / 2 {
                (2 * capacity) as usize
            } else {
                max_capacity
            },
        }),
        filled == capacity && capacity >= max_capacity ==> r == (PidListStep::Truncated {
            count: capacity,
        }),
{
    if filled < capacity {
        PidListStep::Complete { count: filled }
    } else if capacity >= max_capacity {
        PidListStep::Truncated { count: capacity }
    } else if capacity == 0 {
        PidListStep::Grow { capacity: 1 }
    } else if capacity <= max_capacity / 2 {
        PidListStep::Grow { capacity: 2 * capacity }
    } else {
        PidListStep::Grow { capacity: max_capacity }
    }
}

/// The text that a sequence of UTF-16 code units decodes to, or `None` when
/// the units are not valid UTF-16.
pub uninterp spec fn utf16_text(units: Seq<u16>) -> Option<Seq<char>>;

/// Relies on String::from_utf16: decodes UTF-16 code units, failing on
/// invalid data (an unpaired surrogate).
#[verifier::external_body]
fn decode_utf16(units: &Vec<u16>) -> (r: Option<String>)
    ensures
        match r {
            Some(t) => utf16_text(units@) == Some(t@),
            None => utf16_text(units@) is None,
        },
{
    match String::from_utf16(units) {
        Ok(t) => Some(t),
        Err(_) => None,
    }
}

/// The code units of a fixed-size wide-character buffer up to its first
/// terminating zero (all of them when there is none).
pub open spec fn until_nul(b: Seq<u16>) -> Seq<u16>
    decreases b.len(),
{
    if b.len() == 0 {
        b
    } else if b[0] == 0 {
        Seq::empty()
    } else {
        seq![b[0]] + until_nul(b.drop_first())
    }
}

proof fn lemma_until_nul(b: Seq<u16>, k: int)
    requires
        0 <= k <= b.len(),
        forall|j: int| 0 <= j < k ==> b[j] != 0,
        k == b.len() || b[k] == 0,
    ensures
        until_nul(b) == b.subrange(0, k),
    decreases b.len(),
{
    if k == 0 {
        assert(b.subrange(0, 0) =~= Seq::<u16>::empty());
    } else {
        let t = b.drop_first();
        assert forall|j: int| 0 <= j < k - 1 implies t[j] != 0 by {
            assert(t[j] == b[j + 1]);
        }
        lemma_until_nul(t, k - 1);
        assert(b.subrange(0, k) =~= seq![b[0]] + t.subrange(0, k - 1));
    }
}

/// Cuts a wide-character buffer at its first terminating zero.
pub fn truncate_at_nul(b: &Vec<u16>) -> (r: Vec<u16>)
    ensures
        r@ == until_nul(b@),
{
    let mut out: Vec<u16> = Vec::new();
    let mut i: usize = 0;
    while i < b.len() && b[i] != 0
        invariant
            i <= b@.len(),
            out@ == b@.subrange(0, i as int),
            forall|j: int| 0 <= j < i ==> b@[j] != 0,
        decreases b@.len() - i,
    {
        out.push(b[i]);
        assert(out@ =~= b@.subrange(0, i + 1));
        i = i + 1;
    }
    proof {
        lemma_until_nul(b@, i as int);
    }
    out
}

/// The snapshot that a Windows-style process listing yields from the name
/// and path buffers of one process: both are cut at their first zero and
/// decoded; the process is left out when either fails to decode or is empty.
pub open spec fn win_snapshot_spec(name_units: Seq<u16>, path_units: Seq<u16>) -> Option<SnapView> {
    match (utf16_text(until_nul(name_units)), utf16_text(until_nul(path_units))) {
        (Some(n), Some(p)) => if n.len() > 0 && p.len() > 0 {
            Some(SnapView { name: n, exe_path: p })
        } else {
            None
        },
        _ => None,
    }
}

/// Decodes the name and path buffers of one process of a Windows-style
/// listing into a snapshot, or `None` when the process is to be left out.
pub fn win_snapshot(name_units: &Vec<u16>, path_units: &Vec<u16>) -> (r: Option<SysProc>)
    ensures
        match r {
            Some(s) => win_snapshot_spec(name_units@, path_units@) == Some(s@),
            None => win_snapshot_spec(name_units@, path_units@) is None,
        },
{
    let name = match decode_utf16(&truncate_at_nul(name_units)) {
        Some(t) => t,
        None => {
            return None;
        },
    };
    let exe_path = match decode_utf16(&truncate_at_nul(path_units)) {
        Some(t) => t,
        None => {
            return None;
        },
    };
    if name.as_str().unicode_len() == 0 || exe_path.as_str().unicode_len() == 0 {
        return None;
    }
    Some(SysProc { name, exe_path })
}

} // verus!
