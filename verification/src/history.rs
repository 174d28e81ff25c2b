//! Which commits of the repository's history are kept as context: walking
//! the commits newest first, a commit is kept when it is within the time
//! window and touched a changed file, and the walk stops once enough are
//! kept. The caller walks the repository and hands each commit over.
use vstd::prelude::*;
use crate::context::{commit_models, CommitModel, CommitSummary};
use crate::reference::{components, components_eq, path_components};
use crate::text::{chars_of, seqs};

verus! {

/// The start of the time window: `max_days` days before `now_secs`, or the
/// epoch when that would lie before it (seconds since the epoch).
pub open spec fn cutoff_spec(now_secs: u64, max_days: u32) -> u64 {
    let span = max_days as int * 86400;
    if span <= now_secs {
        (now_secs - span) as u64
    } else {
        0
    }
}

pub fn history_cutoff(now_secs: u64, max_days: u32) -> (r: u64)
    ensures
        r == cutoff_spec(now_secs, max_days),
{
    let span: u64 = max_days as u64 * 86400;
    if span <= now_secs {
        now_secs - span
    } else {
        0
    }
}

/// A commit at `date_secs` is within the window that starts at `cutoff`.
pub fn in_history_window(date_secs: i64, cutoff: i64) -> (r: bool)
    ensures
        r == (date_secs >= cutoff),
{
    date_secs >= cutoff
}

/// Some path a commit changed is one of the changed files, compared as
/// paths (by their components).
pub open spec fn touches_spec(files: Seq<Seq<char>>, changed: Seq<Seq<char>>) -> bool {
    exists|i: int, j: int|
        0 <= i < files.len() && 0 <= j < changed.len() && components(#[trigger] files[i]) == components(#[trigger] changed[j])
}

pub fn touches_changed_file(files: &Vec<String>, changed: &Vec<String>) -> (r: bool)
    ensures
        r == touches_spec(files@.map_values(|s: String| s@), changed@.map_values(|s: String| s@)),
{
    let ghost fs = files@.map_values(|s: String| s@);
    let ghost cs = changed@.map_values(|s: String| s@);
    let mut j: usize = 0;
    while j < changed.len()
        invariant
            j <= changed@.len(),
            fs == files@.map_values(|s: String| s@),
            cs == changed@.map_values(|s: String| s@),
            forall|a: int, b: int| 0 <= a < fs.len() && 0 <= b < j ==> components(fs[a]) != components(cs[b]),
        decreases changed.len() - j,
    {
        let cc = chars_of(changed[j].as_str());
        let cp = path_components(cc.as_slice());
        let mut i: usize = 0;
        while i < files.len()
            invariant
                i <= files@.len(),
                j < changed@.len(),
                fs == files@.map_values(|s: String| s@),
                cs == changed@.map_values(|s: String| s@),
                seqs(cp@) == components(cs[j as int]),
                forall|a: int| 0 <= a < i ==> components(fs[a]) != components(cs[j as int]),
            decreases files.len() - i,
        {
            let fc = chars_of(files[i].as_str());
            let fp = path_components(fc.as_slice());
            assert(fs[i as int] == files@[i as int]@);
            if components_eq(&fp, &cp) {
                assert(components(fs[i as int]) == components(cs[j as int]));
                return true;
            }
            i += 1;
        }
        j += 1;
    }
    false
}

pub open spec fn commit_model(c: CommitSummary) -> CommitModel {
    (c.sha@, c.message@, c.author@, c.date_secs)
}

/// One commit of the walk: kept when within the window and touching a
/// changed file; the walk stops once `max_commits` are kept.
pub open spec fn history_step_spec(kept: Seq<CommitModel>, c: CommitModel, touched: bool, cutoff: i64, max_commits: usize) -> (Seq<CommitModel>, bool) {
    if c.3 < cutoff || !touched {
        (kept, false)
    } else {
        (kept.push(c), kept.len() + 1 >= max_commits)
    }
}

/// Takes one commit of the walk: `touched` says whether it touched a changed
/// file (not looked at outside the window). Returns whether the walk stops.
pub fn history_step(kept: &mut Vec<CommitSummary>, c: CommitSummary, touched: bool, cutoff: i64, max_commits: usize) -> (stop: bool)
    ensures
        (commit_models(final(kept)@), stop) == history_step_spec(commit_models(old(kept)@), commit_model(c), touched, cutoff, max_commits),
{
    if c.date_secs < cutoff || !touched {
        return false;
    }
    let ghost before = commit_models(kept@);
    kept.push(c);
    assert(commit_models(kept@) =~= before.push(commit_model(c)));
    kept.len() >= max_commits
}

/// The walk keeps only commits within the window, and stops as soon as it
/// has kept `max_commits` (at least one).
pub proof fn law_history_bounded(kept: Seq<CommitModel>, c: CommitModel, touched: bool, cutoff: i64, max_commits: usize)
    requires
        kept.len() < max_commits,
        forall|i: int| 0 <= i < kept.len() ==> (#[trigger] kept[i]).3 >= cutoff,
    ensures
        ({
            let (k, stop) = history_step_spec(kept, c, touched, cutoff, max_commits);
            &&& k.len() <= max_commits
            &&& (stop <==> k.len() == max_commits)
            &&& forall|i: int| 0 <= i < k.len() ==> (#[trigger] k[i]).3 >= cutoff
        }),
{
}

} // verus!
