//! The three-way comparison of a save on the device, its copy on Steam and the last version
//! that both had in common.
use vstd::prelude::*;

use crate::text::same_text;

verus! {

/// What the comparison of a slot comes to.
#[derive(Debug, Clone, Copy, PartialEq, Eq, Structural)]
pub enum SyncDecision {
    /// Neither side changed.
    Unchanged,
    /// Only the device changed.
    UploadLocal,
    /// Only Steam changed.
    DownloadRemote,
    /// Both changed to the same save.
    Converged,
    /// Both changed to different saves.
    Conflict,
    /// The slot was never synchronized, so there is nothing to tell who changed.
    FirstSyncChoiceRequired,
}

/// What the hashes of the device's save, of Steam's copy and of the last common version come
/// to.
pub open spec fn decision(base: Option<Seq<char>>, local: Seq<char>, remote: Seq<char>) -> SyncDecision {
    match base {
        None => SyncDecision::FirstSyncChoiceRequired,
        Some(base) => if local == base && remote == base {
            SyncDecision::Unchanged
        } else if remote == base {
            SyncDecision::UploadLocal
        } else if local == base {
            SyncDecision::DownloadRemote
        } else if local == remote {
            SyncDecision::Converged
        } else {
            SyncDecision::Conflict
        },
    }
}

/// What the hashes of the device's save, of Steam's copy and of the last common version come
/// to.
pub fn decide(base: Option<&str>, local: &str, remote: &str) -> (result: SyncDecision)
    ensures
        result == decision(
            match base {
                Some(base) => Some(base@),
                None => None,
            },
            local@,
            remote@,
        ),
{
    let base: &str = match base {
        Some(base) => base,
        None => return SyncDecision::FirstSyncChoiceRequired,
    };
    let local_same: bool = same_text(local, base);
    let remote_same: bool = same_text(remote, base);
    match (local_same, remote_same) {
        (true, true) => SyncDecision::Unchanged,
        (false, true) => SyncDecision::UploadLocal,
        (true, false) => SyncDecision::DownloadRemote,
        (false, false) => if same_text(local, remote) {
            SyncDecision::Converged
        } else {
            SyncDecision::Conflict
        },
    }
}

/// How a decision is named in the log.
pub open spec fn label(decision: SyncDecision) -> Seq<char> {
    match decision {
        SyncDecision::Unchanged => "unchanged"@,
        SyncDecision::UploadLocal => "local-only change"@,
        SyncDecision::DownloadRemote => "remote-only change"@,
        SyncDecision::Converged => "already converged"@,
        SyncDecision::Conflict => "true divergence"@,
        SyncDecision::FirstSyncChoiceRequired => "first sync choice required"@,
    }
}

/// How a decision is named in the log.
pub fn decision_label(decision: SyncDecision) -> (text: &'static str)
    ensures
        text@ == label(decision),
{
    match decision {
        SyncDecision::Unchanged => "unchanged",
        SyncDecision::UploadLocal => "local-only change",
        SyncDecision::DownloadRemote => "remote-only change",
        SyncDecision::Converged => "already converged",
        SyncDecision::Conflict => "true divergence",
        SyncDecision::FirstSyncChoiceRequired => "first sync choice required",
    }
}

/// A side is replaced only where the other side alone changed: its own version is then the
/// last common one, and nothing is lost. Without a last common version nothing is replaced.
pub proof fn no_change_is_overwritten(
    base: Option<Seq<char>>,
    local: Seq<char>,
    remote: Seq<char>,
)
    ensures
        decision(base, local, remote) is UploadLocal ==> base == Some(remote) && local != remote,
        decision(base, local, remote) is DownloadRemote ==> base == Some(local) && local != remote,
        base is None <==> decision(base, local, remote) is FirstSyncChoiceRequired,
{
}

/// The two sides are treated alike: with their roles exchanged an upload becomes a download,
/// and every other result stays.
pub proof fn sides_are_symmetric(base: Option<Seq<char>>, local: Seq<char>, remote: Seq<char>)
    ensures
        decision(base, remote, local) == match decision(base, local, remote) {
            SyncDecision::UploadLocal => SyncDecision::DownloadRemote,
            SyncDecision::DownloadRemote => SyncDecision::UploadLocal,
            other => other,
        },
{
}

/// Once both sides have the same save as the last common version, nothing remains to do; and
/// where they agree without it, that save becomes the last common version.
pub proof fn agreement_settles(common: Seq<char>, base: Seq<char>)
    ensures
        decision(Some(common), common, common) is Unchanged,
        decision(Some(base), common, common) is Converged || base == common,
{
}

} // verus!
