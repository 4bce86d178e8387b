//! Argument decoding of the boot control command-line tool.

use vstd::prelude::*;

verus! {

/// Snapshot merge status of the boot control HAL.
#[allow(non_camel_case_types)]
#[derive(Copy, Clone, Debug, PartialEq, Eq, Structural)]
pub enum MergeStatus {
    NONE,
    UNKNOWN,
    SNAPSHOTTED,
    MERGING,
    CANCELLED,
}

/// The merge status that a command-line word names, for the words the tool accepts.
pub open spec fn merge_status_named(arg: Seq<char>) -> Option<MergeStatus> {
    if arg == "NONE"@ {
        Some(MergeStatus::NONE)
    } else if arg == "UNKNOWN"@ {
        Some(MergeStatus::UNKNOWN)
    } else if arg == "SNAPSHOTTED"@ {
        Some(MergeStatus::SNAPSHOTTED)
    } else if arg == "MERGING"@ {
        Some(MergeStatus::MERGING)
    } else if arg == "CANCELLED"@ {
        Some(MergeStatus::CANCELLED)
    } else {
        None
    }
}

/// Decode a merge status word. The command line admits only the five words, so any
/// other is ruled out by the caller.
pub fn parse_merge_status(arg: String) -> (r: Result<MergeStatus, std::convert::Infallible>)
    requires
        merge_status_named(arg@) is Some,
    ensures
        r == Ok::<MergeStatus, std::convert::Infallible>(merge_status_named(arg@)->0),
{
    let status = if arg == "NONE".to_owned() {
        MergeStatus::NONE
    } else if arg == "UNKNOWN".to_owned() {
        MergeStatus::UNKNOWN
    } else if arg == "SNAPSHOTTED".to_owned() {
        MergeStatus::SNAPSHOTTED
    } else if arg == "MERGING".to_owned() {
        MergeStatus::MERGING
    } else {
        MergeStatus::CANCELLED
    };
    Ok(status)
}

/// The command-line word of a merge status: the status's own name.
pub open spec fn status_word(s: MergeStatus) -> Seq<char> {
    match s {
        MergeStatus::NONE => "NONE"@,
        MergeStatus::UNKNOWN => "UNKNOWN"@,
        MergeStatus::SNAPSHOTTED => "SNAPSHOTTED"@,
        MergeStatus::MERGING => "MERGING"@,
        MergeStatus::CANCELLED => "CANCELLED"@,
    }
}

/// Law: a word decodes to a status exactly when it is that status's own name, so every
/// status has one word and no two words decode to the same status.
pub proof fn lemma_merge_status_words(w: Seq<char>, s: MergeStatus)
    ensures
        merge_status_named(w) == Some(s) <==> w == status_word(s),
{
    reveal_strlit("NONE");
    reveal_strlit("UNKNOWN");
    reveal_strlit("SNAPSHOTTED");
    reveal_strlit("MERGING");
    reveal_strlit("CANCELLED");
    assert("NONE"@.len() == 4 && "UNKNOWN"@.len() == 7 && "SNAPSHOTTED"@.len() == 11
        && "MERGING"@.len() == 7 && "CANCELLED"@.len() == 9);
    assert("UNKNOWN"@[0] != "MERGING"@[0]);
}

} // verus!
