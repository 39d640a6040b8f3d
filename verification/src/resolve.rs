//! Choice of the directory whose marker file a command acts on.
//!
//! The tool starts from the working directory and may walk upward toward the
//! filesystem root, stopping at the first directory that already holds a
//! marker file. The walk itself is a filesystem matter; the decision is not:
//! given which ancestors hold a marker, `resolve_depth` says how many levels
//! to ascend.

use vstd::prelude::*;

verus! {

/// True if some entry of `has_marker` is set.
pub open spec fn some_marker(has_marker: Seq<bool>) -> bool {
    exists|i: int| 0 <= i < has_marker.len() && has_marker[i]
}

/// How many directory levels to ascend from the starting directory to reach
/// the directory whose marker file the tool should use.
///
/// `has_marker[i]` says whether the directory `i` levels above the starting
/// directory holds a marker file; entry `0` stands for the starting directory
/// itself and the last entry for the filesystem root. With the search
/// disabled the starting directory is chosen no matter what the ancestors
/// hold; with it enabled, the nearest directory that holds a marker is
/// chosen, and the starting directory if none does.
pub fn resolve_depth(recursive: bool, has_marker: &Vec<bool>) -> (depth: usize)
    ensures
        depth == 0 || depth < has_marker@.len(),
        !recursive ==> depth == 0,
        recursive && some_marker(has_marker@) ==> {
            &&& depth < has_marker@.len()
            &&& has_marker@[depth as int]
            &&& forall|i: int| 0 <= i < depth ==> !has_marker@[i]
        },
        recursive && !some_marker(has_marker@) ==> depth == 0,
{
    if !recursive {
        return 0;
    }
    let mut i: usize = 0;
    while i < has_marker.len()
        invariant
            recursive,
            i <= has_marker@.len(),
            forall|j: int| 0 <= j < i ==> !has_marker@[j],
        decreases has_marker@.len() - i,
    {
        if has_marker[i] {
            return i;
        }
        i = i + 1;
    }
    0
}

} // verus!
