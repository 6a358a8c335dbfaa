//! Where `{wyvern_share}` and a wizard's root are found: the choices made
//! while walking up the directory tree. What is on disk is looked up by the
//! caller, which hands over one flag per directory of the walk.

use vstd::prelude::*;
use crate::text::{copy_string, owned};

verus! {

/// Index of the first directory at or after `i` whose flag is set.
pub open spec fn first_marked(marks: Seq<bool>, i: int) -> Option<int>
    decreases marks.len() - i,
{
    if i < 0 || i >= marks.len() {
        None
    } else if marks[i] {
        Some(i)
    } else {
        first_marked(marks, i + 1)
    }
}

/// The first directory at or after `i` that `first_marked` picks is flagged,
/// lies in range, and every one before it is not flagged.
pub proof fn lemma_first_marked(marks: Seq<bool>, i: int)
    requires
        0 <= i,
    ensures
        match first_marked(marks, i) {
            Some(k) => i <= k < marks.len() && marks[k] && forall|j: int|
                i <= j < k ==> !#[trigger] marks[j],
            None => forall|j: int| i <= j < marks.len() ==> !#[trigger] marks[j],
        },
    decreases marks.len() - i,
{
    if i < marks.len() && !marks[i] {
        lemma_first_marked(marks, i + 1);
    }
}

/// Index of the first flagged entry of `marks`, by a scan.
fn first_marked_index(marks: &Vec<bool>) -> (r: Option<usize>)
    ensures
        match first_marked(marks@, 0) {
            Some(k) => 0 <= k < marks.len() && r == Some(k as usize),
            None => r is None,
        },
{
    proof {
        lemma_first_marked(marks@, 0);
    }
    let mut i: usize = 0;
    while i < marks.len()
        invariant
            i <= marks.len(),
            first_marked(marks@, 0) == first_marked(marks@, i as int),
        decreases marks.len() - i,
    {
        if marks[i] {
            return Some(i);
        }
        i = i + 1;
    }
    None
}

/// The first of `ancestors` (a directory, then its parents in order) that
/// holds `share/wyvern/extensions.json`, as `has_share` says of each.
pub fn find_workspace_root(ancestors: &Vec<String>, has_share: &Vec<bool>) -> (r: Option<String>)
    requires
        ancestors.len() == has_share.len(),
    ensures
        match first_marked(has_share@, 0) {
            Some(k) => r matches Some(s) && s@ == ancestors@[k]@,
            None => r is None,
        },
{
    match first_marked_index(has_share) {
        Some(k) => Some(copy_string(&ancestors[k])),
        None => None,
    }
}

/// The share directory used when nothing else is found.
pub open spec fn fallback_share() -> Seq<char> {
    "share/wyvern"@
}

/// `{wyvern_share}`: the `WYVERN_SHARE` value when set; else the share that
/// was materialized from the first workspace found above one of the start
/// directories; else the extracted embedded share, when extraction is on and
/// succeeded; else `share/wyvern`.
pub fn resolve_wyvern_share_with(
    share_var: Option<&str>,
    workspace_share: Option<&str>,
    use_embedded: bool,
    embedded_share: Option<&str>,
) -> (r: String)
    ensures
        match (share_var, workspace_share, embedded_share) {
            (Some(v), _, _) => r@ == v@,
            (None, Some(w), _) => r@ == w@,
            (None, None, Some(e)) => if use_embedded {
                r@ == e@
            } else {
                r@ == fallback_share()
            },
            (None, None, None) => r@ == fallback_share(),
        },
{
    if let Some(v) = share_var {
        return owned(v);
    }
    if let Some(w) = workspace_share {
        return owned(w);
    }
    if use_embedded {
        if let Some(e) = embedded_share {
            return owned(e);
        }
    }
    let r = owned("share/wyvern");
    proof {
        reveal_strlit("share/wyvern");
    }
    r
}

/// A wizard's root: the first of `ancestors` (the file's directory, then its
/// parents in order) where `is_root` says `wizard.json` or `pages/` exists;
/// the file's directory `start` when there is none.
pub fn infer_wizard_root(start: &str, ancestors: &Vec<String>, is_root: &Vec<bool>) -> (r: String)
    requires
        ancestors.len() == is_root.len(),
    ensures
        match first_marked(is_root@, 0) {
            Some(k) => r@ == ancestors@[k]@,
            None => r@ == start@,
        },
{
    match first_marked_index(is_root) {
        Some(k) => copy_string(&ancestors[k]),
        None => owned(start),
    }
}

} // verus!
