//! The columns of a workspace and the windows that stand in them.

use std::collections::HashMap;

use vstd::prelude::*;
use vstd::std_specs::iter::IteratorSpec;

use crate::compositor::Window;
use crate::windows::{column_of, lemma_walks, tiled_on, walks};

verus! {

broadcast use vstd::std_specs::hash::group_hash_axioms;

/// Window `k` stands in column `c` of the workspace.
pub open spec fn in_column(
    windows: Map<u64, Window>,
    workspace_id: u64,
    k: u64,
    c: usize,
) -> bool {
    &&& windows.contains_key(k)
    &&& tiled_on(windows[k], workspace_id)
    &&& column_of(windows[k]) == Some(c)
}

/// The columns of the workspace that hold a window.
pub open spec fn columns(windows: Map<u64, Window>, workspace_id: u64) -> Set<usize> {
    Set::new(|c: usize| exists|k: u64| in_column(windows, workspace_id, k, c))
}

/// How many of the columns stand at or before column `c`.
pub open spec fn rank(columns: Set<usize>, c: usize) -> nat {
    columns.filter(|d: usize| d <= c).len()
}

/// Each entry is larger than those before it.
pub open spec fn ascending(s: Seq<usize>) -> bool {
    forall|i: int, j: int| 0 <= i < j < s.len() ==> s[i] < s[j]
}

/// The entries of an ascending list, counted as a set.
pub proof fn lemma_ascending_len(s: Seq<usize>)
    requires
        ascending(s),
    ensures
        s.to_set().finite(),
        s.to_set().len() == s.len(),
{
    assert(s.no_duplicates());
    s.unique_seq_to_set();
}

/// In an ascending list, the rank of an entry is its position, counted from one.
pub proof fn lemma_ascending_rank(s: Seq<usize>, i: int)
    requires
        ascending(s),
        0 <= i < s.len(),
    ensures
        rank(s.to_set(), s[i]) == i + 1,
{
    let prefix: Seq<usize> = s.take(i + 1);
    lemma_ascending_len(prefix);
    assert(s.to_set().filter(|d: usize| d <= s[i]) =~= prefix.to_set()) by {
        assert forall|d: usize| s.to_set().contains(d) && d <= s[i] implies prefix.contains(d) by {
            let j: int = choose|j: int| 0 <= j < s.len() && s[j] == d;
            assert(j <= i);
            assert(prefix[j] == d);
        }
        assert forall|d: usize| prefix.contains(d) implies s.contains(d) && d <= s[i] by {
            let j: int = choose|j: int| 0 <= j < prefix.len() && prefix[j] == d;
            assert(s[j] == d);
        }
    }
}

/// Adds `c` to an ascending list, unless it is there.
pub fn insert_ascending(list: &mut Vec<usize>, c: usize)
    requires
        ascending(old(list)@),
    ensures
        ascending(final(list)@),
        final(list)@.to_set() == old(list)@.to_set().insert(c),
{
    let ghost before: Seq<usize> = list@;
    let mut i: usize = 0;
    while i < list.len() && list[i] < c
        invariant
            i <= list@.len(),
            list@ == before,
            forall|j: int| 0 <= j < i ==> list@[j] < c,
        decreases list@.len() - i,
    {
        i = i + 1;
    }
    if i < list.len() && list[i] == c {
        assert(before.to_set().contains(c)) by {
            assert(before[i as int] == c);
        }
        assert(before.to_set().insert(c) =~= before.to_set());
        return ;
    }
    list.insert(i, c);
    proof {
        let after: Seq<usize> = list@;
        assert(after == before.insert(i as int, c));
        assert(after.to_set() =~= before.to_set().insert(c)) by {
            assert forall|d: usize| before.contains(d) || d == c implies after.contains(d) by {
                if d == c {
                    assert(after[i as int] == c);
                } else {
                    let j: int = choose|j: int| 0 <= j < before.len() && before[j] == d;
                    if j < i {
                        assert(after[j] == d);
                    } else {
                        assert(after[j + 1] == d);
                    }
                }
            }
            assert forall|d: usize| after.contains(d) implies before.contains(d) || d == c by {
                let j: int = choose|j: int| 0 <= j < after.len() && after[j] == d;
                if j < i {
                    assert(before[j] == d);
                } else if j > i {
                    assert(before[j - 1] == d);
                }
            }
        }
    }
}

/// The columns of the workspace, in ascending order.
pub fn collect_columns(windows: &HashMap<u64, Window>, workspace_id: u64) -> (res: Vec<usize>)
    ensures
        ascending(res@),
        res@.to_set() == columns(windows@, workspace_id),
{
    let mut res: Vec<usize> = Vec::new();
    let ghost walk: Seq<&Window> = windows.values().remaining();
    proof {
        lemma_walks(windows@, walk);
    }
    for w in it: windows.values()
        invariant
            ascending(res@),
            it.seq() == walk,
            walks(windows@, walk),
            forall|i: int|
                0 <= i < it.index() && tiled_on(*#[trigger] walk[i], workspace_id) && column_of(
                    *walk[i],
                ) is Some ==> res@.to_set().contains(column_of(*walk[i])->0),
            forall|c: usize| #[trigger]
                res@.to_set().contains(c) ==> columns(windows@, workspace_id).contains(c),
    {
        assert(*w == *walk[it.index() as int]);
        if w.workspace_id == Some(workspace_id) && !w.is_floating {
            if let Some(pos) = w.layout.pos_in_scrolling_layout {
                proof {
                    let k: u64 = choose|k: u64| #[trigger]
                        windows@.contains_key(k) && windows@[k] == *w;
                    assert(in_column(windows@, workspace_id, k, pos.0));
                }
                insert_ascending(&mut res, pos.0);
            }
        }
    }
    proof {
        assert forall|c: usize| columns(windows@, workspace_id).contains(c) implies #[trigger]
            res@.to_set().contains(c) by {
            let k: u64 = choose|k: u64| in_column(windows@, workspace_id, k, c);
            assert(windows@.contains_key(k));
        }
        assert(res@.to_set() =~= columns(windows@, workspace_id));
    }
    res
}

} // verus!
