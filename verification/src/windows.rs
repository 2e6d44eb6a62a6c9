//! The windows that the agent knows, by their ids.

use std::collections::HashMap;

use vstd::prelude::*;
use vstd::std_specs::iter::IteratorSpec;

use crate::compositor::{Window, WindowLayout};

verus! {

broadcast use vstd::std_specs::hash::group_hash_axioms;

/// The window is on the workspace and takes part in its layout.
pub open spec fn tiled_on(window: Window, workspace_id: u64) -> bool {
    window.workspace_id == Some(workspace_id) && !window.is_floating
}

/// The window is tiled on the workspace and has the focus.
pub open spec fn focused_on(window: Window, workspace_id: u64) -> bool {
    tiled_on(window, workspace_id) && window.is_focused
}

/// The column that the window stands in, if it stands in one.
pub open spec fn column_of(window: Window) -> Option<usize> {
    match window.layout.pos_in_scrolling_layout {
        Some(pos) => Some(pos.0),
        None => None,
    }
}

/// Each window is kept under its own id.
pub open spec fn windows_by_id(windows: Map<u64, Window>) -> bool {
    forall|k: u64| #[trigger] windows.contains_key(k) ==> windows[k].id == k
}

/// The workspace that window `id` is on, if the window and its workspace are known.
pub open spec fn workspace_of(windows: Map<u64, Window>, id: u64) -> Option<u64> {
    if windows.contains_key(id) {
        windows[id].workspace_id
    } else {
        None
    }
}

/// As [`workspace_of`], where there is a window to look for.
pub open spec fn workspace_of_opt(windows: Map<u64, Window>, id: Option<u64>) -> Option<u64> {
    match id {
        Some(id) => workspace_of(windows, id),
        None => None,
    }
}

/// The windows by their ids; of two with one id, the later one.
pub open spec fn by_id(windows: Seq<Window>) -> Map<u64, Window>
    decreases windows.len(),
{
    if windows.len() == 0 {
        Map::empty()
    } else {
        by_id(windows.drop_last()).insert(windows.last().id, windows.last())
    }
}

/// The windows, with the focus on window `id` alone.
pub open spec fn focus_on(windows: Map<u64, Window>, id: Option<u64>) -> Map<u64, Window> {
    windows.map_entries(|k: u64, w: Window| Window { is_focused: Some(k) == id, ..w })
}

/// Moving the focus keeps the windows that there are.
pub proof fn lemma_focus_on(windows: Map<u64, Window>, id: Option<u64>)
    ensures
        focus_on(windows, id).dom() == windows.dom(),
{
    assert(focus_on(windows, id).dom() =~= windows.dom());
}

/// The windows, with new layouts for those that are known.
pub open spec fn with_layouts(
    windows: Map<u64, Window>,
    changes: Seq<(u64, WindowLayout)>,
) -> Map<u64, Window>
    decreases changes.len(),
{
    if changes.len() == 0 {
        windows
    } else {
        let rest = with_layouts(windows, changes.drop_last());
        let (id, layout) = changes.last();
        if rest.contains_key(id) {
            rest.insert(id, Window { layout, ..rest[id] })
        } else {
            rest
        }
    }
}

/// `pick` is a window that is tiled and focused on the workspace, or there is no such window.
pub open spec fn is_focused_pick(
    windows: Map<u64, Window>,
    workspace_id: u64,
    pick: Option<Window>,
) -> bool {
    match pick {
        Some(w) => holds(windows, w) && focused_on(w, workspace_id),
        None => forall|k: u64| #[trigger]
            windows.contains_key(k) ==> !focused_on(windows[k], workspace_id),
    }
}

/// `pick` is the id of a window that stands in a column of the workspace, or there is none.
pub open spec fn is_replacement(
    windows: Map<u64, Window>,
    workspace_id: u64,
    pick: Option<u64>,
) -> bool {
    match pick {
        Some(k) => {
            &&& windows.contains_key(k)
            &&& tiled_on(windows[k], workspace_id)
            &&& column_of(windows[k]) is Some
        },
        None => forall|k: u64| #[trigger]
            windows.contains_key(k) ==> !(tiled_on(windows[k], workspace_id) && column_of(
                windows[k],
            ) is Some),
    }
}

/// The map holds the window, under some key.
pub open spec fn holds(windows: Map<u64, Window>, window: Window) -> bool {
    exists|k: u64| #[trigger] windows.contains_key(k) && windows[k] == window
}

/// The walk comes by the window.
pub open spec fn meets(walk: Seq<&Window>, window: Window) -> bool {
    exists|i: int| 0 <= i < walk.len() && *#[trigger] walk[i] == window
}

/// The walk meets every window of the map, and nothing else.
pub open spec fn walks(windows: Map<u64, Window>, walk: Seq<&Window>) -> bool {
    &&& forall|i: int| 0 <= i < walk.len() ==> holds(windows, *#[trigger] walk[i])
    &&& forall|k: u64| #[trigger] windows.contains_key(k) ==> meets(walk, windows[k])
}

/// A walk with the values of a map as its entries meets every window of the map.
pub proof fn lemma_walks(windows: Map<u64, Window>, walk: Seq<&Window>)
    requires
        walk.unref().to_set() == windows.values(),
    ensures
        walks(windows, walk),
{
    assert forall|i: int| 0 <= i < walk.len() implies holds(windows, *#[trigger] walk[i]) by {
        assert(walk.unref()[i] == *walk[i]);
        assert(walk.unref().to_set().contains(*walk[i]));
        assert(windows.values().contains(*walk[i]));
    }
    assert forall|k: u64| #[trigger] windows.contains_key(k) implies meets(walk, windows[k]) by {
        assert(windows.values().contains(windows[k]));
        assert(walk.unref().contains(windows[k]));
        let i: int = choose|i: int| 0 <= i < walk.unref().len() && walk.unref()[i] == windows[k];
        assert(*walk[i] == windows[k]);
    }
}

/// A window that is tiled and focused on the workspace, if there is one. Of several, any may come
/// back.
pub fn find_focused(windows: &HashMap<u64, Window>, workspace_id: u64) -> (res: Option<Window>)
    ensures
        is_focused_pick(windows@, workspace_id, res),
{
    let ghost walk: Seq<&Window> = windows.values().remaining();
    proof {
        lemma_walks(windows@, walk);
    }
    for w in it: windows.values()
        invariant
            it.seq() == walk,
            walks(windows@, walk),
            forall|i: int|
                0 <= i < it.index() ==> !focused_on(*#[trigger] walk[i], workspace_id),
    {
        assert(*w == *walk[it.index() as int]);
        if w.workspace_id == Some(workspace_id) && w.is_focused && !w.is_floating {
            return Some(*w);
        }
    }
    None
}

/// A window that stands in a column of the workspace, if there is one. Of several, any may come
/// back.
pub fn find_replacement(windows: &HashMap<u64, Window>, workspace_id: u64) -> (res: Option<u64>)
    requires
        windows_by_id(windows@),
    ensures
        is_replacement(windows@, workspace_id, res),
{
    let ghost walk: Seq<&Window> = windows.values().remaining();
    proof {
        lemma_walks(windows@, walk);
    }
    for w in it: windows.values()
        invariant
            it.seq() == walk,
            walks(windows@, walk),
            windows_by_id(windows@),
            forall|i: int|
                0 <= i < it.index() ==> !(tiled_on(*#[trigger] walk[i], workspace_id) && column_of(
                    *walk[i],
                ) is Some),
    {
        assert(*w == *walk[it.index() as int]);
        if w.workspace_id == Some(workspace_id) && !w.is_floating
            && w.layout.pos_in_scrolling_layout.is_some() {
            return Some(w.id);
        }
    }
    None
}

/// The windows by their ids; of two with one id, the later one.
pub fn index_windows(windows: Vec<Window>) -> (res: HashMap<u64, Window>)
    ensures
        res@ == by_id(windows@),
{
    let mut res: HashMap<u64, Window> = HashMap::new();
    let mut i: usize = 0;
    while i < windows.len()
        invariant
            i <= windows@.len(),
            res@ == by_id(windows@.take(i as int)),
        decreases windows@.len() - i,
    {
        let window: Window = windows[i];
        assert(windows@.take(i + 1).drop_last() =~= windows@.take(i as int));
        res.insert(window.id, window);
        i = i + 1;
    }
    assert(windows@.take(i as int) =~= windows@);
    res
}

/// Puts the focus on window `id` alone.
pub fn move_focus(windows: &mut HashMap<u64, Window>, id: Option<u64>)
    ensures
        final(windows)@ == focus_on(old(windows)@, id),
{
    let ghost before: Map<u64, Window> = windows@;
    let ids: Vec<u64> = list_ids(windows);
    let mut i: usize = 0;
    while i < ids.len()
        invariant
            i <= ids@.len(),
            ids@.to_set() == before.dom(),
            windows@.dom() == before.dom(),
            forall|k: u64| #[trigger]
                before.contains_key(k) ==> windows@[k] == before[k] || windows@[k] == focus_on(
                    before,
                    id,
                )[k],
            forall|j: int|
                0 <= j < i ==> windows@[#[trigger] ids@[j]] == focus_on(before, id)[ids@[j]],
        decreases ids@.len() - i,
    {
        let k: u64 = ids[i];
        assert(ids@.to_set().contains(k));
        if let Some(w) = windows.get(&k) {
            let mut changed: Window = *w;
            changed.is_focused = Some(k) == id;
            windows.insert(k, changed);
        }
        i = i + 1;
    }
    proof {
        assert forall|k: u64| #[trigger] before.contains_key(k) implies windows@[k] == focus_on(
            before,
            id,
        )[k] by {
            assert(ids@.to_set().contains(k));
            let j: int = choose|j: int| 0 <= j < ids@.len() && ids@[j] == k;
            assert(windows@[ids@[j]] == focus_on(before, id)[ids@[j]]);
        }
        assert(windows@ =~= focus_on(before, id));
    }
}

/// The ids of the windows, in no particular order.
pub fn list_ids(windows: &HashMap<u64, Window>) -> (res: Vec<u64>)
    ensures
        res@.to_set() == windows@.dom(),
        res@.no_duplicates(),
{
    let mut res: Vec<u64> = Vec::new();
    let ghost walk: Seq<&u64> = windows.keys().remaining();
    for k in it: windows.keys()
        invariant
            it.seq() == walk,
            res@ == walk.unref().take(it.index() as int),
    {
        res.push(*k);
    }
    assert(res@ =~= walk.unref());
    proof {
        assert forall|i: int, j: int| 0 <= i < res@.len() && 0 <= j < res@.len() && i != j implies
            res@[i] != res@[j] by {
            assert(walk[i] != walk[j]);
        }
    }
    res
}

} // verus!
