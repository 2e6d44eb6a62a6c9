//! How a session begins: what is taken up of the lists that the compositor gives.

use vstd::prelude::*;

use crate::commands::Action;
use crate::compositor::{
    listed_output_views, workspace_views, ListedOutput, Window, Workspace, WorkspaceView,
};
use crate::config::{config_index, config_names, DaemonConfig, OutputConfigView};
use crate::effects::{keeps, kept_by_id, learns, lemma_kept_by_id, lemma_learns};
use crate::lookup::lemma_first_index;
use crate::model::{
    acquainted, active_ids, configured_outputs, fresh_output, AgentView, OutputView,
};
use crate::placement::lemma_answers_all;
use crate::processor::NiriProcessor;
use crate::terms::{answers_all, first_named};

verus! {

/// The output is enabled and an entry is for it.
pub open spec fn wanted(entries: Seq<OutputConfigView>, o: ListedOutput) -> bool {
    o.enabled && exists|c: int| 0 <= c < entries.len() && (#[trigger] entries[c]).name == o.name@
}

/// The output is drawn as the first entry for it says.
pub open spec fn drawn_as_configured(
    entries: Seq<OutputConfigView>,
    name: Seq<char>,
    q: OutputView,
) -> bool {
    &&& q.name == name
    &&& exists|c: int|
        {
            &&& 0 <= c < entries.len()
            &&& (#[trigger] entries[c]).name == name
            &&& forall|j: int| 0 <= j < c ==> (#[trigger] entries[j]).name != name
            &&& q.image == entries[c].image
            &&& q.mode == entries[c].mode
        }
}

/// The first entry for an output is what the model finds.
proof fn lemma_first_entry(entries: Seq<OutputConfigView>, o: ListedOutput)
    ensures
        match config_index(entries, o.name@) {
            Some(c) => {
                &&& o.enabled ==> wanted(entries, o)
                &&& drawn_as_configured(entries, o.name@, fresh_output(entries[c]))
            },
            None => !wanted(entries, o),
        },
{
    let names: Seq<Seq<char>> = config_names(entries);
    lemma_first_index(names, o.name@);
    match config_index(entries, o.name@) {
        Some(c) => {
            assert(names[c] == o.name@);
            assert(entries[c].name == o.name@);
            assert forall|j: int| 0 <= j < c implies (#[trigger] entries[j]).name != o.name@ by {
                assert(names[j] != o.name@);
            }
        },
        None => {
            assert forall|j: int| 0 <= j < entries.len() implies (#[trigger] entries[j]).name
                != o.name@ by {
                assert(names[j] != o.name@);
            }
        },
    }
}

/// The model takes up the listed outputs that are wanted, in order.
proof fn lemma_taken_up(entries: Seq<OutputConfigView>, l: Seq<ListedOutput>)
    ensures
        ({
            let taken = l.filter(|o: ListedOutput| wanted(entries, o));
            let outputs = configured_outputs(entries, listed_output_views(l));
            &&& outputs.len() == taken.len()
            &&& forall|j: int|
                0 <= j < taken.len() ==> drawn_as_configured(
                    entries,
                    taken[j].name@,
                    #[trigger] outputs[j],
                )
        }),
    decreases l.len(),
{
    reveal(Seq::filter);
    if l.len() > 0 {
        let init: Seq<ListedOutput> = l.drop_last();
        lemma_taken_up(entries, init);
        lemma_first_entry(entries, l.last());
        assert(listed_output_views(l).drop_last() =~= listed_output_views(init));
        assert(listed_output_views(l).last() == l.last()@);
        let g = |o: ListedOutput| wanted(entries, o);
        let before: Seq<ListedOutput> = init.filter(g);
        let taken: Seq<ListedOutput> = l.filter(g);
        let rest: Seq<OutputView> = configured_outputs(entries, listed_output_views(init));
        let outputs: Seq<OutputView> = configured_outputs(entries, listed_output_views(l));
        if g(l.last()) {
            assert(taken == before.push(l.last()));
        } else {
            assert(taken == before);
        }
        assert forall|j: int| 0 <= j < taken.len() implies drawn_as_configured(
            entries,
            taken[j].name@,
            #[trigger] outputs[j],
        ) by {
            if j < before.len() {
                assert(outputs[j] == rest[j]);
                assert(taken[j] == before[j]);
            }
        }
    }
}

/// What is known after the lists were taken in: behind the outputs that were known, those that are
/// wanted, in the order of the list and drawn as configured; the workspaces as listed, with what
/// they tell of the outputs; and the windows by their ids.
pub open spec fn taken_in(
    pre: AgentView,
    outputs: Seq<ListedOutput>,
    workspaces: Seq<Workspace>,
    windows: Seq<Window>,
    post: AgentView,
) -> bool {
    let taken = outputs.filter(|o: ListedOutput| wanted(pre.config, o));
    &&& post.config == pre.config
    &&& post.outputs.len() == pre.outputs.len() + taken.len()
    &&& forall|k: int|
        0 <= k < pre.outputs.len() ==> {
            &&& (#[trigger] post.outputs[k]).name == pre.outputs[k].name
            &&& post.outputs[k].image == pre.outputs[k].image
            &&& post.outputs[k].mode == pre.outputs[k].mode
        }
    &&& forall|k: int|
        pre.outputs.len() <= k < post.outputs.len() ==> drawn_as_configured(
            pre.config,
            taken[k - pre.outputs.len()].name@,
            #[trigger] post.outputs[k],
        )
    &&& forall|k: int|
        0 <= k < post.outputs.len() && first_named(
            post.outputs,
            (#[trigger] post.outputs[k]).name,
            k,
        ) ==> learns(workspaces, post.outputs[k])
    &&& post.workspaces.len() == workspaces.len()
    &&& forall|j: int|
        0 <= j < workspaces.len() ==> keeps(workspaces[j], #[trigger] post.workspaces[j])
    &&& kept_by_id(windows, post.windows)
}

/// The model takes in the lists.
proof fn lemma_taken_in(
    pre: AgentView,
    outputs: Seq<ListedOutput>,
    workspaces: Seq<Workspace>,
    windows: Seq<Window>,
)
    ensures
        taken_in(
            pre,
            outputs,
            workspaces,
            windows,
            acquainted(pre, listed_output_views(outputs), workspace_views(workspaces), windows),
        ),
{
    let new: Seq<OutputView> = configured_outputs(pre.config, listed_output_views(outputs));
    let mid: AgentView = AgentView { outputs: pre.outputs + new, ..pre };
    let post: AgentView = acquainted(
        pre,
        listed_output_views(outputs),
        workspace_views(workspaces),
        windows,
    );
    let taken: Seq<ListedOutput> = outputs.filter(|o: ListedOutput| wanted(pre.config, o));
    lemma_taken_up(pre.config, outputs);
    lemma_kept_by_id(windows);
    assert forall|k: int| 0 <= k < post.outputs.len() implies (#[trigger] post.outputs[k]).name
        == mid.outputs[k].name by {}
    assert forall|k: int|
        pre.outputs.len() <= k < post.outputs.len() implies drawn_as_configured(
        pre.config,
        taken[k - pre.outputs.len()].name@,
        #[trigger] post.outputs[k],
    ) by {
        assert(mid.outputs[k] == new[k - pre.outputs.len()]);
    }
    assert forall|k: int|
        0 <= k < post.outputs.len() && first_named(
            post.outputs,
            (#[trigger] post.outputs[k]).name,
            k,
        ) implies learns(workspaces, post.outputs[k]) by {
        assert forall|j: int| 0 <= j < k implies (#[trigger] mid.outputs[j]).name
            != mid.outputs[k].name by {
            assert(post.outputs[j].name != post.outputs[k].name);
        }
        assert(first_named(mid.outputs, mid.outputs[k].name, k));
        lemma_learns(mid, workspaces, k);
    }
}

/// A processor without a session knows its configuration and nothing else.
pub proof fn processors_start_empty(config: DaemonConfig, p: NiriProcessor)
    requires
        call_ensures(NiriProcessor::new, (config,), p),
    ensures
        p@.config == config@,
        p@.outputs.len() == 0,
        p@.workspaces.len() == 0,
        forall|k: u64| !(#[trigger] p@.windows.contains_key(k)),
{
}

/// The lists that the compositor gives are taken in, beside what was known.
pub proof fn lists_are_taken_in(
    p: &mut NiriProcessor,
    outputs: Vec<ListedOutput>,
    workspaces: Vec<Workspace>,
    windows: Vec<Window>,
)
    requires
        call_ensures(NiriProcessor::init_state, (p, outputs, workspaces, windows), ()),
    ensures
        taken_in(old(p)@, outputs@, workspaces@, windows@, final(p)@),
{
    lemma_taken_in(old(p)@, outputs@, workspaces@, windows@);
}

/// A session begins with the lists that the compositor gives, and with a look at every active
/// workspace, in the order of the list.
pub proof fn sessions_begin(
    config: DaemonConfig,
    outputs: Vec<ListedOutput>,
    workspaces: Vec<Workspace>,
    windows: Vec<Window>,
    res: (NiriProcessor, Vec<Action>),
)
    requires
        call_ensures(NiriProcessor::open, (config, outputs, workspaces, windows), res),
    ensures
        taken_in(
            AgentView {
                config: config@,
                outputs: Seq::empty(),
                workspaces: Seq::empty(),
                windows: Map::empty(),
            },
            outputs@,
            workspaces@,
            windows@,
            res.0@,
        ),
        answers_all(
            res.0@,
            res.0@.workspaces.filter(|w: WorkspaceView| w.is_active).map_values(
                |w: WorkspaceView| w.id,
            ),
            res.1@,
        ),
{
    lemma_taken_in(
        AgentView {
            config: config@,
            outputs: Seq::empty(),
            workspaces: Seq::empty(),
            windows: Map::empty(),
        },
        outputs@,
        workspaces@,
        windows@,
    );
    lemma_answers_all(res.0@, active_ids(res.0@.workspaces), res.1@);
}

} // verus!
