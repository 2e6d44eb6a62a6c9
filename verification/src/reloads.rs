//! What a new configuration does, and what else a turn of a session may bring.

use vstd::prelude::*;

use crate::commands::{action_views, Action, CommandType, LogLine, RenderThreadCommand};
use crate::compositor::Event;
use crate::config::{DaemonCommand, DaemonConfig, OutputConfigView, RenderMode};
use crate::consistency::lemma_config_applied;
use crate::model::{
    config_applied, effective_entries, entry_differs, is_redraw, output_index, reconfigured,
    AgentView, OutputView,
};
use crate::placement::lemma_belongs_at;
use crate::processor::NiriProcessor;
use crate::session::{QueuePoll, Turn};
use crate::terms::{belongs_at, first_named, lemma_first_named};

verus! {

/// The processor takes over the configuration, by itself or in a turn of a session, and asks for
/// `actions`.
pub open spec fn loads(p: &mut NiriProcessor, config: DaemonConfig, actions: Seq<Action>) -> bool {
    ||| exists|v: Vec<Action>| #[trigger]
        call_ensures(NiriProcessor::update_config, (p, config), v) && v@ == actions
    ||| exists|v: Vec<Action>| #[trigger]
        call_ensures(
            NiriProcessor::after_poll,
            (p, QueuePoll::Command(DaemonCommand::ReloadConfig(config))),
            v,
        ) && v@ == actions
}

/// An output without a mode is static.
pub open spec fn or_static(mode: Option<RenderMode>) -> RenderMode {
    match mode {
        Some(mode) => mode,
        None => RenderMode::Static,
    }
}

/// A configuration is read as it is written, entry by entry.
pub proof fn configurations_are_read_as_written(config: DaemonConfig)
    ensures
        config@.len() == config.outputs@.len(),
        forall|i: int|
            0 <= i < config.outputs@.len() ==> {
                &&& (#[trigger] config@[i]).name == config.outputs@[i].name@
                &&& config@[i].image == config.outputs@[i].image@
                &&& config@[i].mode == config.outputs@[i].mode
            },
{
}

/// An output that no entry is for, and one behind another output with its name, stays as it is.
proof fn lemma_left_alone(outputs: Seq<OutputView>, entries: Seq<OutputConfigView>, k: int)
    requires
        0 <= k < outputs.len(),
        first_named(outputs, outputs[k].name, k) ==> forall|i: int|
            0 <= i < entries.len() ==> (#[trigger] entries[i]).name != outputs[k].name,
    ensures
        config_applied(outputs, entries)[k] == outputs[k],
    decreases entries.len(),
{
    if entries.len() > 0 {
        let init: Seq<OutputConfigView> = entries.drop_last();
        let c: OutputConfigView = entries.last();
        let before: Seq<OutputView> = config_applied(outputs, init);
        assert forall|i: int|
            0 <= i < init.len() && first_named(outputs, outputs[k].name, k) implies (
        #[trigger] init[i]).name != outputs[k].name by {
            assert(entries[i].name != outputs[k].name);
        }
        lemma_left_alone(outputs, init, k);
        lemma_config_applied(outputs, init);
        lemma_same_first(outputs, before, c.name);
        lemma_first_named(before, c.name);
        assert(entries[entries.len() - 1] == c);
        if output_index(before, c.name) == Some(k) {
            assert(first_named(outputs, c.name, k));
        }
    }
}

/// Lists of outputs with the same names have the same first ones.
proof fn lemma_same_first(a: Seq<OutputView>, b: Seq<OutputView>, name: Seq<char>)
    requires
        a.len() == b.len(),
        forall|k: int| 0 <= k < a.len() ==> (#[trigger] a[k]).name == b[k].name,
    ensures
        forall|k: int| first_named(a, name, k) <==> first_named(b, name, k),
{
    assert forall|k: int| first_named(a, name, k) <==> first_named(b, name, k) by {
        if first_named(a, name, k) {
            assert forall|j: int| 0 <= j < k implies (#[trigger] b[j]).name != name by {
                assert(a[j].name != name);
            }
            assert(a[k].name == b[k].name);
        }
        if first_named(b, name, k) {
            assert forall|j: int| 0 <= j < k implies (#[trigger] a[j]).name != name by {
                assert(b[j].name != name);
            }
            assert(a[k].name == b[k].name);
        }
    }
}

/// The last entry for an output says what is drawn on it.
proof fn lemma_last_entry(
    outputs: Seq<OutputView>,
    entries: Seq<OutputConfigView>,
    k: int,
    i: int,
)
    requires
        first_named(outputs, outputs[k].name, k),
        0 <= i < entries.len(),
        entries[i].name == outputs[k].name,
        forall|j: int| i < j < entries.len() ==> (#[trigger] entries[j]).name != outputs[k].name,
    ensures
        config_applied(outputs, entries)[k].image == entries[i].image,
        or_static(config_applied(outputs, entries)[k].mode) == or_static(entries[i].mode),
    decreases entries.len(),
{
    let n: int = entries.len() - 1;
    let init: Seq<OutputConfigView> = entries.drop_last();
    let c: OutputConfigView = entries.last();
    let before: Seq<OutputView> = config_applied(outputs, init);
    lemma_config_applied(outputs, init);
    lemma_same_first(outputs, before, c.name);
    lemma_first_named(before, c.name);
    if i < n {
        assert forall|j: int| i < j < init.len() implies (#[trigger] init[j]).name
            != outputs[k].name by {
            assert(entries[j].name != outputs[k].name);
        }
        assert(init[i] == entries[i]);
        lemma_last_entry(outputs, init, k, i);
        assert(entries[n].name != outputs[k].name);
        assert(output_index(before, c.name) != Some(k));
    } else {
        assert(first_named(before, c.name, k));
    }
}

/// A new configuration takes hold. Every output that an entry is for is drawn as the last such
/// entry says, in its image and its mode; of two outputs with one name, the first is. Every other
/// output stays as it is, and nothing else changes of any output.
pub proof fn configuration_takes_effect(
    p: &mut NiriProcessor,
    config: DaemonConfig,
    actions: Seq<Action>,
)
    requires
        loads(p, config, actions),
    ensures
        final(p)@.outputs.len() == old(p)@.outputs.len(),
        forall|k: int|
            0 <= k < old(p)@.outputs.len() ==> {
                let o = old(p)@.outputs[k];
                let q = #[trigger] final(p)@.outputs[k];
                &&& q.name == o.name
                &&& q.max_workspace_idx == o.max_workspace_idx
                &&& q.active_workspace_id == o.active_workspace_id
                &&& q.active_workspace_idx == o.active_workspace_idx
                &&& (first_named(old(p)@.outputs, o.name, k) ==> forall|i: int|
                    0 <= i < config.outputs@.len() ==> (#[trigger] config.outputs@[i]).name@
                        != o.name) ==> q == o
            },
        forall|k: int, i: int|
            #![trigger final(p)@.outputs[k], config.outputs@[i]]
            first_named(old(p)@.outputs, old(p)@.outputs[k].name, k) && 0 <= i
                < config.outputs@.len() && config.outputs@[i].name@ == old(p)@.outputs[k].name && (
            forall|j: int|
                i < j < config.outputs@.len() ==> (#[trigger] config.outputs@[j]).name@
                    != old(p)@.outputs[k].name) ==> {
                &&& final(p)@.outputs[k].image == config.outputs@[i].image@
                &&& or_static(final(p)@.outputs[k].mode) == or_static(config.outputs@[i].mode)
            },
{
    let pre: AgentView = old(p)@;
    let post: AgentView = final(p)@;
    let entries: Seq<OutputConfigView> = config@;
    assert(post.outputs == reconfigured(pre, entries).outputs);
    lemma_config_applied(pre.outputs, entries);
    assert forall|k: int| 0 <= k < pre.outputs.len() implies {
        let o = pre.outputs[k];
        let q = #[trigger] post.outputs[k];
        &&& q.name == o.name
        &&& q.max_workspace_idx == o.max_workspace_idx
        &&& q.active_workspace_id == o.active_workspace_id
        &&& q.active_workspace_idx == o.active_workspace_idx
        &&& (first_named(pre.outputs, o.name, k) ==> forall|i: int|
            0 <= i < config.outputs@.len() ==> (#[trigger] config.outputs@[i]).name@ != o.name)
            ==> q == o
    } by {
        let o: OutputView = pre.outputs[k];
        assert(config_applied(pre.outputs, entries)[k].name == o.name);
        if first_named(pre.outputs, o.name, k) ==> forall|i: int|
            0 <= i < config.outputs@.len() ==> (#[trigger] config.outputs@[i]).name@ != o.name {
            assert forall|i: int|
                0 <= i < entries.len() && first_named(pre.outputs, o.name, k) implies (
            #[trigger] entries[i]).name != o.name by {
                assert(config.outputs@[i].name@ != o.name);
            }
            lemma_left_alone(pre.outputs, entries, k);
        }
    }
    assert forall|k: int, i: int|
        #![trigger post.outputs[k], config.outputs@[i]]
        first_named(pre.outputs, pre.outputs[k].name, k) && 0 <= i < config.outputs@.len()
            && config.outputs@[i].name@ == pre.outputs[k].name && (forall|j: int|
            i < j < config.outputs@.len() ==> (#[trigger] config.outputs@[j]).name@
                != pre.outputs[k].name) implies {
        &&& post.outputs[k].image == config.outputs@[i].image@
        &&& or_static(post.outputs[k].mode) == or_static(config.outputs@[i].mode)
    } by {
        assert forall|j: int| i < j < entries.len() implies (#[trigger] entries[j]).name
            != pre.outputs[k].name by {
            assert(config.outputs@[j].name@ != pre.outputs[k].name);
        }
        lemma_last_entry(pre.outputs, entries, k, i);
    }
}

/// A new configuration is kept. It changes no workspace and no window.
pub proof fn configuration_is_kept(
    p: &mut NiriProcessor,
    config: DaemonConfig,
    actions: Seq<Action>,
)
    requires
        loads(p, config, actions),
    ensures
        final(p)@.config == config@,
        final(p)@.workspaces == old(p)@.workspaces,
        final(p)@.windows == old(p)@.windows,
{
}

// What is drawn anew.

/// The entry at `i` asks for something else than what the one before it for the same output asked
/// for, or, if it is the first, than what is drawn on the output.
pub open spec fn asks(outputs: Seq<OutputView>, entries: Seq<OutputConfigView>, i: int) -> bool {
    exists|k: int|
        {
            &&& #[trigger] first_named(outputs, entries[i].name, k)
            &&& (forall|j: int| 0 <= j < i ==> (#[trigger] entries[j]).name != entries[i].name)
                ==> outputs[k].image != entries[i].image || or_static(outputs[k].mode) != or_static(
                entries[i].mode,
            )
            &&& forall|j: int|
                {
                    &&& 0 <= j < i
                    &&& (#[trigger] entries[j]).name == entries[i].name
                    &&& forall|l: int|
                        j < l < i ==> (#[trigger] entries[l]).name != entries[i].name
                } ==> entries[j].image != entries[i].image || or_static(entries[j].mode)
                    != or_static(entries[i].mode)
        }
}

/// The last entry before `i` with the name of the one at `i`.
proof fn last_before(entries: Seq<OutputConfigView>, name: Seq<char>, n: int) -> (j: int)
    requires
        0 <= n <= entries.len(),
    ensures
        -1 <= j < n,
        j >= 0 ==> entries[j].name == name,
        forall|l: int| j < l < n ==> (#[trigger] entries[l]).name != name,
    decreases n,
{
    if n == 0 {
        -1
    } else if entries[n - 1].name == name {
        n - 1
    } else {
        last_before(entries, name, n - 1)
    }
}

/// The model draws an output anew for the entries that ask for something else.
proof fn lemma_asks(outputs: Seq<OutputView>, entries: Seq<OutputConfigView>, i: int)
    requires
        0 <= i < entries.len(),
    ensures
        entry_differs(config_applied(outputs, entries.take(i)), entries[i]) <==> asks(
            outputs,
            entries,
            i,
        ),
{
    let c: OutputConfigView = entries[i];
    let init: Seq<OutputConfigView> = entries.take(i);
    let before: Seq<OutputView> = config_applied(outputs, init);
    lemma_config_applied(outputs, init);
    lemma_same_first(outputs, before, c.name);
    lemma_first_named(before, c.name);
    lemma_first_named(outputs, c.name);
    let j: int = last_before(entries, c.name, i);
    if let Some(k) = output_index(outputs, c.name) {
        assert(first_named(outputs, c.name, k));
        assert(first_named(before, c.name, k));
        assert(output_index(before, c.name) == Some(k));
        if j < 0 {
            assert forall|l: int| 0 <= l < init.len() implies (#[trigger] init[l]).name
                != outputs[k].name by {
                assert(entries[l].name != c.name);
            }
            lemma_left_alone(outputs, init, k);
            assert forall|l: int| 0 <= l < i implies (#[trigger] entries[l]).name != c.name by {}
        } else {
            assert forall|l: int| j < l < init.len() implies (#[trigger] init[l]).name
                != outputs[k].name by {
                assert(entries[l].name != c.name);
            }
            assert(init[j] == entries[j]);
            lemma_last_entry(outputs, init, k, j);
            assert(entries[j].name == c.name);
            assert forall|l: int|
                {
                    &&& 0 <= l < i
                    &&& (#[trigger] entries[l]).name == c.name
                    &&& forall|r: int| l < r < i ==> (#[trigger] entries[r]).name != c.name
                } implies l == j by {
                if l < j {
                    assert(entries[j].name != c.name);
                }
                if j < l {
                    assert(entries[l].name != c.name);
                }
            }
        }
        if asks(outputs, entries, i) {
            let q: int = choose|q: int| #[trigger] first_named(outputs, c.name, q);
            assert(q == k);
        }
    } else {
        if asks(outputs, entries, i) {
            let q: int = choose|q: int| #[trigger] first_named(outputs, c.name, q);
            assert(false);
        }
    }
}

/// The entries that draw an output anew are those that ask for something else.
proof fn lemma_effective(outputs: Seq<OutputView>, entries: Seq<OutputConfigView>, n: nat)
    requires
        n <= entries.len(),
    ensures
        effective_entries(outputs, entries.take(n as int)) == turns(
            outputs,
            entries,
            n,
        ).map_values(|i: int| entries[i]),
    decreases n,
{
    reveal(Seq::filter);
    let f = |i: int| entries[i];
    let g = |i: int| asks(outputs, entries, i);
    if n == 0 {
        assert(entries.take(0) =~= Seq::empty());
        assert(turns(outputs, entries, 0).map_values(f) =~= Seq::empty());
    } else {
        let m: nat = (n - 1) as nat;
        lemma_effective(outputs, entries, m);
        assert(entries.take(n as int).drop_last() =~= entries.take(m as int));
        assert(entries.take(n as int).last() == entries[m as int]);
        lemma_asks(outputs, entries, m as int);
        let all: Seq<int> = Seq::new(n, |i: int| i);
        assert(all.drop_last() =~= Seq::new(m, |i: int| i));
        assert(all.last() == m);
        if g(m as int) {
            assert(turns(outputs, entries, n) == turns(outputs, entries, m).push(m as int));
        } else {
            assert(turns(outputs, entries, n) == turns(outputs, entries, m));
        }
        assert(effective_entries(outputs, entries.take(n as int)) =~= turns(
            outputs,
            entries,
            n,
        ).map_values(f));
    }
}

/// The places of those of the first `n` entries that ask for something else, in order.
pub open spec fn turns(
    outputs: Seq<OutputView>,
    entries: Seq<OutputConfigView>,
    n: nat,
) -> Seq<int> {
    Seq::new(n, |i: int| i).filter(|i: int| asks(outputs, entries, i))
}

/// `a` draws the image of the entry on its output, in its mode, where the output belongs.
pub open spec fn draws(m: AgentView, c: OutputConfigView, a: Action) -> bool {
    &&& a matches Action::Handle(CommandType::Tc(RenderThreadCommand::Render(r)))
    &&& r.output@ == c.name
    &&& r.image@ == c.image
    &&& r.mode == or_static(c.mode)
    &&& belongs_at(m, c.name, r.mode, r.position)
}

/// A new configuration draws an output anew for each entry that asks for something else than what
/// is drawn when its turn comes, and for no other, in the order of the entries.
pub proof fn entries_are_drawn_in_turn(
    p: &mut NiriProcessor,
    config: DaemonConfig,
    actions: Seq<Action>,
)
    requires
        old(p).wf(),
        loads(p, config, actions),
    ensures
        actions.len() == turns(old(p)@.outputs, config@, config@.len()).len(),
        forall|j: int|
            0 <= j < actions.len() ==> draws(
                old(p)@,
                config@[turns(old(p)@.outputs, config@, config@.len())[j]],
                #[trigger] actions[j],
            ),
{
    let pre: AgentView = old(p)@;
    let entries: Seq<OutputConfigView> = config@;
    let at: Seq<int> = turns(pre.outputs, entries, entries.len());
    let effective: Seq<OutputConfigView> = effective_entries(pre.outputs, entries);
    assert(entries.take(entries.len() as int) =~= entries);
    lemma_effective(pre.outputs, entries, entries.len());
    assert forall|j: int| 0 <= j < actions.len() implies draws(
        pre,
        entries[at[j]],
        #[trigger] actions[j],
    ) by {
        assert(effective[j] == entries[at[j]]);
        assert(action_views(actions)[j] == actions[j]@);
        assert(is_redraw(pre, effective[j], action_views(actions)[j]));
        lemma_belongs_at(
            pre,
            effective[j].name,
            effective[j].effective_mode(),
            action_views(actions)[j]->Render_position,
        );
    }
}

/// With at most one entry for each output, an output is drawn anew for exactly those entries whose
/// image or mode is another than that of the output, with the image and the mode of the entry.
pub proof fn what_differs_is_drawn(
    p: &mut NiriProcessor,
    config: DaemonConfig,
    actions: Seq<Action>,
    i: int,
)
    requires
        old(p).wf(),
        loads(p, config, actions),
        0 <= i < config.outputs@.len(),
        forall|a: int, b: int|
            0 <= a < b < config.outputs@.len() ==> (#[trigger] config.outputs@[a]).name@ != (
            #[trigger] config.outputs@[b]).name@,
    ensures
        (exists|k: int|
            {
                &&& #[trigger] first_named(old(p)@.outputs, config.outputs@[i].name@, k)
                &&& old(p)@.outputs[k].image != config.outputs@[i].image@ || or_static(
                    old(p)@.outputs[k].mode,
                ) != or_static(config.outputs@[i].mode)
            }) <==> exists|j: int|
            0 <= j < actions.len() && is_for(#[trigger] actions[j], config.outputs@[i].name@),
        forall|j: int|
            0 <= j < actions.len() && is_for(#[trigger] actions[j], config.outputs@[i].name@)
                ==> draws(old(p)@, config@[i], actions[j]),
{
    let pre: AgentView = old(p)@;
    let entries: Seq<OutputConfigView> = config@;
    let all: Seq<int> = Seq::new(entries.len(), |i: int| i);
    let g = |i: int| asks(pre.outputs, entries, i);
    let at: Seq<int> = turns(pre.outputs, entries, entries.len());
    let name: Seq<char> = entries[i].name;
    entries_are_drawn_in_turn(p, config, actions);
    assert forall|j: int| 0 <= j < i implies (#[trigger] entries[j]).name != name by {
        assert(config.outputs@[j].name@ != config.outputs@[i].name@);
    }
    assert forall|j: int|
        0 <= j < actions.len() && is_for(#[trigger] actions[j], name) implies at[j] == i by {
        assert(draws(pre, entries[at[j]], actions[j]));
        all.lemma_filter_contains_rev(g, at[j]);
        let l: int = choose|l: int| 0 <= l < all.len() && all[l] == at[j];
        assert(config.outputs@[at[j]].name@ == config.outputs@[i].name@);
    }
    if asks(pre.outputs, entries, i) {
        assert(all[i] == i && g(all[i]));
        all.lemma_filter_contains(g, i);
        let j: int = choose|j: int| 0 <= j < at.len() && at[j] == i;
        assert(draws(pre, entries[at[j]], actions[j]));
        assert(is_for(actions[j], name));
    }
    if exists|j: int| 0 <= j < actions.len() && is_for(#[trigger] actions[j], name) {
        let j: int = choose|j: int| 0 <= j < actions.len() && is_for(#[trigger] actions[j], name);
        all.lemma_filter_pred(g, j);
        assert(asks(pre.outputs, entries, i));
    }
}

/// `a` draws an image on the output.
pub open spec fn is_for(a: Action, name: Seq<char>) -> bool {
    a matches Action::Handle(CommandType::Tc(RenderThreadCommand::Render(r))) && r.output@ == name
}

/// Any other command, and an empty queue, changes nothing and leads to nothing; a queue that cannot
/// be locked is logged.
pub proof fn other_polls_change_nothing(
    p: &mut NiriProcessor,
    poll: QueuePoll,
    actions: Vec<Action>,
)
    requires
        call_ensures(NiriProcessor::after_poll, (p, poll), actions),
        !(poll matches QueuePoll::Command(DaemonCommand::ReloadConfig(_))),
    ensures
        final(p)@ == old(p)@,
        poll matches QueuePoll::LockFailed(reason) ==> {
            &&& actions@.len() == 1
            &&& actions@[0] matches Action::Log(LogLine::QueueLockFailed(s))
            &&& s@ == reason@
        },
        !(poll is LockFailed) ==> actions@.len() == 0,
{
    if poll is LockFailed {
        assert(action_views(actions@).len() == 1);
        assert(action_views(actions@)[0] == actions@[0]@);
    }
}

/// A failed read changes nothing, is logged, and does not lead to a poll of the queue.
pub proof fn failed_reads_change_nothing(p: &mut NiriProcessor, reason: String, turn: Turn)
    requires
        call_ensures(NiriProcessor::after_read, (p, Err(reason)), turn),
    ensures
        final(p)@ == old(p)@,
        !turn.poll_queue,
        turn.actions@.len() == 1,
        turn.actions@[0] matches Action::Log(LogLine::EventReadFailed(s)) && s@ == reason@,
{
    assert(action_views(turn.actions@).len() == 1);
    assert(action_views(turn.actions@)[0] == turn.actions@[0]@);
}

/// After an event was read, the queue of commands is polled.
pub proof fn read_events_lead_to_a_poll(p: &mut NiriProcessor, e: Event, turn: Turn)
    requires
        call_ensures(NiriProcessor::after_read, (p, Ok(e)), turn),
    ensures
        turn.poll_queue,
{
}

} // verus!
