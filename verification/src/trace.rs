//! Run-level laws.
//!
//! A whole run of the tool is a sequence of [`crate::protocol::is_step`]
//! transitions starting from the initial state.  The proof functions here
//! state what holds of every such run: an empty listing ends it cleanly at
//! once, the force flag suppresses every confirmation prompt, a refused
//! confirmation keeps every uninstall from being launched, and a failed
//! uninstall stops the run before any further uninstall or any
//! namespace deletion.

use vstd::prelude::*;
use crate::confirm::confirm_accepted;
use crate::lister::{has_release_name, lemma_listing_has_no_duplicates, strictly_sorted};
use crate::protocol::{Action, Config, Event, Outcome, State, is_step};

verus! {

/// The step the run takes at position `i`.
pub open spec fn step_at(
    config: Config,
    states: Seq<State>,
    events: Seq<Event>,
    actions: Seq<Action>,
    i: int,
) -> bool {
    is_step(config, states[i], events[i], states[i + 1], actions[i])
}

/// A complete run: from the initial state, each event moves the run one
/// step and each step asks for one action.
pub open spec fn valid_run(
    config: Config,
    states: Seq<State>,
    events: Seq<Event>,
    actions: Seq<Action>,
) -> bool {
    &&& states.len() == events.len() + 1
    &&& actions.len() == events.len()
    &&& states[0] is Listing
    &&& forall|i: int|
        0 <= i < events.len() ==> #[trigger] step_at(config, states, events, actions, i)
}

/// A finished run is over: no event extends it.
pub proof fn lemma_done_ends_run(
    config: Config,
    states: Seq<State>,
    events: Seq<Event>,
    actions: Seq<Action>,
    i: int,
)
    requires
        valid_run(config, states, events, actions),
        0 <= i < states.len(),
        states[i] is Done,
    ensures
        i == events.len(),
{
    if i < events.len() {
        assert(step_at(config, states, events, actions, i));
        assert(false);
    }
}

/// When the listing finds no release, the run terminates successfully at
/// once: no selection, no confirmation and no uninstall is ever asked for,
/// and the one action of the whole run is the successful exit.
pub proof fn lemma_empty_listing_exits_cleanly(
    config: Config,
    states: Seq<State>,
    events: Seq<Event>,
    actions: Seq<Action>,
)
    requires
        valid_run(config, states, events, actions),
        events.len() > 0,
        events[0] matches Event::Listed(objects) && !(exists|n: Seq<char>|
            has_release_name(objects@, n)),
    ensures
        events.len() == 1,
        states[1] == (State::Done { outcome: Outcome::NoReleases }),
        actions =~= seq![Action::Finish(Outcome::NoReleases)],
        Outcome::NoReleases.is_success(),
{
    assert(step_at(config, states, events, actions, 0));
    lemma_done_ends_run(config, states, events, actions, 1);
}

/// With the force flag set, no confirmation prompt is ever issued,
/// whatever the selection holds.
pub proof fn lemma_force_never_prompts(
    config: Config,
    states: Seq<State>,
    events: Seq<Event>,
    actions: Seq<Action>,
)
    requires
        valid_run(config, states, events, actions),
        config.force,
    ensures
        forall|i: int| 0 <= i < actions.len() ==> !((#[trigger] actions[i]) is PromptConfirm),
{
    assert forall|i: int| 0 <= i < actions.len() implies !((#[trigger] actions[i])
        is PromptConfirm) by {
        assert(step_at(config, states, events, actions, i));
    }
}

/// In a run without the force flag, the run never stands in the uninstall
/// loop as long as every confirmation answer is a refusal.
proof fn lemma_refusal_keeps_out_of_uninstalling(
    config: Config,
    states: Seq<State>,
    events: Seq<Event>,
    actions: Seq<Action>,
    i: int,
)
    requires
        valid_run(config, states, events, actions),
        !config.force,
        forall|k: int|
            0 <= k < events.len() ==> (#[trigger] events[k] matches Event::ConfirmLine(line)
                ==> !confirm_accepted(line@)),
        0 <= i < states.len(),
    ensures
        !(states[i] is Uninstalling),
    decreases i,
{
    if i > 0 {
        lemma_refusal_keeps_out_of_uninstalling(config, states, events, actions, i - 1);
        assert(step_at(config, states, events, actions, i - 1));
    }
}

/// When every confirmation answer is a refusal and the force flag is not
/// set, no uninstall is ever launched.
pub proof fn lemma_refusal_never_uninstalls(
    config: Config,
    states: Seq<State>,
    events: Seq<Event>,
    actions: Seq<Action>,
)
    requires
        valid_run(config, states, events, actions),
        !config.force,
        forall|k: int|
            0 <= k < events.len() ==> (#[trigger] events[k] matches Event::ConfirmLine(line)
                ==> !confirm_accepted(line@)),
    ensures
        forall|i: int| 0 <= i < actions.len() ==> !((#[trigger] actions[i]) is RunUninstall),
{
    assert forall|i: int| 0 <= i < actions.len() implies !((#[trigger] actions[i])
        is RunUninstall) by {
        lemma_refusal_keeps_out_of_uninstalling(config, states, events, actions, i);
        assert(step_at(config, states, events, actions, i));
    }
}

/// Every list offered to the operator over a whole run is ascending
/// lexicographically and holds no release name twice.
pub proof fn lemma_offered_lists_are_sorted_and_distinct(
    config: Config,
    states: Seq<State>,
    events: Seq<Event>,
    actions: Seq<Action>,
)
    requires
        valid_run(config, states, events, actions),
    ensures
        forall|i: int|
            0 <= i < actions.len() ==> (#[trigger] actions[i] matches Action::PromptSelect(items)
                ==> strictly_sorted(items.deep_view()) && (forall|x: int, y: int|
                #![trigger items.deep_view()[x], items.deep_view()[y]]
                0 <= x < items.deep_view().len() && 0 <= y < items.deep_view().len() && x != y
                    ==> items.deep_view()[x] != items.deep_view()[y])),
{
    assert forall|i: int|
        0 <= i < actions.len() implies (#[trigger] actions[i] matches Action::PromptSelect(items)
        ==> strictly_sorted(items.deep_view()) && (forall|x: int, y: int|
        #![trigger items.deep_view()[x], items.deep_view()[y]]
        0 <= x < items.deep_view().len() && 0 <= y < items.deep_view().len() && x != y
            ==> items.deep_view()[x] != items.deep_view()[y])) by {
        assert(step_at(config, states, events, actions, i));
        match actions[i] {
            Action::PromptSelect(items) => {
                assert(strictly_sorted(items.deep_view()));
                lemma_listing_has_no_duplicates(items.deep_view());
            },
            _ => {},
        }
    }
}

/// A failed uninstall stops the run at once: the failing step is the last
/// one, its action is the failing exit, and at no point of the run — before
/// or after — is the namespace deletion requested.
pub proof fn lemma_failed_uninstall_stops_run(
    config: Config,
    states: Seq<State>,
    events: Seq<Event>,
    actions: Seq<Action>,
    k: int,
)
    requires
        valid_run(config, states, events, actions),
        0 <= k < events.len(),
        states[k] is Uninstalling,
        events[k] == Event::UninstallExited(false),
    ensures
        k == events.len() - 1,
        actions[k] == Action::Finish(Outcome::UninstallFailed),
        states[k + 1] == (State::Done { outcome: Outcome::UninstallFailed }),
        !Outcome::UninstallFailed.is_success(),
        forall|i: int|
            0 <= i < actions.len() ==> !((#[trigger] actions[i]) is RequestNamespaceDelete),
{
    assert(step_at(config, states, events, actions, k));
    lemma_done_ends_run(config, states, events, actions, k + 1);
    assert forall|i: int| 0 <= i < actions.len() implies !((#[trigger] actions[i])
        is RequestNamespaceDelete) by {
        if actions[i] is RequestNamespaceDelete {
            assert(step_at(config, states, events, actions, i));
            assert(states[i + 1] is Deleting);
            assert(i + 1 < states.len());
            if i + 1 < events.len() {
                assert(step_at(config, states, events, actions, i + 1));
                assert(states[i + 2] is Done);
                lemma_done_ends_run(config, states, events, actions, i + 2);
                assert(i + 1 == k);
                assert(false);
            } else {
                assert(i + 1 == events.len());
                assert(k < i + 1);
                assert(false);
            }
        }
    }
}

} // verus!
