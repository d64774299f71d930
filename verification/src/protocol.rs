//! The orchestration protocol.
//!
//! One uninstall run is a sequence of decisions interleaved with outside
//! work: one cluster query, at most one interactive selection, at most one
//! confirmation, one subprocess per selected release, and at most one
//! namespace-delete request.  The library owns every decision; the binary
//! performs the [`Action`] the library asks for and feeds the result back
//! as an [`Event`].  The transition relation [`is_step`] is the single
//! statement of what a run may do, and [`step`] is proved against it.

use vstd::prelude::*;
use crate::confirm::confirm_accepted;
use crate::lister::{MetadataObject, has_release_name, is_listing_of, list_releases};

verus! {

/// The flags of one uninstall run.
pub struct Config {
    /// The namespace the run works in.
    pub namespace: String,
    /// A release name supplied up front; selection is skipped when present.
    pub release: Option<String>,
    /// Delete the namespace after all uninstalls succeed.
    pub delete_namespace: bool,
    /// Skip the confirmation prompt.
    pub force: bool,
}

/// How a run ended.
#[derive(Clone, Copy, Debug, PartialEq, Eq, Structural)]
pub enum Outcome {
    /// Every requested operation succeeded.
    Completed,
    /// The namespace holds no releases; nothing to do.
    NoReleases,
    /// The operator declined the confirmation prompt.
    Declined,
    /// The cluster query for metadata objects failed.
    ListFailed,
    /// An uninstall subprocess could not be started.
    LaunchFailed,
    /// An uninstall subprocess exited with a non-zero status.
    UninstallFailed,
    /// The namespace-delete request failed.
    DeleteFailed,
}

/// The operator's choice: one release, or every listed release.
pub enum Selection {
    Single(String),
    All,
}

/// Where a run stands, between two pieces of outside work.
pub enum State {
    /// Waiting for the cluster query.
    Listing,
    /// Waiting for the operator to pick from the listed releases.
    Selecting { releases: Vec<String> },
    /// Waiting for the operator's confirmation line.
    Confirming { selected: Vec<String> },
    /// Waiting for the exit status of the uninstall of `selected[next]`.
    Uninstalling { selected: Vec<String>, next: usize },
    /// Waiting for the namespace-delete request.
    Deleting,
    /// The run is over.
    Done { outcome: Outcome },
}

/// The result of one piece of outside work, fed back into the run.
pub enum Event {
    /// The cluster query returned these metadata objects.
    Listed(Vec<MetadataObject>),
    /// The cluster query failed.
    ListFailed,
    /// The operator picked this entry of the offered list; the entry at
    /// the length of the release list is the synthetic all-releases one.
    Chosen(usize),
    /// The operator answered the confirmation prompt with this line.
    ConfirmLine(String),
    /// The uninstall subprocess exited; `true` means status zero.
    UninstallExited(bool),
    /// The uninstall subprocess could not be started.
    UninstallLaunchFailed,
    /// The namespace-delete request was accepted.
    NamespaceDeleted,
    /// The namespace-delete request failed.
    NamespaceDeleteFailed,
}

/// The piece of outside work the run asks for next.
pub enum Action {
    /// Query the cluster for the release metadata objects of the namespace.
    QueryReleases,
    /// Offer these releases, plus a synthetic all-releases entry, for choice.
    PromptSelect(Vec<String>),
    /// Print the impact summary for these releases and read one line.
    PromptConfirm(Vec<String>),
    /// Run the package-manager uninstall of this release and report its exit.
    RunUninstall(String),
    /// Ask the cluster to delete the namespace.
    RequestNamespaceDelete,
    /// Exit; successfully exactly when the outcome says so.
    Finish(Outcome),
}

impl Outcome {
    /// Whether the run counts as successful: cleanly finished work, an
    /// empty namespace, and an operator's refusal all exit with status zero.
    pub open spec fn is_success(self) -> bool {
        match self {
            Outcome::Completed => true,
            Outcome::NoReleases => true,
            Outcome::Declined => true,
            Outcome::ListFailed => false,
            Outcome::LaunchFailed => false,
            Outcome::UninstallFailed => false,
            Outcome::DeleteFailed => false,
        }
    }

    /// Whether the process should exit with status zero.
    pub fn exit_ok(&self) -> (r: bool)
        ensures
            r == self.is_success(),
    {
        match self {
            Outcome::Completed => true,
            Outcome::NoReleases => true,
            Outcome::Declined => true,
            _ => false,
        }
    }
}

/// The events a state is waiting for; anything else is a protocol breach
/// by the caller.
pub open spec fn accepts(state: State, event: Event) -> bool {
    match (state, event) {
        (State::Listing, Event::Listed(_)) => true,
        (State::Listing, Event::ListFailed) => true,
        (State::Selecting { .. }, Event::Chosen(_)) => true,
        (State::Confirming { .. }, Event::ConfirmLine(_)) => true,
        (State::Uninstalling { .. }, Event::UninstallExited(_)) => true,
        (State::Uninstalling { .. }, Event::UninstallLaunchFailed) => true,
        (State::Deleting, Event::NamespaceDeleted) => true,
        (State::Deleting, Event::NamespaceDeleteFailed) => true,
        _ => false,
    }
}

/// Internal well-formedness of a state: offered and selected lists are
/// never empty, and the uninstall cursor stays in range.
pub open spec fn state_inv(state: State) -> bool {
    match state {
        State::Selecting { releases } => releases@.len() > 0,
        State::Confirming { selected } => selected@.len() > 0,
        State::Uninstalling { selected, next } => next < selected@.len(),
        _ => true,
    }
}

/// The run ends: the state records the outcome and the one action left is
/// to exit accordingly.
pub open spec fn ends_run(o: Outcome, post: State, action: Action) -> bool {
    &&& post matches State::Done { outcome } && outcome == o
    &&& action matches Action::Finish(f) && f == o
}

/// The uninstall loop starts on the non-empty selection `sel`: the first
/// uninstall is launched at once.
pub open spec fn starts_uninstall(sel: Seq<Seq<char>>, post: State, action: Action) -> bool {
    &&& post matches State::Uninstalling { selected, next } && selected.deep_view() == sel && next
        == 0
    &&& action matches Action::RunUninstall(n) && n@ == sel[0]
}

/// What follows a settled non-empty selection `sel`: with the force flag
/// the uninstall loop starts unprompted, otherwise the operator is asked
/// to confirm exactly this selection.
pub open spec fn begins_work(config: Config, sel: Seq<Seq<char>>, post: State, action: Action) -> bool {
    if config.force {
        starts_uninstall(sel, post, action)
    } else {
        &&& post matches State::Confirming { selected } && selected.deep_view() == sel
        &&& action matches Action::PromptConfirm(items) && items.deep_view() == sel
    }
}

/// The transition relation of the run: from `pre`, on `event`, the run
/// moves to `post` and asks for `action`.
pub open spec fn is_step(config: Config, pre: State, event: Event, post: State, action: Action) -> bool {
    match (pre, event) {
        (State::Listing, Event::Listed(objects)) => {
            if !(exists|n: Seq<char>| has_release_name(objects@, n)) {
                ends_run(Outcome::NoReleases, post, action)
            } else {
                match config.release {
                    Some(r) => begins_work(config, seq![r@], post, action),
                    None => {
                        &&& post matches State::Selecting { releases } && is_listing_of(
                            objects@,
                            releases.deep_view(),
                        )
                        &&& action matches Action::PromptSelect(items) && is_listing_of(
                            objects@,
                            items.deep_view(),
                        )
                    },
                }
            }
        },
        (State::Listing, Event::ListFailed) => ends_run(Outcome::ListFailed, post, action),
        (State::Selecting { releases }, Event::Chosen(idx)) => {
            let sel = if (idx as int) < releases@.len() {
                seq![releases.deep_view()[idx as int]]
            } else {
                releases.deep_view()
            };
            begins_work(config, sel, post, action)
        },
        (State::Confirming { selected }, Event::ConfirmLine(line)) => {
            if confirm_accepted(line@) {
                starts_uninstall(selected.deep_view(), post, action)
            } else {
                ends_run(Outcome::Declined, post, action)
            }
        },
        (State::Uninstalling { selected, next }, Event::UninstallExited(ok)) => {
            if !ok {
                ends_run(Outcome::UninstallFailed, post, action)
            } else if next + 1 < selected@.len() {
                &&& post matches State::Uninstalling { selected: s, next: k } && s.deep_view()
                    == selected.deep_view() && k == next + 1
                &&& action matches Action::RunUninstall(n) && n@ == selected.deep_view()[next + 1]
            } else if config.delete_namespace {
                &&& post is Deleting
                &&& action is RequestNamespaceDelete
            } else {
                ends_run(Outcome::Completed, post, action)
            }
        },
        (State::Uninstalling { .. }, Event::UninstallLaunchFailed) => ends_run(
            Outcome::LaunchFailed,
            post,
            action,
        ),
        (State::Deleting, Event::NamespaceDeleted) => ends_run(Outcome::Completed, post, action),
        (State::Deleting, Event::NamespaceDeleteFailed) => ends_run(
            Outcome::DeleteFailed,
            post,
            action,
        ),
        _ => false,
    }
}

/// The start of every run: nothing decided yet, the cluster query pending.
pub fn init() -> (r: (State, Action))
    ensures
        r.0 is Listing,
        r.1 is QueryReleases,
        state_inv(r.0),
{
    (State::Listing, Action::QueryReleases)
}

/// Classifies the operator's pick: an index into the offered releases
/// names that release, the synthetic entry behind them means all of them.
pub fn classify_choice(releases: &Vec<String>, idx: usize) -> (s: Selection)
    ensures
        (idx as int) < releases@.len() ==> (s matches Selection::Single(n) && n@
            == releases.deep_view()[idx as int]),
        (idx as int) >= releases@.len() ==> s is All,
{
    if idx < releases.len() {
        Selection::Single(releases[idx].clone())
    } else {
        Selection::All
    }
}

/// Resolves a selection into the concrete ordered list of releases to
/// uninstall.
pub fn resolve_selection(releases: Vec<String>, choice: Selection) -> (r: Vec<String>)
    ensures
        choice matches Selection::Single(n) ==> r.deep_view() == seq![n@],
        choice is All ==> r.deep_view() == releases.deep_view(),
{
    match choice {
        Selection::Single(n) => {
            let r = vec![n];
            proof {
                assert(r.deep_view() =~= seq![r@[0]@]);
            }
            r
        },
        Selection::All => releases,
    }
}

/// Clones a vector of strings, keeping its contents.
fn clone_names(v: &Vec<String>) -> (r: Vec<String>)
    ensures
        r.deep_view() == v.deep_view(),
{
    let r = v.clone();
    proof {
        assert forall|i: int| 0 <= i < v@.len() implies r@[i] == v@[i] by {
            assert(cloned::<String>(v@[i], r@[i]));
        }
        assert(r.deep_view() =~= v.deep_view());
    }
    r
}

/// Moves a settled selection on: straight into the uninstall loop when the
/// force flag is set, otherwise to the confirmation prompt.
fn begin_work_exec(config: &Config, selected: Vec<String>) -> (r: (State, Action))
    requires
        selected@.len() > 0,
    ensures
        begins_work(*config, selected.deep_view(), r.0, r.1),
        state_inv(r.0),
{
    if config.force {
        let first = selected[0].clone();
        (State::Uninstalling { selected, next: 0 }, Action::RunUninstall(first))
    } else {
        let items = clone_names(&selected);
        (State::Confirming { selected }, Action::PromptConfirm(items))
    }
}

/// One decision of the run: from `state`, on `event`, the next state and
/// the next piece of outside work.  The caller owes the run's protocol:
/// the event answers what the state awaits, and the state is one the run
/// itself handed out.
pub fn step(config: &Config, state: State, event: Event) -> (r: (State, Action))
    requires
        accepts(state, event),
        state_inv(state),
    ensures
        is_step(*config, state, event, r.0, r.1),
        state_inv(r.0),
{
    match (state, event) {
        (State::Listing, Event::Listed(objects)) => {
            let names = list_releases(&objects);
            if names.len() == 0 {
                proof {
                    assert forall|n: Seq<char>| !has_release_name(objects@, n) by {
                        assert(!names.deep_view().contains(n));
                    }
                }
                (
                    State::Done { outcome: Outcome::NoReleases },
                    Action::Finish(Outcome::NoReleases),
                )
            } else {
                proof {
                    assert(names.deep_view()[0] == names@[0]@);
                    assert(names.deep_view().contains(names.deep_view()[0]));
                    assert(has_release_name(objects@, names.deep_view()[0]));
                }
                match &config.release {
                    Some(r) => {
                        let one = vec![r.clone()];
                        proof {
                            assert(one.deep_view() =~= seq![one@[0]@]);
                        }
                        begin_work_exec(config, one)
                    },
                    None => {
                        let items = clone_names(&names);
                        (State::Selecting { releases: names }, Action::PromptSelect(items))
                    },
                }
            }
        },
        (State::Listing, Event::ListFailed) => (
            State::Done { outcome: Outcome::ListFailed },
            Action::Finish(Outcome::ListFailed),
        ),
        (State::Selecting { releases }, Event::Chosen(idx)) => {
            let ghost rs = releases.deep_view();
            let choice = classify_choice(&releases, idx);
            let ghost gchoice = choice;
            let selected = resolve_selection(releases, choice);
            proof {
                match gchoice {
                    Selection::Single(n) => {
                        assert(selected.deep_view() == seq![n@]);
                    },
                    Selection::All => {
                        assert(selected.deep_view() == rs);
                    },
                }
                assert(selected@.len() == selected.deep_view().len());
            }
            begin_work_exec(config, selected)
        },
        (State::Confirming { selected }, Event::ConfirmLine(line)) => {
            if crate::confirm::confirmation_accepted(line.as_str()) {
                let first = selected[0].clone();
                (State::Uninstalling { selected, next: 0 }, Action::RunUninstall(first))
            } else {
                (State::Done { outcome: Outcome::Declined }, Action::Finish(Outcome::Declined))
            }
        },
        (State::Uninstalling { selected, next }, Event::UninstallExited(ok)) => {
            let m = selected.len();
            if !ok {
                (
                    State::Done { outcome: Outcome::UninstallFailed },
                    Action::Finish(Outcome::UninstallFailed),
                )
            } else if next + 1 < m {
                let n = selected[next + 1].clone();
                (State::Uninstalling { selected, next: next + 1 }, Action::RunUninstall(n))
            } else if config.delete_namespace {
                (State::Deleting, Action::RequestNamespaceDelete)
            } else {
                (State::Done { outcome: Outcome::Completed }, Action::Finish(Outcome::Completed))
            }
        },
        (State::Uninstalling { .. }, Event::UninstallLaunchFailed) => (
            State::Done { outcome: Outcome::LaunchFailed },
            Action::Finish(Outcome::LaunchFailed),
        ),
        (State::Deleting, Event::NamespaceDeleted) => (
            State::Done { outcome: Outcome::Completed },
            Action::Finish(Outcome::Completed),
        ),
        (State::Deleting, Event::NamespaceDeleteFailed) => (
            State::Done { outcome: Outcome::DeleteFailed },
            Action::Finish(Outcome::DeleteFailed),
        ),
        _ => unreached(),
    }
}

/// Whether the state awaits this event; lets an unverified caller check
/// the protocol before handing the event to [`step`].
pub fn accepts_event(state: &State, event: &Event) -> (r: bool)
    ensures
        r == accepts(*state, *event),
{
    match (state, event) {
        (State::Listing, Event::Listed(_)) => true,
        (State::Listing, Event::ListFailed) => true,
        (State::Selecting { .. }, Event::Chosen(_)) => true,
        (State::Confirming { .. }, Event::ConfirmLine(_)) => true,
        (State::Uninstalling { .. }, Event::UninstallExited(_)) => true,
        (State::Uninstalling { .. }, Event::UninstallLaunchFailed) => true,
        (State::Deleting, Event::NamespaceDeleted) => true,
        (State::Deleting, Event::NamespaceDeleteFailed) => true,
        _ => false,
    }
}

/// Whether the state is well formed; lets an unverified caller check the
/// other half of [`step`]'s precondition.
pub fn state_wf(state: &State) -> (r: bool)
    ensures
        r == state_inv(*state),
{
    match state {
        State::Selecting { releases } => releases.len() > 0,
        State::Confirming { selected } => selected.len() > 0,
        State::Uninstalling { selected, next } => *next < selected.len(),
        _ => true,
    }
}

/// The fixed argument shape of the package-manager call for one release:
/// `uninstall <release> -n <namespace>`.
pub fn uninstall_args(release: &str, namespace: &str) -> (r: Vec<String>)
    ensures
        r.deep_view() =~= seq!["uninstall"@, release@, "-n"@, namespace@],
{
    let mut r: Vec<String> = Vec::new();
    r.push(String::from_str("uninstall"));
    r.push(String::from_str(release));
    r.push(String::from_str("-n"));
    r.push(String::from_str(namespace));
    r
}

} // verus!
