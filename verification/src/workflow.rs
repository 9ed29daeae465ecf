//! The rename workflow: which step follows which answer of the daemon or of
//! the user. The caller carries out each action and hands back what came of
//! it; nothing here touches the daemon.

use crate::names::{is_valid_name, validate_model_name};
use crate::registry::ListingError;
use crate::text::{same_text, trim, trimmed};
use crate::transfer::Verdict;
use vstd::prelude::*;
use vstd::string::StringExecFns;

verus! {

/// Why a rename did not go through.
#[derive(Clone, Copy, PartialEq, Eq, Structural, Debug)]
pub enum Failure {
    /// The destination does not match the grammar of model names.
    InvalidName,
    /// The destination is the source itself.
    SameName,
    /// The list of installed models could not be had.
    ListingFailed,
    /// The destination is installed already and may not be replaced.
    DestinationExists,
    /// The installed destination could not be deleted.
    DestinationNotRemoved,
    /// The copy failed.
    CopyFailed,
    /// The source is loaded, and its deletion was not forced.
    SourceAppearsLoaded,
    /// The copy was made, but the original could not be deleted.
    OriginalNotRemoved,
}

/// How a rename ended.
#[derive(Clone, Copy, PartialEq, Eq, Structural, Debug)]
pub enum Outcome {
    /// Nothing was done: the steps were only to be reported.
    DryRun,
    /// The copy was made and the original deleted.
    Renamed,
    /// The copy was made and the original kept.
    Copied,
    /// The user kept the installed destination; nothing was done.
    OverwriteDeclined,
    /// The copy was made; the user kept the original because it is loaded.
    LoadedOriginalKept,
    /// The rename stopped with a failure.
    Failed(Failure),
}

/// What the caller is to do next.
#[derive(Clone, Copy, PartialEq, Eq, Structural, Debug)]
pub enum Action {
    /// Find out whether the destination is installed.
    CheckDestination,
    /// Ask the user whether the installed destination may be replaced.
    ConfirmOverwrite,
    /// Delete the installed destination.
    DeleteDestination,
    /// Copy the source to the destination.
    Copy,
    /// Ask the user whether the original is to be deleted.
    ConfirmDeleteOriginal,
    /// Find out whether the source is loaded.
    CheckSourceLoaded,
    /// Ask the user whether the original is to be deleted although loaded.
    ConfirmDeleteLoaded,
    /// Delete the original.
    DeleteOriginal,
    /// Stop: the rename has ended.
    Finish(Outcome),
}

/// What came of an action.
#[derive(Clone, Copy, PartialEq, Eq, Structural, Debug)]
pub enum Event {
    /// The list of installed models holds the destination, or does not.
    Existence(bool),
    /// The list of installed models could not be had.
    ListingFailed,
    /// The user's answer to a question.
    Answer(bool),
    /// The copy or deletion was made.
    Succeeded,
    /// The copy or deletion failed.
    Failed,
    /// The source is reported as loaded, or is not.
    Loaded(bool),
}

/// The settings that decide at the guards of the workflow.
#[derive(Clone, Copy, PartialEq, Eq, Structural, Debug)]
pub struct Rules {
    /// Guards are put to the user as questions; the three flags are not read.
    pub interactive: bool,
    /// An installed destination is deleted before the copy.
    pub overwrite: bool,
    /// The original is deleted after the copy.
    pub delete_original: bool,
    /// The original is deleted without asking whether it is loaded.
    pub force: bool,
}

/// A rename as it was asked for.
#[derive(Clone, Debug)]
pub struct RenameRequest {
    pub from: String,
    pub to: String,
    pub delete_original: bool,
    pub force: bool,
    pub dry_run: bool,
    pub overwrite: bool,
}

impl Outcome {
    /// Whether the rename ended without a failure.
    pub open spec fn succeeded(self) -> bool {
        !(self is Failed)
    }

    /// Tests whether the rename ended without a failure.
    pub fn is_success(&self) -> (b: bool)
        ensures
            b == self.succeeded(),
    {
        match self {
            Outcome::Failed(_) => false,
            _ => true,
        }
    }
}

impl Event {
    /// The event for what the look into the list of installed models gave.
    pub fn existence(found: Result<bool, ListingError>) -> (e: Event)
        ensures
            e == match found {
                Ok(installed) => Event::Existence(installed),
                Err(_) => Event::ListingFailed,
            },
    {
        match found {
            Ok(installed) => Event::Existence(installed),
            Err(_) => Event::ListingFailed,
        }
    }

    /// The event for the way a copy or a deletion ended.
    pub fn completion(verdict: Verdict) -> (e: Event)
        ensures
            e == match verdict {
                Verdict::Done => Event::Succeeded,
                Verdict::Failed(_) => Event::Failed,
            },
    {
        match verdict {
            Verdict::Done => Event::Succeeded,
            Verdict::Failed(_) => Event::Failed,
        }
    }
}

impl Action {
    /// Whether carrying out the action sends a request to the daemon.
    pub open spec fn reaches_daemon(self) -> bool {
        self is CheckDestination || self is DeleteDestination || self is Copy
            || self is CheckSourceLoaded || self is DeleteOriginal
    }

    /// Whether carrying out the action copies or deletes a model.
    pub open spec fn changes_models(self) -> bool {
        self is DeleteDestination || self is Copy || self is DeleteOriginal
    }

    /// The place of the action in the order of the workflow.
    pub open spec fn stage(self) -> nat {
        match self {
            Action::CheckDestination => 0,
            Action::ConfirmOverwrite => 1,
            Action::DeleteDestination => 2,
            Action::Copy => 3,
            Action::ConfirmDeleteOriginal => 4,
            Action::CheckSourceLoaded => 5,
            Action::ConfirmDeleteLoaded => 6,
            Action::DeleteOriginal => 7,
            Action::Finish(_) => 8,
        }
    }
}

/// Whether `event` is of the kind that `action` is waiting for.
pub open spec fn answers(action: Action, event: Event) -> bool {
    match action {
        Action::CheckDestination => event is Existence || event is ListingFailed,
        Action::ConfirmOverwrite => event is Answer,
        Action::DeleteDestination => event is Succeeded || event is Failed,
        Action::Copy => event is Succeeded || event is Failed,
        Action::ConfirmDeleteOriginal => event is Answer,
        Action::CheckSourceLoaded => event is Loaded,
        Action::ConfirmDeleteLoaded => event is Answer,
        Action::DeleteOriginal => event is Succeeded || event is Failed,
        Action::Finish(_) => false,
    }
}

/// The first action of a rename whose destination, white space trimmed, is
/// `destination`.
pub open spec fn first_action(destination: Seq<char>, dry_run: bool) -> Action {
    if !is_valid_name(destination) {
        Action::Finish(Outcome::Failed(Failure::InvalidName))
    } else if dry_run {
        Action::Finish(Outcome::DryRun)
    } else {
        Action::CheckDestination
    }
}

/// The first action of a rename that the user put together at the prompt.
pub open spec fn first_interactive_action(source: Seq<char>, destination: Seq<char>) -> Action {
    if !is_valid_name(destination) {
        Action::Finish(Outcome::Failed(Failure::InvalidName))
    } else if destination == source {
        Action::Finish(Outcome::Failed(Failure::SameName))
    } else {
        Action::CheckDestination
    }
}

/// What follows a copy that was made.
pub open spec fn after_copy(rules: Rules) -> Action {
    if rules.interactive {
        Action::ConfirmDeleteOriginal
    } else if !rules.delete_original {
        Action::Finish(Outcome::Copied)
    } else if rules.force {
        Action::DeleteOriginal
    } else {
        Action::CheckSourceLoaded
    }
}

/// The action that follows `action` once `event` has come in. An event of a
/// kind that `action` is not waiting for leaves the action as it is.
pub open spec fn next(rules: Rules, action: Action, event: Event) -> Action {
    match (action, event) {
        (Action::CheckDestination, Event::ListingFailed) => Action::Finish(
            Outcome::Failed(Failure::ListingFailed),
        ),
        (Action::CheckDestination, Event::Existence(false)) => Action::Copy,
        (Action::CheckDestination, Event::Existence(true)) => if rules.interactive {
            Action::ConfirmOverwrite
        } else if rules.overwrite {
            Action::DeleteDestination
        } else {
            Action::Finish(Outcome::Failed(Failure::DestinationExists))
        },
        (Action::ConfirmOverwrite, Event::Answer(true)) => Action::DeleteDestination,
        (Action::ConfirmOverwrite, Event::Answer(false)) => Action::Finish(
            Outcome::OverwriteDeclined,
        ),
        (Action::DeleteDestination, Event::Succeeded) => Action::Copy,
        (Action::DeleteDestination, Event::Failed) => Action::Finish(
            Outcome::Failed(Failure::DestinationNotRemoved),
        ),
        (Action::Copy, Event::Succeeded) => after_copy(rules),
        (Action::Copy, Event::Failed) => Action::Finish(Outcome::Failed(Failure::CopyFailed)),
        (Action::ConfirmDeleteOriginal, Event::Answer(true)) => Action::CheckSourceLoaded,
        (Action::ConfirmDeleteOriginal, Event::Answer(false)) => Action::Finish(Outcome::Copied),
        (Action::CheckSourceLoaded, Event::Loaded(false)) => Action::DeleteOriginal,
        (Action::CheckSourceLoaded, Event::Loaded(true)) => if rules.interactive {
            Action::ConfirmDeleteLoaded
        } else {
            Action::Finish(Outcome::Failed(Failure::SourceAppearsLoaded))
        },
        (Action::ConfirmDeleteLoaded, Event::Answer(true)) => Action::DeleteOriginal,
        (Action::ConfirmDeleteLoaded, Event::Answer(false)) => Action::Finish(
            Outcome::LoadedOriginalKept,
        ),
        (Action::DeleteOriginal, Event::Succeeded) => Action::Finish(Outcome::Renamed),
        (Action::DeleteOriginal, Event::Failed) => Action::Finish(
            Outcome::Failed(Failure::OriginalNotRemoved),
        ),
        _ => action,
    }
}

/// The actions that the caller is given, in order, when it starts with
/// `action` and the events come in as listed. An event that the pending
/// action is not waiting for brings no new action.
pub open spec fn issued(rules: Rules, action: Action, events: Seq<Event>) -> Seq<Action>
    decreases events.len(),
{
    if events.len() == 0 {
        seq![action]
    } else if answers(action, events[0]) {
        seq![action] + issued(rules, next(rules, action, events[0]), events.drop_first())
    } else {
        issued(rules, action, events.drop_first())
    }
}

/// Every answer moves the workflow on to a later stage, and no other
/// event moves it at all.
pub proof fn lemma_next_moves_on(rules: Rules, action: Action, event: Event)
    ensures
        answers(action, event) ==> next(rules, action, event).stage() > action.stage(),
        !answers(action, event) ==> next(rules, action, event) == action,
{
}

/// The actions of a run begin with the first one and come in the order of
/// their stages, so none is given twice.
pub proof fn lemma_issued_in_order(rules: Rules, action: Action, events: Seq<Event>)
    ensures
        issued(rules, action, events).len() >= 1,
        issued(rules, action, events)[0] == action,
        forall|i: int, j: int|
            0 <= i < j < issued(rules, action, events).len() ==> (#[trigger] issued(
                rules,
                action,
                events,
            )[i]).stage() < (#[trigger] issued(rules, action, events)[j]).stage(),
    decreases events.len(),
{
    if events.len() == 0 {
    } else if answers(action, events[0]) {
        let following = next(rules, action, events[0]);
        let rest = issued(rules, following, events.drop_first());
        lemma_issued_in_order(rules, following, events.drop_first());
        lemma_next_moves_on(rules, action, events[0]);
        let all = issued(rules, action, events);
        assert(all == seq![action] + rest);
        assert forall|i: int, j: int| 0 <= i < j < all.len() implies (#[trigger] all[i]).stage() < (
        #[trigger] all[j]).stage() by {
            assert(all[j] == rest[j - 1]);
            if i == 0 {
                assert(all[0] == action);
                if j > 1 {
                    assert(rest[0].stage() < rest[j - 1].stage());
                }
            } else {
                assert(all[i] == rest[i - 1]);
            }
        }
    } else {
        lemma_issued_in_order(rules, action, events.drop_first());
    }
}

/// Once a rename has ended, no event brings another action.
pub proof fn lemma_finish_is_final(rules: Rules, outcome: Outcome, events: Seq<Event>)
    ensures
        issued(rules, Action::Finish(outcome), events) == seq![Action::Finish(outcome)],
    decreases events.len(),
{
    if events.len() > 0 {
        lemma_finish_is_final(rules, outcome, events.drop_first());
    }
}

/// A dry run with a valid destination ends at once and with success: its
/// only action is to stop, so nothing is sent to the daemon.
pub proof fn lemma_dry_run_reaches_nothing(destination: Seq<char>, rules: Rules, events: Seq<Event>)
    requires
        is_valid_name(destination),
    ensures
        first_action(destination, true) == Action::Finish(Outcome::DryRun),
        Outcome::DryRun.succeeded(),
        issued(rules, first_action(destination, true), events) == seq![
            Action::Finish(Outcome::DryRun),
        ],
        forall|i: int|
            0 <= i < issued(rules, first_action(destination, true), events).len()
                ==> !(#[trigger] issued(rules, first_action(destination, true), events)[i]).reaches_daemon(),
{
    lemma_finish_is_final(rules, Outcome::DryRun, events);
}

/// Without leave to overwrite, a rename by flags whose destination is
/// installed fails with `DestinationExists` right after the check, and
/// neither copies nor deletes anything.
pub proof fn lemma_installed_destination_is_kept(rules: Rules, events: Seq<Event>)
    requires
        !rules.interactive,
        !rules.overwrite,
        events.len() >= 1,
        events[0] == Event::Existence(true),
    ensures
        issued(rules, Action::CheckDestination, events) == seq![
            Action::CheckDestination,
            Action::Finish(Outcome::Failed(Failure::DestinationExists)),
        ],
        forall|i: int|
            0 <= i < issued(rules, Action::CheckDestination, events).len() ==> !(#[trigger] issued(
                rules,
                Action::CheckDestination,
                events,
            )[i]).changes_models(),
{
    lemma_finish_is_final(
        rules,
        Outcome::Failed(Failure::DestinationExists),
        events.drop_first(),
    );
    assert(issued(rules, Action::CheckDestination, events) =~= seq![
        Action::CheckDestination,
        Action::Finish(Outcome::Failed(Failure::DestinationExists)),
    ]);
}

/// With leave to overwrite, a rename by flags whose destination is
/// installed deletes the destination right after the check; the copy, where
/// it is made, comes right after that deletion, and the destination is
/// deleted at no other point of the run.
pub proof fn lemma_overwrite_deletes_once_before_copy(rules: Rules, events: Seq<Event>)
    requires
        !rules.interactive,
        rules.overwrite,
        events.len() >= 1,
        events[0] == Event::Existence(true),
    ensures
        issued(rules, Action::CheckDestination, events).len() >= 2,
        issued(rules, Action::CheckDestination, events)[1] == Action::DeleteDestination,
        forall|i: int|
            0 <= i < issued(rules, Action::CheckDestination, events).len() && #[trigger] issued(
                rules,
                Action::CheckDestination,
                events,
            )[i] == Action::DeleteDestination ==> i == 1,
        forall|i: int|
            0 <= i < issued(rules, Action::CheckDestination, events).len() && #[trigger] issued(
                rules,
                Action::CheckDestination,
                events,
            )[i] == Action::Copy ==> i == 2,
{
    let all = issued(rules, Action::CheckDestination, events);
    let rest = issued(rules, Action::DeleteDestination, events.drop_first());
    lemma_issued_in_order(rules, Action::DeleteDestination, events.drop_first());
    lemma_issued_in_order(rules, Action::CheckDestination, events);
    assert(all == seq![Action::CheckDestination] + rest);
    assert(all[1] == rest[0]);
    assert forall|i: int| 0 <= i < all.len() && #[trigger] all[i] == Action::DeleteDestination implies i
        == 1 by {
        if i != 1 {
            if i < 1 {
                assert(all[i].stage() < all[1].stage());
            } else {
                assert(all[1].stage() < all[i].stage());
            }
        }
    }
    assert forall|i: int| 0 <= i < all.len() && #[trigger] all[i] == Action::Copy implies i == 2 by {
        if i < 1 {
            assert(all[i].stage() < all[1].stage());
        } else if i == 1 {
        } else if i > 2 {
            assert(all[1].stage() < all[2].stage());
            assert(all[2].stage() < all[i].stage());
        }
    }
}

/// A rename by flags that is to delete the original without force stops
/// with `SourceAppearsLoaded` when the source is reported as loaded, and
/// does not delete it.
pub proof fn lemma_loaded_source_is_kept(rules: Rules, events: Seq<Event>)
    requires
        !rules.interactive,
        rules.delete_original,
        !rules.force,
        events.len() >= 2,
        events[0] == Event::Succeeded,
        events[1] == Event::Loaded(true),
    ensures
        issued(rules, Action::Copy, events) == seq![
            Action::Copy,
            Action::CheckSourceLoaded,
            Action::Finish(Outcome::Failed(Failure::SourceAppearsLoaded)),
        ],
        forall|i: int|
            0 <= i < issued(rules, Action::Copy, events).len() ==> #[trigger] issued(
                rules,
                Action::Copy,
                events,
            )[i] != Action::DeleteOriginal,
{
    let tail = events.drop_first();
    lemma_finish_is_final(rules, Outcome::Failed(Failure::SourceAppearsLoaded), tail.drop_first());
    assert(issued(rules, Action::CheckSourceLoaded, tail) =~= seq![
        Action::CheckSourceLoaded,
        Action::Finish(Outcome::Failed(Failure::SourceAppearsLoaded)),
    ]);
    assert(issued(rules, Action::Copy, events) =~= seq![
        Action::Copy,
        Action::CheckSourceLoaded,
        Action::Finish(Outcome::Failed(Failure::SourceAppearsLoaded)),
    ]);
}

/// With force, a rename by flags that is to delete the original does so
/// right after the copy, and never asks whether the source is loaded.
pub proof fn lemma_force_deletes_unasked(rules: Rules, events: Seq<Event>)
    requires
        !rules.interactive,
        rules.delete_original,
        rules.force,
        events.len() >= 1,
        events[0] == Event::Succeeded,
    ensures
        issued(rules, Action::Copy, events).len() >= 2,
        issued(rules, Action::Copy, events)[1] == Action::DeleteOriginal,
        forall|i: int|
            0 <= i < issued(rules, Action::Copy, events).len() ==> #[trigger] issued(
                rules,
                Action::Copy,
                events,
            )[i] != Action::CheckSourceLoaded,
{
    let all = issued(rules, Action::Copy, events);
    let rest = issued(rules, Action::DeleteOriginal, events.drop_first());
    lemma_issued_in_order(rules, Action::DeleteOriginal, events.drop_first());
    lemma_issued_in_order(rules, Action::Copy, events);
    assert(all == seq![Action::Copy] + rest);
    assert(all[1] == rest[0]);
    assert forall|i: int| 0 <= i < all.len() implies #[trigger] all[i]
        != Action::CheckSourceLoaded by {
        if i == 0 {
        } else if i > 1 {
            assert(all[1].stage() < all[i].stage());
        }
    }
}

/// The text that reports `failure` for a rename of `source` to
/// `destination`; `cause` is the report of the step that failed, where the
/// failure has one.
pub open spec fn failure_text(
    failure: Failure,
    source: Seq<char>,
    destination: Seq<char>,
    cause: Seq<char>,
) -> Seq<char> {
    match failure {
        Failure::InvalidName => "Invalid name. Use letters, numbers, . _ - / and optional :tag"@,
        Failure::SameName => "Destination name equals source; nothing to do."@,
        Failure::ListingFailed => cause,
        Failure::DestinationExists => "Destination '"@ + destination
            + "' already exists. Use --overwrite to replace it."@,
        Failure::DestinationNotRemoved => "Failed to delete existing destination '"@ + destination
            + "': "@ + cause,
        Failure::CopyFailed => "Copy failed from '"@ + source + "' to '"@ + destination + "': "@
            + cause,
        Failure::SourceAppearsLoaded => "Model appears loaded (via /api/ps). Use --force to attempt delete anyway, or stop it first."@,
        Failure::OriginalNotRemoved => "Failed to delete '"@ + source + "': "@ + cause,
    }
}

/// The line that tells of the copy that a dry run would make.
pub open spec fn copy_notice(source: Seq<char>, destination: Seq<char>) -> Seq<char> {
    "[dry-run] Would copy '"@ + source + "' -> '"@ + destination + "'"@
}

/// The line that tells of the deletion that a dry run would make.
pub open spec fn delete_notice(source: Seq<char>) -> Seq<char> {
    "[dry-run] Would delete original '"@ + source + "'"@
}

/// Computes the action that follows `action` once `event` has come in.
pub fn next_action(rules: Rules, action: Action, event: Event) -> (a: Action)
    ensures
        a == next(rules, action, event),
{
    match (action, event) {
        (Action::CheckDestination, Event::ListingFailed) => Action::Finish(
            Outcome::Failed(Failure::ListingFailed),
        ),
        (Action::CheckDestination, Event::Existence(found)) => {
            if !found {
                Action::Copy
            } else if rules.interactive {
                Action::ConfirmOverwrite
            } else if rules.overwrite {
                Action::DeleteDestination
            } else {
                Action::Finish(Outcome::Failed(Failure::DestinationExists))
            }
        },
        (Action::ConfirmOverwrite, Event::Answer(yes)) => {
            if yes {
                Action::DeleteDestination
            } else {
                Action::Finish(Outcome::OverwriteDeclined)
            }
        },
        (Action::DeleteDestination, Event::Succeeded) => Action::Copy,
        (Action::DeleteDestination, Event::Failed) => Action::Finish(
            Outcome::Failed(Failure::DestinationNotRemoved),
        ),
        (Action::Copy, Event::Succeeded) => {
            if rules.interactive {
                Action::ConfirmDeleteOriginal
            } else if !rules.delete_original {
                Action::Finish(Outcome::Copied)
            } else if rules.force {
                Action::DeleteOriginal
            } else {
                Action::CheckSourceLoaded
            }
        },
        (Action::Copy, Event::Failed) => Action::Finish(Outcome::Failed(Failure::CopyFailed)),
        (Action::ConfirmDeleteOriginal, Event::Answer(yes)) => {
            if yes {
                Action::CheckSourceLoaded
            } else {
                Action::Finish(Outcome::Copied)
            }
        },
        (Action::CheckSourceLoaded, Event::Loaded(loaded)) => {
            if !loaded {
                Action::DeleteOriginal
            } else if rules.interactive {
                Action::ConfirmDeleteLoaded
            } else {
                Action::Finish(Outcome::Failed(Failure::SourceAppearsLoaded))
            }
        },
        (Action::ConfirmDeleteLoaded, Event::Answer(yes)) => {
            if yes {
                Action::DeleteOriginal
            } else {
                Action::Finish(Outcome::LoadedOriginalKept)
            }
        },
        (Action::DeleteOriginal, Event::Succeeded) => Action::Finish(Outcome::Renamed),
        (Action::DeleteOriginal, Event::Failed) => Action::Finish(
            Outcome::Failed(Failure::OriginalNotRemoved),
        ),
        (pending, _) => pending,
    }
}

/// A rename under way: the two names, the rules, and the action that the
/// caller is to carry out next.
pub struct Workflow {
    source: String,
    destination: String,
    rules: Rules,
    pending: Action,
}

impl Workflow {
    /// The model that is copied.
    pub closed spec fn source_name(&self) -> Seq<char> {
        self.source@
    }

    /// The name that the copy is given.
    pub closed spec fn destination_name(&self) -> Seq<char> {
        self.destination@
    }

    /// The rules that this rename goes by.
    pub closed spec fn rules_in_force(&self) -> Rules {
        self.rules
    }

    /// The action that the caller is to carry out next.
    pub closed spec fn pending_action(&self) -> Action {
        self.pending
    }

    /// Starts a rename that was asked for by flags. Both names are trimmed;
    /// an invalid destination and a dry run end the rename at once.
    pub fn begin(request: &RenameRequest) -> (w: Workflow)
        ensures
            w.source_name() == trimmed(request.from@),
            w.destination_name() == trimmed(request.to@),
            w.rules_in_force() == (Rules {
                interactive: false,
                overwrite: request.overwrite,
                delete_original: request.delete_original,
                force: request.force,
            }),
            w.pending_action() == first_action(trimmed(request.to@), request.dry_run),
    {
        let to = trim(request.to.as_str());
        let from = trim(request.from.as_str());
        let pending = match validate_model_name(to) {
            Err(_) => Action::Finish(Outcome::Failed(Failure::InvalidName)),
            Ok(_) => if request.dry_run {
                Action::Finish(Outcome::DryRun)
            } else {
                Action::CheckDestination
            },
        };
        Workflow {
            source: String::from_str(from),
            destination: String::from_str(to),
            rules: Rules {
                interactive: false,
                overwrite: request.overwrite,
                delete_original: request.delete_original,
                force: request.force,
            },
            pending,
        }
    }

    /// Starts a rename that the user put together at the prompt: `from` as
    /// it was chosen from the list, `to` as it was typed, which is trimmed.
    /// An invalid destination, and one that is the source, end it at once.
    pub fn begin_interactive(from: &str, to: &str) -> (w: Workflow)
        ensures
            w.source_name() == from@,
            w.destination_name() == trimmed(to@),
            w.rules_in_force() == (Rules {
                interactive: true,
                overwrite: false,
                delete_original: false,
                force: false,
            }),
            w.pending_action() == first_interactive_action(from@, trimmed(to@)),
    {
        let to = trim(to);
        let pending = match validate_model_name(to) {
            Err(_) => Action::Finish(Outcome::Failed(Failure::InvalidName)),
            Ok(_) => if same_text(to, from) {
                Action::Finish(Outcome::Failed(Failure::SameName))
            } else {
                Action::CheckDestination
            },
        };
        Workflow {
            source: String::from_str(from),
            destination: String::from_str(to),
            rules: Rules { interactive: true, overwrite: false, delete_original: false, force: false },
            pending,
        }
    }

    /// The model that is copied.
    pub fn source(&self) -> (s: &str)
        ensures
            s@ == self.source_name(),
    {
        self.source.as_str()
    }

    /// The name that the copy is given.
    pub fn destination(&self) -> (s: &str)
        ensures
            s@ == self.destination_name(),
    {
        self.destination.as_str()
    }

    /// The rules that this rename goes by.
    pub fn rules(&self) -> (r: Rules)
        ensures
            r == self.rules_in_force(),
    {
        self.rules
    }

    /// The action that the caller is to carry out next.
    pub fn pending(&self) -> (a: Action)
        ensures
            a == self.pending_action(),
    {
        self.pending
    }

    /// The outcome, once the rename has ended.
    pub fn outcome(&self) -> (o: Option<Outcome>)
        ensures
            o == match self.pending_action() {
                Action::Finish(outcome) => Some(outcome),
                _ => None,
            },
    {
        match self.pending {
            Action::Finish(outcome) => Some(outcome),
            _ => None,
        }
    }

    /// Writes the text that reports `failure` for this rename.
    pub fn describe_failure(&self, failure: Failure, cause: &str) -> (r: String)
        ensures
            r@ == failure_text(failure, self.source_name(), self.destination_name(), cause@),
    {
        match failure {
            Failure::InvalidName => String::from_str(
                "Invalid name. Use letters, numbers, . _ - / and optional :tag",
            ),
            Failure::SameName => String::from_str("Destination name equals source; nothing to do."),
            Failure::ListingFailed => String::from_str(cause),
            Failure::DestinationExists => {
                let mut r = String::from_str("Destination '");
                r.append(self.destination.as_str());
                r.append("' already exists. Use --overwrite to replace it.");
                r
            },
            Failure::DestinationNotRemoved => {
                let mut r = String::from_str("Failed to delete existing destination '");
                r.append(self.destination.as_str());
                r.append("': ");
                r.append(cause);
                r
            },
            Failure::CopyFailed => {
                let mut r = String::from_str("Copy failed from '");
                r.append(self.source.as_str());
                r.append("' to '");
                r.append(self.destination.as_str());
                r.append("': ");
                r.append(cause);
                r
            },
            Failure::SourceAppearsLoaded => String::from_str(
                "Model appears loaded (via /api/ps). Use --force to attempt delete anyway, or stop it first.",
            ),
            Failure::OriginalNotRemoved => {
                let mut r = String::from_str("Failed to delete '");
                r.append(self.source.as_str());
                r.append("': ");
                r.append(cause);
                r
            },
        }
    }

    /// Writes what a dry run would do: the copy, and the deletion of the
    /// original where the rules ask for it.
    pub fn dry_run_report(&self) -> (lines: Vec<String>)
        ensures
            lines.len() == if self.rules_in_force().delete_original {
                2int
            } else {
                1int
            },
            lines[0]@ == copy_notice(self.source_name(), self.destination_name()),
            self.rules_in_force().delete_original ==> lines[1]@ == delete_notice(
                self.source_name(),
            ),
    {
        let mut lines: Vec<String> = Vec::new();
        let mut copy = String::from_str("[dry-run] Would copy '");
        copy.append(self.source.as_str());
        copy.append("' -> '");
        copy.append(self.destination.as_str());
        copy.append("'");
        lines.push(copy);
        if self.rules.delete_original {
            let mut delete = String::from_str("[dry-run] Would delete original '");
            delete.append(self.source.as_str());
            delete.append("'");
            lines.push(delete);
        }
        lines
    }

    /// Takes in what came of the pending action and returns the action that
    /// follows. The names and the rules stay as they are.
    pub fn advance(&mut self, event: Event) -> (a: Action)
        ensures
            a == next(old(self).rules_in_force(), old(self).pending_action(), event),
            final(self).pending_action() == a,
            final(self).rules_in_force() == old(self).rules_in_force(),
            final(self).source_name() == old(self).source_name(),
            final(self).destination_name() == old(self).destination_name(),
    {
        let a = next_action(self.rules, self.pending, event);
        self.pending = a;
        a
    }
}

} // verus!
