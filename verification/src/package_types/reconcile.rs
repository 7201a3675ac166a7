//! Reconciliation of one provider: the decisions between the query of what is
//! installed, the two confirmations and the two batches. Whoever runs it performs
//! each [`Action`] and reports what came of it as an [`Event`].

use vstd::prelude::*;

use crate::package_types::diff::{difference, missing_items, Identified};

verus! {

/// How a reconciliation ended.
#[derive(Clone, Copy, Debug, PartialEq, Eq, Structural)]
pub enum Outcome {
    /// Every batch that was confirmed has been applied.
    Completed,
    /// What is installed could not be found out.
    QueryFailed,
    /// Installing failed; what had been installed before the failure stays.
    InstallFailed,
    /// Removing failed; what had been removed before the failure stays away.
    RemovalFailed,
}

/// Where a reconciliation stands.
#[derive(Clone, Copy, Debug, PartialEq, Eq, Structural)]
pub enum Stage {
    /// Waiting for the installed items.
    Querying,
    /// Waiting for the answer on what is to be installed.
    ConfirmingInstall,
    /// Waiting for the install batch to end.
    Installing,
    /// Waiting for the answer on what is to be removed.
    ConfirmingRemoval,
    /// Waiting for the removal batch to end.
    Removing,
    /// Over.
    Finished(Outcome),
}

/// What happened outside since the last action.
#[derive(Debug)]
pub enum Event<T> {
    /// The query gave these installed items.
    Queried(Vec<T>),
    /// The query failed.
    QueryFailed,
    /// The user answered the prompt.
    Answered(bool),
    /// The batch was applied.
    Applied,
    /// The batch failed.
    Failed,
}

/// What is to be done outside next.
#[derive(Debug, PartialEq, Eq)]
pub enum Action<T> {
    /// Find out what is installed.
    Query,
    /// Show these items and ask whether to install them.
    ConfirmInstall(Vec<T>),
    /// Install these items.
    Install(Vec<T>),
    /// Show these items and ask whether to remove them.
    ConfirmRemoval(Vec<T>),
    /// Remove these items.
    Remove(Vec<T>),
    /// Nothing more: the reconciliation is over.
    Finish(Outcome),
}

/// Something worth telling the user that asks nothing of them.
#[derive(Clone, Copy, Debug, PartialEq, Eq, Structural)]
pub enum Notice {
    /// Every desired item is installed.
    NothingToInstall,
    /// No installed item is undesired.
    NothingToRemove,
    /// The user declined to install this many items.
    InstallSkipped(usize),
    /// The user declined to remove this many items.
    RemovalSkipped(usize),
}

/// An [`Event`] as a value of specifications.
pub enum EventView<T> {
    Queried(Seq<T>),
    QueryFailed,
    Answered(bool),
    Applied,
    Failed,
}

/// An [`Action`] as a value of specifications.
pub enum ActionView<T> {
    Query,
    ConfirmInstall(Seq<T>),
    Install(Seq<T>),
    ConfirmRemoval(Seq<T>),
    Remove(Seq<T>),
    Finish(Outcome),
}

impl<T> View for Event<T> {
    type V = EventView<T>;

    open spec fn view(&self) -> EventView<T> {
        match self {
            Event::Queried(items) => EventView::Queried(items@),
            Event::QueryFailed => EventView::QueryFailed,
            Event::Answered(yes) => EventView::Answered(*yes),
            Event::Applied => EventView::Applied,
            Event::Failed => EventView::Failed,
        }
    }
}

impl<T> View for Action<T> {
    type V = ActionView<T>;

    open spec fn view(&self) -> ActionView<T> {
        match self {
            Action::Query => ActionView::Query,
            Action::ConfirmInstall(items) => ActionView::ConfirmInstall(items@),
            Action::Install(items) => ActionView::Install(items@),
            Action::ConfirmRemoval(items) => ActionView::ConfirmRemoval(items@),
            Action::Remove(items) => ActionView::Remove(items@),
            Action::Finish(outcome) => ActionView::Finish(*outcome),
        }
    }
}

/// One decision: where the reconciliation stands after it, what it holds as
/// installed, what is to be done next, and what the user is told on the way.
pub struct Decision<T> {
    pub stage: Stage,
    pub installed: Seq<T>,
    pub action: ActionView<T>,
    pub notices: Seq<Notice>,
}

/// The action that a stage waits on.
pub open spec fn pending<T: Identified>(stage: Stage, desired: Seq<T>, installed: Seq<T>) -> ActionView<
    T,
> {
    match stage {
        Stage::Querying => ActionView::Query,
        Stage::ConfirmingInstall => ActionView::ConfirmInstall(difference(desired, installed)),
        Stage::Installing => ActionView::Install(difference(desired, installed)),
        Stage::ConfirmingRemoval => ActionView::ConfirmRemoval(difference(installed, desired)),
        Stage::Removing => ActionView::Remove(difference(installed, desired)),
        Stage::Finished(outcome) => ActionView::Finish(outcome),
    }
}

/// The decision on removal, taken once the install pass is over: ask, where an
/// installed item is undesired; else say so and finish.
pub open spec fn removal_pass<T: Identified>(
    desired: Seq<T>,
    installed: Seq<T>,
    notices: Seq<Notice>,
) -> Decision<T> {
    let surplus = difference(installed, desired);
    if surplus.len() == 0 {
        Decision {
            stage: Stage::Finished(Outcome::Completed),
            installed,
            action: ActionView::Finish(Outcome::Completed),
            notices: notices.push(Notice::NothingToRemove),
        }
    } else {
        Decision {
            stage: Stage::ConfirmingRemoval,
            installed,
            action: ActionView::ConfirmRemoval(surplus),
            notices,
        }
    }
}

/// The decision on installing, taken once the installed items are known: ask,
/// where a desired item is missing; else say so and go on to the removal pass.
pub open spec fn install_pass<T: Identified>(desired: Seq<T>, installed: Seq<T>) -> Decision<T> {
    let missing = difference(desired, installed);
    if missing.len() == 0 {
        removal_pass(desired, installed, seq![Notice::NothingToInstall])
    } else {
        Decision {
            stage: Stage::ConfirmingInstall,
            installed,
            action: ActionView::ConfirmInstall(missing),
            notices: Seq::empty(),
        }
    }
}

/// The end of a reconciliation.
pub open spec fn finish<T>(installed: Seq<T>, outcome: Outcome, notices: Seq<Notice>) -> Decision<T> {
    Decision {
        stage: Stage::Finished(outcome),
        installed,
        action: ActionView::Finish(outcome),
        notices,
    }
}

/// The decision that follows `event` at `stage`. An event that the stage does not
/// wait for changes nothing: the pending action is asked for again.
pub open spec fn decide<T: Identified>(
    stage: Stage,
    desired: Seq<T>,
    installed: Seq<T>,
    event: EventView<T>,
) -> Decision<T> {
    let missing = difference(desired, installed);
    let surplus = difference(installed, desired);
    match (stage, event) {
        (Stage::Querying, EventView::Queried(found)) => install_pass(desired, found),
        (Stage::Querying, EventView::QueryFailed) => finish(
            installed,
            Outcome::QueryFailed,
            Seq::empty(),
        ),
        (Stage::ConfirmingInstall, EventView::Answered(true)) => Decision {
            stage: Stage::Installing,
            installed,
            action: ActionView::Install(missing),
            notices: Seq::empty(),
        },
        (Stage::ConfirmingInstall, EventView::Answered(false)) => removal_pass(
            desired,
            installed,
            seq![Notice::InstallSkipped(missing.len() as usize)],
        ),
        (Stage::Installing, EventView::Applied) => removal_pass(desired, installed, Seq::empty()),
        (Stage::Installing, EventView::Failed) => finish(
            installed,
            Outcome::InstallFailed,
            Seq::empty(),
        ),
        (Stage::ConfirmingRemoval, EventView::Answered(true)) => Decision {
            stage: Stage::Removing,
            installed,
            action: ActionView::Remove(surplus),
            notices: Seq::empty(),
        },
        (Stage::ConfirmingRemoval, EventView::Answered(false)) => finish(
            installed,
            Outcome::Completed,
            seq![Notice::RemovalSkipped(surplus.len() as usize)],
        ),
        (Stage::Removing, EventView::Applied) => finish(installed, Outcome::Completed, Seq::empty()),
        (Stage::Removing, EventView::Failed) => finish(
            installed,
            Outcome::RemovalFailed,
            Seq::empty(),
        ),
        _ => Decision {
            stage,
            installed,
            action: pending(stage, desired, installed),
            notices: Seq::empty(),
        },
    }
}

/// What [`Reconciliation::step`] hands back.
#[derive(Debug, PartialEq, Eq)]
pub struct Step<T> {
    /// What is to be done next.
    pub action: Action<T>,
    /// What the user is told before it is done.
    pub notices: Vec<Notice>,
}

/// The state of one reconciliation: the desired items, the installed items as the
/// one query of this run gave them, and the stage.
#[derive(Debug)]
pub struct Reconciliation<T> {
    pub desired: Vec<T>,
    pub installed: Vec<T>,
    pub stage: Stage,
}

/// The items of `v1` that are missing from `v2`, none where there is none.
fn batch<T: Identified>(v1: &Vec<T>, v2: &Vec<T>) -> (out: Vec<T>)
    ensures
        out@ == difference(v1@, v2@),
{
    match missing_items(v1.as_slice(), v2.as_slice()) {
        Some(items) => items,
        None => {
            assert(difference(v1@, v2@) =~= Seq::empty());
            Vec::new()
        },
    }
}

impl<T: Identified> Reconciliation<T> {
    /// A reconciliation towards `desired` that has not asked anything yet. Its
    /// first action is [`Action::Query`].
    pub fn new(desired: Vec<T>) -> (run: Self)
        ensures
            run.desired == desired,
            run.installed@.len() == 0,
            run.stage == Stage::Querying,
    {
        Reconciliation { desired, installed: Vec::new(), stage: Stage::Querying }
    }

    /// The action that this reconciliation waits on.
    pub fn pending(&self) -> (action: Action<T>)
        ensures
            action@ == pending(self.stage, self.desired@, self.installed@),
    {
        match self.stage {
            Stage::Querying => Action::Query,
            Stage::ConfirmingInstall => Action::ConfirmInstall(
                batch(&self.desired, &self.installed),
            ),
            Stage::Installing => Action::Install(
                batch(&self.desired, &self.installed),
            ),
            Stage::ConfirmingRemoval => Action::ConfirmRemoval(
                batch(&self.installed, &self.desired),
            ),
            Stage::Removing => Action::Remove(
                batch(&self.installed, &self.desired),
            ),
            Stage::Finished(outcome) => Action::Finish(outcome),
        }
    }

    /// Ends the reconciliation with `outcome`.
    fn finish(&mut self, outcome: Outcome, notices: Vec<Notice>) -> (step: Step<T>)
        ensures
            final(self).desired == old(self).desired,
            final(self).installed == old(self).installed,
            final(self).stage == Stage::Finished(outcome),
            step.action@ == ActionView::<T>::Finish(outcome),
            step.notices == notices,
    {
        self.stage = Stage::Finished(outcome);
        Step { action: Action::Finish(outcome), notices }
    }

    /// Takes the decision on removal.
    fn removal_pass(&mut self, notices: Vec<Notice>) -> (step: Step<T>)
        ensures
            final(self).desired == old(self).desired,
            final(self).installed == old(self).installed,
            final(self).stage == removal_pass(
                old(self).desired@,
                old(self).installed@,
                notices@,
            ).stage,
            step.action@ == removal_pass(old(self).desired@, old(self).installed@, notices@).action,
            step.notices@ == removal_pass(old(self).desired@, old(self).installed@, notices@).notices,
    {
        let mut notices = notices;
        match missing_items(self.installed.as_slice(), self.desired.as_slice()) {
            Some(surplus) => {
                self.stage = Stage::ConfirmingRemoval;
                Step { action: Action::ConfirmRemoval(surplus), notices }
            },
            None => {
                notices.push(Notice::NothingToRemove);
                self.finish(Outcome::Completed, notices)
            },
        }
    }

    /// Takes the decision that follows `event` and says what is to be done next.
    /// The install pass is decided and over before the removal pass is looked at.
    pub fn step(&mut self, event: Event<T>) -> (step: Step<T>)
        ensures
            final(self).desired == old(self).desired,
            final(self).stage == decide(
                old(self).stage,
                old(self).desired@,
                old(self).installed@,
                event@,
            ).stage,
            final(self).installed@ == decide(
                old(self).stage,
                old(self).desired@,
                old(self).installed@,
                event@,
            ).installed,
            step.action@ == decide(
                old(self).stage,
                old(self).desired@,
                old(self).installed@,
                event@,
            ).action,
            step.notices@ == decide(
                old(self).stage,
                old(self).desired@,
                old(self).installed@,
                event@,
            ).notices,
    {
        match (self.stage, event) {
            (Stage::Querying, Event::Queried(found)) => {
                self.installed = found;
                match missing_items(self.desired.as_slice(), self.installed.as_slice()) {
                    Some(missing) => {
                        self.stage = Stage::ConfirmingInstall;
                        Step { action: Action::ConfirmInstall(missing), notices: Vec::new() }
                    },
                    None => {
                        let mut notices: Vec<Notice> = Vec::new();
                        notices.push(Notice::NothingToInstall);
                        self.removal_pass(notices)
                    },
                }
            },
            (Stage::Querying, Event::QueryFailed) => self.finish(Outcome::QueryFailed, Vec::new()),
            (Stage::ConfirmingInstall, Event::Answered(true)) => {
                let missing = batch(&self.desired, &self.installed);
                self.stage = Stage::Installing;
                Step { action: Action::Install(missing), notices: Vec::new() }
            },
            (Stage::ConfirmingInstall, Event::Answered(false)) => {
                let missing = batch(&self.desired, &self.installed);
                let mut notices: Vec<Notice> = Vec::new();
                notices.push(Notice::InstallSkipped(missing.len()));
                self.removal_pass(notices)
            },
            (Stage::Installing, Event::Applied) => self.removal_pass(Vec::new()),
            (Stage::Installing, Event::Failed) => self.finish(Outcome::InstallFailed, Vec::new()),
            (Stage::ConfirmingRemoval, Event::Answered(true)) => {
                let surplus = batch(&self.installed, &self.desired);
                self.stage = Stage::Removing;
                Step { action: Action::Remove(surplus), notices: Vec::new() }
            },
            (Stage::ConfirmingRemoval, Event::Answered(false)) => {
                let surplus = batch(&self.installed, &self.desired);
                let mut notices: Vec<Notice> = Vec::new();
                notices.push(Notice::RemovalSkipped(surplus.len()));
                self.finish(Outcome::Completed, notices)
            },
            (Stage::Removing, Event::Applied) => self.finish(Outcome::Completed, Vec::new()),
            (Stage::Removing, Event::Failed) => self.finish(Outcome::RemovalFailed, Vec::new()),
            (_, _) => Step { action: self.pending(), notices: Vec::new() },
        }
    }
}

/// Whether a stage belongs to the install pass, the query before it included.
pub open spec fn before_removal(stage: Stage) -> bool {
    stage is Querying || stage is ConfirmingInstall || stage is Installing
}

/// The two passes never interleave: once the removal pass has begun, or the
/// reconciliation is over, no event leads back into the install pass.
pub proof fn law_passes_do_not_interleave<T: Identified>(
    stage: Stage,
    desired: Seq<T>,
    installed: Seq<T>,
    event: EventView<T>,
)
    requires
        !before_removal(stage),
    ensures
        !before_removal(decide(stage, desired, installed, event).stage),
        decide(stage, desired, installed, event).action !is Query,
        decide(stage, desired, installed, event).action !is ConfirmInstall,
        decide(stage, desired, installed, event).action !is Install,
{
}

/// Nothing is installed or removed without consent: a batch is handed out only on
/// a yes to its own prompt, or again to a stage that already waits on it; and it
/// is the difference that the prompt showed.
pub proof fn law_batches_need_consent<T: Identified>(
    stage: Stage,
    desired: Seq<T>,
    installed: Seq<T>,
    event: EventView<T>,
)
    ensures
        decide(stage, desired, installed, event).action matches ActionView::Install(items) ==> {
            &&& items == difference(desired, installed)
            &&& stage is Installing || (stage is ConfirmingInstall && event == EventView::<
                T,
            >::Answered(true))
        },
        decide(stage, desired, installed, event).action matches ActionView::Remove(items) ==> {
            &&& items == difference(installed, desired)
            &&& stage is Removing || (stage is ConfirmingRemoval && event == EventView::<
                T,
            >::Answered(true))
        },
{
}

/// A prompt is never about nothing: where a difference is empty, its
/// confirmation is skipped and a notice says so.
pub proof fn law_empty_batch_asks_nothing<T: Identified>(desired: Seq<T>, found: Seq<T>)
    ensures
        difference(desired, found).len() == 0 ==> {
            &&& install_pass(desired, found).action !is ConfirmInstall
            &&& install_pass(desired, found).notices.contains(Notice::NothingToInstall)
        },
        difference(desired, found).len() > 0 ==> install_pass(desired, found).action
            == ActionView::ConfirmInstall(difference(desired, found)),
        difference(found, desired).len() == 0 ==> {
            &&& removal_pass(desired, found, Seq::empty()).action == ActionView::<T>::Finish(
                Outcome::Completed,
            )
            &&& removal_pass(desired, found, Seq::empty()).notices.contains(Notice::NothingToRemove)
        },
{
    let notes: Seq<Notice> = seq![Notice::NothingToInstall];
    assert(notes[0] == Notice::NothingToInstall);
    assert(notes.push(Notice::NothingToRemove)[0] == Notice::NothingToInstall);
    let last: Seq<Notice> = Seq::empty().push(Notice::NothingToRemove);
    assert(last[0] == Notice::NothingToRemove);
}

} // verus!
