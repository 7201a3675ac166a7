//! Installing a batch of binaries: the decisions between the steps that touch the
//! network and the disk. Whoever runs an [`Installation`] performs each
//! [`InstallAction`] and reports what came of it as an [`InstallEvent`].

use vstd::prelude::*;
use vstd::string::*;

use crate::checksum::{passes, verify_download};
use crate::package_types::binary::{destination, records, Binary, BinaryProvider, BinaryView};
use crate::package_types::diff::{
    difference, duplicates_of, identities, lemma_difference_identities, lemma_identities_of_both,
    missing_items, Identified,
};
use crate::yamlrepr::texts;

verus! {

/// Why a batch was given up. The number is the position of the failing item in
/// the batch.
#[derive(Clone, Copy, Debug, PartialEq, Eq, Structural)]
pub enum Failure {
    /// The download of this item did not come through.
    Transfer(usize),
    /// The download of this item ended with this status, which is no success.
    Status(usize, u16),
    /// The download of this item does not have the checksum that its entry names.
    Checksum(usize),
    /// This item could not be put in its place or made executable.
    Write(usize),
    /// The sidecar record could not be written.
    Sidecar,
}

/// Where an installation stands. The number is the position of the item at work.
#[derive(Clone, Copy, Debug, PartialEq, Eq)]
pub enum InstallStage {
    /// Waiting for the temporary sidecar to be set up.
    Opening,
    /// Waiting for the download of an item.
    Fetching(usize),
    /// Waiting for an item to be copied to its place.
    Copying(usize),
    /// Waiting for an item to be made executable.
    Marking(usize),
    /// Waiting for an item's record to be appended to the temporary sidecar.
    Recording(usize),
    /// Waiting for the temporary sidecar to replace the durable one.
    Committing,
    /// Over, with the failure if there was one.
    Finished(Option<Failure>),
}

/// What happened outside since the last action.
#[derive(Debug)]
pub enum InstallEvent {
    /// The action was carried out.
    Done,
    /// The download ended with this status and these bytes.
    Fetched { status: u16, content: Vec<u8> },
    /// The action failed.
    Failed,
}

/// What is to be done outside next.
#[derive(Debug, PartialEq, Eq)]
pub enum InstallAction {
    /// Set up the temporary sidecar with these records, which are kept from the
    /// durable one.
    Open(Vec<Binary>),
    /// Download this item from `url` to a private temporary place.
    Fetch { item: usize, url: String },
    /// Copy the download of this item to `path`.
    Copy { item: usize, path: String },
    /// Make the file at `path` executable.
    MakeExecutable { item: usize, path: String },
    /// Append this record to the temporary sidecar.
    Record { item: usize, record: Binary },
    /// Replace the durable sidecar with the temporary one.
    Commit,
    /// Nothing more: the batch is over, with the failure if there was one. After a
    /// failure, what is left of the temporary files is to be cleared away.
    Finish(Option<Failure>),
}

/// An [`InstallEvent`] as a value of specifications.
pub enum InstallEventView {
    Done,
    Fetched { status: u16, content: Seq<u8> },
    Failed,
}

/// An [`InstallAction`] as a value of specifications.
pub enum InstallActionView {
    Open(Seq<BinaryView>),
    Fetch { item: usize, url: Seq<char> },
    Copy { item: usize, path: Seq<char> },
    MakeExecutable { item: usize, path: Seq<char> },
    Record { item: usize, record: BinaryView },
    Commit,
    Finish(Option<Failure>),
}

impl View for InstallEvent {
    type V = InstallEventView;

    open spec fn view(&self) -> InstallEventView {
        match self {
            InstallEvent::Done => InstallEventView::Done,
            InstallEvent::Fetched { status, content } => InstallEventView::Fetched {
                status: *status,
                content: content@,
            },
            InstallEvent::Failed => InstallEventView::Failed,
        }
    }
}

impl View for InstallAction {
    type V = InstallActionView;

    open spec fn view(&self) -> InstallActionView {
        match self {
            InstallAction::Open(kept) => InstallActionView::Open(records(kept@)),
            InstallAction::Fetch { item, url } => InstallActionView::Fetch { item: *item, url: url@ },
            InstallAction::Copy { item, path } => InstallActionView::Copy { item: *item, path: path@ },
            InstallAction::MakeExecutable { item, path } => InstallActionView::MakeExecutable {
                item: *item,
                path: path@,
            },
            InstallAction::Record { item, record } => InstallActionView::Record {
                item: *item,
                record: record@,
            },
            InstallAction::Commit => InstallActionView::Commit,
            InstallAction::Finish(failure) => InstallActionView::Finish(*failure),
        }
    }
}

/// Whether a transfer that ended with `status` came through: the status is one of
/// the success class.
pub open spec fn transfer_succeeded(status: u16) -> bool {
    200 <= status < 300
}

/// One decision of an installation: where it stands after it, and what is to be
/// done next.
pub struct InstallDecision {
    pub stage: InstallStage,
    pub action: InstallActionView,
}

/// The end of an installation.
pub open spec fn stop(failure: Option<Failure>) -> InstallDecision {
    InstallDecision {
        stage: InstallStage::Finished(failure),
        action: InstallActionView::Finish(failure),
    }
}

/// The decision that opens the work on the item at position `i`: download it, or,
/// where the batch has no such item, commit the sidecar.
pub open spec fn turn_to(items: Seq<BinaryView>, i: int) -> InstallDecision {
    if 0 <= i < items.len() {
        InstallDecision {
            stage: InstallStage::Fetching(i as usize),
            action: InstallActionView::Fetch { item: i as usize, url: items[i].url },
        }
    } else {
        InstallDecision { stage: InstallStage::Committing, action: InstallActionView::Commit }
    }
}

/// The action that a stage waits on.
pub open spec fn awaited(
    stage: InstallStage,
    folder: Seq<char>,
    items: Seq<BinaryView>,
    kept: Seq<BinaryView>,
) -> InstallActionView {
    match stage {
        InstallStage::Opening => InstallActionView::Open(kept),
        InstallStage::Fetching(i) => InstallActionView::Fetch { item: i, url: items[i as int].url },
        InstallStage::Copying(i) => InstallActionView::Copy {
            item: i,
            path: destination(folder, items[i as int]),
        },
        InstallStage::Marking(i) => InstallActionView::MakeExecutable {
            item: i,
            path: destination(folder, items[i as int]),
        },
        InstallStage::Recording(i) => InstallActionView::Record { item: i, record: items[i as int] },
        InstallStage::Committing => InstallActionView::Commit,
        InstallStage::Finished(failure) => InstallActionView::Finish(failure),
    }
}

/// The decision that follows `event` at `stage`. A download is copied to its place
/// only after its status has shown success and its checksum has been found right;
/// the first failure ends the batch; the sidecar is committed once every item is
/// recorded. An event that the stage does not wait for changes nothing.
pub open spec fn proceed(
    stage: InstallStage,
    folder: Seq<char>,
    items: Seq<BinaryView>,
    kept: Seq<BinaryView>,
    event: InstallEventView,
) -> InstallDecision {
    match (stage, event) {
        (InstallStage::Opening, InstallEventView::Done) => turn_to(items, 0),
        (InstallStage::Opening, InstallEventView::Failed) => stop(Some(Failure::Sidecar)),
        (InstallStage::Fetching(i), InstallEventView::Fetched { status, content }) => {
            if !transfer_succeeded(status) {
                stop(Some(Failure::Status(i, status)))
            } else if !passes(items[i as int].sum, content) {
                stop(Some(Failure::Checksum(i)))
            } else {
                InstallDecision {
                    stage: InstallStage::Copying(i),
                    action: InstallActionView::Copy {
                        item: i,
                        path: destination(folder, items[i as int]),
                    },
                }
            }
        },
        (InstallStage::Fetching(i), InstallEventView::Failed) => stop(Some(Failure::Transfer(i))),
        (InstallStage::Copying(i), InstallEventView::Done) => InstallDecision {
            stage: InstallStage::Marking(i),
            action: InstallActionView::MakeExecutable {
                item: i,
                path: destination(folder, items[i as int]),
            },
        },
        (InstallStage::Copying(i), InstallEventView::Failed) => stop(Some(Failure::Write(i))),
        (InstallStage::Marking(i), InstallEventView::Done) => InstallDecision {
            stage: InstallStage::Recording(i),
            action: InstallActionView::Record { item: i, record: items[i as int] },
        },
        (InstallStage::Marking(i), InstallEventView::Failed) => stop(Some(Failure::Write(i))),
        (InstallStage::Recording(i), InstallEventView::Done) => turn_to(items, i + 1),
        (InstallStage::Recording(i), InstallEventView::Failed) => stop(Some(Failure::Sidecar)),
        (InstallStage::Committing, InstallEventView::Done) => stop(None),
        (InstallStage::Committing, InstallEventView::Failed) => stop(Some(Failure::Sidecar)),
        _ => InstallDecision { stage, action: awaited(stage, folder, items, kept) },
    }
}

/// The state of one installation: the folder of the provider, the batch, the
/// records that are kept from the sidecar, and the stage.
#[derive(Debug)]
pub struct Installation {
    folder: String,
    items: Vec<Binary>,
    kept: Vec<Binary>,
    stage: InstallStage,
}

impl Installation {
    /// The folder of the provider.
    pub closed spec fn folder(&self) -> Seq<char> {
        self.folder@
    }

    /// The batch.
    pub closed spec fn items(&self) -> Seq<Binary> {
        self.items@
    }

    /// The records kept from the sidecar: those of other packages than the batch's.
    pub closed spec fn kept(&self) -> Seq<Binary> {
        self.kept@
    }

    /// The stage.
    pub closed spec fn stage(&self) -> InstallStage {
        self.stage
    }

    /// The stage always speaks of an item of the batch.
    #[verifier::type_invariant]
    spec fn stage_in_batch(self) -> bool {
        match self.stage {
            InstallStage::Fetching(i) => i < self.items@.len(),
            InstallStage::Copying(i) => i < self.items@.len(),
            InstallStage::Marking(i) => i < self.items@.len(),
            InstallStage::Recording(i) => i < self.items@.len(),
            _ => true,
        }
    }

    /// An installation of `items` into `folder`, beside the records `recorded` that
    /// the sidecar holds so far. Its first action is [`InstallAction::Open`], with
    /// the records of `recorded` that the batch does not replace.
    pub fn new(folder: &str, items: Vec<Binary>, recorded: &Vec<Binary>) -> (run: Self)
        ensures
            run.folder() == folder@,
            run.items() == items@,
            run.kept() == difference(recorded@, items@),
            run.stage() == InstallStage::Opening,
    {
        let kept = match missing_items(
            recorded.as_slice(),
            items.as_slice(),
        ) {
            Some(kept) => kept,
            None => {
                assert(difference(recorded@, items@) =~= Seq::empty());
                Vec::new()
            },
        };
        Installation { folder: folder.to_owned(), items, kept, stage: InstallStage::Opening }
    }

    /// The batch.
    pub fn batch(&self) -> (items: &Vec<Binary>)
        ensures
            items@ == self.items(),
    {
        &self.items
    }

    /// The stage.
    pub fn current_stage(&self) -> (stage: InstallStage)
        ensures
            stage == self.stage(),
    {
        self.stage
    }

    /// The action that this installation waits on.
    pub fn awaited(&self) -> (action: InstallAction)
        ensures
            action@ == awaited(
                self.stage(),
                self.folder(),
                records(self.items()),
                records(self.kept()),
            ),
    {
        proof {
            use_type_invariant(self);
        }
        match self.stage {
            InstallStage::Opening => InstallAction::Open(duplicates_of(&self.kept)),
            InstallStage::Fetching(i) => InstallAction::Fetch {
                item: i,
                url: self.items[i].url().to_owned(),
            },
            InstallStage::Copying(i) => InstallAction::Copy {
                item: i,
                path: self.items[i].destination(self.folder.as_str()),
            },
            InstallStage::Marking(i) => InstallAction::MakeExecutable {
                item: i,
                path: self.items[i].destination(self.folder.as_str()),
            },
            InstallStage::Recording(i) => InstallAction::Record {
                item: i,
                record: self.items[i].duplicate(),
            },
            InstallStage::Committing => InstallAction::Commit,
            InstallStage::Finished(failure) => InstallAction::Finish(failure),
        }
    }

    /// Turns to the item at position `i`, or to the commit where there is none.
    fn turn_to(&mut self, i: usize) -> (action: InstallAction)
        ensures
            final(self).folder() == old(self).folder(),
            final(self).items() == old(self).items(),
            final(self).kept() == old(self).kept(),
            final(self).stage() == turn_to(records(old(self).items()), i as int).stage,
            action@ == turn_to(records(old(self).items()), i as int).action,
    {
        if i < self.items.len() {
            self.stage = InstallStage::Fetching(i);
        } else {
            self.stage = InstallStage::Committing;
        }
        self.awaited()
    }

    /// Ends the installation.
    fn stop(&mut self, failure: Option<Failure>) -> (action: InstallAction)
        ensures
            final(self).folder() == old(self).folder(),
            final(self).items() == old(self).items(),
            final(self).kept() == old(self).kept(),
            final(self).stage() == stop(failure).stage,
            action@ == stop(failure).action,
    {
        self.stage = InstallStage::Finished(failure);
        InstallAction::Finish(failure)
    }

    /// Takes the decision that follows `event` and says what is to be done next.
    pub fn step(&mut self, event: InstallEvent) -> (action: InstallAction)
        ensures
            final(self).folder() == old(self).folder(),
            final(self).items() == old(self).items(),
            final(self).kept() == old(self).kept(),
            final(self).stage() == proceed(
                old(self).stage(),
                old(self).folder(),
                records(old(self).items()),
                records(old(self).kept()),
                event@,
            ).stage,
            action@ == proceed(
                old(self).stage(),
                old(self).folder(),
                records(old(self).items()),
                records(old(self).kept()),
                event@,
            ).action,
    {
        proof {
            use_type_invariant(&*self);
        }
        match (self.stage, event) {
            (InstallStage::Opening, InstallEvent::Done) => self.turn_to(0),
            (InstallStage::Opening, InstallEvent::Failed) => self.stop(Some(Failure::Sidecar)),
            (InstallStage::Fetching(i), InstallEvent::Fetched { status, content }) => {
                if !(200 <= status && status < 300) {
                    self.stop(Some(Failure::Status(i, status)))
                } else if !verify_download(self.items[i].sum(), content.as_slice()) {
                    self.stop(Some(Failure::Checksum(i)))
                } else {
                    self.stage = InstallStage::Copying(i);
                    self.awaited()
                }
            },
            (InstallStage::Fetching(i), InstallEvent::Failed) => self.stop(
                Some(Failure::Transfer(i)),
            ),
            (InstallStage::Copying(i), InstallEvent::Done) => {
                self.stage = InstallStage::Marking(i);
                self.awaited()
            },
            (InstallStage::Copying(i), InstallEvent::Failed) => self.stop(Some(Failure::Write(i))),
            (InstallStage::Marking(i), InstallEvent::Done) => {
                self.stage = InstallStage::Recording(i);
                self.awaited()
            },
            (InstallStage::Marking(i), InstallEvent::Failed) => self.stop(Some(Failure::Write(i))),
            (InstallStage::Recording(i), InstallEvent::Done) => {
                assert(i < self.items.len());
                self.turn_to(i + 1)
            },
            (InstallStage::Recording(i), InstallEvent::Failed) => self.stop(
                Some(Failure::Sidecar),
            ),
            (InstallStage::Committing, InstallEvent::Done) => self.stop(None),
            (InstallStage::Committing, InstallEvent::Failed) => self.stop(Some(Failure::Sidecar)),
            (_, _) => self.awaited(),
        }
    }
}

/// Where each of `items` goes, in their order.
pub open spec fn destinations(folder: Seq<char>, items: Seq<BinaryView>) -> Seq<Seq<char>> {
    Seq::new(items.len(), |i: int| destination(folder, items[i]))
}

/// What removing a batch of binaries comes to: the files to delete, in the order
/// of the batch, and the records that the sidecar holds once they are gone.
#[derive(Debug)]
pub struct Removal {
    pub paths: Vec<String>,
    pub record: Vec<Binary>,
}

impl BinaryProvider {
    /// An installation of `items`, beside the records `recorded` that the sidecar
    /// holds so far.
    pub fn install_items(&self, items: Vec<Binary>, recorded: &Vec<Binary>) -> (run: Installation)
        ensures
            run.folder() == self.install_folder@,
            run.items() == items@,
            run.kept() == difference(recorded@, items@),
            run.stage() == InstallStage::Opening,
    {
        Installation::new(self.install_folder.as_str(), items, recorded)
    }

    /// The removal of `items`, the inverse of their installation: each file is
    /// deleted where it was put, and the sidecar keeps the records of the other
    /// packages among `recorded`.
    pub fn remove_items(&self, items: &Vec<Binary>, recorded: &Vec<Binary>) -> (removal: Removal)
        ensures
            texts(removal.paths@) == destinations(self.install_folder@, records(items@)),
            removal.record@ == difference(recorded@, items@),
    {
        let mut paths: Vec<String> = Vec::new();
        let mut i: usize = 0;
        while i < items.len()
            invariant
                i <= items.len(),
                paths@.len() == i,
                texts(paths@) == destinations(
                    self.install_folder@,
                    records(items@.subrange(0, i as int)),
                ),
            decreases items.len() - i,
        {
            let ghost before = paths@;
            let path = items[i].destination(self.install_folder.as_str());
            paths.push(path);
            assert(texts(paths@) =~= destinations(
                self.install_folder@,
                records(items@.subrange(0, i + 1)),
            )) by {
                assert forall|k: int| 0 <= k < i implies #[trigger] texts(paths@)[k] == destination(
                    self.install_folder@,
                    items@[k]@,
                ) by {
                    assert(texts(before)[k] == destinations(
                        self.install_folder@,
                        records(items@.subrange(0, i as int)),
                    )[k]);
                }
            }
            i += 1;
        }
        assert(items@.subrange(0, items.len() as int) == items@);
        let record = match missing_items(recorded.as_slice(), items.as_slice()) {
            Some(record) => record,
            None => {
                assert(difference(recorded@, items@) =~= Seq::empty());
                Vec::new()
            },
        };
        Removal { paths, record }
    }
}

/// A download is copied to its place only after its transfer has shown success
/// and its checksum has been found right.
pub proof fn law_copy_follows_checksum(
    stage: InstallStage,
    folder: Seq<char>,
    items: Seq<BinaryView>,
    kept: Seq<BinaryView>,
    event: InstallEventView,
)
    requires
        stage !is Copying,
        proceed(stage, folder, items, kept, event).stage is Copying,
    ensures
        stage matches InstallStage::Fetching(i) && event matches InstallEventView::Fetched {
            status,
            content,
        } && transfer_succeeded(status) && passes(items[i as int].sum, content) && proceed(
            stage,
            folder,
            items,
            kept,
            event,
        ).stage == InstallStage::Copying(i),
{
}

/// The sidecar is committed only once every item of the batch is recorded, and a
/// batch ends without failure only by the commit.
pub proof fn law_commit_follows_every_record(
    stage: InstallStage,
    folder: Seq<char>,
    items: Seq<BinaryView>,
    kept: Seq<BinaryView>,
    event: InstallEventView,
)
    ensures
        stage !is Committing && proceed(stage, folder, items, kept, event).stage is Committing ==> {
            ||| stage matches InstallStage::Recording(i) && i + 1 >= items.len()
            ||| stage is Opening && items.len() == 0
        },
        !(stage is Finished) && proceed(stage, folder, items, kept, event).stage
            == InstallStage::Finished(None) ==> stage is Committing && event is Done,
{
}

/// The first failure ends the batch, and it names the item that was at work.
pub proof fn law_failure_names_item(
    stage: InstallStage,
    folder: Seq<char>,
    items: Seq<BinaryView>,
    kept: Seq<BinaryView>,
    event: InstallEventView,
)
    requires
        stage !is Finished,
        proceed(stage, folder, items, kept, event).stage matches InstallStage::Finished(
            Some(failure),
        ),
    ensures
        proceed(stage, folder, items, kept, event).action == InstallActionView::Finish(
            proceed(stage, folder, items, kept, event).stage->Finished_0,
        ),
        match proceed(stage, folder, items, kept, event).stage->Finished_0->0 {
            Failure::Transfer(i) => stage == InstallStage::Fetching(i),
            Failure::Status(i, _) => stage == InstallStage::Fetching(i),
            Failure::Checksum(i) => stage == InstallStage::Fetching(i),
            Failure::Write(i) => stage == InstallStage::Copying(i) || stage
                == InstallStage::Marking(i),
            Failure::Sidecar => stage is Opening || stage is Recording || stage is Committing,
        },
{
}

/// What the sidecar holds once a batch is committed: the records that were kept
/// when the temporary sidecar was set up, then the records of the batch.
pub open spec fn committed(recorded: Seq<Binary>, items: Seq<Binary>) -> Seq<Binary> {
    difference(recorded, items) + items
}

/// After a batch is committed, the sidecar holds the packages that it held
/// before and those of the batch, so that each installed item is found again;
/// after a removal it holds the packages that it held before without those of
/// the batch.
pub proof fn law_sidecar_follows_the_batches(recorded: Seq<Binary>, items: Seq<Binary>)
    ensures
        identities(committed(recorded, items)) == identities(recorded).union(identities(items)),
        identities(difference(recorded, items)) == identities(recorded).difference(
            identities(items),
        ),
{
    lemma_difference_identities(recorded, items);
    lemma_identities_of_both(difference(recorded, items), items);
    assert(identities(committed(recorded, items)) =~= identities(recorded).union(identities(items)));
}

} // verus!
