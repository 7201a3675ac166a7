//! What every backend shares: the provider abstraction with the difference
//! between a desired and an installed collection and the confirmation gate, and
//! the providers of one configuration with the work that a run owes them.

use vstd::prelude::*;
use vstd::string::*;

use crate::config::RunMode;
use crate::error::{Error, ErrorView};
use crate::package_types::binary::{provider_of, text_view, BinaryProvider, BinaryProviderView};
use crate::package_types::diff::{difference, missing_items, Identified};
use crate::package_types::flatpak::{desired_of, ids, FlatpakProvider};
use crate::package_types::reconcile::{Outcome, Reconciliation, Stage};
use crate::text::{trim, trimmed};
use crate::yamlrepr;
use crate::yamlrepr::{lemma_node_view, lookup, value_of, Node, NodeView};

pub mod binary;
pub mod diff;
pub mod flatpak;
pub mod install;
pub mod reconcile;
pub mod record;

verus! {

/// What a line typed at a confirmation prompt means: `Some(true)` for yes,
/// `Some(false)` for no or an empty line, `None` for anything else.
pub open spec fn answer_of(input: Seq<char>) -> Option<bool> {
    let t = trimmed(input);
    if t.len() == 0 {
        Some(false)
    } else if t.len() == 1 && (t[0] == 'y' || t[0] == 'Y') {
        Some(true)
    } else if t.len() == 1 && (t[0] == 'n' || t[0] == 'N') {
        Some(false)
    } else {
        None
    }
}

/// A backend that can list, install and remove one kind of package.
pub trait PackageProvider {
    /// One installable unit of this backend.
    type Item: Identified;

    /// The name of this backend, as it stands before each of its messages.
    spec fn prefix() -> Seq<char>;

    /// The items that configuration asks for.
    spec fn desired(&self) -> Seq<Self::Item>;

    /// The name of this backend, as it stands before each of its messages.
    fn log_prefix() -> (prefix: &'static str)
        ensures
            prefix@ == Self::prefix(),
    ;

    /// A reconciliation towards the items that this provider wants. Its first
    /// action is to find out what is installed.
    fn ensure(&self) -> (run: Reconciliation<Self::Item>)
        ensures
            run.desired@ == self.desired(),
            run.installed@.len() == 0,
            run.stage == Stage::Querying,
    ;

    /// The line that tells the user `msg` in the name of this backend.
    fn log_msg(msg: &str) -> (line: String)
        ensures
            line@ == seq!['['] + Self::prefix() + seq![']', ' '] + msg@,
    {
        proof {
            reveal_strlit("[");
            reveal_strlit("] ");
            assert("["@ =~= seq!['[']);
            assert("] "@ =~= seq![']', ' ']);
        }
        let mut line = "[".to_owned();
        line.append(Self::log_prefix());
        line.append("] ");
        line.append(msg);
        line
    }

    /// The items of `v1` that are missing from `v2`, compared by identity, or `None`
    /// where there is none. Only membership is meant to be relied on, not the order.
    fn diff(v1: &[Self::Item], v2: &[Self::Item]) -> (missing: Option<Vec<Self::Item>>)
        ensures
            match missing {
                None => difference::<Self::Item>(v1@, v2@).len() == 0,
                Some(items) => items@.len() > 0 && items@ == difference::<Self::Item>(v1@, v2@),
            },
    {
        missing_items(v1, v2)
    }

    /// Reads one line typed at a yes/no prompt: white space around it and the case of
    /// the letter do not matter, an empty line means no, and `None` asks again.
    fn confirm(input: &str) -> (answer: Option<bool>)
        ensures
            answer == answer_of(input@),
    {
        let t = trim(input);
        if t.len() == 0 {
            Some(false)
        } else if t.len() == 1 && (t[0] == 'y' || t[0] == 'Y') {
            Some(true)
        } else if t.len() == 1 && (t[0] == 'n' || t[0] == 'N') {
            Some(false)
        } else {
            None
        }
    }
}

/// The providers of a configuration, as a value of specifications. The app-store
/// provider stands by the identifiers that it wants.
pub struct PackagesView {
    pub binaries: Option<BinaryProviderView>,
    pub flatpaks: Option<Seq<Seq<char>>>,
}

/// The providers that the `packages` section stands for: a mapping in which
/// `binary` and `flatpak` may each hold the section of one provider. Other fields
/// are passed over.
pub open spec fn packages_of(section: NodeView, home: Option<Seq<char>>) -> Result<
    PackagesView,
    ErrorView,
> {
    match section {
        NodeView::Mapping(fields) => {
            let binaries = match value_of(fields, "binary"@) {
                Some(node) => match provider_of(node, home) {
                    Ok(provider) => Ok(Some(provider)),
                    Err(e) => Err(ErrorView::Yaml(e)),
                },
                None => Ok(None),
            };
            let flatpaks = match value_of(fields, "flatpak"@) {
                Some(node) => match desired_of(node) {
                    Ok(wanted) => Ok(Some(wanted)),
                    Err(e) => Err(e),
                },
                None => Ok(None),
            };
            match (binaries, flatpaks) {
                (Err(e), _) => Err(e),
                (Ok(_), Err(e)) => Err(e),
                (Ok(b), Ok(f)) => Ok(PackagesView { binaries: b, flatpaks: f }),
            }
        },
        _ => Err(ErrorView::Yaml(yamlrepr::ErrorView::WrongType)),
    }
}

/// One piece of work that a run owes to a provider.
#[derive(Clone, Copy, Debug, PartialEq, Eq, Structural)]
pub enum Task {
    /// Reconcile the binaries.
    EnsureBinaries,
    /// Install every desired binary.
    InstallBinaries,
    /// Reconcile the applications of the app store.
    EnsureFlatpaks,
    /// Install every desired application.
    InstallFlatpaks,
}

/// The work of one run, in the order in which it is done: the binaries first, then
/// the app store, each only where configuration has its section.
pub open spec fn tasks_of(binaries: bool, flatpaks: bool, mode: RunMode) -> Seq<Task> {
    let first = if !binaries {
        Seq::empty()
    } else if mode == RunMode::Idempotent {
        seq![Task::EnsureBinaries]
    } else {
        seq![Task::InstallBinaries]
    };
    let second = if !flatpaks {
        Seq::empty()
    } else if mode == RunMode::Idempotent {
        seq![Task::EnsureFlatpaks]
    } else {
        seq![Task::InstallFlatpaks]
    };
    first + second
}

/// The providers that configuration names, each at most once.
#[derive(Debug)]
pub struct PackagesConfig {
    pub binaries: Option<BinaryProvider>,
    pub flatpaks: Option<FlatpakProvider>,
}

impl View for PackagesConfig {
    type V = PackagesView;

    open spec fn view(&self) -> PackagesView {
        PackagesView {
            binaries: match self.binaries {
                Some(provider) => Some(provider@),
                None => None,
            },
            flatpaks: match self.flatpaks {
                Some(provider) => Some(ids(provider.flatpaks@)),
                None => None,
            },
        }
    }
}

impl PackagesConfig {
    /// Reads the `packages` section. `home` is the home directory, where it could
    /// be resolved.
    pub fn deserialize(section: &Node, home: Option<&str>) -> (parsed: Result<Self, Error>)
        ensures
            match parsed {
                Ok(packages) => packages_of(section@, text_view(home)) == Ok::<
                    PackagesView,
                    ErrorView,
                >(packages@),
                Err(e) => packages_of(section@, text_view(home)) == Err::<PackagesView, ErrorView>(
                    e@,
                ),
            },
    {
        proof {
            lemma_node_view(section);
        }
        let fields = match section {
            Node::Mapping(fields) => fields,
            _ => {
                return Err(Error::Yaml(yamlrepr::Error::WrongType));
            },
        };
        let binaries = match lookup(fields, "binary") {
            Some(node) => match BinaryProvider::deserialize(node, home) {
                Ok(provider) => Some(provider),
                Err(e) => {
                    return Err(Error::Yaml(e));
                },
            },
            None => None,
        };
        let flatpaks = match lookup(fields, "flatpak") {
            Some(node) => match FlatpakProvider::deserialize(node) {
                Ok(provider) => Some(provider),
                Err(e) => {
                    return Err(e);
                },
            },
            None => None,
        };
        Ok(PackagesConfig { binaries, flatpaks })
    }

    /// The work that a run in `mode` owes to the providers, in order. Each task
    /// is begun only once the one before it has come through: see
    /// [`PackagesConfig::goes_on_after`].
    pub fn install(&self, mode: RunMode) -> (tasks: Vec<Task>)
        ensures
            tasks@ == tasks_of(self.binaries is Some, self.flatpaks is Some, mode),
    {
        let mut tasks: Vec<Task> = Vec::new();
        if self.binaries.is_some() {
            match mode {
                RunMode::Idempotent => tasks.push(Task::EnsureBinaries),
                RunMode::Imperative => tasks.push(Task::InstallBinaries),
            }
        }
        if self.flatpaks.is_some() {
            match mode {
                RunMode::Idempotent => tasks.push(Task::EnsureFlatpaks),
                RunMode::Imperative => tasks.push(Task::InstallFlatpaks),
            }
        }
        assert(tasks@ =~= tasks_of(self.binaries is Some, self.flatpaks is Some, mode));
        tasks
    }

    /// Whether the run goes on to the next provider after one has ended with
    /// `outcome`: it does only where that one came through.
    pub fn goes_on_after(outcome: Outcome) -> (on: bool)
        ensures
            on == (outcome == Outcome::Completed),
    {
        match outcome {
            Outcome::Completed => true,
            _ => false,
        }
    }
}

} // verus!
