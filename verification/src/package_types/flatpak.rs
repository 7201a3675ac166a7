//! The app-store backend: applications named by an identifier, listed, installed
//! and removed by one subprocess each.

use vstd::prelude::*;
use vstd::std_specs::cmp::PartialEqSpecImpl;
use vstd::string::*;

use crate::package_types::diff::{duplicates_of, Identified};
use crate::package_types::reconcile::Reconciliation;
use crate::package_types::PackageProvider;
use crate::providers::Provider;
use crate::text::chars_of;
use crate::yamlrepr::{lemma_node_view, nodes, texts, Error, ErrorView, Node, NodeView};

verus! {

/// One application of the app store. Its identifier is its identity.
#[derive(Debug)]
pub struct Flatpak {
    id: String,
}

impl View for Flatpak {
    type V = Seq<char>;

    closed spec fn view(&self) -> Seq<char> {
        self.id@
    }
}

/// The identifiers of a sequence of applications.
pub open spec fn ids(items: Seq<Flatpak>) -> Seq<Seq<char>> {
    Seq::new(items.len(), |i: int| items[i]@)
}

/// The application that a configuration entry stands for: the entry is a bare
/// identifier.
pub open spec fn application_of(entry: NodeView) -> Result<Seq<char>, ErrorView> {
    match entry {
        NodeView::Scalar(id) => Ok(id),
        _ => Err(ErrorView::WrongType),
    }
}

/// The applications that the first `n` of a sequence of entries stand for. The
/// first entry that is refused decides the error.
pub open spec fn applications_of(entries: Seq<NodeView>, n: int) -> Result<
    Seq<Seq<char>>,
    ErrorView,
>
    decreases n,
{
    if n <= 0 {
        Ok(Seq::empty())
    } else {
        match applications_of(entries, n - 1) {
            Err(e) => Err(e),
            Ok(found) => match application_of(entries[n - 1]) {
                Err(e) => Err(e),
                Ok(id) => Ok(found.push(id)),
            },
        }
    }
}

/// The applications that the short form of the app-store section stands for: a
/// sequence of bare identifiers.
pub open spec fn short_form_of(section: NodeView) -> Result<Seq<Seq<char>>, ErrorView> {
    match section {
        NodeView::Sequence(entries) => applications_of(entries, entries.len() as int),
        _ => Err(ErrorView::WrongType),
    }
}

/// The identifiers of the applications of a long-form section.
pub open spec fn long_ids(items: Seq<crate::providers::flatpak::FlatpakView>) -> Seq<Seq<char>> {
    Seq::new(items.len(), |i: int| items[i].id)
}

/// The applications that the app-store section asks for. The section is either a
/// sequence of bare identifiers or the long form, a mapping with a default scope.
pub open spec fn desired_of(section: NodeView) -> Result<Seq<Seq<char>>, crate::error::ErrorView> {
    match section {
        NodeView::Mapping(_) => match crate::providers::flatpak::section_of(section) {
            Ok((_, items)) => Ok(long_ids(items)),
            Err(e) => Err(e),
        },
        _ => match short_form_of(section) {
            Ok(found) => Ok(found),
            Err(e) => Err(crate::error::ErrorView::Yaml(e)),
        },
    }
}

/// Where the first line of `s` ends: at its first line feed, or at its end.
pub open spec fn line_end(s: Seq<char>) -> int
    decreases s.len(),
{
    if s.len() == 0 || s[0] == '\n' {
        0
    } else {
        1 + line_end(s.drop_first())
    }
}

/// A line as it is handed out: without the carriage return before the line feed
/// that ended it.
pub open spec fn without_return(line: Seq<char>, ended: bool) -> Seq<char> {
    if ended && line.len() > 0 && line.last() == '\r' {
        line.drop_last()
    } else {
        line
    }
}

/// The lines of `s`. A line ends at a line feed or at the end of `s`; the line
/// feed, and a carriage return just before it, are no part of the line. Nothing
/// follows the last line feed unless characters do.
pub open spec fn lines_of(s: Seq<char>) -> Seq<Seq<char>>
    decreases s.len(),
{
    if s.len() == 0 {
        Seq::empty()
    } else {
        let k = line_end(s);
        if 0 <= k < s.len() {
            seq![without_return(s.subrange(0, k), true)] + lines_of(s.subrange(k + 1, s.len() as int))
        } else {
            seq![s]
        }
    }
}

/// A stretch without a line feed that is followed by one, or by the end, is the
/// first line.
pub proof fn lemma_line_end_is(s: Seq<char>, k: int)
    requires
        0 <= k <= s.len(),
        forall|j: int| 0 <= j < k ==> s[j] != '\n',
        k < s.len() ==> s[k] == '\n',
    ensures
        line_end(s) == k,
    decreases s.len(),
{
    if k > 0 {
        let rest = s.drop_first();
        assert forall|j: int| 0 <= j < k - 1 implies rest[j] != '\n' by {
            assert(rest[j] == s[j + 1]);
        }
        lemma_line_end_is(rest, k - 1);
    }
}

/// A subprocess to run: the program and its arguments.
#[derive(Debug, PartialEq, Eq)]
pub struct Command {
    pub program: String,
    pub args: Vec<String>,
}

/// The arguments of the subprocess that installs or removes the applications
/// `items`: the subcommand `verb`, the two flags for a run in the user's scope
/// that asks nothing, and every identifier.
pub open spec fn batch_args(verb: Seq<char>, items: Seq<Flatpak>) -> Seq<Seq<char>> {
    seq![verb, "--noninteractive"@, "--user"@] + ids(items)
}

/// The arguments of the subprocess that lists the installed applications, one
/// identifier to a line.
pub open spec fn list_args() -> Seq<Seq<char>> {
    seq!["list"@, "--user"@, "--columns=application:f"@, "--app"@]
}

impl Flatpak {
    /// The application with the identifier `id`.
    pub fn new(id: &str) -> (item: Self)
        ensures
            item@ == id@,
    {
        Self { id: id.to_owned() }
    }

    /// The identifier.
    pub fn id(&self) -> (id: &str)
        ensures
            id@ == self@,
    {
        self.id.as_str()
    }

    /// Reads one entry of the app-store section: a bare identifier.
    pub fn deserialize(entry: &Node) -> (parsed: Result<Self, Error>)
        ensures
            match parsed {
                Ok(item) => application_of(entry@) == Ok::<Seq<char>, ErrorView>(item@),
                Err(e) => application_of(entry@) == Err::<Seq<char>, ErrorView>(e@),
            },
    {
        proof {
            lemma_node_view(entry);
        }
        match entry {
            Node::Scalar(id) => Ok(Self::new(id.as_str())),
            _ => Err(Error::WrongType),
        }
    }
}

impl PartialEq for Flatpak {
    /// Two applications are the same where their identifiers are.
    fn eq(&self, other: &Self) -> (equal: bool) {
        self.id == other.id
    }
}

impl Eq for Flatpak {

}

impl PartialEqSpecImpl for Flatpak {
    open spec fn obeys_eq_spec() -> bool {
        true
    }

    open spec fn eq_spec(&self, other: &Self) -> bool {
        self@ == other@
    }
}

impl Identified for Flatpak {
    open spec fn identity(&self) -> Seq<char> {
        self@
    }

    fn name(&self) -> (name: &str) {
        self.id.as_str()
    }

    fn duplicate(&self) -> (copy: Flatpak) {
        Flatpak { id: self.id.clone() }
    }
}

/// The app-store backend with the applications that configuration asks for.
#[derive(Debug)]
pub struct FlatpakProvider {
    pub flatpaks: Vec<Flatpak>,
}

/// The command `flatpak` with the subcommand `verb` for `items`.
fn batch_command(verb: &str, items: &[Flatpak]) -> (command: Command)
    ensures
        command.program@ == "flatpak"@,
        texts(command.args@) == batch_args(verb@, items@),
{
    let mut args: Vec<String> = Vec::new();
    args.push(verb.to_owned());
    args.push("--noninteractive".to_owned());
    args.push("--user".to_owned());
    let mut i: usize = 0;
    while i < items.len()
        invariant
            i <= items.len(),
            texts(args@) == seq![verb@, "--noninteractive"@, "--user"@] + ids(
                items@.subrange(0, i as int),
            ),
        decreases items.len() - i,
    {
        let ghost before = args@;
        args.push(items[i].id.clone());
        assert(texts(args@) =~= texts(before).push(items@[i as int]@));
        assert(ids(items@.subrange(0, i + 1)) =~= ids(items@.subrange(0, i as int)).push(
            items@[i as int]@,
        ));
        i += 1;
    }
    assert(items@.subrange(0, items.len() as int) == items@);
    Command { program: "flatpak".to_owned(), args }
}

impl FlatpakProvider {
    /// A provider that wants exactly `flatpaks`.
    pub fn new_with_flatpaks(flatpaks: Vec<Flatpak>) -> (provider: Self)
        ensures
            provider.flatpaks == flatpaks,
    {
        Self { flatpaks }
    }

    /// Reads the short form of the app-store section: a sequence of bare
    /// identifiers.
    pub fn from_sequence(section: &Node) -> (parsed: Result<Self, Error>)
        ensures
            match parsed {
                Ok(provider) => short_form_of(section@) == Ok::<Seq<Seq<char>>, ErrorView>(
                    ids(provider.flatpaks@),
                ),
                Err(e) => short_form_of(section@) == Err::<Seq<Seq<char>>, ErrorView>(e@),
            },
    {
        proof {
            lemma_node_view(section);
        }
        let entries = match section {
            Node::Sequence(entries) => entries,
            _ => {
                return Err(Error::WrongType);
            },
        };
        let mut flatpaks: Vec<Flatpak> = Vec::new();
        let mut i: usize = 0;
        assert(ids(flatpaks@) =~= Seq::empty());
        while i < entries.len()
            invariant
                i <= entries.len(),
                short_form_of(section@) == applications_of(nodes(entries@), entries@.len() as int),
                applications_of(nodes(entries@), i as int) == Ok::<Seq<Seq<char>>, ErrorView>(
                    ids(flatpaks@),
                ),
            decreases entries.len() - i,
        {
            match Flatpak::deserialize(&entries[i]) {
                Ok(item) => {
                    assert(ids(flatpaks@).push(item@) =~= ids(flatpaks@.push(item)));
                    flatpaks.push(item);
                },
                Err(e) => {
                    proof {
                        lemma_applications_error_stays(
                            nodes(entries@),
                            i + 1,
                            entries@.len() as int,
                        );
                    }
                    return Err(e);
                },
            }
            i += 1;
        }
        Ok(Self { flatpaks })
    }

    /// Reads the app-store section, in its short or its long form. The scopes of
    /// the long form are read and checked; every batch runs in the user's scope.
    pub fn deserialize(section: &Node) -> (parsed: Result<Self, crate::error::Error>)
        ensures
            match parsed {
                Ok(provider) => desired_of(section@) == Ok::<
                    Seq<Seq<char>>,
                    crate::error::ErrorView,
                >(ids(provider.flatpaks@)),
                Err(e) => desired_of(section@) == Err::<Seq<Seq<char>>, crate::error::ErrorView>(
                    e@,
                ),
            },
    {
        proof {
            lemma_node_view(section);
        }
        match section {
            Node::Mapping(_) => {
                let mut long = crate::providers::flatpak::FlatpakProvider::new();
                match long.parse_yaml(section) {
                    Err(e) => {
                        return Err(e);
                    },
                    Ok(_) => {},
                }
                let items = &long.desired_present_items;
                let ghost read = crate::providers::flatpak::views(items@);
                assert(crate::providers::flatpak::section_of(section@) matches Ok((_, found))
                    && found =~= read);
                let mut flatpaks: Vec<Flatpak> = Vec::new();
                let mut i: usize = 0;
                while i < items.len()
                    invariant
                        i <= items.len(),
                        flatpaks@.len() == i,
                        forall|k: int| 0 <= k < i ==> (#[trigger] flatpaks@[k])@ == items@[k]@.id,
                    decreases items.len() - i,
                {
                    flatpaks.push(Flatpak::new(items[i].id()));
                    i += 1;
                }
                assert(ids(flatpaks@) =~= long_ids(read));
                Ok(Self { flatpaks })
            },
            _ => match Self::from_sequence(section) {
                Ok(provider) => Ok(provider),
                Err(e) => Err(crate::error::Error::Yaml(e)),
            },
        }
    }

    /// The subprocess that lists the installed applications.
    pub fn list_command() -> (command: Command)
        ensures
            command.program@ == "flatpak"@,
            texts(command.args@) == list_args(),
    {
        let mut args: Vec<String> = Vec::new();
        args.push("list".to_owned());
        args.push("--user".to_owned());
        args.push("--columns=application:f".to_owned());
        args.push("--app".to_owned());
        assert(texts(args@) =~= list_args());
        Command { program: "flatpak".to_owned(), args }
    }

    /// The installed applications, read from what the listing subprocess wrote to
    /// its standard output: one identifier to a line.
    pub fn get_installed(listing: &str) -> (installed: Vec<Flatpak>)
        ensures
            ids(installed@) == lines_of(listing@),
    {
        let text = chars_of(listing);
        let n: usize = text.len();
        let mut installed: Vec<Flatpak> = Vec::new();
        let mut start: usize = 0;
        let mut i: usize = 0;
        assert(listing@.subrange(0, n as int) == listing@);
        assert(ids(installed@) =~= Seq::empty());
        while i < n
            invariant
                start <= i <= n,
                n == text.len(),
                text@ == listing@,
                forall|j: int| start <= j < i ==> listing@[j] != '\n',
                lines_of(listing@) == ids(installed@) + lines_of(
                    listing@.subrange(start as int, n as int),
                ),
            decreases n - i,
        {
            if text[i] == '\n' {
                let ghost rest = listing@.subrange(start as int, n as int);
                proof {
                    assert forall|j: int| 0 <= j < i - start implies rest[j] != '\n' by {
                        assert(rest[j] == listing@[start + j]);
                    }
                    lemma_line_end_is(rest, i - start);
                    assert(rest.subrange(0, i - start) == listing@.subrange(start as int, i as int));
                    assert(rest.subrange(i - start + 1, rest.len() as int) == listing@.subrange(
                        i + 1,
                        n as int,
                    ));
                }
                let end: usize = if i > start && text[i - 1] == '\r' {
                    i - 1
                } else {
                    i
                };
                let line = listing.substring_char(start, end);
                assert(line@ == without_return(listing@.subrange(start as int, i as int), true)) by {
                    if end < i {
                        assert(listing@.subrange(start as int, i as int).drop_last()
                            == listing@.subrange(start as int, end as int));
                    }
                }
                let ghost before = installed@;
                installed.push(Flatpak::new(line));
                assert(ids(installed@) =~= ids(before).push(line@));
                assert(ids(before) + (seq![line@] + lines_of(listing@.subrange(i + 1, n as int)))
                    =~= ids(installed@) + lines_of(listing@.subrange(i + 1, n as int)));
                start = i + 1;
            }
            i += 1;
        }
        if start < n {
            let ghost rest = listing@.subrange(start as int, n as int);
            proof {
                assert forall|j: int| 0 <= j < n - start implies rest[j] != '\n' by {
                    assert(rest[j] == listing@[start + j]);
                }
                lemma_line_end_is(rest, n - start);
            }
            let line = listing.substring_char(start, n);
            let ghost before = installed@;
            installed.push(Flatpak::new(line));
            assert(ids(installed@) =~= ids(before).push(line@));
            assert(ids(before) + seq![rest] =~= ids(installed@));
        } else {
            assert(ids(installed@) + Seq::<Seq<char>>::empty() =~= ids(installed@));
        }
        installed
    }

    /// The subprocess that installs `items`, all in one run.
    pub fn install_items(&self, items: &[Flatpak]) -> (command: Command)
        ensures
            command.program@ == "flatpak"@,
            texts(command.args@) == batch_args("install"@, items@),
    {
        batch_command("install", items)
    }

    /// The subprocess that removes `items`, all in one run.
    pub fn remove_items(&self, items: &[Flatpak]) -> (command: Command)
        ensures
            command.program@ == "flatpak"@,
            texts(command.args@) == batch_args("remove"@, items@),
    {
        batch_command("remove", items)
    }

    /// Whether a batch came through, by the exit status of its subprocess: it did
    /// where the status is zero. A subprocess that a signal ended has no status.
    pub fn batch_applied(status: Option<i32>) -> (applied: bool)
        ensures
            applied == (status == Some(0i32)),
    {
        match status {
            Some(code) => code == 0,
            None => false,
        }
    }

}

/// An entry that is refused among the first `n` decides the error for every
/// longer stretch too.
pub proof fn lemma_applications_error_stays(entries: Seq<NodeView>, n: int, m: int)
    requires
        n <= m,
        applications_of(entries, n) is Err,
    ensures
        applications_of(entries, m) == applications_of(entries, n),
    decreases m - n,
{
    if n < m {
        lemma_applications_error_stays(entries, n, m - 1);
    }
}

impl PackageProvider for FlatpakProvider {
    type Item = Flatpak;

    open spec fn prefix() -> Seq<char> {
        "flatpak"@
    }

    open spec fn desired(&self) -> Seq<Flatpak> {
        self.flatpaks@
    }

    fn log_prefix() -> (prefix: &'static str) {
        "flatpak"
    }

    fn ensure(&self) -> (run: Reconciliation<Flatpak>) {
        Reconciliation::new(duplicates_of(&self.flatpaks))
    }
}

} // verus!
