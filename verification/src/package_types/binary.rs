//! The backend for downloaded executables: the canonical record of one binary,
//! the normalizer that reads it from a configuration entry, and the provider
//! that holds the desired binaries.

use vstd::prelude::*;
use vstd::std_specs::cmp::PartialEqSpecImpl;
use vstd::string::*;

use crate::package_types::diff::{duplicates_of, Identified};
use crate::package_types::reconcile::Reconciliation;
use crate::package_types::PackageProvider;
use crate::text::{contains_token, has_token, replace_token, replaced};
use crate::yamlrepr::{
    check_fields, first_fault, lemma_node_view, nodes, only_value, scalar, single, text_of, Error,
    ErrorView, Node, NodeView,
};

verus! {

/// The placeholder that stands for an entry's version.
pub open spec fn version_token() -> Seq<char> {
    "{{ version }}"@
}

/// The placeholder that stands for the home directory in a path.
pub open spec fn home_token() -> Seq<char> {
    "$HOME"@
}

/// The fields that a binary entry may hold.
pub open spec fn binary_fields() -> Seq<Seq<char>> {
    seq!["name"@, "url"@, "version"@, "sum"@, "install_path"@]
}

/// A path with the home directory written out, where it names it.
pub open spec fn expanded(path: Seq<char>, home: Option<Seq<char>>) -> Seq<char> {
    match home {
        Some(dir) => replaced(path, home_token(), dir),
        None => path,
    }
}

/// A text with the version written out, where a version is given.
pub open spec fn versioned(text: Seq<char>, version: Option<Seq<char>>) -> Seq<char> {
    match version {
        Some(v) => replaced(text, version_token(), v),
        None => text,
    }
}

/// The same, for a field that may be absent.
pub open spec fn versioned_field(field: Option<Seq<char>>, version: Option<Seq<char>>) -> Option<
    Seq<char>,
> {
    match field {
        Some(text) => Some(versioned(text, version)),
        None => None,
    }
}

/// Whether an entry with this `url` and `install_path` must name its version.
pub open spec fn needs_version(url: Seq<char>, install_path: Option<Seq<char>>) -> bool {
    ||| has_token(url, version_token())
    ||| install_path matches Some(path) && has_token(path, version_token())
}

/// One downloadable executable, as a value of specifications.
pub struct BinaryView {
    pub name: Seq<char>,
    pub url: Seq<char>,
    pub version: Option<Seq<char>>,
    pub sum: Option<Seq<char>>,
    pub install_path: Option<Seq<char>>,
}

/// The canonical record that the fields of a compound entry stand for, or the
/// reason why they stand for none. `fields` has passed the check of its keys.
pub open spec fn record_of(fields: Seq<(Seq<char>, NodeView)>, home: Option<Seq<char>>) -> Result<
    BinaryView,
    ErrorView,
> {
    let name = text_of(fields, "name"@);
    let url = text_of(fields, "url"@);
    let version = text_of(fields, "version"@);
    let sum = text_of(fields, "sum"@);
    let path = text_of(fields, "install_path"@);
    if name is None {
        Err(ErrorView::MissingKey("name"@))
    } else if url is None {
        Err(ErrorView::MissingKey("url"@))
    } else if path is Some && has_token(path->0, home_token()) && home is None {
        Err(ErrorView::NoHome)
    } else if needs_version(url->0, path) && version is None {
        Err(ErrorView::MissingKey("version"@))
    } else {
        let v = if needs_version(url->0, path) {
            version
        } else {
            None
        };
        Ok(
            BinaryView {
                name: name->0,
                url: versioned(url->0, v),
                version,
                sum: versioned_field(sum, v),
                install_path: match path {
                    Some(p) => Some(versioned(expanded(p, home), v)),
                    None => None,
                },
            },
        )
    }
}

/// The canonical record that a configuration entry stands for, or the reason why
/// it is refused. `home` is the home directory, where it could be resolved.
pub open spec fn normalized(entry: NodeView, home: Option<Seq<char>>) -> Result<
    BinaryView,
    ErrorView,
> {
    match entry {
        NodeView::Mapping(fields) => match first_fault(fields, binary_fields(), fields.len() as int) {
            Some(e) => Err(e),
            None => record_of(fields, home),
        },
        _ => Err(ErrorView::WrongType),
    }
}

/// Whether an entry names its version in `url` while its checksum does not depend
/// on the version. Such an entry is accepted; it deserves a warning.
pub open spec fn checksum_ignores_version(entry: NodeView) -> bool {
    &&& entry matches NodeView::Mapping(fields)
    &&& text_of(fields, "url"@) matches Some(url)
    &&& text_of(fields, "sum"@) matches Some(sum)
    &&& has_token(url, version_token())
    &&& !has_token(sum, version_token())
}

/// The text of an optional piece of text.
pub open spec fn text_view(text: Option<&str>) -> Option<Seq<char>> {
    match text {
        Some(t) => Some(t@),
        None => None,
    }
}

/// The text of an optional string.
pub open spec fn string_view(text: Option<String>) -> Option<Seq<char>> {
    match text {
        Some(t) => Some(t@),
        None => None,
    }
}

/// One downloadable executable: where it comes from, what it must hash to and where
/// it goes. Its name is its identity.
#[derive(Debug)]
pub struct Binary {
    name: String,
    url: String,
    version: Option<String>,
    sum: Option<String>,
    install_path: Option<String>,
}

impl View for Binary {
    type V = BinaryView;

    closed spec fn view(&self) -> BinaryView {
        BinaryView {
            name: self.name@,
            url: self.url@,
            version: string_view(self.version),
            sum: string_view(self.sum),
            install_path: string_view(self.install_path),
        }
    }
}

/// A copy of an optional string.
fn copy_text(text: &Option<String>) -> (copy: Option<String>)
    ensures
        copy == *text,
{
    match text {
        Some(t) => Some(t.clone()),
        None => None,
    }
}

/// The optional string as optional text.
fn as_text(text: &Option<String>) -> (out: Option<&str>)
    ensures
        text_view(out) == string_view(*text),
{
    match text {
        Some(t) => Some(t.as_str()),
        None => None,
    }
}

impl Binary {
    /// Reads one entry of the `packages` sequence. The entry must be a mapping
    /// with the fields `name` and `url` and, as it likes, `version`, `sum` and
    /// `install_path`, each a scalar and none twice. Where `url` or `install_path`
    /// holds the version placeholder, `version` is required and is written into
    /// `url`, `sum` and `install_path`. Where `install_path` names the home
    /// directory, `home` is written in its place.
    pub fn deserialize(entry: &Node, home: Option<&str>) -> (parsed: Result<Binary, Error>)
        ensures
            match parsed {
                Ok(binary) => normalized(entry@, text_view(home)) == Ok::<BinaryView, ErrorView>(
                    binary@,
                ),
                Err(e) => normalized(entry@, text_view(home)) == Err::<BinaryView, ErrorView>(e@),
            },
    {
        proof {
            lemma_node_view(entry);
        }
        let fields = match entry {
            Node::Mapping(fields) => fields,
            _ => {
                return Err(Error::WrongType);
            },
        };
        let allowed: Vec<&str> = vec!["name", "url", "version", "sum", "install_path"];
        assert(crate::yamlrepr::names(allowed@) == binary_fields());
        match check_fields(fields, &allowed) {
            Err(e) => {
                return Err(e);
            },
            Ok(_) => {},
        }
        let name = match scalar(fields, "name") {
            Some(name) => name,
            None => {
                return Err(Error::MissingKey("name".to_owned()));
            },
        };
        let url = match scalar(fields, "url") {
            Some(url) => url,
            None => {
                return Err(Error::MissingKey("url".to_owned()));
            },
        };
        let version = scalar(fields, "version");
        let sum = scalar(fields, "sum");
        let path = scalar(fields, "install_path");
        let mut needs: bool = contains_token(url, "{{ version }}");
        let install_path: Option<String> = match path {
            Some(p) => {
                if contains_token(p, "{{ version }}") {
                    needs = true;
                }
                if contains_token(p, "$HOME") {
                    match home {
                        Some(dir) => Some(replace_token(p, "$HOME", dir)),
                        None => {
                            return Err(Error::NoHome);
                        },
                    }
                } else {
                    proof {
                        if home is Some {
                            crate::text::lemma_replaced_without_token(
                                p@,
                                home_token(),
                                home.unwrap()@,
                            );
                        }
                    }
                    Some(p.to_owned())
                }
            },
            None => None,
        };
        assert(needs == needs_version(url@, text_view(path)));
        assert(string_view(install_path) == match text_view(path) {
            Some(p) => Some(expanded(p, text_view(home))),
            None => None,
        });
        if needs {
            let v = match version {
                Some(v) => v,
                None => {
                    return Err(Error::MissingKey("version".to_owned()));
                },
            };
            let sum: Option<String> = match sum {
                Some(s) => Some(replace_token(s, "{{ version }}", v)),
                None => None,
            };
            let install_path: Option<String> = match install_path {
                Some(p) => Some(replace_token(p.as_str(), "{{ version }}", v)),
                None => None,
            };
            Ok(
                Binary {
                    name: name.to_owned(),
                    url: replace_token(url, "{{ version }}", v),
                    version: Some(v.to_owned()),
                    sum,
                    install_path,
                },
            )
        } else {
            let version: Option<String> = match version {
                Some(v) => Some(v.to_owned()),
                None => None,
            };
            let sum: Option<String> = match sum {
                Some(s) => Some(s.to_owned()),
                None => None,
            };
            Ok(Binary { name: name.to_owned(), url: url.to_owned(), version, sum, install_path })
        }
    }

    /// The name, which is the identity of this binary.
    pub fn name(&self) -> (name: &str)
        ensures
            name@ == self@.name,
    {
        self.name.as_str()
    }

    /// Where the binary is downloaded from, every placeholder resolved.
    pub fn url(&self) -> (url: &str)
        ensures
            url@ == self@.url,
    {
        self.url.as_str()
    }

    /// The version, where the entry names one.
    pub fn version(&self) -> (version: Option<&str>)
        ensures
            text_view(version) == self@.version,
    {
        as_text(&self.version)
    }

    /// The checksum that the download must have, where the entry names one.
    pub fn sum(&self) -> (sum: Option<&str>)
        ensures
            text_view(sum) == self@.sum,
    {
        as_text(&self.sum)
    }

    /// Where this binary goes, where the entry overrides the provider's folder.
    pub fn install_path(&self) -> (path: Option<&str>)
        ensures
            text_view(path) == self@.install_path,
    {
        as_text(&self.install_path)
    }
}

impl PartialEq for Binary {
    /// Two binaries are the same package where their names are, whatever else
    /// differs.
    fn eq(&self, other: &Self) -> (equal: bool) {
        self.name == other.name
    }
}

impl Eq for Binary {

}

impl PartialEqSpecImpl for Binary {
    open spec fn obeys_eq_spec() -> bool {
        true
    }

    open spec fn eq_spec(&self, other: &Self) -> bool {
        self@.name == other@.name
    }
}

impl Identified for Binary {
    open spec fn identity(&self) -> Seq<char> {
        self@.name
    }

    fn name(&self) -> (name: &str) {
        self.name.as_str()
    }

    fn duplicate(&self) -> (copy: Binary) {
        Binary {
            name: self.name.clone(),
            url: self.url.clone(),
            version: copy_text(&self.version),
            sum: copy_text(&self.sum),
            install_path: copy_text(&self.install_path),
        }
    }
}

/// The records of a sequence of binaries.
pub open spec fn records(items: Seq<Binary>) -> Seq<BinaryView> {
    Seq::new(items.len(), |i: int| items[i]@)
}

/// The records that the first `n` of a sequence of entries stand for. The first
/// entry that is refused decides the error.
pub open spec fn entries_of(entries: Seq<NodeView>, home: Option<Seq<char>>, n: int) -> Result<
    Seq<BinaryView>,
    ErrorView,
>
    decreases n,
{
    if n <= 0 {
        Ok(Seq::empty())
    } else {
        match entries_of(entries, home, n - 1) {
            Err(e) => Err(e),
            Ok(items) => match normalized(entries[n - 1], home) {
                Err(e) => Err(e),
                Ok(item) => Ok(items.push(item)),
            },
        }
    }
}

/// The binary provider, as a value of specifications.
pub struct BinaryProviderView {
    pub install_folder: Seq<char>,
    pub binaries: Seq<BinaryView>,
}

/// The provider that the `binary` section of a configuration stands for: a mapping
/// with one `install_folder`, a scalar, and one `packages`, a sequence of entries.
/// Other fields are passed over. The home directory must be known.
pub open spec fn provider_of(section: NodeView, home: Option<Seq<char>>) -> Result<
    BinaryProviderView,
    ErrorView,
> {
    match section {
        NodeView::Mapping(fields) => match only_value(fields, "install_folder"@) {
            Err(e) => Err(e),
            Ok(NodeView::Scalar(folder)) => match only_value(fields, "packages"@) {
                Err(e) => Err(e),
                Ok(NodeView::Sequence(entries)) => match home {
                    None => Err(ErrorView::NoHome),
                    Some(dir) => match entries_of(entries, home, entries.len() as int) {
                        Err(e) => Err(e),
                        Ok(binaries) => Ok(
                            BinaryProviderView {
                                install_folder: replaced(folder, home_token(), dir),
                                binaries,
                            },
                        ),
                    },
                },
                Ok(_) => Err(ErrorView::WrongType),
            },
            Ok(_) => Err(ErrorView::WrongType),
        },
        _ => Err(ErrorView::WrongType),
    }
}

/// `name` inside `folder`: `name` itself where it starts at the root or `folder`
/// is empty, else `folder`, one separator, and `name`.
pub open spec fn joined(folder: Seq<char>, name: Seq<char>) -> Seq<char> {
    if folder.len() == 0 || (name.len() > 0 && name[0] == '/') {
        name
    } else if folder.last() == '/' {
        folder + name
    } else {
        folder + seq!['/'] + name
    }
}

/// Where a binary goes: its own install path where it has one, else the
/// provider's folder with the binary's name in it.
pub open spec fn destination(folder: Seq<char>, item: BinaryView) -> Seq<char> {
    match item.install_path {
        Some(path) => path,
        None => joined(folder, item.name),
    }
}

/// `name` inside `folder`.
pub fn join(folder: &str, name: &str) -> (path: String)
    ensures
        path@ == joined(folder@, name@),
{
    let f = crate::text::chars_of(folder);
    let n = crate::text::chars_of(name);
    if f.len() == 0 || (n.len() > 0 && n[0] == '/') {
        return name.to_owned();
    }
    let mut path = folder.to_owned();
    if f[f.len() - 1] != '/' {
        proof {
            reveal_strlit("/");
            assert("/"@ =~= seq!['/']);
        }
        path.append("/");
    }
    path.append(name);
    path
}

impl Binary {
    /// Whether this entry names its version in `url` while its checksum does not
    /// depend on the version. Such an entry is accepted, with a warning.
    pub fn sum_ignores_version(entry: &Node) -> (lenient: bool)
        ensures
            lenient == checksum_ignores_version(entry@),
    {
        proof {
            lemma_node_view(entry);
        }
        match entry {
            Node::Mapping(fields) => {
                match (scalar(fields, "url"), scalar(fields, "sum")) {
                    (Some(url), Some(sum)) => contains_token(url, "{{ version }}")
                        && !contains_token(sum, "{{ version }}"),
                    _ => false,
                }
            },
            _ => false,
        }
    }

    /// Where this binary goes when the provider installs into `folder`.
    pub fn destination(&self, folder: &str) -> (path: String)
        ensures
            path@ == destination(folder@, self@),
    {
        match &self.install_path {
            Some(p) => p.clone(),
            None => join(folder, self.name.as_str()),
        }
    }
}

/// Reads the entries of a `packages` sequence, or of a sidecar record.
pub fn read_entries(entries: &Vec<Node>, home: Option<&str>) -> (parsed: Result<Vec<Binary>, Error>)
    ensures
        match parsed {
            Ok(items) => entries_of(nodes(entries@), text_view(home), entries@.len() as int)
                == Ok::<Seq<BinaryView>, ErrorView>(records(items@)),
            Err(e) => entries_of(nodes(entries@), text_view(home), entries@.len() as int) == Err::<
                Seq<BinaryView>,
                ErrorView,
            >(e@),
        },
{
    let mut items: Vec<Binary> = Vec::new();
    let mut i: usize = 0;
    assert(records(items@) =~= Seq::empty());
    while i < entries.len()
        invariant
            i <= entries.len(),
            entries_of(nodes(entries@), text_view(home), i as int) == Ok::<
                Seq<BinaryView>,
                ErrorView,
            >(records(items@)),
        decreases entries.len() - i,
    {
        match Binary::deserialize(&entries[i], home) {
            Ok(item) => {
                assert(records(items@).push(item@) =~= records(items@.push(item)));
                items.push(item);
            },
            Err(e) => {
                proof {
                    lemma_entries_error_stays(
                        nodes(entries@),
                        text_view(home),
                        i + 1,
                        entries@.len() as int,
                    );
                }
                return Err(e);
            },
        }
        i += 1;
    }
    Ok(items)
}

/// An entry that is refused among the first `n` decides the error for every
/// longer stretch too.
pub proof fn lemma_entries_error_stays(
    entries: Seq<NodeView>,
    home: Option<Seq<char>>,
    n: int,
    m: int,
)
    requires
        n <= m,
        entries_of(entries, home, n) is Err,
    ensures
        entries_of(entries, home, m) == entries_of(entries, home, n),
    decreases m - n,
{
    if n < m {
        lemma_entries_error_stays(entries, home, n, m - 1);
    }
}

/// The backend for downloaded executables: the folder that binaries go to unless
/// an entry says otherwise, and the binaries that configuration asks for.
#[derive(Debug)]
pub struct BinaryProvider {
    pub install_folder: String,
    pub binaries: Vec<Binary>,
}

impl View for BinaryProvider {
    type V = BinaryProviderView;

    open spec fn view(&self) -> BinaryProviderView {
        BinaryProviderView { install_folder: self.install_folder@, binaries: records(self.binaries@) }
    }
}

impl BinaryProvider {
    /// A provider that installs `binaries` into `install_path`.
    pub fn new(install_path: &str, binaries: Vec<Binary>) -> (provider: Self)
        ensures
            provider.install_folder@ == install_path@,
            provider.binaries == binaries,
    {
        Self { install_folder: install_path.to_owned(), binaries }
    }

    /// A provider for `binaries` without a folder of its own.
    pub fn new_with_binaries(binaries: Vec<Binary>) -> (provider: Self)
        ensures
            provider.install_folder@.len() == 0,
            provider.binaries == binaries,
    {
        Self { install_folder: String::new(), binaries }
    }

    /// Reads the `binary` section of a configuration. `home` is the home
    /// directory, where it could be resolved; it is written into `install_folder`
    /// in place of the home placeholder.
    pub fn deserialize(section: &Node, home: Option<&str>) -> (parsed: Result<Self, Error>)
        ensures
            match parsed {
                Ok(provider) => provider_of(section@, text_view(home)) == Ok::<
                    BinaryProviderView,
                    ErrorView,
                >(provider@),
                Err(e) => provider_of(section@, text_view(home)) == Err::<
                    BinaryProviderView,
                    ErrorView,
                >(e@),
            },
    {
        proof {
            lemma_node_view(section);
        }
        let fields = match section {
            Node::Mapping(fields) => fields,
            _ => {
                return Err(Error::WrongType);
            },
        };
        let folder = single(fields, "install_folder");
        proof {
            if folder is Ok {
                lemma_node_view(folder.unwrap());
            }
        }
        let folder = match folder {
            Err(e) => {
                return Err(e);
            },
            Ok(Node::Scalar(folder)) => folder,
            Ok(_) => {
                return Err(Error::WrongType);
            },
        };
        let entries = single(fields, "packages");
        proof {
            if entries is Ok {
                lemma_node_view(entries.unwrap());
            }
        }
        let entries = match entries {
            Err(e) => {
                return Err(e);
            },
            Ok(Node::Sequence(entries)) => entries,
            Ok(_) => {
                return Err(Error::WrongType);
            },
        };
        let dir = match home {
            Some(dir) => dir,
            None => {
                return Err(Error::NoHome);
            },
        };
        let binaries = match read_entries(entries, home) {
            Ok(binaries) => binaries,
            Err(e) => {
                return Err(e);
            },
        };
        Ok(Self { install_folder: replace_token(folder.as_str(), "$HOME", dir), binaries })
    }

}

impl PackageProvider for BinaryProvider {
    type Item = Binary;

    open spec fn prefix() -> Seq<char> {
        "binary"@
    }

    open spec fn desired(&self) -> Seq<Binary> {
        self.binaries@
    }

    fn log_prefix() -> (prefix: &'static str) {
        "binary"
    }

    fn ensure(&self) -> (run: Reconciliation<Binary>) {
        Reconciliation::new(duplicates_of(&self.binaries))
    }
}

} // verus!
