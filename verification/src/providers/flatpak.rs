//! The long form of the app-store section: a mapping with a default scope and
//! the applications that are to be present, each a bare identifier or a mapping
//! with an identifier and a scope of its own.

use vstd::prelude::*;
use vstd::string::*;

use crate::providers::Provider;
use crate::text::same_text;
use crate::yamlrepr;
use crate::yamlrepr::{
    check_fields, first_fault, lemma_node_view, lookup, nodes, pairs, scalar, text_of, value_of,
    CommonKeys, Node, NodeView, YamlRepr,
};

verus! {

/// The keys of the app-store section and of its entries.
#[derive(Clone, Copy, Debug, PartialEq, Eq, Structural)]
pub enum YamlKey {
    /// The scope of the entries that name none.
    DefaultScope,
    /// The scope of one entry.
    Scope,
    /// The identifier of one entry.
    Id,
}

impl YamlKey {
    /// The key as it is written in a document.
    pub open spec fn text(self) -> Seq<char> {
        match self {
            YamlKey::DefaultScope => "default_scope"@,
            YamlKey::Scope => "scope"@,
            YamlKey::Id => "id"@,
        }
    }

    /// The key as it is written in a document.
    pub fn as_ref(&self) -> (text: &'static str)
        ensures
            text@ == self.text(),
    {
        match self {
            YamlKey::DefaultScope => "default_scope",
            YamlKey::Scope => "scope",
            YamlKey::Id => "id",
        }
    }
}

/// A value that the app store does not know.
#[derive(Debug, PartialEq, Eq)]
pub enum Error {
    /// A scope that is neither `user` nor `system`.
    InvalidScope(String),
}

/// An [`Error`] as a value of specifications.
pub enum ErrorView {
    InvalidScope(Seq<char>),
}

impl View for Error {
    type V = ErrorView;

    open spec fn view(&self) -> ErrorView {
        match self {
            Error::InvalidScope(text) => ErrorView::InvalidScope(text@),
        }
    }
}

/// For whom an application is installed.
#[derive(Clone, Copy, Debug, PartialEq, Eq, Structural)]
pub enum InstallScope {
    /// For the user who runs the tool.
    User,
    /// For every user of the machine.
    System,
}

/// The scope that `text` names, if it names one.
pub open spec fn scope_of(text: Seq<char>) -> Option<InstallScope> {
    if text == "system"@ {
        Some(InstallScope::System)
    } else if text == "user"@ {
        Some(InstallScope::User)
    } else {
        None
    }
}

impl Default for InstallScope {
    fn default() -> (scope: Self)
        ensures
            scope == InstallScope::User,
    {
        InstallScope::User
    }
}

impl InstallScope {
    /// The scope that `value` names: `user` or `system`.
    pub fn try_from(value: &str) -> (parsed: Result<Self, Error>)
        ensures
            match parsed {
                Ok(scope) => scope_of(value@) == Some(scope),
                Err(e) => scope_of(value@) is None && e@ == ErrorView::InvalidScope(value@),
            },
    {
        if same_text(value, "system") {
            Ok(InstallScope::System)
        } else if same_text(value, "user") {
            Ok(InstallScope::User)
        } else {
            Err(Error::InvalidScope(value.to_owned()))
        }
    }
}

/// One application as the long form describes it, as a value of specifications.
pub struct FlatpakView {
    pub id: Seq<char>,
    pub scope: InstallScope,
    pub scope_override: bool,
}

/// One application as the long form describes it: its identifier, the scope it
/// is installed in, and whether the entry named that scope itself.
#[derive(Debug)]
pub struct Flatpak {
    id: String,
    scope: InstallScope,
    scope_override: bool,
}

impl View for Flatpak {
    type V = FlatpakView;

    closed spec fn view(&self) -> FlatpakView {
        FlatpakView { id: self.id@, scope: self.scope, scope_override: self.scope_override }
    }
}

/// The applications of a sequence, as values of specifications.
pub open spec fn views(items: Seq<Flatpak>) -> Seq<FlatpakView> {
    Seq::new(items.len(), |i: int| items[i]@)
}

/// The fields that a compound entry may hold.
pub open spec fn entry_fields() -> Seq<Seq<char>> {
    seq![YamlKey::Id.text(), YamlKey::Scope.text()]
}

/// The scope that a compound entry names. A scope that the app store does not
/// know counts as the user's.
pub open spec fn scope_or_default(text: Seq<char>) -> InstallScope {
    match scope_of(text) {
        Some(scope) => scope,
        None => InstallScope::User,
    }
}

/// The application that one entry of `present` stands for: a bare identifier, or a
/// mapping with `id` and `scope`, both scalars, and nothing else.
pub open spec fn entry_of(entry: NodeView) -> Result<FlatpakView, crate::error::ErrorView> {
    match entry {
        NodeView::Mapping(fields) => match first_fault(fields, entry_fields(), fields.len() as int) {
            Some(e) => Err(crate::error::ErrorView::Yaml(e)),
            None => match (
                text_of(fields, YamlKey::Id.text()),
                text_of(fields, YamlKey::Scope.text()),
            ) {
                (None, _) => Err(
                    crate::error::ErrorView::Yaml(
                        yamlrepr::ErrorView::MissingKey(YamlKey::Id.text()),
                    ),
                ),
                (Some(_), None) => Err(
                    crate::error::ErrorView::Yaml(
                        yamlrepr::ErrorView::MissingKey(YamlKey::Scope.text()),
                    ),
                ),
                (Some(id), Some(scope)) => Ok(
                    FlatpakView { id, scope: scope_or_default(scope), scope_override: true },
                ),
            },
        },
        NodeView::Scalar(id) => Ok(
            FlatpakView { id, scope: InstallScope::User, scope_override: false },
        ),
        _ => Err(crate::error::ErrorView::Yaml(yamlrepr::ErrorView::WrongType)),
    }
}

/// An application in the scope `scope`, unless its entry named a scope itself.
pub open spec fn scoped(item: FlatpakView, scope: InstallScope) -> FlatpakView {
    if item.scope_override {
        item
    } else {
        FlatpakView { id: item.id, scope, scope_override: false }
    }
}

/// The applications that the first `n` entries of `present` stand for, under the
/// default scope `scope`. The first entry that is refused decides the error.
pub open spec fn present_of(entries: Seq<NodeView>, scope: InstallScope, n: int) -> Result<
    Seq<FlatpakView>,
    crate::error::ErrorView,
>
    decreases n,
{
    if n <= 0 {
        Ok(Seq::empty())
    } else {
        match present_of(entries, scope, n - 1) {
            Err(e) => Err(e),
            Ok(items) => match entry_of(entries[n - 1]) {
                Err(e) => Err(e),
                Ok(item) => Ok(items.push(scoped(item, scope))),
            },
        }
    }
}

/// The keys that the section must have.
pub open spec fn section_keys() -> Seq<Seq<char>> {
    seq![YamlKey::DefaultScope.text()]
}

/// What the long form of the app-store section stands for: its default scope and
/// its applications. The section is a mapping with `default_scope`, a scalar that
/// names a scope, and `present`, a sequence of entries. Where a key occurs twice,
/// its first value counts.
pub open spec fn section_of(section: NodeView) -> Result<
    (InstallScope, Seq<FlatpakView>),
    crate::error::ErrorView,
> {
    match section {
        NodeView::Mapping(fields) => {
            let lacking = yamlrepr::selected_keys(section, section_keys(), false, 1);
            if lacking.len() > 0 {
                Err(crate::error::ErrorView::Yaml(yamlrepr::ErrorView::MissingKeys(lacking)))
            } else {
                match value_of(fields, YamlKey::DefaultScope.text()) {
                    Some(NodeView::Scalar(text)) => match scope_of(text) {
                        None => Err(
                            crate::error::ErrorView::Flatpak(ErrorView::InvalidScope(text)),
                        ),
                        Some(scope) => match value_of(fields, CommonKeys::ItemPresent.text()) {
                            Some(NodeView::Sequence(entries)) => match present_of(
                                entries,
                                scope,
                                entries.len() as int,
                            ) {
                                Err(e) => Err(e),
                                Ok(items) => Ok((scope, items)),
                            },
                            _ => Err(
                                crate::error::ErrorView::Yaml(yamlrepr::ErrorView::WrongType),
                            ),
                        },
                    },
                    _ => Err(crate::error::ErrorView::Yaml(yamlrepr::ErrorView::WrongType)),
                }
            }
        },
        _ => Err(crate::error::ErrorView::Yaml(yamlrepr::ErrorView::WrongType)),
    }
}

impl Flatpak {
    /// The identifier.
    pub fn id(&self) -> (id: &str)
        ensures
            id@ == self@.id,
    {
        self.id.as_str()
    }

    /// The scope that the application is installed in.
    pub fn scope(&self) -> (scope: InstallScope)
        ensures
            scope == self@.scope,
    {
        self.scope
    }

    /// Whether the entry named its scope itself.
    pub fn scope_override(&self) -> (named: bool)
        ensures
            named == self@.scope_override,
    {
        self.scope_override
    }
}

impl YamlRepr for Flatpak {
    open spec fn required() -> Seq<Seq<char>> {
        section_keys()
    }

    open spec fn optional() -> Seq<Seq<char>> {
        Seq::empty()
    }

    open spec fn section() -> Seq<char> {
        "flatpak"@
    }

    fn yaml_key() -> (key: &'static str) {
        "flatpak"
    }

    fn required_keys() -> (keys: Vec<&'static str>) {
        let keys: Vec<&'static str> = vec![YamlKey::DefaultScope.as_ref()];
        assert(yamlrepr::names(keys@) =~= section_keys());
        keys
    }

    fn optional_keys() -> (keys: Vec<&'static str>) {
        let keys: Vec<&'static str> = Vec::new();
        assert(yamlrepr::names(keys@) =~= Seq::empty());
        keys
    }

    open spec fn accepts(y: NodeView) -> bool {
        entry_of(y) is Ok
    }

    /// Reads one entry of `present`.
    fn from_yaml(y: &Node) -> (parsed: Result<Self, crate::error::Error>)
        ensures
            match parsed {
                Ok(item) => entry_of(y@) == Ok::<FlatpakView, crate::error::ErrorView>(item@),
                Err(e) => entry_of(y@) == Err::<FlatpakView, crate::error::ErrorView>(e@),
            },
    {
        proof {
            lemma_node_view(y);
        }
        match y {
            Node::Mapping(fields) => {
                let allowed: Vec<&str> = vec![YamlKey::Id.as_ref(), YamlKey::Scope.as_ref()];
                assert(yamlrepr::names(allowed@) =~= entry_fields());
                match check_fields(fields, &allowed) {
                    Err(e) => {
                        return Err(crate::error::Error::Yaml(e));
                    },
                    Ok(_) => {},
                }
                let id = match scalar(fields, YamlKey::Id.as_ref()) {
                    Some(id) => id,
                    None => {
                        return Err(
                            crate::error::Error::Yaml(
                                yamlrepr::Error::MissingKey(YamlKey::Id.as_ref().to_owned()),
                            ),
                        );
                    },
                };
                let scope = match scalar(fields, YamlKey::Scope.as_ref()) {
                    Some(scope) => scope,
                    None => {
                        return Err(
                            crate::error::Error::Yaml(
                                yamlrepr::Error::MissingKey(YamlKey::Scope.as_ref().to_owned()),
                            ),
                        );
                    },
                };
                let scope = match InstallScope::try_from(scope) {
                    Ok(scope) => scope,
                    Err(_) => InstallScope::User,
                };
                Ok(Flatpak { id: id.to_owned(), scope, scope_override: true })
            },
            Node::Scalar(id) => Ok(
                Flatpak { id: id.clone(), scope: InstallScope::User, scope_override: false },
            ),
            _ => Err(crate::error::Error::Yaml(yamlrepr::Error::WrongType)),
        }
    }
}

/// The app-store provider as the long form fills it: the default scope and the
/// applications that are to be present.
#[derive(Debug)]
pub struct FlatpakProvider {
    pub default_scope: InstallScope,
    pub desired_present_items: Vec<Flatpak>,
}

impl FlatpakProvider {
    /// A provider for the user's scope that wants nothing yet.
    pub fn new() -> (provider: Self)
        ensures
            provider.default_scope == InstallScope::User,
            provider.desired_present_items@.len() == 0,
    {
        FlatpakProvider { default_scope: InstallScope::User, desired_present_items: Vec::new() }
    }
}

/// An entry that is refused among the first `n` decides the error for every
/// longer stretch too.
pub proof fn lemma_present_error_stays(
    entries: Seq<NodeView>,
    scope: InstallScope,
    n: int,
    m: int,
)
    requires
        n <= m,
        present_of(entries, scope, n) is Err,
    ensures
        present_of(entries, scope, m) == present_of(entries, scope, n),
    decreases m - n,
{
    if n < m {
        lemma_present_error_stays(entries, scope, n, m - 1);
    }
}

impl Provider for FlatpakProvider {
    type Item = Flatpak;

    open spec fn accepts(y: NodeView) -> bool {
        section_of(y) is Ok
    }

    /// Reads the long form of the section: sets the default scope and adds the
    /// applications of `present`. Where the section is refused, the provider stays
    /// as it was.
    fn parse_yaml(&mut self, y: &Node) -> (parsed: Result<(), crate::error::Error>)
        ensures
            match parsed {
                Ok(_) => section_of(y@) matches Ok((scope, items)) && final(self).default_scope == scope
                    && views(final(self).desired_present_items@) == views(
                    old(self).desired_present_items@,
                ) + items,
                Err(e) => section_of(y@) == Err::<
                    (InstallScope, Seq<FlatpakView>),
                    crate::error::ErrorView,
                >(e@) && *final(self) == *old(self),
            },
    {
        proof {
            lemma_node_view(y);
        }
        let fields = match y {
            Node::Mapping(fields) => fields,
            _ => {
                return Err(crate::error::Error::Yaml(yamlrepr::Error::WrongType));
            },
        };
        match Flatpak::ensure_required_keys(y) {
            Err(e) => {
                return Err(e);
            },
            Ok(_) => {},
        }
        let scope = lookup(fields, YamlKey::DefaultScope.as_ref());
        proof {
            if scope is Some {
                lemma_node_view(scope.unwrap());
            }
        }
        let scope = match scope {
            Some(Node::Scalar(text)) => match InstallScope::try_from(text.as_str()) {
                Ok(scope) => scope,
                Err(e) => {
                    return Err(crate::error::Error::Flatpak(e));
                },
            },
            _ => {
                return Err(crate::error::Error::Yaml(yamlrepr::Error::WrongType));
            },
        };
        let entries = lookup(fields, CommonKeys::ItemPresent.as_ref());
        proof {
            if entries is Some {
                lemma_node_view(entries.unwrap());
            }
        }
        let entries = match entries {
            Some(Node::Sequence(entries)) => entries,
            _ => {
                return Err(crate::error::Error::Yaml(yamlrepr::Error::WrongType));
            },
        };
        let mut added: Vec<Flatpak> = Vec::new();
        let mut i: usize = 0;
        assert(views(added@) =~= Seq::empty());
        while i < entries.len()
            invariant
                i <= entries.len(),
                *self == *old(self),
                section_of(y@) == match present_of(nodes(entries@), scope, entries@.len() as int) {
                    Err(e) => Err::<(InstallScope, Seq<FlatpakView>), crate::error::ErrorView>(e),
                    Ok(items) => Ok((scope, items)),
                },
                present_of(nodes(entries@), scope, i as int) == Ok::<
                    Seq<FlatpakView>,
                    crate::error::ErrorView,
                >(views(added@)),
            decreases entries.len() - i,
        {
            match Flatpak::from_yaml(&entries[i]) {
                Ok(item) => {
                    let mut item = item;
                    let ghost read = item@;
                    if !item.scope_override {
                        item.scope = scope;
                    }
                    assert(item@ == scoped(read, scope));
                    assert(views(added@).push(item@) =~= views(added@.push(item)));
                    added.push(item);
                },
                Err(e) => {
                    proof {
                        lemma_present_error_stays(
                            nodes(entries@),
                            scope,
                            i + 1,
                            entries@.len() as int,
                        );
                    }
                    return Err(e);
                },
            }
            i += 1;
        }
        let ghost before = self.desired_present_items@;
        let ghost fresh = added@;
        self.default_scope = scope;
        self.desired_present_items.append(&mut added);
        assert(views(self.desired_present_items@) =~= views(before) + views(fresh));
        Ok(())
    }
}

} // verus!
