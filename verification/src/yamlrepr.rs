//! The shape of a configuration document as the schema layer reads it, the
//! faults it reports, and the checks that every section shares.

use vstd::prelude::*;
use vstd::string::*;

use crate::text::same_text;

verus! {

/// One node of a configuration document. Every scalar is held as its text; a
/// mapping keeps its entries in document order, repeated keys included.
#[derive(Debug, PartialEq, Eq)]
pub enum Node {
    /// Nothing: an empty value.
    Null,
    /// A scalar, by its text.
    Scalar(String),
    /// A sequence of nodes.
    Sequence(Vec<Node>),
    /// A mapping from keys to nodes, in document order.
    Mapping(Vec<(String, Node)>),
}

/// A [`Node`] as a value of specifications.
pub enum NodeView {
    Null,
    Scalar(Seq<char>),
    Sequence(Seq<NodeView>),
    Mapping(Seq<(Seq<char>, NodeView)>),
}

impl Node {
    /// This node as a value of specifications.
    pub open spec fn model(self) -> NodeView
        decreases self,
    {
        match self {
            Node::Null => NodeView::Null,
            Node::Scalar(text) => NodeView::Scalar(text@),
            Node::Sequence(entries) => NodeView::Sequence(
                Seq::new(
                    entries@.len(),
                    |i: int|
                        if 0 <= i < entries@.len() {
                            entries@[i].model()
                        } else {
                            NodeView::Null
                        },
                ),
            ),
            Node::Mapping(fields) => NodeView::Mapping(
                Seq::new(
                    fields@.len(),
                    |i: int|
                        if 0 <= i < fields@.len() {
                            (fields@[i].0@, fields@[i].1.model())
                        } else {
                            (Seq::empty(), NodeView::Null)
                        },
                ),
            ),
        }
    }
}

impl View for Node {
    type V = NodeView;

    open spec fn view(&self) -> NodeView {
        self.model()
    }
}

/// The nodes of a sequence, as values of specifications.
pub open spec fn nodes(entries: Seq<Node>) -> Seq<NodeView> {
    Seq::new(entries.len(), |i: int| entries[i]@)
}

/// The entries of a mapping, as values of specifications.
pub open spec fn pairs(fields: Seq<(String, Node)>) -> Seq<(Seq<char>, NodeView)> {
    Seq::new(fields.len(), |i: int| (fields[i].0@, fields[i].1@))
}

/// What a node is as a value of specifications, by its shape.
pub proof fn lemma_node_view(node: &Node)
    ensures
        match *node {
            Node::Null => node@ == NodeView::Null,
            Node::Scalar(text) => node@ == NodeView::Scalar(text@),
            Node::Sequence(entries) => node@ == NodeView::Sequence(nodes(entries@)),
            Node::Mapping(fields) => node@ == NodeView::Mapping(pairs(fields@)),
        },
{
    match *node {
        Node::Sequence(entries) => {
            assert(node@->Sequence_0 =~= nodes(entries@));
        },
        Node::Mapping(fields) => {
            assert(node@->Mapping_0 =~= pairs(fields@));
        },
        _ => {},
    }
}

/// Why a configuration entry was refused.
#[derive(Debug, PartialEq, Eq)]
pub enum Error {
    /// The entry holds a field that the schema does not know.
    UnknownKey(String),
    /// A field that the schema requires is absent.
    MissingKey(String),
    /// Several required fields are absent.
    MissingKeys(Vec<String>),
    /// A field occurs twice in one entry.
    DuplicateKey(String),
    /// A node has another shape than the schema expects at its place.
    WrongType,
    /// A path names the home directory, which could not be resolved.
    NoHome,
    /// A scalar is none of the values that the schema allows at its place.
    UnknownValue(String),
}

/// An [`Error`] as a value of specifications.
pub enum ErrorView {
    UnknownValue(Seq<char>),
    UnknownKey(Seq<char>),
    MissingKey(Seq<char>),
    MissingKeys(Seq<Seq<char>>),
    DuplicateKey(Seq<char>),
    WrongType,
    NoHome,
}

/// The texts of a sequence of strings.
pub open spec fn texts(names: Seq<String>) -> Seq<Seq<char>> {
    Seq::new(names.len(), |i: int| names[i]@)
}

impl View for Error {
    type V = ErrorView;

    open spec fn view(&self) -> ErrorView {
        match self {
            Error::UnknownKey(k) => ErrorView::UnknownKey(k@),
            Error::MissingKey(k) => ErrorView::MissingKey(k@),
            Error::MissingKeys(ks) => ErrorView::MissingKeys(texts(ks@)),
            Error::DuplicateKey(k) => ErrorView::DuplicateKey(k@),
            Error::WrongType => ErrorView::WrongType,
            Error::NoHome => ErrorView::NoHome,
            Error::UnknownValue(v) => ErrorView::UnknownValue(v@),
        }
    }
}

/// Whether some entry of `fields` has the key `key`.
pub open spec fn has_key(fields: Seq<(Seq<char>, NodeView)>, key: Seq<char>) -> bool {
    exists|i: int| 0 <= i < fields.len() && (#[trigger] fields[i]).0 == key
}

/// The value of the first entry of `fields` with the key `key`.
pub open spec fn value_of(fields: Seq<(Seq<char>, NodeView)>, key: Seq<char>) -> Option<NodeView>
    decreases fields.len(),
{
    if fields.len() == 0 {
        None
    } else if fields[0].0 == key {
        Some(fields[0].1)
    } else {
        value_of(fields.drop_first(), key)
    }
}

/// The text of the scalar that the first entry of `fields` with the key `key` holds.
pub open spec fn text_of(fields: Seq<(Seq<char>, NodeView)>, key: Seq<char>) -> Option<Seq<char>> {
    match value_of(fields, key) {
        Some(NodeView::Scalar(text)) => Some(text),
        _ => None,
    }
}

/// A key has a value exactly where some entry carries it.
pub proof fn lemma_value_of_has_key(fields: Seq<(Seq<char>, NodeView)>, key: Seq<char>)
    ensures
        value_of(fields, key) is Some <==> has_key(fields, key),
    decreases fields.len(),
{
    if fields.len() > 0 {
        let rest = fields.drop_first();
        lemma_value_of_has_key(rest, key);
        if fields[0].0 != key {
            if has_key(fields, key) {
                let i = choose|i: int| 0 <= i < fields.len() && (#[trigger] fields[i]).0 == key;
                assert(rest[i - 1].0 == key);
            }
            if has_key(rest, key) {
                let i = choose|i: int| 0 <= i < rest.len() && (#[trigger] rest[i]).0 == key;
                assert(fields[i + 1].0 == key);
            }
        }
    }
}

/// What a mapping with one more entry gives a key: what it gave before, and the
/// new entry where it gave nothing.
pub proof fn lemma_value_of_push(
    fields: Seq<(Seq<char>, NodeView)>,
    entry: (Seq<char>, NodeView),
    key: Seq<char>,
)
    ensures
        has_key(fields.push(entry), key) <==> has_key(fields, key) || entry.0 == key,
        value_of(fields.push(entry), key) == if has_key(fields, key) {
            value_of(fields, key)
        } else if entry.0 == key {
            Some(entry.1)
        } else {
            None
        },
    decreases fields.len(),
{
    let grown = fields.push(entry);
    if has_key(fields, key) {
        let i = choose|i: int| 0 <= i < fields.len() && (#[trigger] fields[i]).0 == key;
        assert(grown[i].0 == key);
    }
    if entry.0 == key {
        assert(grown[fields.len() as int].0 == key);
    }
    if has_key(grown, key) {
        let i = choose|i: int| 0 <= i < grown.len() && (#[trigger] grown[i]).0 == key;
        if i < fields.len() {
            assert(fields[i].0 == key);
        }
    }
    if fields.len() > 0 {
        let rest = fields.drop_first();
        assert(grown.drop_first() == rest.push(entry));
        assert(grown[0] == fields[0]);
        lemma_value_of_push(rest, entry, key);
        if fields[0].0 != key {
            if has_key(fields, key) {
                let i = choose|i: int| 0 <= i < fields.len() && (#[trigger] fields[i]).0 == key;
                assert(rest[i - 1].0 == key);
            }
            if has_key(rest, key) {
                let i = choose|i: int| 0 <= i < rest.len() && (#[trigger] rest[i]).0 == key;
                assert(fields[i + 1].0 == key);
            }
        } else {
            assert(fields[0].0 == key);
        }
    } else {
        assert(grown[0] == entry);
        assert(value_of(grown.drop_first(), key) is None);
    }
}

/// The value that the mapping `fields` gives the key `key`, if any: that of the
/// first entry with that key.
pub fn lookup<'a>(fields: &'a Vec<(String, Node)>, key: &str) -> (found: Option<&'a Node>)
    ensures
        match found {
            Some(node) => value_of(pairs(fields@), key@) == Some(node@),
            None => value_of(pairs(fields@), key@) is None,
        },
{
    let ghost all = pairs(fields@);
    let mut i: usize = 0;
    assert(all.subrange(0, fields.len() as int) == all);
    while i < fields.len()
        invariant
            i <= fields.len(),
            all == pairs(fields@),
            value_of(all, key@) == value_of(all.subrange(i as int, fields.len() as int), key@),
        decreases fields.len() - i,
    {
        let ghost rest = all.subrange(i as int, fields.len() as int);
        assert(rest.drop_first() == all.subrange(i + 1, fields.len() as int));
        assert(rest[0] == all[i as int]);
        if same_text(fields[i].0.as_str(), key) {
            return Some(&fields[i].1);
        }
        i += 1;
    }
    None
}

/// The text of the scalar that the mapping `fields` gives the key `key`, if it
/// gives it one.
pub fn scalar<'a>(fields: &'a Vec<(String, Node)>, key: &str) -> (found: Option<&'a str>)
    ensures
        match found {
            Some(text) => text_of(pairs(fields@), key@) == Some(text@),
            None => text_of(pairs(fields@), key@) is None,
        },
{
    let found = lookup(fields, key);
    proof {
        if found is Some {
            lemma_node_view(found.unwrap());
        }
    }
    match found {
        Some(Node::Scalar(text)) => Some(text.as_str()),
        _ => None,
    }
}

/// The texts of a list of names.
pub open spec fn names(list: Seq<&str>) -> Seq<Seq<char>> {
    Seq::new(list.len(), |i: int| list[i]@)
}

/// What is wrong with the entry at position `i` of a compound entry whose fields
/// must be among `allowed`, each at most once and each with a scalar value.
pub open spec fn fault_at(fields: Seq<(Seq<char>, NodeView)>, allowed: Seq<Seq<char>>, i: int) -> Option<
    ErrorView,
> {
    let key = fields[i].0;
    if !allowed.contains(key) {
        Some(ErrorView::UnknownKey(key))
    } else if has_key(fields.subrange(0, i), key) {
        Some(ErrorView::DuplicateKey(key))
    } else if !(fields[i].1 is Scalar) {
        Some(ErrorView::WrongType)
    } else {
        None
    }
}

/// The first fault among the first `n` entries of a compound entry, in document
/// order.
pub open spec fn first_fault(fields: Seq<(Seq<char>, NodeView)>, allowed: Seq<Seq<char>>, n: int) -> Option<
    ErrorView,
>
    decreases n,
{
    if n <= 0 {
        None
    } else {
        match first_fault(fields, allowed, n - 1) {
            Some(e) => Some(e),
            None => fault_at(fields, allowed, n - 1),
        }
    }
}

/// Whether a compound entry has no fault.
pub open spec fn sound(fields: Seq<(Seq<char>, NodeView)>, allowed: Seq<Seq<char>>) -> bool {
    first_fault(fields, allowed, fields.len() as int) is None
}

/// The first fault among the first `n` entries depends on these entries alone.
pub proof fn lemma_first_fault_of_prefix(
    fields: Seq<(Seq<char>, NodeView)>,
    more: Seq<(Seq<char>, NodeView)>,
    allowed: Seq<Seq<char>>,
    n: int,
)
    requires
        0 <= n <= fields.len(),
    ensures
        first_fault(fields + more, allowed, n) == first_fault(fields, allowed, n),
    decreases n,
{
    if n > 0 {
        lemma_first_fault_of_prefix(fields, more, allowed, n - 1);
        assert((fields + more).subrange(0, n - 1) == fields.subrange(0, n - 1));
        assert((fields + more)[n - 1] == fields[n - 1]);
    }
}

/// A sound compound entry stays sound with one more scalar field whose key is
/// allowed and new.
pub proof fn lemma_sound_push(
    fields: Seq<(Seq<char>, NodeView)>,
    allowed: Seq<Seq<char>>,
    key: Seq<char>,
    text: Seq<char>,
)
    requires
        sound(fields, allowed),
        allowed.contains(key),
        !has_key(fields, key),
    ensures
        sound(fields.push((key, NodeView::Scalar(text))), allowed),
{
    let entry = (key, NodeView::Scalar(text));
    let grown = fields.push(entry);
    assert(grown == fields + seq![entry]);
    lemma_first_fault_of_prefix(fields, seq![entry], allowed, fields.len() as int);
    assert(grown.subrange(0, fields.len() as int) == fields);
}

/// Tests whether `key` is one of `list`.
pub fn is_listed(list: &Vec<&str>, key: &str) -> (listed: bool)
    ensures
        listed == names(list@).contains(key@),
{
    let mut j: usize = 0;
    while j < list.len()
        invariant
            j <= list.len(),
            forall|k: int| 0 <= k < j ==> names(list@)[k] != key@,
        decreases list.len() - j,
    {
        if same_text(list[j], key) {
            assert(names(list@)[j as int] == key@);
            return true;
        }
        j += 1;
    }
    false
}

/// Tests whether one of the first `n` entries of `fields` has the key `key`.
fn occurs_before(fields: &Vec<(String, Node)>, n: usize, key: &str) -> (found: bool)
    requires
        n <= fields.len(),
    ensures
        found == has_key(pairs(fields@).subrange(0, n as int), key@),
{
    let ghost front = pairs(fields@).subrange(0, n as int);
    let mut j: usize = 0;
    while j < n
        invariant
            j <= n <= fields.len(),
            front == pairs(fields@).subrange(0, n as int),
            forall|k: int| 0 <= k < j ==> (#[trigger] front[k]).0 != key@,
        decreases n - j,
    {
        if same_text(fields[j].0.as_str(), key) {
            assert(front[j as int].0 == key@);
            return true;
        }
        j += 1;
    }
    false
}

/// Checks a compound entry against its schema: every field among `allowed`, none
/// twice, each with a scalar value. The first offending field, in document order,
/// decides the error.
pub fn check_fields(fields: &Vec<(String, Node)>, allowed: &Vec<&str>) -> (checked: Result<(), Error>)
    ensures
        match checked {
            Ok(_) => first_fault(pairs(fields@), names(allowed@), fields@.len() as int) is None,
            Err(e) => first_fault(pairs(fields@), names(allowed@), fields@.len() as int) == Some(
                e@,
            ),
        },
{
    let ghost all = pairs(fields@);
    let mut i: usize = 0;
    while i < fields.len()
        invariant
            i <= fields.len(),
            all == pairs(fields@),
            first_fault(all, names(allowed@), i as int) is None,
        decreases fields.len() - i,
    {
        let key = fields[i].0.as_str();
        assert(first_fault(all, names(allowed@), i + 1) == fault_at(all, names(allowed@), i as int));
        proof {
            if fault_at(all, names(allowed@), i as int) is Some {
                lemma_first_fault_stays(all, names(allowed@), i + 1, fields@.len() as int);
            }
            lemma_node_view(&fields@[i as int].1);
        }
        if !is_listed(allowed, key) {
            return Err(Error::UnknownKey(key.to_owned()));
        }
        if occurs_before(fields, i, key) {
            return Err(Error::DuplicateKey(key.to_owned()));
        }
        match &fields[i].1 {
            Node::Scalar(_) => {},
            _ => {
                return Err(Error::WrongType);
            },
        }
        i += 1;
    }
    Ok(())
}

/// A fault found among the first `n` entries is still the first fault when more
/// entries are looked at.
pub proof fn lemma_first_fault_stays(
    fields: Seq<(Seq<char>, NodeView)>,
    allowed: Seq<Seq<char>>,
    n: int,
    m: int,
)
    requires
        n <= m,
        first_fault(fields, allowed, n) is Some,
    ensures
        first_fault(fields, allowed, m) == first_fault(fields, allowed, n),
    decreases m - n,
{
    if n < m {
        lemma_first_fault_stays(fields, allowed, n, m - 1);
    }
}

/// How many entries of `fields` have the key `key`.
pub open spec fn occurrences(fields: Seq<(Seq<char>, NodeView)>, key: Seq<char>) -> nat
    decreases fields.len(),
{
    if fields.len() == 0 {
        0
    } else {
        occurrences(fields.drop_last(), key) + if fields.last().0 == key {
            1nat
        } else {
            0nat
        }
    }
}

/// The value of a field that a section must hold exactly once.
pub open spec fn only_value(fields: Seq<(Seq<char>, NodeView)>, key: Seq<char>) -> Result<
    NodeView,
    ErrorView,
> {
    if occurrences(fields, key) == 0 {
        Err(ErrorView::MissingKey(key))
    } else if occurrences(fields, key) > 1 {
        Err(ErrorView::DuplicateKey(key))
    } else {
        Ok(value_of(fields, key)->0)
    }
}

/// A key occurs at least once exactly where some entry carries it.
pub proof fn lemma_occurrences_has_key(fields: Seq<(Seq<char>, NodeView)>, key: Seq<char>)
    ensures
        occurrences(fields, key) > 0 <==> has_key(fields, key),
    decreases fields.len(),
{
    if fields.len() > 0 {
        let front = fields.drop_last();
        lemma_occurrences_has_key(front, key);
        if has_key(front, key) {
            let i = choose|i: int| 0 <= i < front.len() && (#[trigger] front[i]).0 == key;
            assert(fields[i].0 == key);
        }
        if fields.last().0 == key {
            assert(fields[fields.len() - 1].0 == key);
        } else if has_key(fields, key) {
            let i = choose|i: int| 0 <= i < fields.len() && (#[trigger] fields[i]).0 == key;
            assert(front[i].0 == key);
        }
    }
}

/// The value of the field `key`, which the mapping `fields` must hold exactly once.
pub fn single<'a>(fields: &'a Vec<(String, Node)>, key: &str) -> (found: Result<&'a Node, Error>)
    ensures
        match found {
            Ok(node) => only_value(pairs(fields@), key@) == Ok::<NodeView, ErrorView>(node@),
            Err(e) => only_value(pairs(fields@), key@) == Err::<NodeView, ErrorView>(e@),
        },
{
    let ghost all = pairs(fields@);
    let mut count: usize = 0;
    let mut i: usize = 0;
    while i < fields.len()
        invariant
            i <= fields.len(),
            all == pairs(fields@),
            count <= i,
            count == occurrences(all.subrange(0, i as int), key@),
        decreases fields.len() - i,
    {
        assert(all.subrange(0, i + 1).drop_last() == all.subrange(0, i as int));
        assert(all.subrange(0, i + 1).last() == all[i as int]);
        if same_text(fields[i].0.as_str(), key) {
            count += 1;
        }
        i += 1;
    }
    assert(all.subrange(0, fields.len() as int) == all);
    proof {
        lemma_occurrences_has_key(all, key@);
        lemma_value_of_has_key(all, key@);
    }
    if count == 0 {
        Err(Error::MissingKey(key.to_owned()))
    } else if count > 1 {
        Err(Error::DuplicateKey(key.to_owned()))
    } else {
        match lookup(fields, key) {
            Some(node) => Ok(node),
            None => Err(Error::MissingKey(key.to_owned())),
        }
    }
}

/// Whether `node` is a mapping that has the key `key`.
pub open spec fn is_present(node: NodeView, key: Seq<char>) -> bool {
    node matches NodeView::Mapping(fields) && has_key(fields, key)
}

/// Those of the first `n` keys of `keys`, in their order, that `node` has
/// (`present`) or lacks (`!present`).
pub open spec fn selected_keys(node: NodeView, keys: Seq<Seq<char>>, present: bool, n: int) -> Seq<
    Seq<char>,
>
    decreases n,
{
    if n <= 0 {
        Seq::empty()
    } else if is_present(node, keys[n - 1]) == present {
        selected_keys(node, keys, present, n - 1).push(keys[n - 1])
    } else {
        selected_keys(node, keys, present, n - 1)
    }
}

/// Tests whether `node` is a mapping that has the key `key`.
pub fn has_field(node: &Node, key: &str) -> (present: bool)
    ensures
        present == is_present(node@, key@),
{
    proof {
        lemma_node_view(node);
    }
    match node {
        Node::Mapping(fields) => {
            proof {
                lemma_value_of_has_key(pairs(fields@), key@);
            }
            lookup(fields, key).is_some()
        },
        _ => false,
    }
}

/// Those of `keys`, in their order, that `node` has (`present`) or lacks
/// (`!present`).
pub fn select_keys(node: &Node, keys: &Vec<&str>, present: bool) -> (selected: Vec<String>)
    ensures
        texts(selected@) == selected_keys(node@, names(keys@), present, keys@.len() as int),
{
    let mut selected: Vec<String> = Vec::new();
    let mut i: usize = 0;
    assert(texts(selected@) =~= Seq::empty());
    while i < keys.len()
        invariant
            i <= keys.len(),
            texts(selected@) == selected_keys(node@, names(keys@), present, i as int),
        decreases keys.len() - i,
    {
        if has_field(node, keys[i]) == present {
            let ghost before = selected@;
            selected.push(keys[i].to_owned());
            assert(texts(selected@) =~= texts(before).push(keys@[i as int]@));
        }
        i += 1;
    }
    selected
}

/// The keys that every section knows.
#[derive(Clone, Copy, Debug, PartialEq, Eq, Structural)]
pub enum CommonKeys {
    /// The items that are to be present.
    ItemPresent,
    /// The items that are to be absent.
    ItemAbsent,
}

impl CommonKeys {
    /// The key as it is written in a document.
    pub open spec fn text(self) -> Seq<char> {
        match self {
            CommonKeys::ItemPresent => "present"@,
            CommonKeys::ItemAbsent => "absent"@,
        }
    }

    /// The key as it is written in a document.
    pub fn as_ref(&self) -> (text: &'static str)
        ensures
            text@ == self.text(),
    {
        match self {
            CommonKeys::ItemPresent => "present",
            CommonKeys::ItemAbsent => "absent",
        }
    }

    /// The key that is written as `text`, if there is one.
    pub fn from_str(text: &str) -> (key: Option<CommonKeys>)
        ensures
            match key {
                Some(k) => k.text() == text@,
                None => text@ != "present"@ && text@ != "absent"@,
            },
    {
        if same_text(text, "present") {
            Some(CommonKeys::ItemPresent)
        } else if same_text(text, "absent") {
            Some(CommonKeys::ItemAbsent)
        } else {
            None
        }
    }
}

/// A type that is read from one node of a configuration document.
pub trait YamlRepr: Sized {
    /// The keys that a section of this type must have.
    spec fn required() -> Seq<Seq<char>>;

    /// The keys that a section of this type may have.
    spec fn optional() -> Seq<Seq<char>>;

    /// The key under which the section of this type stands.
    spec fn section() -> Seq<char>;

    /// The key under which the section of this type stands.
    fn yaml_key() -> (key: &'static str)
        ensures
            key@ == Self::section(),
    ;

    /// The keys that a section of this type must have.
    fn required_keys() -> (keys: Vec<&'static str>)
        ensures
            names(keys@) == Self::required(),
    ;

    /// The keys that a section of this type may have.
    fn optional_keys() -> (keys: Vec<&'static str>)
        ensures
            names(keys@) == Self::optional(),
    ;

    /// Whether `y` stands for a value of this type.
    spec fn accepts(y: NodeView) -> bool;

    /// Reads a value of this type from `y`. It succeeds exactly where `y` stands
    /// for one.
    fn from_yaml(y: &Node) -> (parsed: Result<Self, crate::error::Error>)
        ensures
            parsed is Ok <==> Self::accepts(y@),
    ;

    /// Checks that `y` has every required key. The error lists the ones it lacks,
    /// in the order of the schema.
    fn ensure_required_keys(y: &Node) -> (checked: Result<(), crate::error::Error>)
        ensures
            match checked {
                Ok(_) => selected_keys(y@, Self::required(), false, Self::required().len() as int).len()
                    == 0,
                Err(e) => e@ == crate::error::ErrorView::Yaml(
                    ErrorView::MissingKeys(
                        selected_keys(y@, Self::required(), false, Self::required().len() as int),
                    ),
                ) && selected_keys(y@, Self::required(), false, Self::required().len() as int).len()
                    > 0,
            },
    {
        let keys = Self::required_keys();
        let missing = select_keys(y, &keys, false);
        if missing.len() == 0 {
            Ok(())
        } else {
            Err(crate::error::Error::Yaml(Error::MissingKeys(missing)))
        }
    }

    /// The optional keys that `y` has, in the order of the schema, or `None` where
    /// it has none of them.
    fn get_present_optional_keys(y: &Node) -> (present: Option<Vec<String>>)
        ensures
            match present {
                Some(keys) => keys@.len() > 0 && texts(keys@) == selected_keys(
                    y@,
                    Self::optional(),
                    true,
                    Self::optional().len() as int,
                ),
                None => selected_keys(y@, Self::optional(), true, Self::optional().len() as int).len()
                    == 0,
            },
    {
        let keys = Self::optional_keys();
        let present = select_keys(y, &keys, true);
        if present.len() == 0 {
            None
        } else {
            Some(present)
        }
    }
}

} // verus!
