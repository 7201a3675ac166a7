//! The written form of records: how one binary is written out, how the sidecar
//! record is written and read, and what reading back what was written gives.

use vstd::prelude::*;
use vstd::string::*;

use crate::package_types::binary::{
    entries_of, home_token, needs_version, normalized, read_entries, record_of, records, text_view,
    binary_fields, version_token, versioned, versioned_field, Binary, BinaryProvider, BinaryView,
};
use crate::text::has_token;
use crate::yamlrepr::{
    has_key, lemma_node_view, lemma_sound_push, lemma_value_of_has_key, lemma_value_of_push, nodes,
    pairs, sound, text_of, Error, ErrorView, Node, NodeView,
};

verus! {

/// A mapping with one more scalar field, where the field has a value.
pub open spec fn with_field(
    fields: Seq<(Seq<char>, NodeView)>,
    key: Seq<char>,
    value: Option<Seq<char>>,
) -> Seq<(Seq<char>, NodeView)> {
    match value {
        Some(text) => fields.push((key, NodeView::Scalar(text))),
        None => fields,
    }
}

/// The fields that a record is written with, in their order: `name`, `url`, and
/// of `version`, `sum` and `install_path` those that the record has.
pub open spec fn written_fields(item: BinaryView) -> Seq<(Seq<char>, NodeView)> {
    let required = with_field(
        with_field(Seq::empty(), "name"@, Some(item.name)),
        "url"@,
        Some(item.url),
    );
    with_field(
        with_field(with_field(required, "version"@, item.version), "sum"@, item.sum),
        "install_path"@,
        item.install_path,
    )
}

/// The written form of a record. It has the schema of a configuration entry.
pub open spec fn written(item: BinaryView) -> NodeView {
    NodeView::Mapping(written_fields(item))
}

/// The written form of a sidecar record: the written records, in their order.
pub open spec fn written_all(items: Seq<BinaryView>) -> NodeView {
    NodeView::Sequence(Seq::new(items.len(), |i: int| written(items[i])))
}

/// What the sidecar record holds. `record` is the document found at the sidecar's
/// place, `None` where there is no such file: then nothing is installed yet. An
/// empty document holds nothing; any other is a sequence of entries.
pub open spec fn recorded_in(record: Option<NodeView>, home: Option<Seq<char>>) -> Result<
    Seq<BinaryView>,
    ErrorView,
> {
    match record {
        None => Ok(Seq::empty()),
        Some(NodeView::Null) => Ok(Seq::empty()),
        Some(NodeView::Sequence(entries)) => entries_of(entries, home, entries.len() as int),
        Some(_) => Err(ErrorView::WrongType),
    }
}

/// Appends the field `key` with the scalar `value` to `fields`, where there is
/// a value.
fn put(fields: &mut Vec<(String, Node)>, key: &str, value: Option<&str>)
    ensures
        pairs(final(fields)@) == with_field(pairs(old(fields)@), key@, text_view(value)),
{
    match value {
        Some(text) => {
            let node = Node::Scalar(text.to_owned());
            proof {
                lemma_node_view(&node);
            }
            fields.push((key.to_owned(), node));
            assert(pairs(fields@) =~= pairs(old(fields)@).push((key@, NodeView::Scalar(text@))));
        },
        None => {},
    }
}

impl Binary {
    /// The written form of this record: a mapping with `name` and `url` and, of
    /// `version`, `sum` and `install_path`, those that the record has, in this
    /// order.
    pub fn serialize(&self) -> (node: Node)
        ensures
            node@ == written(self@),
    {
        let mut fields: Vec<(String, Node)> = Vec::new();
        assert(pairs(fields@) =~= Seq::empty());
        put(&mut fields, "name", Some(self.name()));
        put(&mut fields, "url", Some(self.url()));
        put(&mut fields, "version", self.version());
        put(&mut fields, "sum", self.sum());
        put(&mut fields, "install_path", self.install_path());
        let node = Node::Mapping(fields);
        proof {
            lemma_node_view(&node);
        }
        node
    }
}

impl BinaryProvider {
    /// The binaries that the sidecar record holds. `record` is the document found
    /// at the sidecar's place, `None` where no such file exists. The second part
    /// of the result says whether the sidecar is to be created, empty: it is
    /// where none exists.
    pub fn get_installed(record: Option<&Node>, home: Option<&str>) -> (found: Result<
        (Vec<Binary>, bool),
        Error,
    >)
        ensures
            match found {
                Ok((items, create)) => {
                    &&& recorded_in(
                        match record {
                            Some(node) => Some(node@),
                            None => None,
                        },
                        text_view(home),
                    ) == Ok::<Seq<BinaryView>, ErrorView>(records(items@))
                    &&& create == (record is None)
                },
                Err(e) => recorded_in(
                    match record {
                        Some(node) => Some(node@),
                        None => None,
                    },
                    text_view(home),
                ) == Err::<Seq<BinaryView>, ErrorView>(e@),
            },
    {
        proof {
            if record is Some {
                lemma_node_view(record.unwrap());
            }
        }
        match record {
            None => {
                let items: Vec<Binary> = Vec::new();
                assert(records(items@) =~= Seq::empty());
                Ok((items, true))
            },
            Some(Node::Null) => {
                let items: Vec<Binary> = Vec::new();
                assert(records(items@) =~= Seq::empty());
                Ok((items, false))
            },
            Some(Node::Sequence(entries)) => match read_entries(entries, home) {
                Ok(items) => Ok((items, false)),
                Err(e) => Err(e),
            },
            Some(_) => Err(Error::WrongType),
        }
    }

    /// The written form of a sidecar record that holds `items`.
    pub fn record(items: &Vec<Binary>) -> (node: Node)
        ensures
            node@ == written_all(records(items@)),
    {
        let mut entries: Vec<Node> = Vec::new();
        let mut i: usize = 0;
        while i < items.len()
            invariant
                i <= items.len(),
                entries@.len() == i,
                forall|k: int| 0 <= k < i ==> (#[trigger] entries@[k])@ == written(items@[k]@),
            decreases items.len() - i,
        {
            entries.push(items[i].serialize());
            i += 1;
        }
        let node = Node::Sequence(entries);
        proof {
            lemma_node_view(&node);
            assert(nodes(entries@) =~= written_all(records(items@))->Sequence_0);
        }
        node
    }
}

/// No two field names of a record are the same.
pub proof fn lemma_field_names_differ()
    ensures
        "name"@ != "url"@,
        "name"@ != "version"@,
        "name"@ != "sum"@,
        "name"@ != "install_path"@,
        "url"@ != "version"@,
        "url"@ != "sum"@,
        "url"@ != "install_path"@,
        "version"@ != "sum"@,
        "version"@ != "install_path"@,
        "sum"@ != "install_path"@,
{
    reveal_strlit("name");
    reveal_strlit("url");
    reveal_strlit("version");
    reveal_strlit("sum");
    reveal_strlit("install_path");
    assert("name"@.len() == 4);
    assert("url"@.len() == 3);
    assert("version"@.len() == 7);
    assert("sum"@.len() == 3);
    assert("install_path"@.len() == 12);
    assert("url"@[0] != "sum"@[0]);
}

/// What a record holds under a field name.
pub open spec fn field_of(item: BinaryView, key: Seq<char>) -> Option<Seq<char>> {
    if key == "name"@ {
        Some(item.name)
    } else if key == "url"@ {
        Some(item.url)
    } else if key == "version"@ {
        item.version
    } else if key == "sum"@ {
        item.sum
    } else if key == "install_path"@ {
        item.install_path
    } else {
        None
    }
}

/// What one more field does to what a mapping gives a key.
proof fn lemma_with_field(
    fields: Seq<(Seq<char>, NodeView)>,
    key: Seq<char>,
    value: Option<Seq<char>>,
    asked: Seq<char>,
)
    ensures
        has_key(with_field(fields, key, value), asked) <==> has_key(fields, asked) || (value is Some
            && key == asked),
        text_of(with_field(fields, key, value), asked) == if has_key(fields, asked) {
            text_of(fields, asked)
        } else if key == asked {
            value
        } else {
            None
        },
{
    lemma_value_of_has_key(fields, asked);
    if value is Some {
        lemma_value_of_push(fields, (key, NodeView::Scalar(value->0)), asked);
    }
}

/// A written record gives each field name what the record holds under it, and has
/// a field exactly where the record holds something.
pub proof fn lemma_written_fields(item: BinaryView, key: Seq<char>)
    ensures
        text_of(written_fields(item), key) == field_of(item, key),
        has_key(written_fields(item), key) <==> field_of(item, key) is Some,
{
    lemma_field_names_differ();
    let none = Seq::<(Seq<char>, NodeView)>::empty();
    let one = with_field(none, "name"@, Some(item.name));
    let two = with_field(one, "url"@, Some(item.url));
    let three = with_field(two, "version"@, item.version);
    let four = with_field(three, "sum"@, item.sum);
    lemma_with_field(none, "name"@, Some(item.name), key);
    lemma_with_field(one, "url"@, Some(item.url), key);
    lemma_with_field(two, "version"@, item.version, key);
    lemma_with_field(three, "sum"@, item.sum, key);
    lemma_with_field(four, "install_path"@, item.install_path, key);
}

/// A sound compound entry stays sound with one more field whose key is allowed
/// and new.
proof fn lemma_with_field_sound(
    fields: Seq<(Seq<char>, NodeView)>,
    key: Seq<char>,
    value: Option<Seq<char>>,
)
    requires
        sound(fields, binary_fields()),
        binary_fields().contains(key),
        !has_key(fields, key),
    ensures
        sound(with_field(fields, key, value), binary_fields()),
{
    if value is Some {
        lemma_sound_push(fields, binary_fields(), key, value->0);
    }
}

/// A written record passes the check of its fields.
pub proof fn lemma_written_record_is_sound(item: BinaryView)
    ensures
        sound(written_fields(item), binary_fields()),
{
    lemma_field_names_differ();
    let allowed = binary_fields();
    assert(allowed[0] == "name"@);
    assert(allowed[1] == "url"@);
    assert(allowed[2] == "version"@);
    assert(allowed[3] == "sum"@);
    assert(allowed[4] == "install_path"@);
    let none = Seq::<(Seq<char>, NodeView)>::empty();
    let one = with_field(none, "name"@, Some(item.name));
    let two = with_field(one, "url"@, Some(item.url));
    let three = with_field(two, "version"@, item.version);
    let four = with_field(three, "sum"@, item.sum);
    lemma_with_field(none, "name"@, Some(item.name), "name"@);
    lemma_with_field_sound(none, "name"@, Some(item.name));
    lemma_with_field(none, "name"@, Some(item.name), "url"@);
    lemma_with_field_sound(one, "url"@, Some(item.url));
    lemma_with_field(none, "name"@, Some(item.name), "version"@);
    lemma_with_field(one, "url"@, Some(item.url), "version"@);
    lemma_with_field_sound(two, "version"@, item.version);
    lemma_with_field(none, "name"@, Some(item.name), "sum"@);
    lemma_with_field(one, "url"@, Some(item.url), "sum"@);
    lemma_with_field(two, "version"@, item.version, "sum"@);
    lemma_with_field_sound(three, "sum"@, item.sum);
    lemma_with_field(none, "name"@, Some(item.name), "install_path"@);
    lemma_with_field(one, "url"@, Some(item.url), "install_path"@);
    lemma_with_field(two, "version"@, item.version, "install_path"@);
    lemma_with_field(three, "sum"@, item.sum, "install_path"@);
    lemma_with_field_sound(four, "install_path"@, item.install_path);
}

/// Writing out a record that was read from an entry keeps what the entry said:
/// the name as it stood, the address and the checksum with the version written
/// into them, and the version itself. A field that the entry did not have is not
/// written.
pub proof fn law_written_record_keeps_entry(
    entry: NodeView,
    home: Option<Seq<char>>,
    item: BinaryView,
)
    requires
        normalized(entry, home) == Ok::<BinaryView, ErrorView>(item),
    ensures
        entry matches NodeView::Mapping(read) && ({
            let fields = written_fields(item);
            let url = text_of(read, "url"@);
            let version = if needs_version(url->0, text_of(read, "install_path"@)) {
                text_of(read, "version"@)
            } else {
                None
            };
            &&& text_of(fields, "name"@) == text_of(read, "name"@)
            &&& url is Some
            &&& text_of(fields, "url"@) == Some(versioned(url->0, version))
            &&& text_of(fields, "sum"@) == versioned_field(text_of(read, "sum"@), version)
            &&& text_of(fields, "version"@) == text_of(read, "version"@)
            &&& text_of(read, "version"@) is None ==> !has_key(fields, "version"@)
            &&& text_of(read, "sum"@) is None ==> !has_key(fields, "sum"@)
            &&& text_of(read, "install_path"@) is None ==> !has_key(fields, "install_path"@)
        }),
{
    lemma_field_names_differ();
    lemma_written_fields(item, "name"@);
    lemma_written_fields(item, "url"@);
    lemma_written_fields(item, "version"@);
    lemma_written_fields(item, "sum"@);
    lemma_written_fields(item, "install_path"@);
}

/// A record that holds no placeholder is read back from its written form as it
/// was written, whatever the home directory is.
pub proof fn law_written_record_reads_back(item: BinaryView, home: Option<Seq<char>>)
    requires
        !has_token(item.url, version_token()),
        item.install_path matches Some(path) ==> !has_token(path, version_token()) && !has_token(
            path,
            home_token(),
        ),
    ensures
        normalized(written(item), home) == Ok::<BinaryView, ErrorView>(item),
{
    lemma_field_names_differ();
    lemma_written_fields(item, "name"@);
    lemma_written_fields(item, "url"@);
    lemma_written_fields(item, "version"@);
    lemma_written_fields(item, "sum"@);
    lemma_written_fields(item, "install_path"@);
    lemma_written_record_is_sound(item);
    if item.install_path is Some && home is Some {
        crate::text::lemma_replaced_without_token(item.install_path->0, home_token(), home->0);
    }
    assert(record_of(written_fields(item), home)->Ok_0 == item);
}

/// A sidecar record whose items hold no placeholder is read back as it was
/// written: what was installed is found again.
pub proof fn law_sidecar_reads_back(items: Seq<BinaryView>, home: Option<Seq<char>>)
    requires
        forall|i: int|
            0 <= i < items.len() ==> {
                &&& !has_token((#[trigger] items[i]).url, version_token())
                &&& items[i].install_path matches Some(path) ==> !has_token(path, version_token())
                    && !has_token(path, home_token())
            },
    ensures
        recorded_in(Some(written_all(items)), home) == Ok::<Seq<BinaryView>, ErrorView>(items),
{
    lemma_entries_read_back(items, home, items.len() as int);
    assert(items.subrange(0, items.len() as int) == items);
}

/// The first `n` written records are read back as they were written.
proof fn lemma_entries_read_back(items: Seq<BinaryView>, home: Option<Seq<char>>, n: int)
    requires
        0 <= n <= items.len(),
        forall|i: int|
            0 <= i < items.len() ==> {
                &&& !has_token((#[trigger] items[i]).url, version_token())
                &&& items[i].install_path matches Some(path) ==> !has_token(path, version_token())
                    && !has_token(path, home_token())
            },
    ensures
        entries_of(written_all(items)->Sequence_0, home, n) == Ok::<Seq<BinaryView>, ErrorView>(
            items.subrange(0, n),
        ),
    decreases n,
{
    if n > 0 {
        lemma_entries_read_back(items, home, n - 1);
        law_written_record_reads_back(items[n - 1], home);
        assert(items.subrange(0, n - 1).push(items[n - 1]) == items.subrange(0, n));
    } else {
        assert(items.subrange(0, 0) == Seq::<BinaryView>::empty());
    }
}

} // verus!
