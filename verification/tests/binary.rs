use bow::package_types::binary::{join, read_entries, Binary, BinaryProvider};
use bow::yamlrepr::{Error, Node};

fn text(s: &str) -> Node {
    Node::Scalar(s.to_string())
}

fn entry(fields: &[(&str, &str)]) -> Node {
    Node::Mapping(fields.iter().map(|(k, v)| (k.to_string(), text(v))).collect())
}

fn field<'a>(node: &'a Node, key: &str) -> Option<&'a str> {
    match node {
        Node::Mapping(fields) => fields.iter().find(|(k, _)| k == key).map(|(_, v)| match v {
            Node::Scalar(s) => s.as_str(),
            _ => panic!("a written field is a scalar"),
        }),
        _ => panic!("a written record is a mapping"),
    }
}

#[test]
fn version_is_written_into_the_url() {
    let e = entry(&[("name", "x"), ("url", "http://h/{{ version }}/x"), ("version", "1.2")]);
    let b = Binary::deserialize(&e, Some("/home/u")).unwrap();
    assert_eq!(b.name(), "x");
    assert_eq!(b.url(), "http://h/1.2/x");
    assert_eq!(b.version(), Some("1.2"));
    assert_eq!(b.sum(), None);
    assert_eq!(b.install_path(), None);
}

#[test]
fn home_is_written_into_the_install_path() {
    let e = entry(&[("name", "x"), ("url", "http://h/x"), ("install_path", "$HOME/bin/x")]);
    let b = Binary::deserialize(&e, Some("/home/u")).unwrap();
    assert_eq!(b.install_path(), Some("/home/u/bin/x"));
    assert_eq!(b.url(), "http://h/x");
    assert_eq!(b.version(), None);
}

#[test]
fn unresolved_home_is_an_error_only_where_a_path_names_it() {
    let needs = entry(&[("name", "x"), ("url", "http://h/x"), ("install_path", "$HOME/bin/x")]);
    assert_eq!(Binary::deserialize(&needs, None).unwrap_err(), Error::NoHome);
    let plain = entry(&[("name", "x"), ("url", "http://h/x"), ("install_path", "/opt/x")]);
    let b = Binary::deserialize(&plain, None).unwrap();
    assert_eq!(b.install_path(), Some("/opt/x"));
}

#[test]
fn two_sum_keys_are_a_duplicate_field_error() {
    let e = entry(&[("name", "x"), ("url", "http://h/x"), ("sum", "aa"), ("sum", "bb")]);
    assert_eq!(
        Binary::deserialize(&e, Some("/home/u")).unwrap_err(),
        Error::DuplicateKey("sum".to_string())
    );
}

#[test]
fn every_field_may_occur_once_only() {
    for key in ["name", "url", "version", "sum", "install_path"] {
        let e = entry(&[("name", "x"), ("url", "u"), ("version", "1"), ("sum", "s"),
            ("install_path", "/p"), (key, "again")]);
        assert_eq!(
            Binary::deserialize(&e, Some("/home/u")).unwrap_err(),
            Error::DuplicateKey(key.to_string())
        );
    }
}

#[test]
fn an_unknown_field_is_refused() {
    let e = entry(&[("name", "x"), ("url", "http://h/x"), ("checksum", "aa")]);
    assert_eq!(
        Binary::deserialize(&e, Some("/home/u")).unwrap_err(),
        Error::UnknownKey("checksum".to_string())
    );
}

#[test]
fn the_first_fault_in_document_order_decides() {
    let e = entry(&[("name", "x"), ("name", "y"), ("bogus", "z")]);
    assert_eq!(Binary::deserialize(&e, None).unwrap_err(), Error::DuplicateKey("name".to_string()));
    let e = entry(&[("bogus", "z"), ("name", "x"), ("name", "y")]);
    assert_eq!(Binary::deserialize(&e, None).unwrap_err(), Error::UnknownKey("bogus".to_string()));
}

#[test]
fn missing_required_fields_are_named() {
    let e = entry(&[("url", "http://h/x")]);
    assert_eq!(Binary::deserialize(&e, None).unwrap_err(), Error::MissingKey("name".to_string()));
    let e = entry(&[("name", "x")]);
    assert_eq!(Binary::deserialize(&e, None).unwrap_err(), Error::MissingKey("url".to_string()));
    let e = entry(&[]);
    assert_eq!(Binary::deserialize(&e, None).unwrap_err(), Error::MissingKey("name".to_string()));
}

#[test]
fn a_placeholder_makes_the_version_required() {
    let e = entry(&[("name", "x"), ("url", "http://h/{{ version }}/x")]);
    assert_eq!(Binary::deserialize(&e, None).unwrap_err(), Error::MissingKey("version".to_string()));
    let e = entry(&[("name", "x"), ("url", "http://h/x"), ("install_path", "/opt/x-{{ version }}")]);
    assert_eq!(Binary::deserialize(&e, None).unwrap_err(), Error::MissingKey("version".to_string()));
}

#[test]
fn version_is_written_into_sum_and_install_path() {
    let e = entry(&[
        ("name", "tool"),
        ("url", "http://h/{{ version }}/tool-{{ version }}"),
        ("version", "3.0"),
        ("sum", "http://h/{{ version }}/sum"),
        ("install_path", "$HOME/bin/tool-{{ version }}"),
    ]);
    let b = Binary::deserialize(&e, Some("/home/u")).unwrap();
    assert_eq!(b.url(), "http://h/3.0/tool-3.0");
    assert_eq!(b.sum(), Some("http://h/3.0/sum"));
    assert_eq!(b.install_path(), Some("/home/u/bin/tool-3.0"));
    assert_eq!(b.version(), Some("3.0"));
    assert!(!Binary::sum_ignores_version(&e));
}

#[test]
fn a_sum_without_placeholder_stays_and_is_warned_of() {
    let e = entry(&[("name", "x"), ("url", "http://h/{{ version }}/x"), ("version", "1"),
        ("sum", "abcd")]);
    let b = Binary::deserialize(&e, None).unwrap();
    assert_eq!(b.sum(), Some("abcd"));
    assert!(Binary::sum_ignores_version(&e));
    let quiet = entry(&[("name", "x"), ("url", "http://h/x"), ("sum", "abcd")]);
    assert!(!Binary::sum_ignores_version(&quiet));
    let none = entry(&[("name", "x"), ("url", "http://h/{{ version }}/x"), ("version", "1")]);
    assert!(!Binary::sum_ignores_version(&none));
    assert!(!Binary::sum_ignores_version(&text("x")));
}

#[test]
fn a_version_without_placeholder_is_kept_and_not_applied() {
    let e = entry(&[("name", "x"), ("url", "http://h/x"), ("version", "9"), ("sum", "s")]);
    let b = Binary::deserialize(&e, None).unwrap();
    assert_eq!(b.url(), "http://h/x");
    assert_eq!(b.version(), Some("9"));
    assert_eq!(b.sum(), Some("s"));
}

#[test]
fn wrong_shapes_are_refused() {
    assert_eq!(Binary::deserialize(&text("x"), None).unwrap_err(), Error::WrongType);
    assert_eq!(Binary::deserialize(&Node::Null, None).unwrap_err(), Error::WrongType);
    assert_eq!(Binary::deserialize(&Node::Sequence(vec![]), None).unwrap_err(), Error::WrongType);
    let nested = Node::Mapping(vec![
        ("name".to_string(), text("x")),
        ("url".to_string(), Node::Sequence(vec![text("http://h/x")])),
    ]);
    assert_eq!(Binary::deserialize(&nested, None).unwrap_err(), Error::WrongType);
}

#[test]
fn a_written_record_keeps_what_the_entry_said() {
    let e = entry(&[("name", "x"), ("url", "http://h/{{ version }}/x"), ("version", "1.2"),
        ("sum", "s-{{ version }}")]);
    let b = Binary::deserialize(&e, Some("/home/u")).unwrap();
    let written = b.serialize();
    assert_eq!(field(&written, "name"), Some("x"));
    assert_eq!(field(&written, "url"), Some("http://h/1.2/x"));
    assert_eq!(field(&written, "version"), Some("1.2"));
    assert_eq!(field(&written, "sum"), Some("s-1.2"));
    assert_eq!(field(&written, "install_path"), None);
    assert_eq!(
        written,
        entry(&[("name", "x"), ("url", "http://h/1.2/x"), ("version", "1.2"), ("sum", "s-1.2")])
    );
}

#[test]
fn absent_optional_fields_stay_absent() {
    let e = entry(&[("url", "http://h/x"), ("name", "x")]);
    let written = Binary::deserialize(&e, None).unwrap().serialize();
    assert_eq!(written, entry(&[("name", "x"), ("url", "http://h/x")]));
}

#[test]
fn a_written_record_reads_back() {
    let e = entry(&[("name", "x"), ("url", "http://h/{{ version }}/x"), ("version", "1.2"),
        ("sum", "abc"), ("install_path", "$HOME/bin/x")]);
    let b = Binary::deserialize(&e, Some("/home/u")).unwrap();
    let again = Binary::deserialize(&b.serialize(), None).unwrap();
    assert_eq!(again.name(), b.name());
    assert_eq!(again.url(), b.url());
    assert_eq!(again.version(), b.version());
    assert_eq!(again.sum(), b.sum());
    assert_eq!(again.install_path(), b.install_path());
    assert_eq!(again.serialize(), b.serialize());
}

#[test]
fn binaries_are_equal_by_name() {
    let a = Binary::deserialize(&entry(&[("name", "x"), ("url", "http://one")]), None).unwrap();
    let b = Binary::deserialize(&entry(&[("name", "x"), ("url", "http://two"), ("sum", "s")]), None)
        .unwrap();
    let c = Binary::deserialize(&entry(&[("name", "y"), ("url", "http://one")]), None).unwrap();
    assert_eq!(a, b);
    assert_ne!(a, c);
}

#[test]
fn destination_is_the_install_path_or_the_folder_with_the_name() {
    let plain = Binary::deserialize(&entry(&[("name", "x"), ("url", "u")]), None).unwrap();
    assert_eq!(plain.destination("/home/u/.local/bin"), "/home/u/.local/bin/x");
    assert_eq!(plain.destination("/home/u/.local/bin/"), "/home/u/.local/bin/x");
    assert_eq!(plain.destination(""), "x");
    let own = Binary::deserialize(
        &entry(&[("name", "x"), ("url", "u"), ("install_path", "/opt/tools/x")]),
        None,
    )
    .unwrap();
    assert_eq!(own.destination("/home/u/.local/bin"), "/opt/tools/x");
}

#[test]
fn join_follows_path_rules() {
    assert_eq!(join("/a", "b"), "/a/b");
    assert_eq!(join("/a/", "b"), "/a/b");
    assert_eq!(join("/a", "/b"), "/b");
    assert_eq!(join("", "b"), "b");
    assert_eq!(join("/a", ""), "/a/");
}

#[test]
fn join_agrees_with_the_paths_of_std() {
    for folder in ["", "/", "/a", "/a/", "a", "a/b", "/home/u/.local/bin"] {
        for name in ["x", "/x", "x/y", "", "tool-1.2"] {
            let expected = std::path::PathBuf::from(folder).join(name);
            assert_eq!(join(folder, name), expected.to_str().unwrap());
        }
    }
}

#[test]
fn provider_section_is_read() {
    let section = Node::Mapping(vec![
        ("install_folder".to_string(), text("$HOME/.local/bin")),
        (
            "packages".to_string(),
            Node::Sequence(vec![
                entry(&[("name", "a"), ("url", "http://h/a")]),
                entry(&[("name", "b"), ("url", "http://h/{{ version }}/b"), ("version", "2")]),
            ]),
        ),
    ]);
    let provider = BinaryProvider::deserialize(&section, Some("/home/u")).unwrap();
    assert_eq!(provider.install_folder, "/home/u/.local/bin");
    assert_eq!(provider.binaries.len(), 2);
    assert_eq!(provider.binaries[0].name(), "a");
    assert_eq!(provider.binaries[1].url(), "http://h/2/b");
}

#[test]
fn provider_section_faults() {
    let packages = || Node::Sequence(vec![entry(&[("name", "a"), ("url", "http://h/a")])]);
    let no_folder = Node::Mapping(vec![("packages".to_string(), packages())]);
    assert_eq!(
        BinaryProvider::deserialize(&no_folder, Some("/h")).unwrap_err(),
        Error::MissingKey("install_folder".to_string())
    );
    let no_packages = Node::Mapping(vec![("install_folder".to_string(), text("/bin"))]);
    assert_eq!(
        BinaryProvider::deserialize(&no_packages, Some("/h")).unwrap_err(),
        Error::MissingKey("packages".to_string())
    );
    let twice = Node::Mapping(vec![
        ("install_folder".to_string(), text("/bin")),
        ("install_folder".to_string(), text("/sbin")),
        ("packages".to_string(), packages()),
    ]);
    assert_eq!(
        BinaryProvider::deserialize(&twice, Some("/h")).unwrap_err(),
        Error::DuplicateKey("install_folder".to_string())
    );
    let mapping_for_sequence = Node::Mapping(vec![
        ("install_folder".to_string(), text("/bin")),
        ("packages".to_string(), entry(&[("name", "a"), ("url", "http://h/a")])),
    ]);
    assert_eq!(
        BinaryProvider::deserialize(&mapping_for_sequence, Some("/h")).unwrap_err(),
        Error::WrongType
    );
    let good = Node::Mapping(vec![
        ("install_folder".to_string(), text("/bin")),
        ("packages".to_string(), packages()),
    ]);
    assert_eq!(BinaryProvider::deserialize(&good, None).unwrap_err(), Error::NoHome);
    assert_eq!(BinaryProvider::deserialize(&text("x"), Some("/h")).unwrap_err(), Error::WrongType);
    let bad_entry = Node::Mapping(vec![
        ("install_folder".to_string(), text("/bin")),
        (
            "packages".to_string(),
            Node::Sequence(vec![
                entry(&[("name", "a"), ("url", "http://h/a")]),
                entry(&[("name", "b")]),
                entry(&[("url", "http://h/c")]),
            ]),
        ),
    ]);
    assert_eq!(
        BinaryProvider::deserialize(&bad_entry, Some("/h")).unwrap_err(),
        Error::MissingKey("url".to_string())
    );
}

#[test]
fn constructors_keep_what_they_are_given() {
    let a = Binary::deserialize(&entry(&[("name", "a"), ("url", "u")]), None).unwrap();
    let p = BinaryProvider::new("/opt/bin", vec![a]);
    assert_eq!(p.install_folder, "/opt/bin");
    assert_eq!(p.binaries.len(), 1);
    let q = BinaryProvider::new_with_binaries(Vec::new());
    assert_eq!(q.install_folder, "");
    assert!(q.binaries.is_empty());
}

#[test]
fn first_query_without_sidecar_is_empty_and_creates_it() {
    let (items, create) = BinaryProvider::get_installed(None, Some("/home/u")).unwrap();
    assert!(items.is_empty());
    assert!(create);
}

#[test]
fn an_empty_sidecar_holds_nothing() {
    let (items, create) = BinaryProvider::get_installed(Some(&Node::Null), None).unwrap();
    assert!(items.is_empty());
    assert!(!create);
    let empty = BinaryProvider::record(&Vec::new());
    assert_eq!(empty, Node::Sequence(vec![]));
    let (items, create) = BinaryProvider::get_installed(Some(&empty), None).unwrap();
    assert!(items.is_empty());
    assert!(!create);
}

#[test]
fn a_sidecar_is_read_back_as_it_was_written() {
    let items = read_entries(
        &vec![
            entry(&[("name", "a"), ("url", "http://h/a"), ("sum", "s")]),
            entry(&[("name", "b"), ("url", "http://h/{{ version }}/b"), ("version", "2")]),
        ],
        None,
    )
    .unwrap();
    let record = BinaryProvider::record(&items);
    let (found, create) = BinaryProvider::get_installed(Some(&record), None).unwrap();
    assert!(!create);
    assert_eq!(found.len(), 2);
    assert_eq!(found[0].name(), "a");
    assert_eq!(found[0].sum(), Some("s"));
    assert_eq!(found[1].name(), "b");
    assert_eq!(found[1].url(), "http://h/2/b");
    assert_eq!(found[1].version(), Some("2"));
    assert_eq!(BinaryProvider::record(&found), record);
}

#[test]
fn a_sidecar_of_another_shape_is_refused() {
    let m = entry(&[("name", "a"), ("url", "http://h/a")]);
    assert_eq!(BinaryProvider::get_installed(Some(&m), None).unwrap_err(), Error::WrongType);
    assert_eq!(BinaryProvider::get_installed(Some(&text("x")), None).unwrap_err(), Error::WrongType);
    let bad = Node::Sequence(vec![entry(&[("name", "a")])]);
    assert_eq!(
        BinaryProvider::get_installed(Some(&bad), None).unwrap_err(),
        Error::MissingKey("url".to_string())
    );
}
