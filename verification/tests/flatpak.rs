use bow::error;
use bow::package_types::flatpak::{Command, Flatpak, FlatpakProvider};
use bow::providers::flatpak as long;
use bow::providers::Provider;
use bow::yamlrepr::{CommonKeys, Error, Node, YamlRepr};

fn scalar(s: &str) -> Node {
    Node::Scalar(s.to_string())
}

fn mapping(fields: Vec<(&str, Node)>) -> Node {
    Node::Mapping(fields.into_iter().map(|(k, v)| (k.to_string(), v)).collect())
}

fn strings(items: &[&str]) -> Vec<String> {
    items.iter().map(|s| s.to_string()).collect()
}

fn installed_ids(listing: &str) -> Vec<String> {
    FlatpakProvider::get_installed(listing).iter().map(|f| f.id().to_string()).collect()
}

#[test]
fn listing_gives_one_identifier_per_line() {
    assert_eq!(installed_ids("org.a.A\norg.b.B\n"), vec!["org.a.A", "org.b.B"]);
    assert_eq!(installed_ids("org.a.A\norg.b.B"), vec!["org.a.A", "org.b.B"]);
    assert_eq!(installed_ids("org.a.A\r\norg.b.B\r\n"), vec!["org.a.A", "org.b.B"]);
    assert_eq!(installed_ids("one"), vec!["one"]);
}

#[test]
fn listing_edge_cases() {
    assert_eq!(installed_ids(""), Vec::<String>::new());
    assert_eq!(installed_ids("\n"), vec![""]);
    assert_eq!(installed_ids("a\n\nb\n"), vec!["a", "", "b"]);
    assert_eq!(installed_ids("a\r"), vec!["a\r"]);
    assert_eq!(installed_ids("a\r\r\n"), vec!["a\r"]);
    assert_eq!(installed_ids("\r\n"), vec![""]);
}

#[test]
fn listing_agrees_with_the_lines_of_std() {
    for listing in ["", "\n", "a", "a\n", "a\nb", "a\r\nb\r\n", "\n\n", "x\r", "\r\n\r\n", "é\nü"] {
        let expected: Vec<String> = listing.lines().map(|l| l.to_string()).collect();
        let bytes_expected: Vec<String> =
            std::io::BufRead::lines(listing.as_bytes()).map(|l| l.unwrap()).collect();
        assert_eq!(installed_ids(listing), bytes_expected);
        if !listing.ends_with('\r') {
            assert_eq!(installed_ids(listing), expected);
        }
    }
}

#[test]
fn batch_commands_name_every_item_once() {
    let provider = FlatpakProvider::new_with_flatpaks(Vec::new());
    let items = vec![Flatpak::new("org.a.A"), Flatpak::new("org.b.B")];
    assert_eq!(
        provider.install_items(&items),
        Command {
            program: "flatpak".to_string(),
            args: strings(&["install", "--noninteractive", "--user", "org.a.A", "org.b.B"]),
        }
    );
    assert_eq!(
        provider.remove_items(&items),
        Command {
            program: "flatpak".to_string(),
            args: strings(&["remove", "--noninteractive", "--user", "org.a.A", "org.b.B"]),
        }
    );
    assert_eq!(provider.install_items(&[]).args, strings(&["install", "--noninteractive", "--user"]));
}

#[test]
fn list_command_asks_for_application_identifiers() {
    assert_eq!(
        FlatpakProvider::list_command(),
        Command {
            program: "flatpak".to_string(),
            args: strings(&["list", "--user", "--columns=application:f", "--app"]),
        }
    );
}

#[test]
fn only_exit_status_zero_is_success() {
    assert!(FlatpakProvider::batch_applied(Some(0)));
    assert!(!FlatpakProvider::batch_applied(Some(1)));
    assert!(!FlatpakProvider::batch_applied(Some(-1)));
    assert!(!FlatpakProvider::batch_applied(None));
}

#[test]
fn short_form_is_a_sequence_of_identifiers() {
    let section = Node::Sequence(vec![scalar("org.a.A"), scalar("org.b.B")]);
    let provider = FlatpakProvider::deserialize(&section).unwrap();
    let ids: Vec<&str> = provider.flatpaks.iter().map(|f| f.id()).collect();
    assert_eq!(ids, vec!["org.a.A", "org.b.B"]);
    let same = FlatpakProvider::from_sequence(&section).unwrap();
    assert_eq!(same.flatpaks, provider.flatpaks);
    assert!(FlatpakProvider::deserialize(&Node::Sequence(vec![])).unwrap().flatpaks.is_empty());
}

#[test]
fn short_form_faults() {
    let nested = Node::Sequence(vec![scalar("org.a.A"), Node::Sequence(vec![])]);
    assert_eq!(FlatpakProvider::from_sequence(&nested).unwrap_err(), Error::WrongType);
    assert_eq!(
        FlatpakProvider::deserialize(&nested).unwrap_err(),
        error::Error::Yaml(Error::WrongType)
    );
    assert_eq!(FlatpakProvider::from_sequence(&scalar("x")).unwrap_err(), Error::WrongType);
    assert_eq!(
        FlatpakProvider::deserialize(&scalar("x")).unwrap_err(),
        error::Error::Yaml(Error::WrongType)
    );
    assert_eq!(
        FlatpakProvider::deserialize(&Node::Null).unwrap_err(),
        error::Error::Yaml(Error::WrongType)
    );
    assert_eq!(Flatpak::deserialize(&Node::Null).unwrap_err(), Error::WrongType);
    assert_eq!(Flatpak::deserialize(&scalar("org.a.A")).unwrap().id(), "org.a.A");
}

#[test]
fn long_form_is_read_by_the_adapter_too() {
    let section = mapping(vec![
        ("default_scope", scalar("system")),
        (
            "present",
            Node::Sequence(vec![
                scalar("org.a.A"),
                mapping(vec![("id", scalar("org.b.B")), ("scope", scalar("user"))]),
            ]),
        ),
    ]);
    let provider = FlatpakProvider::deserialize(&section).unwrap();
    let ids: Vec<&str> = provider.flatpaks.iter().map(|f| f.id()).collect();
    assert_eq!(ids, vec!["org.a.A", "org.b.B"]);
}

#[test]
fn long_form_sets_scopes() {
    let section = mapping(vec![
        ("default_scope", scalar("system")),
        (
            "present",
            Node::Sequence(vec![
                scalar("org.a.A"),
                mapping(vec![("id", scalar("org.b.B")), ("scope", scalar("user"))]),
                mapping(vec![("scope", scalar("system")), ("id", scalar("org.c.C"))]),
                mapping(vec![("id", scalar("org.d.D")), ("scope", scalar("galaxy"))]),
            ]),
        ),
    ]);
    let mut provider = long::FlatpakProvider::new();
    assert_eq!(provider.default_scope, long::InstallScope::User);
    assert_eq!(provider.parse_yaml(&section), Ok(()));
    assert_eq!(provider.default_scope, long::InstallScope::System);
    let items = &provider.desired_present_items;
    assert_eq!(items.len(), 4);
    assert_eq!(items[0].id(), "org.a.A");
    assert_eq!(items[0].scope(), long::InstallScope::System);
    assert!(!items[0].scope_override());
    assert_eq!(items[1].id(), "org.b.B");
    assert_eq!(items[1].scope(), long::InstallScope::User);
    assert!(items[1].scope_override());
    assert_eq!(items[2].id(), "org.c.C");
    assert_eq!(items[2].scope(), long::InstallScope::System);
    assert_eq!(items[3].scope(), long::InstallScope::User);
    assert!(items[3].scope_override());
}

#[test]
fn long_form_adds_to_what_the_provider_holds() {
    let section = |id: &str| {
        mapping(vec![
            ("default_scope", scalar("user")),
            ("present", Node::Sequence(vec![scalar(id)])),
        ])
    };
    let mut provider = long::FlatpakProvider::new();
    provider.parse_yaml(&section("one")).unwrap();
    provider.parse_yaml(&section("two")).unwrap();
    let ids: Vec<&str> = provider.desired_present_items.iter().map(|f| f.id()).collect();
    assert_eq!(ids, vec!["one", "two"]);
}

#[test]
fn long_form_faults_leave_the_provider_as_it_was() {
    let mut provider = long::FlatpakProvider::new();
    let good = mapping(vec![
        ("default_scope", scalar("system")),
        ("present", Node::Sequence(vec![scalar("kept")])),
    ]);
    provider.parse_yaml(&good).unwrap();

    let no_scope = mapping(vec![("present", Node::Sequence(vec![scalar("a")]))]);
    assert_eq!(
        provider.parse_yaml(&no_scope),
        Err(error::Error::Yaml(Error::MissingKeys(vec!["default_scope".to_string()])))
    );
    let bad_scope = mapping(vec![
        ("default_scope", scalar("galaxy")),
        ("present", Node::Sequence(vec![scalar("a")])),
    ]);
    assert_eq!(
        provider.parse_yaml(&bad_scope),
        Err(error::Error::Flatpak(long::Error::InvalidScope("galaxy".to_string())))
    );
    let scope_shape = mapping(vec![
        ("default_scope", Node::Sequence(vec![])),
        ("present", Node::Sequence(vec![scalar("a")])),
    ]);
    assert_eq!(provider.parse_yaml(&scope_shape), Err(error::Error::Yaml(Error::WrongType)));
    let no_present = mapping(vec![("default_scope", scalar("user"))]);
    assert_eq!(provider.parse_yaml(&no_present), Err(error::Error::Yaml(Error::WrongType)));
    let present_shape = mapping(vec![
        ("default_scope", scalar("user")),
        ("present", mapping(vec![("id", scalar("a")), ("scope", scalar("user"))])),
    ]);
    assert_eq!(provider.parse_yaml(&present_shape), Err(error::Error::Yaml(Error::WrongType)));
    let bad_entry = mapping(vec![
        ("default_scope", scalar("user")),
        ("present", Node::Sequence(vec![scalar("a"), mapping(vec![("id", scalar("b"))])])),
    ]);
    assert_eq!(
        provider.parse_yaml(&bad_entry),
        Err(error::Error::Yaml(Error::MissingKey("scope".to_string())))
    );
    assert_eq!(provider.parse_yaml(&scalar("x")), Err(error::Error::Yaml(Error::WrongType)));

    assert_eq!(provider.default_scope, long::InstallScope::System);
    assert_eq!(provider.desired_present_items.len(), 1);
    assert_eq!(provider.desired_present_items[0].id(), "kept");
}

#[test]
fn compound_entries_are_checked() {
    let entry = |fields: Vec<(&str, Node)>| long::Flatpak::from_yaml(&mapping(fields));
    assert_eq!(
        entry(vec![("scope", scalar("user"))]).unwrap_err(),
        error::Error::Yaml(Error::MissingKey("id".to_string()))
    );
    assert_eq!(
        entry(vec![("id", scalar("a"))]).unwrap_err(),
        error::Error::Yaml(Error::MissingKey("scope".to_string()))
    );
    assert_eq!(
        entry(vec![("id", scalar("a")), ("scope", scalar("user")), ("branch", scalar("x"))])
            .unwrap_err(),
        error::Error::Yaml(Error::UnknownKey("branch".to_string()))
    );
    assert_eq!(
        entry(vec![("id", scalar("a")), ("id", scalar("b")), ("scope", scalar("user"))])
            .unwrap_err(),
        error::Error::Yaml(Error::DuplicateKey("id".to_string()))
    );
    assert_eq!(
        entry(vec![("id", Node::Sequence(vec![])), ("scope", scalar("user"))]).unwrap_err(),
        error::Error::Yaml(Error::WrongType)
    );
    assert_eq!(
        long::Flatpak::from_yaml(&Node::Null).unwrap_err(),
        error::Error::Yaml(Error::WrongType)
    );
    let bare = long::Flatpak::from_yaml(&scalar("org.a.A")).unwrap();
    assert_eq!(bare.id(), "org.a.A");
    assert_eq!(bare.scope(), long::InstallScope::User);
    assert!(!bare.scope_override());
}

#[test]
fn scopes_are_user_and_system() {
    assert_eq!(long::InstallScope::try_from("user"), Ok(long::InstallScope::User));
    assert_eq!(long::InstallScope::try_from("system"), Ok(long::InstallScope::System));
    assert_eq!(
        long::InstallScope::try_from("System"),
        Err(long::Error::InvalidScope("System".to_string()))
    );
    assert_eq!(long::InstallScope::try_from(""), Err(long::Error::InvalidScope(String::new())));
    assert_eq!(long::InstallScope::default(), long::InstallScope::User);
}

#[test]
fn keys_are_written_as_the_schema_has_them() {
    assert_eq!(long::YamlKey::DefaultScope.as_ref(), "default_scope");
    assert_eq!(long::YamlKey::Scope.as_ref(), "scope");
    assert_eq!(long::YamlKey::Id.as_ref(), "id");
    assert_eq!(CommonKeys::ItemPresent.as_ref(), "present");
    assert_eq!(CommonKeys::ItemAbsent.as_ref(), "absent");
    assert_eq!(CommonKeys::from_str("present"), Some(CommonKeys::ItemPresent));
    assert_eq!(CommonKeys::from_str("absent"), Some(CommonKeys::ItemAbsent));
    assert_eq!(CommonKeys::from_str("Present"), None);
    assert_eq!(CommonKeys::from_str(""), None);
    assert_eq!(long::Flatpak::yaml_key(), "flatpak");
    assert_eq!(long::Flatpak::required_keys(), vec!["default_scope"]);
    assert!(long::Flatpak::optional_keys().is_empty());
}

#[test]
fn required_and_optional_keys_are_looked_for() {
    let with = mapping(vec![("default_scope", scalar("user")), ("other", Node::Null)]);
    let without = mapping(vec![("other", Node::Null)]);
    assert_eq!(long::Flatpak::ensure_required_keys(&with), Ok(()));
    assert_eq!(
        long::Flatpak::ensure_required_keys(&without),
        Err(error::Error::Yaml(Error::MissingKeys(vec!["default_scope".to_string()])))
    );
    assert_eq!(
        long::Flatpak::ensure_required_keys(&scalar("x")),
        Err(error::Error::Yaml(Error::MissingKeys(vec!["default_scope".to_string()])))
    );
    assert_eq!(long::Flatpak::get_present_optional_keys(&with), None);
}
