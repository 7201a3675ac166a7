use bow::package_types::binary::{read_entries, Binary, BinaryProvider};
use bow::package_types::diff::duplicates_of;
use bow::package_types::install::{
    Failure, InstallAction, InstallEvent, InstallStage, Installation,
};
use bow::package_types::reconcile::{Action, Event, Stage};
use bow::package_types::PackageProvider;
use bow::yamlrepr::Node;

const ABC: &str = "ba7816bf8f01cfea414140de5dae2223b00361a396177a9cb410ff61f20015ad";

fn binary(fields: &[(&str, &str)]) -> Binary {
    let entry = Node::Mapping(
        fields.iter().map(|(k, v)| (k.to_string(), Node::Scalar(v.to_string()))).collect(),
    );
    Binary::deserialize(&entry, Some("/home/u")).unwrap()
}

fn plain(name: &str) -> Binary {
    binary(&[("name", name), ("url", &format!("http://h/{}", name))])
}

fn fetched(content: &[u8]) -> InstallEvent {
    InstallEvent::Fetched { status: 200, content: content.to_vec() }
}

fn provider() -> BinaryProvider {
    BinaryProvider::new("/home/u/bin", Vec::new())
}

#[test]
fn a_batch_goes_item_by_item_and_commits_at_the_end() {
    let items = vec![
        binary(&[("name", "a"), ("url", "http://h/a"), ("sum", ABC)]),
        binary(&[("name", "b"), ("url", "http://h/b"), ("install_path", "/opt/b")]),
    ];
    let recorded = vec![plain("old"), plain("a")];
    let mut run = provider().install_items(items, &recorded);
    assert_eq!(run.current_stage(), InstallStage::Opening);
    assert_eq!(run.awaited(), InstallAction::Open(vec![plain("old")]));
    assert_eq!(
        run.step(InstallEvent::Done),
        InstallAction::Fetch { item: 0, url: "http://h/a".to_string() }
    );
    assert_eq!(
        run.step(fetched(b"abc")),
        InstallAction::Copy { item: 0, path: "/home/u/bin/a".to_string() }
    );
    assert_eq!(
        run.step(InstallEvent::Done),
        InstallAction::MakeExecutable { item: 0, path: "/home/u/bin/a".to_string() }
    );
    match run.step(InstallEvent::Done) {
        InstallAction::Record { item, record } => {
            assert_eq!(item, 0);
            assert_eq!(record.name(), "a");
            assert_eq!(record.url(), "http://h/a");
            assert_eq!(record.sum(), Some(ABC));
        },
        other => panic!("{:?}", other),
    }
    assert_eq!(
        run.step(InstallEvent::Done),
        InstallAction::Fetch { item: 1, url: "http://h/b".to_string() }
    );
    assert_eq!(run.current_stage(), InstallStage::Fetching(1));
    assert_eq!(
        run.step(fetched(b"anything")),
        InstallAction::Copy { item: 1, path: "/opt/b".to_string() }
    );
    assert_eq!(
        run.step(InstallEvent::Done),
        InstallAction::MakeExecutable { item: 1, path: "/opt/b".to_string() }
    );
    assert_eq!(run.step(InstallEvent::Done), InstallAction::Record { item: 1, record: plain("b") });
    assert_eq!(run.step(InstallEvent::Done), InstallAction::Commit);
    assert_eq!(run.current_stage(), InstallStage::Committing);
    assert_eq!(run.step(InstallEvent::Done), InstallAction::Finish(None));
    assert_eq!(run.current_stage(), InstallStage::Finished(None));
    assert_eq!(run.batch().len(), 2);
}

#[test]
fn an_empty_batch_only_commits() {
    let mut run = Installation::new("/bin", Vec::new(), &vec![plain("old")]);
    assert_eq!(run.awaited(), InstallAction::Open(vec![plain("old")]));
    assert_eq!(run.step(InstallEvent::Done), InstallAction::Commit);
    assert_eq!(run.step(InstallEvent::Done), InstallAction::Finish(None));
}

#[test]
fn a_status_that_is_no_success_ends_the_batch() {
    for status in [404u16, 500, 199, 300, 301, 0, 600] {
        let mut run = provider().install_items(vec![plain("a"), plain("b")], &Vec::new());
        run.step(InstallEvent::Done);
        let action = run.step(InstallEvent::Fetched { status, content: b"abc".to_vec() });
        assert_eq!(action, InstallAction::Finish(Some(Failure::Status(0, status))));
        assert_eq!(run.current_stage(), InstallStage::Finished(Some(Failure::Status(0, status))));
    }
    for status in [200u16, 201, 204, 299] {
        let mut run = provider().install_items(vec![plain("a")], &Vec::new());
        run.step(InstallEvent::Done);
        let action = run.step(InstallEvent::Fetched { status, content: Vec::new() });
        assert_eq!(action, InstallAction::Copy { item: 0, path: "/home/u/bin/a".to_string() });
    }
}

#[test]
fn a_wrong_checksum_is_rejected_before_the_copy() {
    let items = vec![binary(&[("name", "a"), ("url", "http://h/a"), ("sum", ABC)])];
    let mut run = provider().install_items(items, &Vec::new());
    run.step(InstallEvent::Done);
    let action = run.step(fetched(b"abd"));
    assert_eq!(action, InstallAction::Finish(Some(Failure::Checksum(0))));
    assert_eq!(run.current_stage(), InstallStage::Finished(Some(Failure::Checksum(0))));
}

#[test]
fn the_failure_names_the_item_at_work() {
    let batch = || vec![plain("a"), plain("b")];
    let through_first = |run: &mut Installation| {
        run.step(InstallEvent::Done);
        run.step(fetched(b""));
        run.step(InstallEvent::Done);
        run.step(InstallEvent::Done);
        run.step(InstallEvent::Done);
    };
    let mut run = provider().install_items(batch(), &Vec::new());
    through_first(&mut run);
    assert_eq!(
        run.step(InstallEvent::Failed),
        InstallAction::Finish(Some(Failure::Transfer(1)))
    );

    let mut run = provider().install_items(batch(), &Vec::new());
    through_first(&mut run);
    run.step(fetched(b""));
    assert_eq!(run.step(InstallEvent::Failed), InstallAction::Finish(Some(Failure::Write(1))));

    let mut run = provider().install_items(batch(), &Vec::new());
    through_first(&mut run);
    run.step(fetched(b""));
    run.step(InstallEvent::Done);
    assert_eq!(run.step(InstallEvent::Failed), InstallAction::Finish(Some(Failure::Write(1))));

    let mut run = provider().install_items(batch(), &Vec::new());
    through_first(&mut run);
    run.step(fetched(b""));
    run.step(InstallEvent::Done);
    run.step(InstallEvent::Done);
    assert_eq!(run.step(InstallEvent::Failed), InstallAction::Finish(Some(Failure::Sidecar)));

    let mut run = provider().install_items(batch(), &Vec::new());
    assert_eq!(run.step(InstallEvent::Failed), InstallAction::Finish(Some(Failure::Sidecar)));

    let mut run = provider().install_items(Vec::new(), &Vec::new());
    run.step(InstallEvent::Done);
    assert_eq!(run.step(InstallEvent::Failed), InstallAction::Finish(Some(Failure::Sidecar)));
}

#[test]
fn an_install_event_out_of_turn_changes_nothing() {
    let mut run = provider().install_items(vec![plain("a")], &Vec::new());
    assert_eq!(run.step(fetched(b"")), InstallAction::Open(Vec::new()));
    assert_eq!(run.current_stage(), InstallStage::Opening);
    run.step(InstallEvent::Done);
    assert_eq!(
        run.step(InstallEvent::Done),
        InstallAction::Fetch { item: 0, url: "http://h/a".to_string() }
    );
    run.step(fetched(b""));
    assert_eq!(
        run.step(fetched(b"")),
        InstallAction::Copy { item: 0, path: "/home/u/bin/a".to_string() }
    );
    run.step(InstallEvent::Failed);
    assert_eq!(run.step(InstallEvent::Done), InstallAction::Finish(Some(Failure::Write(0))));
}

#[test]
fn removal_deletes_each_file_and_keeps_the_other_records() {
    let p = provider();
    let items = vec![plain("a"), binary(&[("name", "b"), ("url", "u"), ("install_path", "/opt/b")])];
    let recorded = vec![plain("keep"), plain("b"), plain("a"), plain("also")];
    let removal = p.remove_items(&items, &recorded);
    assert_eq!(removal.paths, vec!["/home/u/bin/a", "/opt/b"]);
    let names: Vec<&str> = removal.record.iter().map(|b| b.name()).collect();
    assert_eq!(names, vec!["keep", "also"]);
    let nothing = p.remove_items(&Vec::new(), &recorded);
    assert!(nothing.paths.is_empty());
    assert_eq!(nothing.record.len(), 4);
}

#[test]
fn binaries_reconcile_like_any_provider() {
    let desired = read_entries(
        &vec![
            Node::Mapping(vec![
                ("name".to_string(), Node::Scalar("a".to_string())),
                ("url".to_string(), Node::Scalar("http://h/a".to_string())),
            ]),
        ],
        None,
    )
    .unwrap();
    let p = BinaryProvider::new("/bin", desired);
    let mut run = p.ensure();
    assert_eq!(run.stage, Stage::Querying);
    let step = run.step(Event::Queried(vec![plain("x")]));
    assert_eq!(step.action, Action::ConfirmInstall(vec![plain("a")]));
    run.step(Event::Answered(true));
    let step = run.step(Event::Applied);
    assert_eq!(step.action, Action::ConfirmRemoval(vec![plain("x")]));
}

#[test]
fn copies_keep_every_field() {
    let items = vec![binary(&[("name", "a"), ("url", "http://h/a"), ("sum", "s"), ("version", "1"),
        ("install_path", "$HOME/a")])];
    let copies = duplicates_of(&items);
    assert_eq!(copies.len(), 1);
    assert_eq!(copies[0].name(), "a");
    assert_eq!(copies[0].url(), "http://h/a");
    assert_eq!(copies[0].sum(), Some("s"));
    assert_eq!(copies[0].version(), Some("1"));
    assert_eq!(copies[0].install_path(), Some("/home/u/a"));
}
