use bow::package_types::flatpak::{Flatpak, FlatpakProvider};
use bow::package_types::reconcile::{Action, Event, Notice, Outcome, Reconciliation, Stage, Step};
use bow::package_types::PackageProvider;

fn flatpaks(ids: &[&str]) -> Vec<Flatpak> {
    ids.iter().map(|id| Flatpak::new(id)).collect()
}

fn run_for(desired: &[&str]) -> Reconciliation<Flatpak> {
    FlatpakProvider::new_with_flatpaks(flatpaks(desired)).ensure()
}

fn quiet(action: Action<Flatpak>) -> Step<Flatpak> {
    Step { action, notices: Vec::new() }
}

#[test]
fn a_reconciliation_begins_with_the_query() {
    let run = run_for(&["a", "b"]);
    assert_eq!(run.stage, Stage::Querying);
    assert_eq!(run.desired, flatpaks(&["a", "b"]));
    assert!(run.installed.is_empty());
    assert_eq!(run.pending(), Action::Query);
}

#[test]
fn install_then_remove_each_after_a_yes() {
    let mut run = run_for(&["a", "b", "c"]);
    let step = run.step(Event::Queried(flatpaks(&["c", "x"])));
    assert_eq!(step, quiet(Action::ConfirmInstall(flatpaks(&["a", "b"]))));
    assert_eq!(run.stage, Stage::ConfirmingInstall);
    let step = run.step(Event::Answered(true));
    assert_eq!(step, quiet(Action::Install(flatpaks(&["a", "b"]))));
    assert_eq!(run.stage, Stage::Installing);
    let step = run.step(Event::Applied);
    assert_eq!(step, quiet(Action::ConfirmRemoval(flatpaks(&["x"]))));
    assert_eq!(run.stage, Stage::ConfirmingRemoval);
    let step = run.step(Event::Answered(true));
    assert_eq!(step, quiet(Action::Remove(flatpaks(&["x"]))));
    assert_eq!(run.stage, Stage::Removing);
    let step = run.step(Event::Applied);
    assert_eq!(step, quiet(Action::Finish(Outcome::Completed)));
    assert_eq!(run.stage, Stage::Finished(Outcome::Completed));
}

#[test]
fn a_no_skips_the_install_and_removal_still_proceeds() {
    let mut run = run_for(&["a", "b"]);
    run.step(Event::Queried(flatpaks(&["x", "y", "z"])));
    let step = run.step(Event::Answered(false));
    assert_eq!(step.notices, vec![Notice::InstallSkipped(2)]);
    assert_eq!(step.action, Action::ConfirmRemoval(flatpaks(&["x", "y", "z"])));
    let step = run.step(Event::Answered(false));
    assert_eq!(step.notices, vec![Notice::RemovalSkipped(3)]);
    assert_eq!(step.action, Action::Finish(Outcome::Completed));
    assert_eq!(run.stage, Stage::Finished(Outcome::Completed));
}

#[test]
fn nothing_to_do_asks_nothing() {
    let mut run = run_for(&["a", "b"]);
    let step = run.step(Event::Queried(flatpaks(&["b", "a"])));
    assert_eq!(step.notices, vec![Notice::NothingToInstall, Notice::NothingToRemove]);
    assert_eq!(step.action, Action::Finish(Outcome::Completed));
    assert_eq!(run.stage, Stage::Finished(Outcome::Completed));
}

#[test]
fn an_empty_install_set_skips_its_prompt_only() {
    let mut run = run_for(&["a"]);
    let step = run.step(Event::Queried(flatpaks(&["a", "x"])));
    assert_eq!(step.notices, vec![Notice::NothingToInstall]);
    assert_eq!(step.action, Action::ConfirmRemoval(flatpaks(&["x"])));
}

#[test]
fn an_empty_removal_set_skips_its_prompt_only() {
    let mut run = run_for(&["a", "b"]);
    let step = run.step(Event::Queried(flatpaks(&["a"])));
    assert_eq!(step, quiet(Action::ConfirmInstall(flatpaks(&["b"]))));
    run.step(Event::Answered(true));
    let step = run.step(Event::Applied);
    assert_eq!(step.notices, vec![Notice::NothingToRemove]);
    assert_eq!(step.action, Action::Finish(Outcome::Completed));
}

#[test]
fn failures_end_the_reconciliation() {
    let mut run = run_for(&["a"]);
    let step = run.step(Event::QueryFailed);
    assert_eq!(step, quiet(Action::Finish(Outcome::QueryFailed)));
    assert_eq!(run.stage, Stage::Finished(Outcome::QueryFailed));

    let mut run = run_for(&["a"]);
    run.step(Event::Queried(flatpaks(&["x"])));
    run.step(Event::Answered(true));
    let step = run.step(Event::Failed);
    assert_eq!(step, quiet(Action::Finish(Outcome::InstallFailed)));
    assert_eq!(run.stage, Stage::Finished(Outcome::InstallFailed));

    let mut run = run_for(&["a"]);
    run.step(Event::Queried(flatpaks(&["a", "x"])));
    run.step(Event::Answered(true));
    let step = run.step(Event::Failed);
    assert_eq!(step, quiet(Action::Finish(Outcome::RemovalFailed)));
    assert_eq!(run.stage, Stage::Finished(Outcome::RemovalFailed));
}

#[test]
fn an_event_out_of_turn_changes_nothing() {
    let mut run = run_for(&["a"]);
    assert_eq!(run.step(Event::Answered(true)), quiet(Action::Query));
    assert_eq!(run.step(Event::Applied), quiet(Action::Query));
    assert_eq!(run.stage, Stage::Querying);
    run.step(Event::Queried(flatpaks(&["x"])));
    let step = run.step(Event::Applied);
    assert_eq!(step, quiet(Action::ConfirmInstall(flatpaks(&["a"]))));
    assert_eq!(run.stage, Stage::ConfirmingInstall);
    let step = run.step(Event::Queried(flatpaks(&["a"])));
    assert_eq!(step, quiet(Action::ConfirmInstall(flatpaks(&["a"]))));
    assert_eq!(run.installed, flatpaks(&["x"]));
    run.step(Event::Answered(false));
    run.step(Event::Answered(false));
    assert_eq!(run.step(Event::Applied), quiet(Action::Finish(Outcome::Completed)));
    assert_eq!(run.step(Event::Answered(true)), quiet(Action::Finish(Outcome::Completed)));
}

#[test]
fn removal_is_decided_on_the_one_query_of_the_run() {
    let mut run = run_for(&["a"]);
    run.step(Event::Queried(flatpaks(&["x"])));
    run.step(Event::Answered(true));
    let step = run.step(Event::Applied);
    assert_eq!(step.action, Action::ConfirmRemoval(flatpaks(&["x"])));
    assert_eq!(run.installed, flatpaks(&["x"]));
}

#[test]
fn duplicates_in_the_desired_set_are_invisible() {
    let mut run = run_for(&["a", "a", "b", "a"]);
    let step = run.step(Event::Queried(flatpaks(&["b", "b"])));
    assert_eq!(step.action, Action::ConfirmInstall(flatpaks(&["a"])));
}
