use spyn::lifecycle::{cache_root, Action, Event, Lifecycle, Phase, State, Step};
use spyn::reqs::Requirements;

fn build_set(names: &[&str]) -> Requirements {
    let mut reqs = Requirements::new();
    for n in names {
        reqs.add(n);
    }
    reqs
}

fn begin(names: &[&str], python: Option<&str>, offline: bool) -> (Lifecycle, Action, String) {
    let reqs = build_set(names);
    let selector = python.map(|p| p.to_string());
    let entry = format!("/home/u/.spyn/{}", reqs.hash(python));
    let (machine, action) = Lifecycle::start("/home/u/.spyn", &reqs, selector.as_ref(), offline);
    (machine, action, entry)
}

fn probe_path(action: &Action) -> String {
    match action {
        Action::Probe { path } => path.clone(),
        other => panic!("expected a probe, got {:?}", other),
    }
}

fn ready_path(action: &Action) -> String {
    match action {
        Action::Ready(venv) => venv.path().to_string(),
        other => panic!("expected ready, got {:?}", other),
    }
}

fn strings(words: &[&str]) -> Vec<String> {
    words.iter().map(|w| w.to_string()).collect()
}

/// Drives a build up to the state in which the builder has been asked to
/// create the environment.
fn up_to_create(names: &[&str], python: Option<&str>, offline: bool) -> (Lifecycle, String) {
    let (machine, _, entry) = begin(names, python, offline);
    let (machine, _) = machine.step(Event::Absent);
    let (machine, _) = machine.step(Event::Done);
    let (machine, _) = machine.step(Event::Scratch("/home/u/.spyn/tmp/s1".to_string()));
    let (machine, _) = machine.step(Event::Builder("/usr/bin/uv".to_string()));
    (machine, entry)
}

#[test]
fn cache_root_is_dot_spyn_in_home() {
    assert_eq!(cache_root("/home/u"), "/home/u/.spyn");
    assert_eq!(cache_root("/"), "/.spyn");
}

#[test]
fn a_run_starts_by_probing_the_entry() {
    let (machine, action, entry) = begin(&["numpy"], Some("3.11"), false);
    assert_eq!(probe_path(&action), entry);
    assert!(matches!(machine.state(), State::Unknown));
    assert_eq!(entry.len(), "/home/u/.spyn/".len() + 56);
}

#[test]
fn an_existing_entry_is_reused_without_any_build_step() {
    let (machine, _, entry) = begin(&["numpy"], None, false);
    let (machine, action) = machine.step(Event::Present);
    assert!(matches!(machine.state(), State::Reused));
    assert_eq!(ready_path(&action), entry);
    let (machine, action) = machine.step(Event::Done);
    assert!(matches!(machine.state(), State::Reused));
    assert_eq!(ready_path(&action), entry);
    let (machine, action) = machine.step(Event::Exited(Some(0)));
    assert!(matches!(machine.state(), State::Reused));
    assert_eq!(ready_path(&action), entry);
}

#[test]
fn a_build_goes_through_all_steps_and_publishes() {
    let (machine, _, entry) = begin(&["requests", "numpy"], Some("3.11"), true);

    let (machine, action) = machine.step(Event::Absent);
    assert!(matches!(machine.state(), State::Building(Step::Root)));
    match action {
        Action::CreateDirs { path } => assert_eq!(path, "/home/u/.spyn/tmp"),
        other => panic!("unexpected {:?}", other),
    }

    let (machine, action) = machine.step(Event::Done);
    assert!(matches!(machine.state(), State::Building(Step::Scratch)));
    match action {
        Action::MakeScratch { parent } => assert_eq!(parent, "/home/u/.spyn/tmp"),
        other => panic!("unexpected {:?}", other),
    }

    let (machine, action) = machine.step(Event::Scratch("/home/u/.spyn/tmp/s1".to_string()));
    assert!(matches!(machine.state(), State::Building(Step::Locate { .. })));
    match action {
        Action::Locate { program } => assert_eq!(program, "uv"),
        other => panic!("unexpected {:?}", other),
    }

    let (machine, action) = machine.step(Event::Builder("/usr/bin/uv".to_string()));
    assert!(matches!(machine.state(), State::Building(Step::Create { .. })));
    match action {
        Action::Run(command) => {
            assert_eq!(command.program, "/usr/bin/uv");
            assert_eq!(
                command.args,
                strings(&["venv", "--offline", "--python", "3.11", "/home/u/.spyn/tmp/s1"])
            );
            assert_eq!(command.current_dir, None);
            assert!(command.env.is_empty());
        }
        other => panic!("unexpected {:?}", other),
    }

    let (machine, action) = machine.step(Event::Exited(Some(0)));
    assert!(matches!(machine.state(), State::Building(Step::Manifest { .. })));
    match action {
        Action::WriteNew(file) => {
            assert_eq!(file.path, "/home/u/.spyn/tmp/s1/requirements.txt");
            assert_eq!(file.contents, "numpy\nrequests\n");
        }
        other => panic!("unexpected {:?}", other),
    }

    let (machine, action) = machine.step(Event::Done);
    assert!(matches!(machine.state(), State::Building(Step::Install { .. })));
    match action {
        Action::Run(command) => {
            assert_eq!(command.program, "/usr/bin/uv");
            assert_eq!(
                command.args,
                strings(&[
                    "pip",
                    "install",
                    "--offline",
                    "-r",
                    "/home/u/.spyn/tmp/s1/requirements.txt"
                ])
            );
            assert_eq!(command.current_dir, Some("/home/u/.spyn/tmp/s1".to_string()));
            assert_eq!(
                command.env,
                vec![("VIRTUAL_ENV".to_string(), "/home/u/.spyn/tmp/s1".to_string())]
            );
        }
        other => panic!("unexpected {:?}", other),
    }

    let (machine, action) = machine.step(Event::Exited(Some(0)));
    assert!(matches!(machine.state(), State::Building(Step::Publish { .. })));
    match action {
        Action::Rename { from, to } => {
            assert_eq!(from, "/home/u/.spyn/tmp/s1");
            assert_eq!(to, entry);
        }
        other => panic!("unexpected {:?}", other),
    }

    let (machine, action) = machine.step(Event::Done);
    assert!(matches!(machine.state(), State::Published));
    match &action {
        Action::Ready(venv) => {
            assert_eq!(venv.path(), entry);
            assert_eq!(venv.python(), Some(&"3.11".to_string()));
        }
        other => panic!("unexpected {:?}", other),
    }

    let (machine, action) = machine.step(Event::Failed);
    assert!(matches!(machine.state(), State::Published));
    assert_eq!(ready_path(&action), entry);
}

#[test]
fn an_empty_set_is_published_without_manifest_or_installer() {
    let (machine, entry) = up_to_create(&[], None, false);
    let (machine, action) = machine.step(Event::Exited(Some(0)));
    assert!(matches!(machine.state(), State::Building(Step::Publish { .. })));
    match action {
        Action::Rename { from, to } => {
            assert_eq!(from, "/home/u/.spyn/tmp/s1");
            assert_eq!(to, entry);
        }
        other => panic!("unexpected {:?}", other),
    }
    let (machine, action) = machine.step(Event::Done);
    assert!(matches!(machine.state(), State::Published));
    assert_eq!(ready_path(&action), entry);
}

#[test]
fn create_command_without_offline_and_selector() {
    let (machine, _, _) = begin(&["x"], None, false);
    let (machine, _) = machine.step(Event::Absent);
    let (machine, _) = machine.step(Event::Done);
    let (machine, _) = machine.step(Event::Scratch("/s".to_string()));
    let (_, action) = machine.step(Event::Builder("uv".to_string()));
    match action {
        Action::Run(command) => assert_eq!(command.args, strings(&["venv", "/s"])),
        other => panic!("unexpected {:?}", other),
    }
}

#[test]
fn a_failing_installer_leaves_nothing_published() {
    let (machine, _) = up_to_create(&["numpy"], None, false);
    let (machine, _) = machine.step(Event::Exited(Some(0)));
    let (machine, _) = machine.step(Event::Done);
    assert!(matches!(machine.state(), State::Building(Step::Install { .. })));

    let (machine, action) = machine.step(Event::Exited(Some(1)));
    assert!(matches!(
        machine.state(),
        State::Building(Step::Discard { phase: Phase::Install })
    ));
    match action {
        Action::Remove { path } => assert_eq!(path, "/home/u/.spyn/tmp/s1"),
        other => panic!("unexpected {:?}", other),
    }

    let (machine, action) = machine.step(Event::Done);
    assert!(matches!(machine.state(), State::FailedCleaned(Phase::Install)));
    assert!(matches!(action, Action::Abort(Phase::Install)));

    let (machine, action) = machine.step(Event::Exited(Some(0)));
    assert!(matches!(machine.state(), State::FailedCleaned(Phase::Install)));
    assert!(matches!(action, Action::Abort(Phase::Install)));
}

#[test]
fn an_installer_ended_by_a_signal_has_failed() {
    let (machine, _) = up_to_create(&["numpy"], None, false);
    let (machine, _) = machine.step(Event::Exited(Some(0)));
    let (machine, _) = machine.step(Event::Done);
    let (machine, action) = machine.step(Event::Exited(None));
    assert!(matches!(
        machine.state(),
        State::Building(Step::Discard { phase: Phase::Install })
    ));
    assert!(matches!(action, Action::Remove { .. }));
}

#[test]
fn a_failed_cleanup_does_not_hide_the_first_failure() {
    let (machine, _) = up_to_create(&["numpy"], None, false);
    let (machine, _) = machine.step(Event::Exited(Some(2)));
    assert!(matches!(
        machine.state(),
        State::Building(Step::Discard { phase: Phase::CreateEnvironment })
    ));
    let (machine, action) = machine.step(Event::Failed);
    assert!(matches!(
        machine.state(),
        State::FailedCleaned(Phase::CreateEnvironment)
    ));
    assert!(matches!(action, Action::Abort(Phase::CreateEnvironment)));
}

#[test]
fn failures_before_a_scratch_directory_exists_end_at_once() {
    let (machine, _, _) = begin(&["x"], None, false);
    let (machine, _) = machine.step(Event::Absent);
    let (machine, action) = machine.step(Event::Failed);
    assert!(matches!(machine.state(), State::FailedCleaned(Phase::PrepareRoot)));
    assert!(matches!(action, Action::Abort(Phase::PrepareRoot)));

    let (machine, _, _) = begin(&["x"], None, false);
    let (machine, _) = machine.step(Event::Absent);
    let (machine, _) = machine.step(Event::Done);
    let (machine, action) = machine.step(Event::Failed);
    assert!(matches!(machine.state(), State::FailedCleaned(Phase::MakeScratch)));
    assert!(matches!(action, Action::Abort(Phase::MakeScratch)));
}

#[test]
fn a_missing_builder_is_its_own_phase() {
    let (machine, _, _) = begin(&["x"], None, false);
    let (machine, _) = machine.step(Event::Absent);
    let (machine, _) = machine.step(Event::Done);
    let (machine, _) = machine.step(Event::Scratch("/s".to_string()));
    let (machine, action) = machine.step(Event::Failed);
    assert!(matches!(
        machine.state(),
        State::Building(Step::Discard { phase: Phase::LocateBuilder })
    ));
    match action {
        Action::Remove { path } => assert_eq!(path, "/s"),
        other => panic!("unexpected {:?}", other),
    }
    let (machine, action) = machine.step(Event::Done);
    assert!(matches!(machine.state(), State::FailedCleaned(Phase::LocateBuilder)));
    assert!(matches!(action, Action::Abort(Phase::LocateBuilder)));
}

#[test]
fn a_manifest_that_cannot_be_written_ends_the_build() {
    let (machine, _) = up_to_create(&["numpy"], None, false);
    let (machine, _) = machine.step(Event::Exited(Some(0)));
    let (machine, action) = machine.step(Event::Failed);
    assert!(matches!(
        machine.state(),
        State::Building(Step::Discard { phase: Phase::WriteManifest })
    ));
    assert!(matches!(action, Action::Remove { .. }));
}

#[test]
fn a_failing_rename_ends_the_build() {
    let (machine, _) = up_to_create(&[], None, false);
    let (machine, _) = machine.step(Event::Exited(Some(0)));
    let (machine, action) = machine.step(Event::Failed);
    assert!(matches!(
        machine.state(),
        State::Building(Step::Discard { phase: Phase::Publish })
    ));
    assert!(matches!(action, Action::Remove { .. }));
    let (machine, action) = machine.step(Event::Done);
    assert!(matches!(machine.state(), State::FailedCleaned(Phase::Publish)));
    assert!(matches!(action, Action::Abort(Phase::Publish)));
}

#[test]
fn same_inputs_lead_to_the_same_entry() {
    let (_, first, _) = begin(&["b", "a"], Some("3.11"), false);
    let (_, second, _) = begin(&["a", "b", "a"], Some("3.11"), true);
    assert_eq!(probe_path(&first), probe_path(&second));
    let (_, third, _) = begin(&["a", "b"], Some("3.12"), false);
    assert_ne!(probe_path(&first), probe_path(&third));
}
