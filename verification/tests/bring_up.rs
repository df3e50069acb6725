use super_orchestrator::container::Container;
use super_orchestrator::container_state::{CommandResult, RunState};
use super_orchestrator::dockerfile::Dockerfile;
use super_orchestrator::error::{Error, ErrorKind};
use super_orchestrator::file_options::{FileOptions, ReadOrWrite, WriteOptions};
use super_orchestrator::network::ContainerNetwork;
use super_orchestrator::run::{trim_newline, RunAction, RunEvent, RunPhase};
use super_orchestrator::text::all_distinct;

fn strings(items: &[&str]) -> Vec<String> {
    items.iter().map(|s| s.to_string()).collect()
}

fn alpine(name: &str) -> Container {
    Container::new(name, Dockerfile::name_tag("alpine:3"))
        .entrypoint("/bin/sh".to_string(), strings(&["-c", "exit 0"]))
}

fn ok(output: &str) -> RunEvent {
    RunEvent::Success {
        output: output.to_string(),
    }
}

fn failure(kind: ErrorKind, message: &str) -> RunEvent {
    RunEvent::Failure(Error::new(kind, message.to_string()))
}

fn network(names: &[&str]) -> ContainerNetwork {
    let mut net = ContainerNetwork::new("testnet", Some("./dockerfiles"), "./logs");
    for name in names {
        net.add_container(alpine(name)).unwrap();
    }
    net
}

fn default_write() -> ReadOrWrite {
    ReadOrWrite::Write(WriteOptions {
        create: true,
        append: false,
    })
}

#[test]
fn happy_path_two_containers() {
    let mut net = network(&["a", "b"]);
    let (mut p, checks) = net.run(strings(&["a", "b"]), false).unwrap();
    assert!(checks.dockerfile_paths.is_empty());
    assert!(checks.write_file.is_none());
    assert_eq!(checks.log_file.path, "./logs/container_network_testnet.log");
    assert_eq!(checks.log_file.options, default_write());
    assert_eq!(p.phase(), RunPhase::Prepare);
    assert!(net.run_in_step(&p));

    match net.run_next(&mut p, ok("")) {
        RunAction::CreateNetwork { args } => {
            assert_eq!(args, strings(&["network", "create", "--internal", "testnet"]))
        }
        other => panic!("unexpected {other:?}"),
    }
    assert_eq!(p.phase(), RunPhase::Network);
    assert!(!net.network_active());

    match net.run_next(&mut p, ok("network-id\n")) {
        RunAction::CreateContainer { name } => assert_eq!(name, "a"),
        other => panic!("unexpected {other:?}"),
    }
    assert!(net.network_active());
    assert_eq!(p.phase(), RunPhase::Create(0));

    match net.run_next(&mut p, ok("id-of-a\n")) {
        RunAction::CreateContainer { name } => assert_eq!(name, "b"),
        other => panic!("unexpected {other:?}"),
    }
    assert_eq!(net.container_id("a").unwrap(), "id-of-a");
    assert!(net.active_names().is_empty());
    assert_eq!(net.get_ids(), strings(&["a"]));
    assert!(net.run_in_step(&p));

    match net.run_next(&mut p, ok("id-of-b\n")) {
        RunAction::StartContainer {
            name,
            id,
            stdout_log,
            stderr_log,
        } => {
            assert_eq!(name, "a");
            assert_eq!(id, "id-of-a");
            assert_eq!(stdout_log.path, "./logs/container_a_stdout.log");
            assert_eq!(stderr_log.path, "./logs/container_a_stderr.log");
            assert_eq!(stdout_log.options, default_write());
            assert_eq!(stderr_log.options, default_write());
        }
        other => panic!("unexpected {other:?}"),
    }
    assert_eq!(p.phase(), RunPhase::Start(0));

    match net.run_next(&mut p, ok("")) {
        RunAction::StartContainer { name, id, stdout_log, .. } => {
            assert_eq!(name, "b");
            assert_eq!(id, "id-of-b");
            assert_eq!(stdout_log.path, "./logs/container_b_stdout.log");
        }
        other => panic!("unexpected {other:?}"),
    }
    assert_eq!(net.active_names(), strings(&["a"]));
    assert!(net.run_in_step(&p));

    match net.run_next(&mut p, ok("")) {
        RunAction::Finished { cleanup, result } => {
            assert!(cleanup.is_empty());
            assert!(result.is_ok());
        }
        other => panic!("unexpected {other:?}"),
    }
    assert_eq!(p.phase(), RunPhase::Done);
    // every name is active and has its id
    assert_eq!(net.active_names(), strings(&["a", "b"]));
    assert!(net.inactive_names().is_empty());
    assert_eq!(
        net.get_active_container_ids(),
        vec![
            ("a".to_string(), "id-of-a".to_string()),
            ("b".to_string(), "id-of-b".to_string()),
        ]
    );
    for name in ["a", "b"] {
        let state = net.state(name).unwrap();
        assert!(state.is_active());
        assert!(!state.active_container_id().unwrap().is_empty());
    }
}

#[test]
fn names_are_created_in_the_given_order() {
    let mut net = network(&["a", "b", "c"]);
    let (mut p, _) = net.run(strings(&["c", "a"]), true).unwrap();
    assert!(p.debug());
    assert_eq!(p.names(), &strings(&["c", "a"]));
    net.run_next(&mut p, ok(""));
    match net.run_next(&mut p, ok("")) {
        RunAction::CreateContainer { name } => assert_eq!(name, "c"),
        other => panic!("unexpected {other:?}"),
    }
    match net.run_next(&mut p, ok("1")) {
        RunAction::CreateContainer { name } => assert_eq!(name, "a"),
        other => panic!("unexpected {other:?}"),
    }
    match net.run_next(&mut p, ok("2")) {
        RunAction::StartContainer { name, id, .. } => {
            assert_eq!(name, "c");
            assert_eq!(id, "1");
        }
        other => panic!("unexpected {other:?}"),
    }
    // `b` was not asked for
    assert!(net.container_id("b").is_err());
}

#[test]
fn an_existing_network_is_not_created_again() {
    let mut net = network(&["a", "b"]);
    let (mut p, _) = net.run(strings(&["a"]), false).unwrap();
    net.run_next(&mut p, ok(""));
    net.run_next(&mut p, ok(""));
    net.run_next(&mut p, ok("ida"));
    assert!(matches!(
        net.run_next(&mut p, ok("")),
        RunAction::Finished { result: Ok(()), .. }
    ));
    assert!(net.network_active());
    let (mut p, _) = net.run(strings(&["b"]), false).unwrap();
    match net.run_next(&mut p, ok("")) {
        RunAction::CreateContainer { name } => assert_eq!(name, "b"),
        other => panic!("unexpected {other:?}"),
    }
}

#[test]
fn a_run_over_no_names_ends_at_once() {
    let mut net = network(&["a"]);
    let (mut p, _) = net.run(vec![], false).unwrap();
    assert!(matches!(
        net.run_next(&mut p, ok("")),
        RunAction::CreateNetwork { .. }
    ));
    assert!(matches!(
        net.run_next(&mut p, ok("")),
        RunAction::Finished { result: Ok(()), .. }
    ));
    assert!(net.active_names().is_empty());
}

#[test]
fn duplicate_unknown_and_active_names_are_refused() {
    let mut net = network(&["a", "b"]);
    let e = net.run(strings(&["a", "b", "a"]), false).unwrap_err();
    assert_eq!(e.kind, ErrorKind::Validation);
    let e = net.run(strings(&["a", "nobody"]), false).unwrap_err();
    assert_eq!(e.kind, ErrorKind::Validation);
    // bring `a` up
    let (mut p, _) = net.run(strings(&["a"]), false).unwrap();
    net.run_next(&mut p, ok(""));
    net.run_next(&mut p, ok(""));
    net.run_next(&mut p, ok("ida"));
    net.run_next(&mut p, ok(""));
    let e = net.run(strings(&["b", "a"]), false).unwrap_err();
    assert_eq!(e.kind, ErrorKind::Validation);
    // nothing has happened to either
    assert_eq!(net.active_names(), strings(&["a"]));
    assert!(net.container_id("b").is_err());
}

#[test]
fn build_failure_aborts_bring_up() {
    let mut net = ContainerNetwork::new("testnet", Some("./dockerfiles"), "./logs");
    net.add_container(alpine("x")).unwrap();
    net.add_container(Container::new("y", Dockerfile::path("/does/not/exist")))
        .unwrap();
    let (mut p, checks) = net.run(strings(&["x", "y"]), false).unwrap();
    assert_eq!(checks.dockerfile_paths, strings(&["/does/not/exist"]));
    // the caller finds that the path does not exist
    let event = failure(ErrorKind::Io, "could not acquire the path in a `Dockerfile::Path`");
    match net.run_next(&mut p, event) {
        RunAction::Finished { cleanup, result } => {
            assert!(cleanup.is_empty());
            let e = result.unwrap_err();
            assert_eq!(e.kind, ErrorKind::Validation);
            assert_eq!(
                e.stack,
                strings(&["could not acquire the path in a `Dockerfile::Path`"])
            );
        }
        other => panic!("unexpected {other:?}"),
    }
    assert!(!net.state("x").unwrap().is_active());
    assert!(net.active_names().is_empty());
    assert!(net.get_ids().is_empty());
    assert!(!net.network_active());
}

#[test]
fn start_failure_partial_cleanup() {
    // `u` is created, the creation of `v` fails
    let mut net = network(&["u", "v"]);
    let (mut p, _) = net.run(strings(&["u", "v"]), false).unwrap();
    net.run_next(&mut p, ok(""));
    net.run_next(&mut p, ok(""));
    net.run_next(&mut p, ok("id-u\n"));
    assert_eq!(net.container_id("u").unwrap(), "id-u");
    match net.run_next(&mut p, failure(ErrorKind::ExternalCommand, "image not found")) {
        RunAction::Finished { cleanup, result } => {
            let e = result.unwrap_err();
            assert_eq!(e.kind, ErrorKind::ExternalCommand);
            assert_eq!(e.stack, strings(&["image not found"]));
            assert_eq!(cleanup.len(), 1);
            assert_eq!(cleanup[0].name, "u");
            assert_eq!(cleanup[0].action.remove_container, Some("id-u".to_string()));
            assert!(!cleanup[0].action.stop_runner);
        }
        other => panic!("unexpected {other:?}"),
    }
    let u = net.state("u").unwrap();
    assert!(!u.is_active());
    assert_eq!(u.active_container_id(), None);
    assert!(net.get_ids().is_empty());
    assert!(net.active_names().is_empty());
    // the network stays
    assert!(net.network_active());
    assert_eq!(p.phase(), RunPhase::Done);
}

#[test]
fn a_failing_start_terminates_all_names() {
    let mut net = network(&["u", "v", "w"]);
    let (mut p, _) = net.run(strings(&["u", "v"]), false).unwrap();
    net.run_next(&mut p, ok(""));
    net.run_next(&mut p, ok(""));
    net.run_next(&mut p, ok("id-u"));
    net.run_next(&mut p, ok("id-v"));
    // `u` starts
    net.run_next(&mut p, ok(""));
    assert_eq!(net.active_names(), strings(&["u"]));
    match net.run_next(&mut p, failure(ErrorKind::Io, "cannot start")) {
        RunAction::Finished { cleanup, result } => {
            assert_eq!(result.unwrap_err().kind, ErrorKind::Io);
            assert_eq!(cleanup.len(), 2);
            assert_eq!(cleanup[0].name, "u");
            assert_eq!(cleanup[0].action.remove_container, Some("id-u".to_string()));
            assert!(cleanup[0].action.stop_runner);
            assert_eq!(cleanup[1].name, "v");
            assert_eq!(cleanup[1].action.remove_container, Some("id-v".to_string()));
            assert!(!cleanup[1].action.stop_runner);
        }
        other => panic!("unexpected {other:?}"),
    }
    assert!(net.active_names().is_empty());
    assert!(net.get_ids().is_empty());
    // what the stopped handle of `u` left is recorded
    net.stopped(
        "u",
        Some(CommandResult {
            status: None,
            stdout: b"partial".to_vec(),
            stderr: vec![],
        }),
    );
    assert!(matches!(
        net.state("u").unwrap().run_state(),
        RunState::PostActive(r) if r.stdout == b"partial".to_vec()
    ));
    assert!(matches!(net.state("v").unwrap().run_state(), RunState::PreActive));
}

#[test]
fn a_creation_without_an_id_has_failed() {
    let mut net = network(&["a", "b"]);
    let (mut p, _) = net.run(strings(&["a", "b"]), false).unwrap();
    net.run_next(&mut p, ok(""));
    net.run_next(&mut p, ok(""));
    net.run_next(&mut p, ok("ida\n"));
    match net.run_next(&mut p, ok("\n")) {
        RunAction::Finished { cleanup, result } => {
            assert_eq!(result.unwrap_err().kind, ErrorKind::ExternalCommand);
            assert_eq!(cleanup.len(), 1);
            assert_eq!(cleanup[0].action.remove_container, Some("ida".to_string()));
        }
        other => panic!("unexpected {other:?}"),
    }
    assert!(net.get_ids().is_empty());
}

#[test]
fn a_failing_network_creation_ends_the_run() {
    let mut net = network(&["a"]);
    let (mut p, _) = net.run(strings(&["a"]), false).unwrap();
    net.run_next(&mut p, ok(""));
    match net.run_next(&mut p, failure(ErrorKind::ExternalCommand, "no daemon")) {
        RunAction::Finished { cleanup, result } => {
            assert!(cleanup.is_empty());
            assert_eq!(result.unwrap_err().kind, ErrorKind::ExternalCommand);
        }
        other => panic!("unexpected {other:?}"),
    }
    assert!(!net.network_active());
    assert!(net.get_ids().is_empty());
}

#[test]
fn a_run_that_is_over_stays_over() {
    let mut net = network(&["a"]);
    let (mut p, _) = net.run(strings(&["a"]), false).unwrap();
    net.run_next(&mut p, failure(ErrorKind::Io, "no logs directory"));
    assert_eq!(p.phase(), RunPhase::Done);
    match net.run_next(&mut p, ok("")) {
        RunAction::Finished { cleanup, result } => {
            assert!(cleanup.is_empty());
            assert_eq!(result.unwrap_err().kind, ErrorKind::Validation);
        }
        other => panic!("unexpected {other:?}"),
    }
}

#[test]
fn contents_get_a_scratch_file() {
    let mut net = ContainerNetwork::new("n", Some("./dockerfiles"), "./logs");
    net.add_container(Container::new("c", Dockerfile::contents("FROM scratch")))
        .unwrap();
    net.add_container(Container::new("p", Dockerfile::path("./a/Dockerfile")))
        .unwrap();
    let (mut p, checks) = net.run(strings(&["p", "c"]), false).unwrap();
    assert_eq!(checks.dockerfile_paths, strings(&["./a/Dockerfile"]));
    let write_file = checks.write_file.unwrap();
    assert_eq!(write_file.path, "./dockerfiles/__tmp.dockerfile");
    assert_eq!(write_file.options, default_write());
    assert_eq!(p.write_file(), None);
    net.run_next(&mut p, ok("/abs/dockerfiles/__tmp.dockerfile"));
    assert_eq!(
        p.write_file(),
        Some(&"/abs/dockerfiles/__tmp.dockerfile".to_string())
    );
}

#[test]
fn without_contents_there_is_no_scratch_file() {
    let mut net = network(&["a"]);
    let (mut p, checks) = net.run(strings(&["a"]), false).unwrap();
    assert!(checks.write_file.is_none());
    net.run_next(&mut p, ok("ignored"));
    assert_eq!(p.write_file(), None);
}

#[test]
fn chosen_log_files_replace_the_default_ones() {
    let mut net = ContainerNetwork::new("n", None, "./logs");
    net.add_container(alpine("a").log(
        Some(FileOptions::write("/tmp/out.log")),
        Some(FileOptions::write2("/tmp", "err.log").append(true).unwrap()),
    ))
    .unwrap();
    let (mut p, _) = net.run(strings(&["a"]), false).unwrap();
    net.run_next(&mut p, ok(""));
    net.run_next(&mut p, ok(""));
    match net.run_next(&mut p, ok("ida")) {
        RunAction::StartContainer {
            stdout_log,
            stderr_log,
            ..
        } => {
            assert_eq!(stdout_log.path, "/tmp/out.log");
            assert_eq!(stderr_log.path, "/tmp/err.log");
            assert_eq!(
                stderr_log.options,
                ReadOrWrite::Write(WriteOptions {
                    create: true,
                    append: true
                })
            );
        }
        other => panic!("unexpected {other:?}"),
    }
}

#[test]
fn run_all_takes_every_inactive_container() {
    let mut net = network(&["b", "a", "c"]);
    let (mut p, _) = net.run(strings(&["b"]), false).unwrap();
    net.run_next(&mut p, ok(""));
    net.run_next(&mut p, ok(""));
    net.run_next(&mut p, ok("idb"));
    net.run_next(&mut p, ok(""));
    let (p, _) = net.run_all(false).unwrap();
    assert_eq!(p.names(), &strings(&["a", "c"]));
}

#[test]
fn interference_is_noticed() {
    let mut net = network(&["a", "b"]);
    let (mut p, _) = net.run(strings(&["a", "b"]), false).unwrap();
    net.run_next(&mut p, ok(""));
    net.run_next(&mut p, ok(""));
    net.run_next(&mut p, ok("ida"));
    assert!(net.run_in_step(&p));
    // someone terminates `a` behind the back of the run
    net.terminate(&strings(&["a"]));
    assert!(!net.run_in_step(&p));
}

#[test]
fn trim_newline_takes_one_newline_off() {
    assert_eq!(trim_newline("abc\n"), "abc");
    assert_eq!(trim_newline("abc"), "abc");
    assert_eq!(trim_newline("abc\n\n"), "abc\n");
    assert_eq!(trim_newline("\n"), "");
    assert_eq!(trim_newline(""), "");
}

#[test]
fn all_distinct_finds_repetitions() {
    assert!(all_distinct(&strings(&[])));
    assert!(all_distinct(&strings(&["a", "b", "ab"])));
    assert!(!all_distinct(&strings(&["a", "b", "a"])));
    assert!(!all_distinct(&strings(&["", ""])));
}
