use super_orchestrator::container::Container;
use super_orchestrator::container_state::{CommandResult, ContainerState, RunState};
use super_orchestrator::dockerfile::Dockerfile;
use super_orchestrator::error::ErrorKind;
use super_orchestrator::network::ContainerNetwork;

fn strings(items: &[&str]) -> Vec<String> {
    items.iter().map(|s| s.to_string()).collect()
}

fn alpine(name: &str) -> Container {
    Container::new(name, Dockerfile::name_tag("alpine:3"))
}

fn result(status: Option<i32>, stdout: &str) -> CommandResult {
    CommandResult {
        status,
        stdout: stdout.as_bytes().to_vec(),
        stderr: Vec::new(),
    }
}

#[test]
fn new_network_is_empty_and_inactive() {
    let net = ContainerNetwork::new("net", Some("./dockerfiles"), "./logs");
    assert_eq!(net.network_name(), "net");
    assert_eq!(net.log_dir(), "./logs");
    assert_eq!(net.dockerfile_write_dir(), Some(&"./dockerfiles".to_string()));
    assert!(!net.network_active());
    assert_eq!(net.len(), 0);
    assert!(net.network_args.is_empty());
    assert!(net.active_names().is_empty());
    assert!(net.inactive_names().is_empty());
}

#[test]
fn uuid_is_kept_and_written_in_hyphenated_form() {
    let bits = 0x0123_4567_89ab_cdef_0123_4567_89ab_cdefu128;
    let net = ContainerNetwork::new_with_uuid(bits, "net", None, "logs");
    assert_eq!(net.uuid(), bits);
    assert_eq!(
        net.uuid_as_string(),
        "01234567-89ab-cdef-0123-456789abcdef"
    );
    assert_eq!(
        net.uuid_as_string(),
        uuid::Uuid::from_u128(bits).to_string()
    );
}

#[test]
fn every_new_network_has_a_uuid_of_its_own() {
    let a = ContainerNetwork::new("net", None, "logs");
    let b = ContainerNetwork::new("net", None, "logs");
    assert_ne!(a.uuid(), b.uuid());
    assert_eq!(uuid::Uuid::from_u128(a.uuid()).get_version_num(), 4);
    assert_eq!(a.uuid_as_string().len(), 36);
}

#[test]
fn network_args_are_appended() {
    let mut net = ContainerNetwork::new("net", None, "logs");
    net.add_network_args(strings(&["--subnet", "10.1.0.0/16"]));
    net.add_network_args(strings(&["--ipv6"]));
    assert_eq!(net.network_args, strings(&["--subnet", "10.1.0.0/16", "--ipv6"]));
    assert_eq!(
        net.network_create_args(),
        strings(&[
            "network",
            "create",
            "--internal",
            "--subnet",
            "10.1.0.0/16",
            "--ipv6",
            "net"
        ])
    );
}

#[test]
fn containers_are_kept_in_the_order_of_their_names() {
    let mut net = ContainerNetwork::new("net", None, "logs");
    for name in ["m", "b", "z", "a", "ab", ""] {
        net.add_container(alpine(name)).unwrap();
    }
    assert_eq!(net.len(), 6);
    assert_eq!(net.inactive_names(), strings(&["", "a", "ab", "b", "m", "z"]));
    assert_eq!(net.position("a"), Some(1));
    assert_eq!(net.position("z"), Some(5));
    assert_eq!(net.position("q"), None);
    assert_eq!(net.container("ab").unwrap().name, "ab");
    assert!(net.container("abc").is_none());
    assert!(net.state("m").is_some());
}

#[test]
fn names_are_ordered_by_code_point() {
    let mut net = ContainerNetwork::new("net", None, "logs");
    for name in ["é", "z", "Z", "10", "9", "日本"] {
        net.add_container(alpine(name)).unwrap();
    }
    let mut expected = strings(&["é", "z", "Z", "10", "9", "日本"]);
    expected.sort();
    assert_eq!(net.inactive_names(), expected);
}

#[test]
fn a_name_can_be_added_once() {
    let mut net = ContainerNetwork::new("net", None, "logs");
    net.add_container(alpine("a")).unwrap();
    let e = net.add_container(alpine("a")).unwrap_err();
    assert_eq!(e.kind, ErrorKind::Validation);
    assert_eq!(net.len(), 1);
}

#[test]
fn contents_need_a_write_dir() {
    let mut net = ContainerNetwork::new("net", None, "logs");
    let e = net
        .add_container(Container::new("c", Dockerfile::contents("FROM scratch")))
        .unwrap_err();
    assert_eq!(e.kind, ErrorKind::Validation);
    assert_eq!(net.len(), 0);
    let mut net = ContainerNetwork::new("net", Some("dir"), "logs");
    net.add_container(Container::new("c", Dockerfile::contents("FROM scratch")))
        .unwrap();
    assert_eq!(net.len(), 1);
    // a path needs none
    let mut net = ContainerNetwork::new("net", None, "logs");
    net.add_container(Container::new("c", Dockerfile::path("./Dockerfile")))
        .unwrap();
}

#[test]
fn common_volumes_and_args_reach_the_containers_of_the_moment() {
    let mut net = ContainerNetwork::new("net", None, "logs");
    net.add_container(alpine("a").volume("/h0".to_string(), "/c0".to_string()))
        .unwrap();
    net.add_container(alpine("b").entrypoint("/bin/x".to_string(), strings(&["first"])))
        .unwrap();
    net.add_common_volumes(vec![
        ("/h1".to_string(), "/c1".to_string()),
        ("/h2".to_string(), "/c2".to_string()),
    ]);
    net.add_common_entrypoint_args(strings(&["--common", "x"]));
    net.add_container(alpine("late")).unwrap();
    let a = net.container("a").unwrap();
    assert_eq!(
        a.volumes,
        vec![
            ("/h0".to_string(), "/c0".to_string()),
            ("/h1".to_string(), "/c1".to_string()),
            ("/h2".to_string(), "/c2".to_string()),
        ]
    );
    assert_eq!(a.entrypoint_args, strings(&["--common", "x"]));
    let b = net.container("b").unwrap();
    assert_eq!(b.volumes.len(), 2);
    assert_eq!(b.entrypoint_args, strings(&["first", "--common", "x"]));
    assert_eq!(b.entrypoint_file, Some("/bin/x".to_string()));
    let late = net.container("late").unwrap();
    assert!(late.volumes.is_empty());
    assert!(late.entrypoint_args.is_empty());
}

#[test]
fn container_state_starts_pre_active() {
    let s = ContainerState::new(alpine("a"));
    assert!(!s.is_active());
    assert!(matches!(s.run_state(), RunState::PreActive));
    assert_eq!(s.active_container_id(), None);
    assert_eq!(s.container().name, "a");
}

#[test]
fn container_mut_changes_the_description() {
    let mut s = ContainerState::new(alpine("a"));
    s.container_mut().build_args.push("K=V".to_string());
    assert_eq!(s.container().build_args, strings(&["K=V"]));
    assert!(!s.is_active());
}

#[test]
fn container_state_goes_through_its_life() {
    let mut s = ContainerState::new(alpine("a"));
    // not created: cannot start
    assert!(!s.started());
    assert!(!s.is_active());
    s.created("id-1".to_string());
    assert_eq!(s.active_container_id(), Some(&"id-1".to_string()));
    assert!(!s.is_active());
    assert!(s.started());
    assert!(s.is_active());
    assert!(s.finished(result(Some(0), "out")));
    assert!(!s.is_active());
    assert_eq!(s.active_container_id(), None);
    match s.run_state() {
        RunState::PostActive(r) => {
            assert_eq!(r.status, Some(0));
            assert_eq!(r.stdout, b"out".to_vec());
        }
        _ => panic!("not finished"),
    }
    // finished once
    assert!(!s.finished(result(Some(1), "")));
}

#[test]
fn terminate_is_idempotent() {
    let mut s = ContainerState::new(alpine("a"));
    s.created("id-1".to_string());
    assert!(s.started());
    let first = s.terminate();
    assert_eq!(first.remove_container, Some("id-1".to_string()));
    assert!(first.stop_runner);
    assert!(!s.is_active());
    assert!(matches!(s.run_state(), RunState::PreActive));
    assert_eq!(s.active_container_id(), None);
    let second = s.terminate();
    assert_eq!(second.remove_container, None);
    assert!(!second.stop_runner);
    assert!(matches!(s.run_state(), RunState::PreActive));
    assert_eq!(s.active_container_id(), None);
}

#[test]
fn terminate_of_a_created_container_removes_it_without_a_runner() {
    let mut s = ContainerState::new(alpine("a"));
    s.created("id-1".to_string());
    let action = s.terminate();
    assert_eq!(action.remove_container, Some("id-1".to_string()));
    assert!(!action.stop_runner);
}

#[test]
fn terminate_leaves_a_finished_container_finished() {
    let mut s = ContainerState::new(alpine("a"));
    s.created("id-1".to_string());
    s.started();
    s.finished(result(Some(3), "x"));
    let action = s.terminate();
    assert_eq!(action.remove_container, None);
    assert!(!action.stop_runner);
    assert!(matches!(s.run_state(), RunState::PostActive(r) if r.status == Some(3)));
}

#[test]
fn stopped_records_the_result_of_a_terminated_handle() {
    let mut s = ContainerState::new(alpine("a"));
    s.created("id".to_string());
    s.started();
    // while it is active nothing is recorded
    s.stopped(Some(result(Some(9), "")));
    assert!(s.is_active());
    s.terminate();
    s.stopped(None);
    assert!(matches!(s.run_state(), RunState::PreActive));
    s.stopped(Some(result(None, "late output")));
    assert!(matches!(s.run_state(), RunState::PostActive(r) if r.status.is_none()));
    // a second result does not replace the first
    s.stopped(Some(result(Some(1), "")));
    assert!(matches!(s.run_state(), RunState::PostActive(r) if r.status.is_none()));
}

#[test]
fn drop_guard_hands_the_id_out_once() {
    let mut s = ContainerState::new(alpine("a"));
    s.created("id".to_string());
    assert_eq!(s.drop_guard(), Some("id".to_string()));
    assert_eq!(s.active_container_id(), None);
    s.created("again".to_string());
    assert_eq!(s.drop_guard(), None);
    assert_eq!(s.active_container_id(), Some(&"again".to_string()));
    let mut clean = ContainerState::new(alpine("b"));
    assert_eq!(clean.drop_guard(), None);
    assert_eq!(clean.drop_guard(), None);
}

#[test]
fn command_result_success() {
    assert!(result(Some(0), "").successful());
    assert!(result(Some(0), "").successful_or_terminated());
    assert!(!result(Some(1), "").successful());
    assert!(!result(Some(1), "").successful_or_terminated());
    assert!(!result(Some(-1), "").successful());
    assert!(!result(None, "").successful());
    assert!(result(None, "").successful_or_terminated());
    assert!(result(Some(0), "").assert_success().is_ok());
    assert_eq!(
        result(Some(2), "").assert_success().unwrap_err().kind,
        ErrorKind::ExternalCommand
    );
    assert_eq!(
        result(None, "").assert_success().unwrap_err().kind,
        ErrorKind::ExternalCommand
    );
}

#[test]
fn terminate_all_on_a_clean_network_changes_nothing() {
    let mut net = ContainerNetwork::new("net", None, "logs");
    net.add_container(alpine("a")).unwrap();
    net.add_container(alpine("b")).unwrap();
    let teardown = net.terminate_all();
    assert_eq!(teardown.remove_network, None);
    assert_eq!(teardown.containers.len(), 2);
    for t in &teardown.containers {
        assert_eq!(t.action.remove_container, None);
        assert!(!t.action.stop_runner);
    }
    assert!(!net.network_active());
    assert_eq!(net.inactive_names(), strings(&["a", "b"]));
    assert!(net.get_ids().is_empty());
}

#[test]
fn terminate_passes_over_unknown_names() {
    let mut net = ContainerNetwork::new("net", None, "logs");
    net.add_container(alpine("a")).unwrap();
    let plan = net.terminate(&strings(&["nobody", "a", "a"]));
    assert_eq!(plan.len(), 2);
    assert_eq!(plan[0].name, "a");
    assert_eq!(plan[1].name, "a");
    assert!(net.terminate_containers().iter().all(|t| !t.action.stop_runner));
}

#[test]
fn container_id_is_known_for_created_containers_only() {
    let mut net = ContainerNetwork::new("net", None, "logs");
    net.add_container(alpine("a")).unwrap();
    assert_eq!(
        net.container_id("nobody").unwrap_err().kind,
        ErrorKind::Validation
    );
    assert_eq!(net.container_id("a").unwrap_err().kind, ErrorKind::Validation);
}

#[test]
fn error_compilation_of_a_quiet_network_is_empty() {
    let mut net = ContainerNetwork::new("net", None, "logs");
    net.add_container(alpine("a")).unwrap();
    let e = net.error_compilation();
    assert_eq!(e.kind, ErrorKind::Aggregate);
    assert!(e.stack.is_empty());
    let e = net.wait_failed_error();
    assert_eq!(e.kind, ErrorKind::Aggregate);
    assert_eq!(
        e.stack,
        vec![
            "ContainerNetwork::wait_with_timeout error compilation (check logs for more):\n"
                .to_string()
        ]
    );
}

#[test]
fn descriptions_are_equal_when_their_fields_are() {
    let a = alpine("a").volume("/h".to_string(), "/c".to_string());
    let b = alpine("a").volume("/h".to_string(), "/c".to_string());
    assert_eq!(a, b);
    assert_ne!(a, alpine("a"));
    assert_ne!(alpine("a"), alpine("b"));
    assert_ne!(
        alpine("a"),
        Container::new("a", Dockerfile::name_tag("alpine:4"))
    );
    assert_eq!(Dockerfile::path("x"), Dockerfile::path("x"));
    assert_ne!(Dockerfile::path("x"), Dockerfile::contents("x"));
    assert_eq!(result(Some(1), "o"), result(Some(1), "o"));
    assert_ne!(result(Some(1), "o"), result(None, "o"));
}
