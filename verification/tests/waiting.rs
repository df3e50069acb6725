use super_orchestrator::container::Container;
use super_orchestrator::container_state::{CommandResult, RunState};
use super_orchestrator::dockerfile::Dockerfile;
use super_orchestrator::error::ErrorKind;
use super_orchestrator::network::ContainerNetwork;
use super_orchestrator::run::{RunAction, RunEvent};
use super_orchestrator::wait::{
    PollOutcome, WaitAction, WaitFinish, WaitProgress, WaitResult, FAILURE_GRACE_MS, POLL_PAUSE_MS,
};

const SECOND: u128 = 1_000_000_000;

fn strings(items: &[&str]) -> Vec<String> {
    items.iter().map(|s| s.to_string()).collect()
}

fn result(status: Option<i32>, stdout: &str) -> CommandResult {
    CommandResult {
        status,
        stdout: stdout.as_bytes().to_vec(),
        stderr: Vec::new(),
    }
}

/// A network whose containers are all up, with the id `id-<name>` each.
fn running(names: &[&str]) -> ContainerNetwork {
    let mut net = ContainerNetwork::new("testnet", None, "./logs");
    for name in names {
        net.add_container(Container::new(name, Dockerfile::name_tag("alpine:3")))
            .unwrap();
    }
    let (mut p, _) = net.run(strings(names), false).unwrap();
    let mut event = RunEvent::Success {
        output: String::new(),
    };
    loop {
        match net.run_next(&mut p, event) {
            RunAction::CreateNetwork { .. } | RunAction::StartContainer { .. } => {
                event = RunEvent::Success {
                    output: String::new(),
                }
            }
            RunAction::CreateContainer { name } => {
                event = RunEvent::Success {
                    output: format!("id-{name}\n"),
                }
            }
            RunAction::Finished { result, .. } => {
                result.unwrap();
                break;
            }
        }
    }
    net
}

fn poll(action: WaitAction) -> (String, u64) {
    match action {
        WaitAction::Poll { name, sleep_ms } => (name, sleep_ms),
        other => panic!("unexpected {other:?}"),
    }
}

fn finish(action: WaitAction) -> WaitFinish {
    match action {
        WaitAction::Finished(f) => f,
        other => panic!("unexpected {other:?}"),
    }
}

/// Drives a wait over containers that stay as they are: those of `finished`
/// have finished, the others run. Every look at the clock shows `elapsed`.
fn drive(
    net: &mut ContainerNetwork,
    p: &mut WaitProgress,
    finished: &[(&str, CommandResult)],
    elapsed: u128,
) -> WaitFinish {
    for _ in 0..1000 {
        assert!(net.wait_in_step(p));
        match net.wait_next(p, false, elapsed) {
            WaitAction::Finished(f) => return f,
            WaitAction::Poll { name, .. } => {
                let outcome = match finished.iter().find(|(n, _)| *n == name) {
                    Some((_, r)) => PollOutcome::Finished(r.clone()),
                    None => PollOutcome::Pending,
                };
                if let Some(f) = net.wait_polled(p, outcome) {
                    return f;
                }
            }
        }
    }
    panic!("the wait does not end");
}

#[test]
fn happy_path_wait_for_all() {
    let mut net = running(&["a", "b"]);
    let mut p = net.wait_with_timeout_all(true, 10 * SECOND).unwrap();
    assert_eq!(p.names(), &strings(&["a", "b"]));
    assert!(p.terminate_on_failure());
    assert_eq!(p.duration(), 10 * SECOND);
    assert_eq!(poll(net.wait_next(&mut p, false, 0)), ("a".to_string(), 0));
    assert!(net.wait_polled(&mut p, PollOutcome::Finished(result(Some(0), "out a"))).is_none());
    assert_eq!(p.names(), &strings(&["b"]));
    assert_eq!(poll(net.wait_next(&mut p, false, 1)), ("b".to_string(), 0));
    assert!(net.wait_polled(&mut p, PollOutcome::Finished(result(Some(0), "out b"))).is_none());
    let f = finish(net.wait_next(&mut p, false, 2));
    assert!(matches!(f.result, WaitResult::Done));
    assert_eq!(f.sleep_ms, 0);
    assert!(f.teardown.is_none());
    for name in ["a", "b"] {
        let state = net.state(name).unwrap();
        assert!(matches!(state.run_state(), RunState::PostActive(r) if r.status == Some(0)));
        assert_eq!(state.active_container_id(), None);
    }
    assert!(net.network_active());
    let teardown = net.terminate_all();
    assert_eq!(teardown.remove_network, Some("testnet".to_string()));
    assert!(teardown
        .containers
        .iter()
        .all(|t| t.action.remove_container.is_none() && !t.action.stop_runner));
    assert!(!net.network_active());
    // the results stay
    assert!(matches!(
        net.state("a").unwrap().run_state(),
        RunState::PostActive(_)
    ));
    // and again
    let again = net.terminate_all();
    assert_eq!(again.remove_network, None);
    assert!(net.active_names().is_empty());
}

#[test]
fn waiting_needs_active_and_distinct_names() {
    let mut net = running(&["a", "b"]);
    net.add_container(Container::new("idle", Dockerfile::name_tag("alpine:3")))
        .unwrap();
    assert_eq!(
        net.wait_with_timeout(strings(&["a", "idle"]), false, SECOND)
            .unwrap_err()
            .kind,
        ErrorKind::Validation
    );
    assert_eq!(
        net.wait_with_timeout(strings(&["nobody"]), false, SECOND)
            .unwrap_err()
            .kind,
        ErrorKind::Validation
    );
    assert_eq!(
        net.wait_with_timeout(strings(&["a", "a"]), false, SECOND)
            .unwrap_err()
            .kind,
        ErrorKind::Validation
    );
    assert!(net.wait_with_timeout(strings(&["b", "a"]), false, SECOND).is_ok());
    assert!(net.wait_with_timeout(vec![], false, SECOND).is_ok());
}

#[test]
fn an_empty_wait_is_done() {
    let mut net = running(&["a"]);
    let mut p = net.wait_with_timeout(vec![], true, 0).unwrap();
    let f = finish(net.wait_next(&mut p, false, 5));
    assert!(matches!(f.result, WaitResult::Done));
    assert!(net.state("a").unwrap().is_active());
}

#[test]
fn zero_duration_succeeds_iff_all_have_finished() {
    // all finished
    let mut net = running(&["a", "b", "c"]);
    let mut p = net.wait_with_timeout(strings(&["c", "a", "b"]), false, 0).unwrap();
    let all = [
        ("a", result(Some(0), "")),
        ("b", result(Some(0), "")),
        ("c", result(Some(0), "")),
    ];
    let f = drive(&mut net, &mut p, &all, 1);
    assert!(matches!(f.result, WaitResult::Done));
    assert_eq!(f.sleep_ms, 0);
    assert!(net.active_names().is_empty());

    // one still runs
    let mut net = running(&["a", "b", "c"]);
    let mut p = net.wait_with_timeout(strings(&["c", "a", "b"]), false, 0).unwrap();
    let some = [("a", result(Some(0), "")), ("c", result(Some(0), ""))];
    let f = drive(&mut net, &mut p, &some, 1);
    match f.result {
        WaitResult::TimedOut(e) => {
            assert_eq!(e.kind, ErrorKind::Timeout);
            assert!(e.is_timeout());
            assert_eq!(
                e.stack,
                strings(&[
                    "ContainerNetwork::wait_with_timeout timeout waiting for container names [b] to complete"
                ])
            );
        }
        other => panic!("unexpected {other:?}"),
    }
    assert!(f.teardown.is_none());
    assert_eq!(p.names(), &strings(&["b"]));
    assert_eq!(net.active_names(), strings(&["b"]));

    // none has finished
    let mut net = running(&["a", "b"]);
    let mut p = net.wait_with_timeout_all(false, 0).unwrap();
    let f = drive(&mut net, &mut p, &[], 1);
    assert!(matches!(f.result, WaitResult::TimedOut(_)));
    assert_eq!(net.active_names(), strings(&["a", "b"]));
}

#[test]
fn zero_duration_with_finished_containers_asks_each_once_and_never_sleeps() {
    let mut net = running(&["a", "b"]);
    let mut p = net.wait_with_timeout_all(true, 0).unwrap();
    let mut asked = Vec::new();
    loop {
        match net.wait_next(&mut p, false, 12345) {
            WaitAction::Poll { name, sleep_ms } => {
                assert_eq!(sleep_ms, 0);
                asked.push(name);
                assert!(net
                    .wait_polled(&mut p, PollOutcome::Finished(result(Some(0), "")))
                    .is_none());
            }
            WaitAction::Finished(f) => {
                assert!(matches!(f.result, WaitResult::Done));
                break;
            }
        }
    }
    assert_eq!(asked, strings(&["a", "b"]));
}

#[test]
fn the_grace_round_asks_every_name_once_more() {
    let mut net = running(&["a", "b"]);
    let mut p = net.wait_with_timeout_all(false, 0).unwrap();
    let mut asked = Vec::new();
    let f = loop {
        match net.wait_next(&mut p, false, 1) {
            WaitAction::Poll { name, sleep_ms } => {
                assert_eq!(sleep_ms, 0);
                asked.push(name);
                assert!(net.wait_polled(&mut p, PollOutcome::Pending).is_none());
            }
            WaitAction::Finished(f) => break f,
        }
    };
    assert_eq!(asked, strings(&["a", "b", "a", "b"]));
    assert!(matches!(f.result, WaitResult::TimedOut(_)));
}

#[test]
fn a_container_that_finishes_in_the_grace_round_counts() {
    let mut net = running(&["a"]);
    let mut p = net.wait_with_timeout_all(true, 0).unwrap();
    poll(net.wait_next(&mut p, false, 1));
    assert!(net.wait_polled(&mut p, PollOutcome::Pending).is_none());
    poll(net.wait_next(&mut p, false, 1));
    assert!(net
        .wait_polled(&mut p, PollOutcome::Finished(result(Some(0), "")))
        .is_none());
    let f = finish(net.wait_next(&mut p, false, 1));
    assert!(matches!(f.result, WaitResult::Done));
}

#[test]
fn within_the_time_the_passes_are_spaced_by_a_pause() {
    let mut net = running(&["a", "b"]);
    let mut p = net.wait_with_timeout_all(true, SECOND).unwrap();
    assert_eq!(poll(net.wait_next(&mut p, false, 0)), ("a".to_string(), 0));
    net.wait_polled(&mut p, PollOutcome::Pending);
    assert_eq!(poll(net.wait_next(&mut p, false, 1)), ("b".to_string(), 0));
    net.wait_polled(&mut p, PollOutcome::Pending);
    // the pass is over and there is time left
    assert_eq!(
        poll(net.wait_next(&mut p, false, 2)),
        ("a".to_string(), POLL_PAUSE_MS)
    );
    assert_eq!(POLL_PAUSE_MS, 256);
    net.wait_polled(&mut p, PollOutcome::Finished(result(Some(0), "")));
    // the next name moves under the cursor and is asked in the same pass
    assert_eq!(poll(net.wait_next(&mut p, false, 3)), ("b".to_string(), 0));
    // exactly the duration is not yet too long
    net.wait_polled(&mut p, PollOutcome::Pending);
    assert_eq!(
        poll(net.wait_next(&mut p, false, SECOND)),
        ("b".to_string(), POLL_PAUSE_MS)
    );
}

#[test]
fn timeout_with_termination() {
    let mut net = running(&["a", "b"]);
    let mut p = net.wait_with_timeout(strings(&["a", "b"]), true, SECOND).unwrap();
    // first pass, in time
    poll(net.wait_next(&mut p, false, 0));
    net.wait_polled(&mut p, PollOutcome::Pending);
    poll(net.wait_next(&mut p, false, 0));
    net.wait_polled(&mut p, PollOutcome::Pending);
    // the time has run out: one extra pass
    assert_eq!(
        poll(net.wait_next(&mut p, false, SECOND + 1)),
        ("a".to_string(), 0)
    );
    net.wait_polled(&mut p, PollOutcome::Pending);
    poll(net.wait_next(&mut p, false, SECOND + 2));
    net.wait_polled(&mut p, PollOutcome::Pending);
    let f = finish(net.wait_next(&mut p, false, SECOND + 3));
    assert_eq!(f.sleep_ms, FAILURE_GRACE_MS);
    assert_eq!(FAILURE_GRACE_MS, 300);
    match f.result {
        WaitResult::TimedOut(e) => {
            assert_eq!(e.kind, ErrorKind::Timeout);
            assert_eq!(
                e.stack,
                strings(&[
                    "ContainerNetwork::wait_with_timeout timeout waiting for container names [a, b] to complete"
                ])
            );
        }
        other => panic!("unexpected {other:?}"),
    }
    let teardown = f.teardown.unwrap();
    assert_eq!(teardown.remove_network, Some("testnet".to_string()));
    assert_eq!(teardown.containers.len(), 2);
    assert_eq!(teardown.containers[0].name, "a");
    assert_eq!(
        teardown.containers[0].action.remove_container,
        Some("id-a".to_string())
    );
    assert!(teardown.containers[0].action.stop_runner);
    assert!(teardown.containers[1].action.stop_runner);
    // both are terminated
    assert!(net.active_names().is_empty());
    assert!(net.get_ids().is_empty());
    assert!(!net.network_active());
    // terminate_all is idempotent afterwards
    let again = net.terminate_all();
    assert_eq!(again.remove_network, None);
    assert!(again
        .containers
        .iter()
        .all(|t| t.action.remove_container.is_none() && !t.action.stop_runner));
    assert!(net.active_names().is_empty());
}

#[test]
fn timeout_without_termination_leaves_the_containers_running() {
    let mut net = running(&["a"]);
    let mut p = net.wait_with_timeout_all(false, SECOND).unwrap();
    let f = drive(&mut net, &mut p, &[], 2 * SECOND);
    assert!(matches!(f.result, WaitResult::TimedOut(_)));
    assert_eq!(f.sleep_ms, 0);
    assert!(f.teardown.is_none());
    assert_eq!(net.active_names(), strings(&["a"]));
    assert!(net.network_active());
}

#[test]
fn cancellation() {
    let mut net = running(&["a", "b"]);
    let mut p = net.wait_with_timeout_all(false, 60 * SECOND).unwrap();
    poll(net.wait_next(&mut p, false, 0));
    net.wait_polled(&mut p, PollOutcome::Pending);
    // the flag is set: the next look ends the wait
    let f = finish(net.wait_next(&mut p, true, 1));
    match f.result {
        WaitResult::Cancelled(e) => {
            assert_eq!(e.kind, ErrorKind::Cancelled);
            assert_eq!(
                e.stack,
                strings(&[
                    "ContainerNetwork::wait_with_timeout terminating because of `CTRLC_ISSUED`"
                ])
            );
        }
        other => panic!("unexpected {other:?}"),
    }
    let teardown = f.teardown.unwrap();
    assert_eq!(teardown.remove_network, Some("testnet".to_string()));
    assert_eq!(teardown.containers.len(), 2);
    assert!(teardown.containers.iter().all(|t| t.action.stop_runner));
    assert!(net.active_names().is_empty());
    assert!(!net.network_active());
}

#[test]
fn cancellation_comes_before_success() {
    let mut net = running(&["a"]);
    let mut p = net.wait_with_timeout(vec![], false, 0).unwrap();
    let f = finish(net.wait_next(&mut p, true, 0));
    assert!(matches!(f.result, WaitResult::Cancelled(_)));
    assert!(net.active_names().is_empty());
}

#[test]
fn error_aggregation() {
    let mut net = running(&["p", "q"]);
    let mut w = net.wait_with_timeout_all(true, 10 * SECOND).unwrap();
    let p_out = "starting\nError: Error { stack: [\nLocation { file: \"src/main.rs\", line: 3 },\n\"root cause\",\n] }\n";
    let q_out = "working\nthread 'main' panicked at 'boom', src/main.rs:7:5\nnote: run with RUST_BACKTRACE=1\n";
    assert_eq!(poll(net.wait_next(&mut w, false, 0)).0, "p");
    let f = net
        .wait_polled(&mut w, PollOutcome::Finished(result(Some(1), p_out)))
        .unwrap();
    assert!(matches!(f.result, WaitResult::Failed));
    assert_eq!(f.sleep_ms, 300);
    let teardown = f.teardown.unwrap();
    assert_eq!(teardown.remove_network, Some("testnet".to_string()));
    // `p` has finished and removes itself; `q` is terminated
    assert_eq!(teardown.containers.len(), 2);
    assert_eq!(teardown.containers[0].name, "p");
    assert_eq!(teardown.containers[0].action.remove_container, None);
    assert!(!teardown.containers[0].action.stop_runner);
    assert_eq!(teardown.containers[1].name, "q");
    assert_eq!(
        teardown.containers[1].action.remove_container,
        Some("id-q".to_string())
    );
    assert!(teardown.containers[1].action.stop_runner);
    assert!(net.active_names().is_empty());
    assert!(!net.network_active());
    // the handle of `q` had exited with 1 as well
    net.stopped("q", Some(result(Some(1), q_out)));
    let e = net.wait_failed_error();
    assert_eq!(e.kind, ErrorKind::Aggregate);
    assert_eq!(e.stack.len(), 3);
    assert_eq!(
        e.stack[0],
        "Error stack from container \"p\":\nError { stack: [\nLocation { file: \"src/main.rs\", line: 3 },\n\"root cause\",\n] }\n\n"
    );
    assert_eq!(
        e.stack[1],
        "Panic message from container \"q\":\nthread 'main' panicked at 'boom', src/main.rs:7:5\nnote: run with RUST_BACKTRACE=1\n\n"
    );
    assert_eq!(
        e.stack[2],
        "ContainerNetwork::wait_with_timeout error compilation (check logs for more):\n"
    );
    assert!(e.stack.iter().all(|m| !m.contains("ProbablyNotRootCauseError")));
}

#[test]
fn consequences_are_left_out_of_the_aggregate() {
    let mut net = running(&["a", "b", "c", "d"]);
    let mut w = net.wait_with_timeout_all(true, SECOND).unwrap();
    poll(net.wait_next(&mut w, false, 0));
    let f = net
        .wait_polled(
            &mut w,
            PollOutcome::Finished(result(Some(1), "Error { stack: [ first ] }\nError { stack: [ last ] }")),
        )
        .unwrap();
    assert!(matches!(f.result, WaitResult::Failed));
    net.stopped(
        "b",
        Some(result(
            Some(1),
            "Error { stack: [ ProbablyNotRootCauseError, \"peer went away\" ] }",
        )),
    );
    // terminated without a word: nothing to say
    net.stopped("c", Some(result(None, "still working")));
    // failed without a word
    net.stopped("d", Some(result(Some(2), "no marker here")));
    let e = net.error_compilation();
    assert_eq!(
        e.stack,
        strings(&[
            "Error stack from container \"a\":\nError { stack: [ last ] }\n",
            "Error: Container \"d\" was unsuccessful but does not seem to have an error stack or panic message\n",
        ])
    );
}

#[test]
fn a_failure_without_termination_goes_on() {
    let mut net = running(&["a", "b"]);
    let mut w = net.wait_with_timeout_all(false, SECOND).unwrap();
    poll(net.wait_next(&mut w, false, 0));
    assert!(net
        .wait_polled(&mut w, PollOutcome::Finished(result(Some(1), "")))
        .is_none());
    assert_eq!(poll(net.wait_next(&mut w, false, 0)).0, "b");
    assert!(net
        .wait_polled(&mut w, PollOutcome::Finished(result(Some(0), "")))
        .is_none());
    let f = finish(net.wait_next(&mut w, false, 0));
    assert!(matches!(f.result, WaitResult::Done));
    assert!(matches!(
        net.state("a").unwrap().run_state(),
        RunState::PostActive(r) if r.status == Some(1)
    ));
}

#[test]
fn a_broken_handle_ends_the_wait() {
    let mut net = running(&["a", "b"]);
    let mut w = net.wait_with_timeout_all(false, SECOND).unwrap();
    poll(net.wait_next(&mut w, false, 0));
    let f = net.wait_polled(&mut w, PollOutcome::Broken).unwrap();
    assert!(matches!(f.result, WaitResult::Failed));
    assert_eq!(f.sleep_ms, 0);
    let teardown = f.teardown.unwrap();
    assert_eq!(teardown.remove_network, None);
    assert_eq!(teardown.containers.len(), 1);
    assert_eq!(teardown.containers[0].name, "a");
    assert!(teardown.containers[0].action.stop_runner);
    assert_eq!(net.active_names(), strings(&["b"]));
    assert!(net.network_active());

    let mut net = running(&["a", "b"]);
    let mut w = net.wait_with_timeout_all(true, SECOND).unwrap();
    poll(net.wait_next(&mut w, false, 0));
    let f = net.wait_polled(&mut w, PollOutcome::Broken).unwrap();
    assert_eq!(f.sleep_ms, 300);
    assert_eq!(f.teardown.unwrap().containers.len(), 2);
    assert!(net.active_names().is_empty());
    assert!(!net.network_active());
}

#[test]
fn a_finished_container_can_be_run_again() {
    let mut net = running(&["a"]);
    let mut w = net.wait_with_timeout_all(true, SECOND).unwrap();
    poll(net.wait_next(&mut w, false, 0));
    net.wait_polled(&mut w, PollOutcome::Finished(result(Some(0), "")));
    let (p, _) = net.run(strings(&["a"]), false).unwrap();
    assert_eq!(p.names(), &strings(&["a"]));
}

#[test]
fn wait_in_step_notices_interference() {
    let mut net = running(&["a", "b"]);
    let w = net.wait_with_timeout_all(true, SECOND).unwrap();
    assert!(net.wait_in_step(&w));
    net.terminate(&strings(&["b"]));
    assert!(!net.wait_in_step(&w));
}
