//! Waiting for containers to finish, step by step.
//!
//! The engine goes over a work list of names again and again. For each name
//! the caller asks the handle that supervises the container whether it has
//! finished, without blocking, and reports the answer. Before each look the
//! caller reports whether cancellation was asked for and how much time has
//! passed.

use vstd::prelude::*;
use crate::container_state::CommandResult;
use crate::error::{Error, ErrorKind, ErrorView};
use crate::network::{
    all_terminated, all_terminations, index_of, lemma_index_from, name_of, terminations,
    ContainerNetwork, ContainerNetworkView, Teardown, TerminationView,
};
use crate::run::{lemma_set_state, set_state, state_named};
use crate::text::{all_distinct, distinct, join, joined};

verus! {

/// The pause between two passes over the work list, in milliseconds.
pub const POLL_PAUSE_MS: u64 = 256;

/// The time that failing containers get to write their own errors before
/// the network is torn down, in milliseconds.
pub const FAILURE_GRACE_MS: u64 = 300;

/// The progress of one wait.
#[derive(Debug)]
pub struct WaitProgress {
    names: Vec<String>,
    terminate_on_failure: bool,
    duration: u128,
    cursor: usize,
    skip_fail: bool,
}

/// A `WaitProgress` as plain values.
pub struct WaitProgressView {
    /// The names of the containers that have not finished yet.
    pub names: Seq<Seq<char>>,
    /// Whether the whole network is terminated when a container fails or the
    /// time runs out.
    pub terminate_on_failure: bool,
    /// The time that the wait may take, in nanoseconds.
    pub duration: u128,
    /// The position in the work list of the name that is looked at next.
    pub cursor: usize,
    /// Whether the one extra pass after the time has run out is still to come.
    pub skip_fail: bool,
}

impl View for WaitProgress {
    type V = WaitProgressView;

    closed spec fn view(&self) -> WaitProgressView {
        WaitProgressView {
            names: self.names.deep_view(),
            terminate_on_failure: self.terminate_on_failure,
            duration: self.duration,
            cursor: self.cursor,
            skip_fail: self.skip_fail,
        }
    }
}

/// What the handle of a container answered.
#[derive(Debug)]
pub enum PollOutcome {
    /// The container has finished, with this result.
    Finished(CommandResult),
    /// The container is still running.
    Pending,
    /// The handle failed in another way than by running out of time.
    Broken,
}

/// How a wait ended.
#[derive(Debug)]
pub enum WaitResult {
    /// Every container of the work list has finished.
    Done,
    /// Cancellation was asked for.
    Cancelled(Error),
    /// The time ran out.
    TimedOut(Error),
    /// A container failed. The error is compiled from the outputs of the
    /// containers once the teardown is completed (see `wait_failed_error`).
    Failed,
}

/// `WaitResult` as plain values.
pub enum WaitResultView {
    Done,
    Cancelled(ErrorView),
    TimedOut(ErrorView),
    Failed,
}

impl View for WaitResult {
    type V = WaitResultView;

    open spec fn view(&self) -> WaitResultView {
        match self {
            WaitResult::Done => WaitResultView::Done,
            WaitResult::Cancelled(e) => WaitResultView::Cancelled(e@),
            WaitResult::TimedOut(e) => WaitResultView::TimedOut(e@),
            WaitResult::Failed => WaitResultView::Failed,
        }
    }
}

/// The end of a wait: what the caller has to do, and the result.
#[derive(Debug)]
pub struct WaitFinish {
    /// How long to sleep before the teardown, in milliseconds.
    pub sleep_ms: u64,
    /// The terminations to complete, and the network to remove.
    pub teardown: Option<Teardown>,
    pub result: WaitResult,
}

/// A teardown as plain values.
pub struct TeardownView {
    pub containers: Seq<TerminationView>,
    pub remove_network: Option<Seq<char>>,
}

impl View for Teardown {
    type V = TeardownView;

    open spec fn view(&self) -> TeardownView {
        TeardownView {
            containers: terminations(self.containers@),
            remove_network: match self.remove_network {
                Some(n) => Some(n@),
                None => None,
            },
        }
    }
}

/// `WaitFinish` as plain values.
pub struct WaitFinishView {
    pub sleep_ms: u64,
    pub teardown: Option<TeardownView>,
    pub result: WaitResultView,
}

impl View for WaitFinish {
    type V = WaitFinishView;

    open spec fn view(&self) -> WaitFinishView {
        WaitFinishView {
            sleep_ms: self.sleep_ms,
            teardown: match self.teardown {
                Some(t) => Some(t@),
                None => None,
            },
            result: self.result@,
        }
    }
}

/// What the caller has to do next.
#[derive(Debug)]
pub enum WaitAction {
    /// Sleep for `sleep_ms` milliseconds, then ask the handle of the
    /// container whether it has finished, and report the answer.
    Poll { name: String, sleep_ms: u64 },
    /// The wait is over.
    Finished(WaitFinish),
}

/// `WaitAction` as plain values.
pub enum WaitActionView {
    Poll { name: Seq<char>, sleep_ms: u64 },
    Finished(WaitFinishView),
}

impl View for WaitAction {
    type V = WaitActionView;

    open spec fn view(&self) -> WaitActionView {
        match self {
            WaitAction::Poll { name, sleep_ms } => WaitActionView::Poll {
                name: name@,
                sleep_ms: *sleep_ms,
            },
            WaitAction::Finished(f) => WaitActionView::Finished(f@),
        }
    }
}

/// Whether the names can be waited for: none occurs twice, and each is an
/// active container of the network.
pub open spec fn wait_valid(net: ContainerNetworkView, names: Seq<Seq<char>>) -> bool {
    &&& distinct(names)
    &&& forall|k: int|
        0 <= k < names.len() ==> index_of(net.states, #[trigger] names[k]) is Some && state_named(
            net.states,
            names[k],
        ).run_state is Active
}

/// What holds between the steps of a wait: every name of the work list is an
/// active container, none occurs twice, and the cursor is within the list or
/// at its end.
pub open spec fn wait_inv(net: ContainerNetworkView, p: WaitProgressView) -> bool {
    &&& p.names.len() <= usize::MAX
    &&& p.cursor <= p.names.len()
    &&& wait_valid(net, p.names)
}

/// The network after everything was terminated and the network removed.
pub open spec fn torn_down(net: ContainerNetworkView) -> ContainerNetworkView {
    ContainerNetworkView { states: all_terminated(net.states), network_active: false, ..net }
}

/// What a teardown of the network asks of the caller.
pub open spec fn teardown_of(net: ContainerNetworkView) -> TeardownView {
    TeardownView {
        containers: all_terminations(net.states),
        remove_network: if net.network_active {
            Some(net.network_name)
        } else {
            None
        },
    }
}

/// The error of a cancelled wait.
pub open spec fn cancelled_error() -> ErrorView {
    ErrorView {
        kind: ErrorKind::Cancelled,
        messages: seq![
            "ContainerNetwork::wait_with_timeout terminating because of `CTRLC_ISSUED`"@,
        ],
    }
}

/// The error of a wait that ran out of time with these names left.
pub open spec fn timeout_error(names: Seq<Seq<char>>) -> ErrorView {
    ErrorView {
        kind: ErrorKind::Timeout,
        messages: seq![
            "ContainerNetwork::wait_with_timeout timeout waiting for container names ["@ + joined(
                names,
                ", "@,
            ) + "] to complete"@,
        ],
    }
}

/// The look at the top of each round of a wait: whether the wait ends here,
/// and otherwise which container is asked next.
///
/// Cancellation tears the network down. An empty work list ends the wait
/// well. At the end of a pass the time is looked at: where it has not run
/// out, the next pass begins after a pause; where it has, one more pass is
/// granted, and after that the wait ends (and the network is torn down where
/// the caller asked for that). Within a pass the time is of no account.
pub open spec fn wait_top(
    net: ContainerNetworkView,
    p: WaitProgressView,
    cancelled: bool,
    elapsed: u128,
) -> (ContainerNetworkView, WaitProgressView, WaitActionView) {
    if cancelled {
        (
            torn_down(net),
            p,
            WaitActionView::Finished(
                WaitFinishView {
                    sleep_ms: 0,
                    teardown: Some(teardown_of(net)),
                    result: WaitResultView::Cancelled(cancelled_error()),
                },
            ),
        )
    } else if p.names.len() == 0 {
        (
            net,
            p,
            WaitActionView::Finished(
                WaitFinishView { sleep_ms: 0, teardown: None, result: WaitResultView::Done },
            ),
        )
    } else if p.cursor >= p.names.len() {
        if elapsed > p.duration {
            if p.skip_fail {
                (
                    net,
                    WaitProgressView { cursor: 0, skip_fail: false, ..p },
                    WaitActionView::Poll { name: p.names[0], sleep_ms: 0 },
                )
            } else if p.terminate_on_failure {
                (
                    torn_down(net),
                    WaitProgressView { cursor: 0, ..p },
                    WaitActionView::Finished(
                        WaitFinishView {
                            sleep_ms: FAILURE_GRACE_MS,
                            teardown: Some(teardown_of(net)),
                            result: WaitResultView::TimedOut(timeout_error(p.names)),
                        },
                    ),
                )
            } else {
                (
                    net,
                    WaitProgressView { cursor: 0, ..p },
                    WaitActionView::Finished(
                        WaitFinishView {
                            sleep_ms: 0,
                            teardown: None,
                            result: WaitResultView::TimedOut(timeout_error(p.names)),
                        },
                    ),
                )
            }
        } else {
            (
                net,
                WaitProgressView { cursor: 0, ..p },
                WaitActionView::Poll { name: p.names[0], sleep_ms: POLL_PAUSE_MS },
            )
        }
    } else {
        (net, p, WaitActionView::Poll { name: p.names[p.cursor as int], sleep_ms: 0 })
    }
}

/// What the answer of a handle means for the wait.
///
/// A container that has finished becomes `PostActive` with its result, gives
/// up its id, and leaves the work list; where it was unsuccessful and the
/// caller asked for that, the network is torn down after a grace time and the
/// wait has failed. A container that is still running is left for the next
/// pass. A broken handle ends the wait in failure: its container is
/// terminated, and with it the whole network where the caller asked for that.
pub open spec fn wait_answer(
    net: ContainerNetworkView,
    p: WaitProgressView,
    outcome: PollOutcome,
) -> (ContainerNetworkView, WaitProgressView, Option<WaitFinishView>) {
    if p.cursor >= p.names.len() {
        (net, p, None)
    } else {
        let name = p.names[p.cursor as int];
        let state = state_named(net.states, name);
        match outcome {
            PollOutcome::Finished(result) => {
                let recorded = set_state(net, name, state.finished(result));
                let left = WaitProgressView { names: p.names.remove(p.cursor as int), ..p };
                if p.terminate_on_failure && !result.spec_successful() {
                    (
                        torn_down(recorded),
                        left,
                        Some(
                            WaitFinishView {
                                sleep_ms: FAILURE_GRACE_MS,
                                teardown: Some(teardown_of(recorded)),
                                result: WaitResultView::Failed,
                            },
                        ),
                    )
                } else {
                    (recorded, left, None)
                }
            },
            PollOutcome::Pending => (
                net,
                WaitProgressView { cursor: (p.cursor + 1) as usize, ..p },
                None,
            ),
            PollOutcome::Broken => if p.terminate_on_failure {
                (
                    torn_down(net),
                    p,
                    Some(
                        WaitFinishView {
                            sleep_ms: FAILURE_GRACE_MS,
                            teardown: Some(teardown_of(net)),
                            result: WaitResultView::Failed,
                        },
                    ),
                )
            } else {
                (
                    set_state(net, name, state.terminated()),
                    p,
                    Some(
                        WaitFinishView {
                            sleep_ms: 0,
                            teardown: Some(
                                TeardownView {
                                    containers: seq![crate::network::termination_of(state)],
                                    remove_network: None,
                                },
                            ),
                            result: WaitResultView::Failed,
                        },
                    ),
                )
            },
        }
    }
}

/// Tearing a network down leaves it well formed and clean. On a network
/// that is clean already it changes nothing, so tearing down twice is tearing
/// down once.
pub proof fn lemma_torn_down(net: ContainerNetworkView)
    requires
        net.wf(),
    ensures
        torn_down(net).wf(),
        torn_down(net).is_clean(),
        net.is_clean() ==> torn_down(net) == net,
        torn_down(torn_down(net)) == torn_down(net),
{
    let after = all_terminated(net.states);
    assert forall|a: int, b: int| 0 <= a < b < after.len() implies crate::text::text_lt(
        #[trigger] name_of(after[a]),
        #[trigger] name_of(after[b]),
    ) by {
        assert(name_of(after[a]) == name_of(net.states[a]));
        assert(name_of(after[b]) == name_of(net.states[b]));
    }
    if net.is_clean() {
        assert(after =~= net.states);
    }
    assert(all_terminated(after) =~= after);
}

/// The look at the top of a round keeps the network well formed, and where
/// it asks for a container, the invariant of the wait holds and the
/// container is the one under the cursor. Where it tears the network down,
/// nothing is left running.
pub proof fn lemma_wait_top(
    net: ContainerNetworkView,
    p: WaitProgressView,
    cancelled: bool,
    elapsed: u128,
)
    requires
        net.wf(),
        wait_inv(net, p),
    ensures
        wait_top(net, p, cancelled, elapsed).0.wf(),
        match wait_top(net, p, cancelled, elapsed).2 {
            WaitActionView::Poll { name, sleep_ms } => {
                let looked = wait_top(net, p, cancelled, elapsed).1;
                &&& wait_top(net, p, cancelled, elapsed).0 == net
                &&& wait_inv(net, looked)
                &&& looked.cursor < looked.names.len()
                &&& looked.names == p.names
                &&& name == looked.names[looked.cursor as int]
            },
            WaitActionView::Finished(f) => f.teardown is Some ==> wait_top(
                net,
                p,
                cancelled,
                elapsed,
            ).0.is_clean(),
        },
{
    lemma_torn_down(net);
}

/// The answer of a handle keeps the network well formed, and where the wait
/// goes on, its invariant holds. Where the network is torn down, nothing is
/// left running.
pub proof fn lemma_wait_answer(net: ContainerNetworkView, p: WaitProgressView, outcome: PollOutcome)
    requires
        net.wf(),
        wait_inv(net, p),
        p.cursor < p.names.len(),
    ensures
        wait_answer(net, p, outcome).0.wf(),
        wait_answer(net, p, outcome).2 is None ==> wait_inv(
            wait_answer(net, p, outcome).0,
            wait_answer(net, p, outcome).1,
        ),
        p.terminate_on_failure && wait_answer(net, p, outcome).2 is Some ==> wait_answer(
            net,
            p,
            outcome,
        ).0.is_clean(),
{
    let name = p.names[p.cursor as int];
    let state = state_named(net.states, name);
    lemma_index_from(net.states, name, 0);
    match outcome {
        PollOutcome::Finished(result) => {
            let recorded = set_state(net, name, state.finished(result));
            lemma_set_state(net, name, state.finished(result));
            lemma_torn_down(recorded);
            let rest = p.names.remove(p.cursor as int);
            assert forall|k: int| 0 <= k < rest.len() implies index_of(
                recorded.states,
                #[trigger] rest[k],
            ) is Some && state_named(recorded.states, rest[k]).run_state is Active by {
                let from = if k < p.cursor {
                    k
                } else {
                    k + 1
                };
                assert(rest[k] == p.names[from]);
                assert(p.names[from] != name);
            }
            assert forall|a: int, b: int| 0 <= a < b < rest.len() implies rest[a] != rest[b] by {
                let fa = if a < p.cursor {
                    a
                } else {
                    a + 1
                };
                let fb = if b < p.cursor {
                    b
                } else {
                    b + 1
                };
                assert(rest[a] == p.names[fa]);
                assert(rest[b] == p.names[fb]);
            }
        },
        PollOutcome::Pending => {},
        PollOutcome::Broken => {
            lemma_torn_down(net);
            lemma_set_state(net, name, state.terminated());
        },
    }
}

/// What a handle answers while the containers stay as they are: the result of
/// a container that has finished, and that the others are still running.
pub open spec fn answer_of(finished: Map<Seq<char>, CommandResult>, name: Seq<char>) -> PollOutcome {
    if finished.dom().contains(name) {
        PollOutcome::Finished(finished[name])
    } else {
        PollOutcome::Pending
    }
}

/// The result of a wait whose containers stay as they are while it lasts:
/// `finished` holds the results of those that have finished, and `elapsed` is
/// what every look at the clock shows. `None` where `rounds` rounds do not
/// bring the wait to its end.
pub open spec fn wait_outcome(
    net: ContainerNetworkView,
    p: WaitProgressView,
    finished: Map<Seq<char>, CommandResult>,
    elapsed: u128,
    rounds: nat,
) -> Option<WaitResultView>
    decreases rounds,
{
    if rounds == 0 {
        None
    } else {
        let (net_top, looked, action) = wait_top(net, p, false, elapsed);
        match action {
            WaitActionView::Finished(f) => Some(f.result),
            WaitActionView::Poll { name, sleep_ms } => {
                let (net_next, answered, end) = wait_answer(net_top, looked, answer_of(finished, name));
                match end {
                    Some(f) => Some(f.result),
                    None => wait_outcome(net_next, answered, finished, elapsed, (rounds - 1) as nat),
                }
            },
        }
    }
}

/// Whether every one of the names has finished.
pub open spec fn all_finished(finished: Map<Seq<char>, CommandResult>, names: Seq<Seq<char>>) -> bool {
    forall|k: int| 0 <= k < names.len() ==> finished.dom().contains(#[trigger] names[k])
}

/// The number of rounds that bring a wait without time to its end.
pub open spec fn rounds_needed(p: WaitProgressView) -> nat {
    if p.skip_fail {
        (2 * p.names.len() - p.cursor + 1) as nat
    } else {
        (p.names.len() - p.cursor + 1) as nat
    }
}

/// A wait without time succeeds exactly if every container has finished.
///
/// This is the general form of `lemma_wait_zero`, for a wait at any point of
/// its course: the names before the cursor were found running, and after the
/// extra pass has begun all names were.
pub proof fn lemma_wait_zero_from(
    net: ContainerNetworkView,
    p: WaitProgressView,
    finished: Map<Seq<char>, CommandResult>,
    elapsed: u128,
    rounds: nat,
)
    requires
        net.wf(),
        wait_inv(net, p),
        p.duration == 0,
        elapsed > 0,
        rounds >= rounds_needed(p),
        forall|k: int| 0 <= k < p.cursor ==> !finished.dom().contains(#[trigger] p.names[k]),
        !p.skip_fail ==> p.names.len() > 0 && forall|k: int|
            0 <= k < p.names.len() ==> !finished.dom().contains(#[trigger] p.names[k]),
        p.terminate_on_failure ==> forall|n: Seq<char>|
            finished.dom().contains(n) ==> (#[trigger] finished[n]).spec_successful(),
    ensures
        wait_outcome(net, p, finished, elapsed, rounds) is Some,
        wait_outcome(net, p, finished, elapsed, rounds) == Some(WaitResultView::Done)
            <==> all_finished(finished, p.names),
        !all_finished(finished, p.names) ==> wait_outcome(net, p, finished, elapsed, rounds)->0
            is TimedOut,
    decreases rounds,
{
    lemma_wait_top(net, p, false, elapsed);
    let (net_top, looked, action) = wait_top(net, p, false, elapsed);
    if p.names.len() == 0 {
    } else if p.cursor >= p.names.len() {
        assert(!finished.dom().contains(p.names[0]));
        if p.skip_fail {
            // The extra pass begins: the first name is asked, and is running.
            let (net_next, answered, end) = wait_answer(net_top, looked, PollOutcome::Pending);
            lemma_wait_answer(net_top, looked, PollOutcome::Pending);
            lemma_wait_zero_from(net_next, answered, finished, elapsed, (rounds - 1) as nat);
        }
    } else {
        let name = p.names[p.cursor as int];
        let outcome = answer_of(finished, name);
        let (net_next, answered, end) = wait_answer(net_top, looked, outcome);
        lemma_wait_answer(net_top, looked, outcome);
        if finished.dom().contains(name) {
            assert(finished[name].spec_successful() || !p.terminate_on_failure);
            let rest = p.names.remove(p.cursor as int);
            assert(answered.names == rest);
            assert forall|k: int| 0 <= k < answered.cursor implies !finished.dom().contains(
                #[trigger] answered.names[k],
            ) by {
                assert(rest[k] == p.names[k]);
            }
            lemma_wait_zero_from(net_next, answered, finished, elapsed, (rounds - 1) as nat);
            if all_finished(finished, rest) {
                assert forall|k: int| 0 <= k < p.names.len() implies finished.dom().contains(
                    #[trigger] p.names[k],
                ) by {
                    if k < p.cursor {
                        assert(rest[k] == p.names[k]);
                    } else if k > p.cursor {
                        assert(rest[k - 1] == p.names[k]);
                    }
                }
            }
            if all_finished(finished, p.names) {
                assert forall|k: int| 0 <= k < rest.len() implies finished.dom().contains(
                    #[trigger] rest[k],
                ) by {
                    if k < p.cursor {
                        assert(rest[k] == p.names[k]);
                    } else {
                        assert(rest[k] == p.names[k + 1]);
                    }
                }
            }
        } else {
            assert forall|k: int| 0 <= k < answered.cursor implies !finished.dom().contains(
                #[trigger] answered.names[k],
            ) by {}
            lemma_wait_zero_from(net_next, answered, finished, elapsed, (rounds - 1) as nat);
        }
    }
}

/// With no time allowed, a wait whose containers stay as they are while it
/// lasts ends well exactly if every one of them had finished when it began;
/// otherwise it runs out of time, after one extra pass. (Containers that
/// have finished unsuccessfully make the wait fail instead where the caller
/// asked for the network to be terminated on failure; they are left out
/// here.)
pub proof fn lemma_wait_zero(
    net: ContainerNetworkView,
    names: Seq<Seq<char>>,
    terminate_on_failure: bool,
    finished: Map<Seq<char>, CommandResult>,
    elapsed: u128,
)
    requires
        net.wf(),
        names.len() <= usize::MAX,
        wait_valid(net, names),
        elapsed > 0,
        terminate_on_failure ==> forall|n: Seq<char>|
            finished.dom().contains(n) ==> (#[trigger] finished[n]).spec_successful(),
    ensures
        ({
            let p = WaitProgressView {
                names,
                terminate_on_failure,
                duration: 0,
                cursor: 0,
                skip_fail: true,
            };
            let outcome = wait_outcome(net, p, finished, elapsed, 2 * names.len() + 1);
            &&& outcome is Some
            &&& outcome == Some(WaitResultView::Done) <==> all_finished(finished, names)
            &&& !all_finished(finished, names) ==> outcome->0 is TimedOut
        }),
{
    let p = WaitProgressView { names, terminate_on_failure, duration: 0, cursor: 0, skip_fail: true };
    lemma_wait_zero_from(net, p, finished, elapsed, 2 * names.len() + 1);
}

impl ContainerNetwork {
    /// Begins to wait for the named containers.
    ///
    /// If `terminate_on_failure`, then if there is a timeout or any
    /// container from `names` has an error, then the whole network will be
    /// terminated. `duration` is the time that the wait may take, in
    /// nanoseconds; with 0 the wait succeeds if all containers have finished
    /// already.
    ///
    /// The names are refused, with an error of kind `Validation`, where one
    /// occurs twice, is not in the network, or is not active.
    pub fn wait_with_timeout(&self, names: Vec<String>, terminate_on_failure: bool, duration: u128) -> (r:
        Result<WaitProgress, Error>)
        requires
            self.wf(),
        ensures
            match r {
                Ok(p) => {
                    &&& wait_valid(self@, names.deep_view())
                    &&& p@ == (WaitProgressView {
                        names: names.deep_view(),
                        terminate_on_failure,
                        duration,
                        cursor: 0,
                        skip_fail: true,
                    })
                    &&& wait_inv(self@, p@)
                },
                Err(e) => !wait_valid(self@, names.deep_view()) && e.kind
                    == ErrorKind::Validation,
            },
    {
        if !all_distinct(&names) {
            return Err(
                Error::new(
                    ErrorKind::Validation,
                    "ContainerNetwork::wait_with_timeout -> a name was supplied twice".to_owned(),
                ),
            );
        }
        let ghost all = names.deep_view();
        let mut k: usize = 0;
        while k < names.len()
            invariant
                k <= names.len(),
                all == names.deep_view(),
                forall|j: int|
                    0 <= j < k ==> index_of(self@.states, #[trigger] all[j]) is Some && state_named(
                        self@.states,
                        all[j],
                    ).run_state is Active,
            decreases names.len() - k,
        {
            let name = names[k].as_str();
            assert(name@ == all[k as int]);
            match self.position(name) {
                Some(i) => {
                    if !self.state_at(i).is_active() {
                        let mut message = "ContainerNetwork::wait_with_timeout -> name \"".to_owned();
                        message.append(name);
                        message.append("\" is already inactive");
                        return Err(Error::new(ErrorKind::Validation, message));
                    }
                },
                None => {
                    let mut message = "ContainerNetwork::wait_with_timeout -> name \"".to_owned();
                    message.append(name);
                    message.append("\" not found in the network");
                    return Err(Error::new(ErrorKind::Validation, message));
                },
            }
            k += 1;
        }
        Ok(WaitProgress { names, terminate_on_failure, duration, cursor: 0, skip_fail: true })
    }

    /// Begins to wait for every container that is active. This is never
    /// refused.
    pub fn wait_with_timeout_all(&self, terminate_on_failure: bool, duration: u128) -> (r: Result<
        WaitProgress,
        Error,
    >)
        requires
            self.wf(),
        ensures
            r matches Ok(p) && p@ == (WaitProgressView {
                names: crate::network::names_where(self@.states, true),
                terminate_on_failure,
                duration,
                cursor: 0,
                skip_fail: true,
            }) && wait_inv(self@, p@),
    {
        proof {
            let names = crate::network::names_where(self@.states, true);
            crate::network::lemma_names_where(self@.states, true);
            assert forall|k: int| 0 <= k < names.len() implies index_of(
                self@.states,
                #[trigger] names[k],
            ) is Some && state_named(self@.states, names[k]).run_state is Active by {
                assert(crate::network::names_state(self@.states, names[k], true));
                let i = choose|i: int|
                    0 <= i < self@.states.len() && name_of(#[trigger] self@.states[i]) == names[k]
                        && (self@.states[i].run_state is Active) == true;
                crate::network::lemma_index_of_position(self@.states, i);
            }
        }
        self.wait_with_timeout(self.active_names(), terminate_on_failure, duration)
    }

    /// Whether the network and the progress fit together, as they do between
    /// the steps of a wait that nothing else has interfered with. A caller
    /// that is not verified asks this before each step.
    pub fn wait_in_step(&self, p: &WaitProgress) -> (r: bool)
        ensures
            r == wait_inv(self@, p@),
    {
        if p.cursor > p.names.len() || !all_distinct(&p.names) {
            return false;
        }
        let ghost all = p.names.deep_view();
        let mut k: usize = 0;
        while k < p.names.len()
            invariant
                k <= p.names.len(),
                all == p.names.deep_view(),
                forall|j: int|
                    0 <= j < k ==> index_of(self@.states, #[trigger] all[j]) is Some && state_named(
                        self@.states,
                        all[j],
                    ).run_state is Active,
            decreases p.names.len() - k,
        {
            assert(p.names[k as int]@ == all[k as int]);
            match self.position(p.names[k].as_str()) {
                Some(i) => {
                    if !self.state_at(i).is_active() {
                        return false;
                    }
                },
                None => {
                    return false;
                },
            }
            k += 1;
        }
        true
    }

    /// The look at the top of each round of a wait. `cancelled` says whether
    /// the process was asked to stop, `elapsed` how many nanoseconds have
    /// passed since the wait began.
    ///
    /// The step is that of `wait_top`. Where the action carries a teardown,
    /// no container of the network is active any more and there is no
    /// network, once the caller has completed it.
    pub fn wait_next(&mut self, p: &mut WaitProgress, cancelled: bool, elapsed: u128) -> (action:
        WaitAction)
        requires
            old(self).wf(),
            wait_inv(old(self)@, old(p)@),
        ensures
            final(self).wf(),
            (final(self)@, final(p)@, action@) == wait_top(old(self)@, old(p)@, cancelled, elapsed),
            action is Poll ==> wait_inv(final(self)@, final(p)@),
            action is Poll ==> final(p)@.cursor < final(p)@.names.len(),
            action matches WaitAction::Finished(f) ==> (f.teardown is Some ==> final(self)@.is_clean()),
    {
        proof {
            lemma_wait_top(self@, p@, cancelled, elapsed);
        }
        if cancelled {
            let teardown = self.terminate_all();
            let e = Error::new(
                ErrorKind::Cancelled,
                "ContainerNetwork::wait_with_timeout terminating because of `CTRLC_ISSUED`".to_owned(),
            );
            return WaitAction::Finished(
                WaitFinish { sleep_ms: 0, teardown: Some(teardown), result: WaitResult::Cancelled(e) },
            );
        }
        if p.names.len() == 0 {
            return WaitAction::Finished(
                WaitFinish { sleep_ms: 0, teardown: None, result: WaitResult::Done },
            );
        }
        if p.cursor >= p.names.len() {
            p.cursor = 0;
            if elapsed > p.duration {
                if p.skip_fail {
                    // One extra pass, so that a wait without any time still
                    // looks at every container once more.
                    p.skip_fail = false;
                    return WaitAction::Poll { name: p.names[0].clone(), sleep_ms: 0 };
                }
                let mut message =
                    "ContainerNetwork::wait_with_timeout timeout waiting for container names [".to_owned();
                let list = join(&p.names, ", ");
                message.append(list.as_str());
                message.append("] to complete");
                let e = Error::new(ErrorKind::Timeout, message);
                if p.terminate_on_failure {
                    let teardown = self.terminate_all();
                    return WaitAction::Finished(
                        WaitFinish {
                            sleep_ms: FAILURE_GRACE_MS,
                            teardown: Some(teardown),
                            result: WaitResult::TimedOut(e),
                        },
                    );
                }
                return WaitAction::Finished(
                    WaitFinish { sleep_ms: 0, teardown: None, result: WaitResult::TimedOut(e) },
                );
            }
            return WaitAction::Poll { name: p.names[0].clone(), sleep_ms: POLL_PAUSE_MS };
        }
        WaitAction::Poll { name: p.names[p.cursor].clone(), sleep_ms: 0 }
    }

    /// Takes the answer of the handle of the container that `wait_next`
    /// asked for. The wait goes on where the result is `None`.
    ///
    /// The step is that of `wait_answer`.
    pub fn wait_polled(&mut self, p: &mut WaitProgress, outcome: PollOutcome) -> (r: Option<
        WaitFinish,
    >)
        requires
            old(self).wf(),
            wait_inv(old(self)@, old(p)@),
            old(p)@.cursor < old(p)@.names.len(),
        ensures
            final(self).wf(),
            final(self)@ == wait_answer(old(self)@, old(p)@, outcome).0,
            final(p)@ == wait_answer(old(self)@, old(p)@, outcome).1,
            match r {
                Some(f) => wait_answer(old(self)@, old(p)@, outcome).2 == Some(f@),
                None => wait_answer(old(self)@, old(p)@, outcome).2 is None,
            },
            r is None ==> wait_inv(final(self)@, final(p)@),
            old(p)@.terminate_on_failure && r is Some ==> final(self)@.is_clean(),
    {
        proof {
            lemma_wait_answer(self@, p@, outcome);
        }
        let ghost name = p@.names[p@.cursor as int];
        assert(name == p.names[p.cursor as int]@);
        let at = match self.position(p.names[p.cursor].as_str()) {
            Some(at) => at,
            None => {
                // Every name of the work list is in the network.
                assert(false);
                0
            },
        };
        proof {
            lemma_index_from(self@.states, name, 0);
        }
        match outcome {
            PollOutcome::Finished(result) => {
                let failed = !result.successful();
                self.mark_finished(at, result);
                let ghost before = p.names.deep_view();
                let _ = p.names.remove(p.cursor);
                assert(p.names.deep_view() =~= before.remove(p.cursor as int));
                if p.terminate_on_failure && failed {
                    proof {
                        lemma_set_state(
                            old(self)@,
                            name,
                            state_named(old(self)@.states, name).finished(result),
                        );
                    }
                    let teardown = self.terminate_all();
                    Some(
                        WaitFinish {
                            sleep_ms: FAILURE_GRACE_MS,
                            teardown: Some(teardown),
                            result: WaitResult::Failed,
                        },
                    )
                } else {
                    None
                }
            },
            PollOutcome::Pending => {
                p.cursor = p.cursor + 1;
                None
            },
            PollOutcome::Broken => {
                if p.terminate_on_failure {
                    let teardown = self.terminate_all();
                    Some(
                        WaitFinish {
                            sleep_ms: FAILURE_GRACE_MS,
                            teardown: Some(teardown),
                            result: WaitResult::Failed,
                        },
                    )
                } else {
                    let mut one: Vec<String> = Vec::new();
                    one.push(p.names[p.cursor].clone());
                    assert(one.deep_view() =~= seq![name]);
                    proof {
                        // Terminating the one name is replacing its state.
                        let names = one.deep_view();
                        assert(names.drop_last() =~= Seq::<Seq<char>>::empty());
                        assert(names.last() == name);
                        reveal_with_fuel(crate::network::terminate_names, 2);
                    }
                    let containers = self.terminate(&one);
                    Some(
                        WaitFinish {
                            sleep_ms: 0,
                            teardown: Some(Teardown { containers, remove_network: None }),
                            result: WaitResult::Failed,
                        },
                    )
                }
            },
        }
    }

    /// The error of a wait that has failed, compiled from the outputs of the
    /// containers. To be asked for once the teardown is completed and what
    /// the stopped handles left is recorded.
    pub fn wait_failed_error(&self) -> (e: Error)
        ensures
            e.kind == ErrorKind::Aggregate,
            e.messages() == crate::network::reports(self@.states).push(
                "ContainerNetwork::wait_with_timeout error compilation (check logs for more):\n"@,
            ),
    {
        self.error_compilation().stack_err(
            "ContainerNetwork::wait_with_timeout error compilation (check logs for more):\n".to_owned(),
        )
    }
}

impl WaitProgress {
    /// The names of the containers that have not finished yet.
    pub fn names(&self) -> (r: &Vec<String>)
        ensures
            r.deep_view() == self@.names,
    {
        &self.names
    }

    /// Whether the whole network is terminated on a failure.
    pub fn terminate_on_failure(&self) -> (r: bool)
        ensures
            r == self@.terminate_on_failure,
    {
        self.terminate_on_failure
    }

    /// The time that the wait may take, in nanoseconds.
    pub fn duration(&self) -> (r: u128)
        ensures
            r == self@.duration,
    {
        self.duration
    }

    /// Whether the wait has asked for a container and awaits the answer:
    /// whether the cursor stands on a name of the work list.
    pub fn awaits_answer(&self) -> (r: bool)
        ensures
            r == (self@.cursor < self@.names.len()),
    {
        self.cursor < self.names.len()
    }
}

} // verus!
