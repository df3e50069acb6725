//! Bringing containers up, step by step.
//!
//! A bring-up validates its input, prepares the log and scratch files,
//! creates the network, creates every container and then starts every
//! container. Each of these is a Docker command or a look at the
//! filesystem, which the caller performs: the engine says what is to be done
//! next, and takes what came of it.

use vstd::prelude::*;
use crate::container::network_create_command;
use crate::container_state::ContainerStateView;
use crate::dockerfile::Dockerfile;
use crate::error::{Error, ErrorKind, ErrorView};
use crate::file_options::{default_write, FileOptions, FileOptionsView};
use crate::network::{
    index_from, index_of, lemma_index_from, name_of, terminate_names, terminations,
    ContainerNetwork, ContainerNetworkView, Termination, TerminationView,
};
use crate::paths::joined_path;
use crate::text::{all_distinct, chars_of, distinct, same_text, string_of_range};

verus! {

/// Where a bring-up stands.
#[derive(Debug, Clone, Copy, PartialEq, Eq, Structural)]
pub enum RunPhase {
    /// The files are being checked.
    Prepare,
    /// The network is being created.
    Network,
    /// The container with this position among the names is being created;
    /// those before it are created.
    Create(usize),
    /// The container with this position among the names is being started;
    /// those before it are active.
    Start(usize),
    /// The bring-up is over.
    Done,
}

/// The progress of one bring-up.
#[derive(Debug)]
pub struct RunProgress {
    names: Vec<String>,
    debug: bool,
    phase: RunPhase,
    write_file: Option<String>,
}

/// A `RunProgress` as plain values.
pub struct RunProgressView {
    /// The names of the containers that are brought up, in the given order.
    pub names: Seq<Seq<char>>,
    pub debug: bool,
    pub phase: RunPhase,
    /// The scratch file for Dockerfiles that are given by their contents.
    pub write_file: Option<Seq<char>>,
}

impl View for RunProgress {
    type V = RunProgressView;

    closed spec fn view(&self) -> RunProgressView {
        RunProgressView {
            names: self.names.deep_view(),
            debug: self.debug,
            phase: self.phase,
            write_file: match self.write_file {
                Some(f) => Some(f@),
                None => None,
            },
        }
    }
}

/// What the caller has to look at on the filesystem before anything is created.
#[derive(Debug)]
pub struct RunChecks {
    /// The paths of Dockerfiles, each of which has to be an existing file.
    pub dockerfile_paths: Vec<String>,
    /// The scratch file for Dockerfiles given by their contents: its
    /// directory has to exist.
    pub write_file: Option<FileOptions>,
    /// The log file of the network: its directory has to exist, and the file
    /// is created or emptied.
    pub log_file: FileOptions,
}

/// `RunChecks` as plain values.
pub struct RunChecksView {
    pub dockerfile_paths: Seq<Seq<char>>,
    pub write_file: Option<FileOptionsView>,
    pub log_file: FileOptionsView,
}

impl View for RunChecks {
    type V = RunChecksView;

    open spec fn view(&self) -> RunChecksView {
        RunChecksView {
            dockerfile_paths: self.dockerfile_paths.deep_view(),
            write_file: match self.write_file {
                Some(f) => Some(f@),
                None => None,
            },
            log_file: self.log_file@,
        }
    }
}

/// What the caller has to do next.
#[derive(Debug)]
pub enum RunAction {
    /// Create the network with `docker` and these arguments.
    CreateNetwork { args: Vec<String> },
    /// Create the container of this name (after building its image, where it
    /// needs one) and report the output of `docker create`.
    CreateContainer { name: String },
    /// Start the container with this id under supervision, its output routed
    /// to the two files.
    StartContainer { name: String, id: String, stdout_log: FileOptions, stderr_log: FileOptions },
    /// The bring-up is over with this result, once the terminations are
    /// completed.
    Finished { cleanup: Vec<Termination>, result: Result<(), Error> },
}

/// A `RunAction` as plain values.
pub enum RunActionView {
    CreateNetwork { args: Seq<Seq<char>> },
    CreateContainer { name: Seq<char> },
    StartContainer {
        name: Seq<char>,
        id: Seq<char>,
        stdout_log: FileOptionsView,
        stderr_log: FileOptionsView,
    },
    Finished { cleanup: Seq<TerminationView>, result: Result<(), ErrorView> },
}

impl View for RunAction {
    type V = RunActionView;

    open spec fn view(&self) -> RunActionView {
        match self {
            RunAction::CreateNetwork { args } => RunActionView::CreateNetwork {
                args: args.deep_view(),
            },
            RunAction::CreateContainer { name } => RunActionView::CreateContainer { name: name@ },
            RunAction::StartContainer {
                name,
                id,
                stdout_log,
                stderr_log,
            } => RunActionView::StartContainer {
                name: name@,
                id: id@,
                stdout_log: stdout_log@,
                stderr_log: stderr_log@,
            },
            RunAction::Finished { cleanup, result } => RunActionView::Finished {
                cleanup: terminations(cleanup@),
                result: match result {
                    Ok(_) => Ok(()),
                    Err(e) => Err(e@),
                },
            },
        }
    }
}

/// What came of the action that the caller performed.
#[derive(Debug)]
pub enum RunEvent {
    /// It succeeded. `output` is the path of the scratch file after the
    /// preparation, what `docker create` wrote to its standard output after
    /// the creation of a container, and of no account otherwise.
    Success { output: String },
    /// It failed.
    Failure(Error),
}

/// A `RunEvent` as plain values.
pub enum RunEventView {
    Success { output: Seq<char> },
    Failure(ErrorView),
}

impl View for RunEvent {
    type V = RunEventView;

    open spec fn view(&self) -> RunEventView {
        match self {
            RunEvent::Success { output } => RunEventView::Success { output: output@ },
            RunEvent::Failure(e) => RunEventView::Failure(e@),
        }
    }
}

/// The state of the container with the given name.
pub open spec fn state_named(states: Seq<ContainerStateView>, name: Seq<char>) -> ContainerStateView
    recommends
        index_of(states, name) is Some,
{
    states[index_of(states, name)->0]
}

/// Whether one of the named containers is built from the contents of a
/// Dockerfile.
pub open spec fn needs_write_dir(states: Seq<ContainerStateView>, names: Seq<Seq<char>>) -> bool
    decreases names.len(),
{
    names.len() > 0 && (needs_write_dir(states, names.drop_last()) || state_named(
        states,
        names.last(),
    ).container.dockerfile is Contents)
}

/// The paths of the Dockerfiles of the named containers that are built from
/// a path, in order.
pub open spec fn dockerfile_paths(states: Seq<ContainerStateView>, names: Seq<Seq<char>>) -> Seq<
    Seq<char>,
>
    decreases names.len(),
{
    if names.len() == 0 {
        Seq::empty()
    } else {
        match state_named(states, names.last()).container.dockerfile {
            Dockerfile::Path(p) => dockerfile_paths(states, names.drop_last()).push(p@),
            _ => dockerfile_paths(states, names.drop_last()),
        }
    }
}

/// Whether the names can be brought up: none occurs twice, each is in the
/// network, none is active or holds an external container, and there is a
/// directory for the scratch file where one is needed.
pub open spec fn run_valid(net: ContainerNetworkView, names: Seq<Seq<char>>) -> bool {
    &&& distinct(names)
    &&& forall|k: int|
        0 <= k < names.len() ==> index_of(net.states, #[trigger] names[k]) is Some && state_named(
            net.states,
            names[k],
        ).is_clean()
    &&& needs_write_dir(net.states, names) ==> net.dockerfile_write_dir is Some
}

/// The name of the scratch file.
pub open spec fn scratch_file_name() -> Seq<char> {
    "__tmp.dockerfile"@
}

/// The name of the log file of the network.
pub open spec fn network_log_name(network_name: Seq<char>) -> Seq<char> {
    "container_network_"@ + network_name + ".log"@
}

/// The name of the default log file for the standard output of a container.
pub open spec fn stdout_log_name(name: Seq<char>) -> Seq<char> {
    "container_"@ + name + "_stdout.log"@
}

/// The name of the default log file for the standard error of a container.
pub open spec fn stderr_log_name(name: Seq<char>) -> Seq<char> {
    "container_"@ + name + "_stderr.log"@
}

/// Options for writing to the file `name` in `dir`.
pub open spec fn write_in(dir: Seq<char>, name: Seq<char>) -> FileOptionsView {
    FileOptionsView { path: joined_path(dir, name), options: default_write() }
}

/// What has to be checked before the named containers are brought up.
pub open spec fn checks_of(net: ContainerNetworkView, names: Seq<Seq<char>>) -> RunChecksView {
    RunChecksView {
        dockerfile_paths: dockerfile_paths(net.states, names),
        write_file: match net.dockerfile_write_dir {
            Some(dir) if needs_write_dir(net.states, names) => Some(
                write_in(dir, scratch_file_name()),
            ),
            _ => None,
        },
        log_file: write_in(net.log_dir, network_log_name(net.network_name)),
    }
}

/// Whether the external container of a state is created and not started.
pub open spec fn is_created(s: ContainerStateView) -> bool {
    &&& !(s.run_state is Active)
    &&& s.active_container_id matches Some(id)
    &&& id.len() > 0
}

/// Whether a state is active over an external container.
pub open spec fn is_started(s: ContainerStateView) -> bool {
    &&& s.run_state is Active
    &&& s.active_container_id matches Some(id)
    &&& id.len() > 0
}

/// What holds of the container at position `k` among the names while the
/// bring-up is in the given phase: it is known; before the creation it holds
/// nothing; during the creation it is created if it comes before the current
/// one; during the start it is created, and active if it comes before the
/// current one.
pub open spec fn named_ok(
    net: ContainerNetworkView,
    phase: RunPhase,
    name: Seq<char>,
    k: int,
) -> bool {
    &&& index_of(net.states, name) is Some
    &&& match phase {
        RunPhase::Prepare | RunPhase::Network => state_named(net.states, name).is_clean(),
        RunPhase::Create(i) => if k < i {
            is_created(state_named(net.states, name))
        } else {
            state_named(net.states, name).is_clean()
        },
        RunPhase::Start(j) => if k < j {
            is_started(state_named(net.states, name))
        } else {
            is_created(state_named(net.states, name))
        },
        RunPhase::Done => true,
    }
}

/// Whether the phase names a position among the names, where it names one.
pub open spec fn phase_in_range(p: RunProgressView) -> bool {
    match p.phase {
        RunPhase::Create(i) => i < p.names.len(),
        RunPhase::Start(j) => j < p.names.len(),
        _ => true,
    }
}

/// What holds between the steps of a bring-up: the names are distinct, and
/// each of the containers is as far as the phase says (see `named_ok`).
pub open spec fn run_inv(net: ContainerNetworkView, p: RunProgressView) -> bool {
    &&& p.names.len() <= usize::MAX
    &&& distinct(p.names)
    &&& phase_in_range(p)
    &&& forall|k: int| 0 <= k < p.names.len() ==> named_ok(net, p.phase, #[trigger] p.names[k], k)
}

/// The network with the state of the named container replaced.
pub open spec fn set_state(net: ContainerNetworkView, name: Seq<char>, s: ContainerStateView) -> ContainerNetworkView {
    match index_of(net.states, name) {
        Some(i) => ContainerNetworkView { states: net.states.update(i, s), ..net },
        None => net,
    }
}

/// The output of `docker create` without the newline that ends it.
pub open spec fn trimmed(output: Seq<char>) -> Seq<char> {
    if output.len() > 0 && output.last() == '\n' {
        output.drop_last()
    } else {
        output
    }
}

/// The file that the output of a container goes to: the one that its
/// description names, or the default log file in the log directory.
pub open spec fn log_file_of(
    net: ContainerNetworkView,
    s: ContainerStateView,
    stdout: bool,
) -> FileOptionsView {
    if stdout {
        match s.container.stdout_log {
            Some(f) => f@,
            None => write_in(net.log_dir, stdout_log_name(name_of(s))),
        }
    } else {
        match s.container.stderr_log {
            Some(f) => f@,
            None => write_in(net.log_dir, stderr_log_name(name_of(s))),
        }
    }
}

/// The error for a creation that gave no container id.
pub open spec fn no_id_error() -> ErrorView {
    ErrorView {
        kind: ErrorKind::ExternalCommand,
        messages: seq!["ContainerNetwork::run -> the creation of a container gave no id"@],
    }
}

/// The error for a step of a bring-up that is over.
pub open spec fn over_error() -> ErrorView {
    ErrorView {
        kind: ErrorKind::Validation,
        messages: seq!["ContainerNetwork::run -> the bring-up is over"@],
    }
}

/// The start of the container at position `j` among the names, or the
/// successful end where all are started.
pub open spec fn begin_start(net: ContainerNetworkView, p: RunProgressView, j: int) -> (
    ContainerNetworkView,
    RunProgressView,
    RunActionView,
) {
    if 0 <= j < p.names.len() {
        let s = state_named(net.states, p.names[j]);
        (
            net,
            RunProgressView { phase: RunPhase::Start(j as usize), ..p },
            RunActionView::StartContainer {
                name: p.names[j],
                id: match s.active_container_id {
                    Some(id) => id,
                    None => Seq::empty(),
                },
                stdout_log: log_file_of(net, s, true),
                stderr_log: log_file_of(net, s, false),
            },
        )
    } else {
        (
            net,
            RunProgressView { phase: RunPhase::Done, ..p },
            RunActionView::Finished { cleanup: Seq::empty(), result: Ok(()) },
        )
    }
}

/// The creation of the container at position `i` among the names, or the
/// first start where all are created.
pub open spec fn begin_create(net: ContainerNetworkView, p: RunProgressView, i: int) -> (
    ContainerNetworkView,
    RunProgressView,
    RunActionView,
) {
    if 0 <= i < p.names.len() {
        (
            net,
            RunProgressView { phase: RunPhase::Create(i as usize), ..p },
            RunActionView::CreateContainer { name: p.names[i] },
        )
    } else {
        begin_start(net, p, 0)
    }
}

/// The creation of the network where there is none yet, or the first
/// creation of a container.
pub open spec fn begin_network(net: ContainerNetworkView, p: RunProgressView) -> (
    ContainerNetworkView,
    RunProgressView,
    RunActionView,
) {
    if !net.network_active {
        (
            net,
            RunProgressView { phase: RunPhase::Network, ..p },
            RunActionView::CreateNetwork {
                args: network_create_command(net.network_args, net.network_name),
            },
        )
    } else {
        begin_create(net, p, 0)
    }
}

/// The end of a bring-up in failure: the named containers are terminated.
pub open spec fn fail(
    net: ContainerNetworkView,
    p: RunProgressView,
    names: Seq<Seq<char>>,
    e: ErrorView,
) -> (ContainerNetworkView, RunProgressView, RunActionView) {
    let (states, plan) = terminate_names(net.states, names);
    (
        ContainerNetworkView { states, ..net },
        RunProgressView { phase: RunPhase::Done, ..p },
        RunActionView::Finished { cleanup: plan, result: Err(e) },
    )
}

/// One step of a bring-up: the network and the progress after the event,
/// and what is to be done next.
///
/// A failure before anything was created ends the bring-up. A failure of the
/// creation of a container terminates the containers created before it; a
/// failure of a start terminates all of them. The network, once created,
/// stays.
pub open spec fn run_step(net: ContainerNetworkView, p: RunProgressView, event: RunEventView) -> (
    ContainerNetworkView,
    RunProgressView,
    RunActionView,
) {
    match p.phase {
        RunPhase::Prepare => match event {
            RunEventView::Success { output } => begin_network(
                net,
                RunProgressView {
                    write_file: if needs_write_dir(net.states, p.names) {
                        Some(output)
                    } else {
                        None
                    },
                    ..p
                },
            ),
            RunEventView::Failure(e) => fail(
                net,
                p,
                Seq::empty(),
                ErrorView { kind: ErrorKind::Validation, ..e },
            ),
        },
        RunPhase::Network => match event {
            RunEventView::Success { output } => begin_create(
                ContainerNetworkView { network_active: true, ..net },
                p,
                0,
            ),
            RunEventView::Failure(e) => fail(net, p, Seq::empty(), e),
        },
        RunPhase::Create(i) => match event {
            RunEventView::Success { output } => if trimmed(output).len() == 0 {
                fail(net, p, p.names.take(i as int), no_id_error())
            } else {
                begin_create(
                    set_state(
                        net,
                        p.names[i as int],
                        state_named(net.states, p.names[i as int]).created(trimmed(output)),
                    ),
                    p,
                    i + 1,
                )
            },
            RunEventView::Failure(e) => fail(net, p, p.names.take(i as int), e),
        },
        RunPhase::Start(j) => match event {
            RunEventView::Success { output } => begin_start(
                set_state(
                    net,
                    p.names[j as int],
                    state_named(net.states, p.names[j as int]).started(),
                ),
                p,
                j + 1,
            ),
            RunEventView::Failure(e) => fail(net, p, p.names, e),
        },
        RunPhase::Done => (
            net,
            p,
            RunActionView::Finished { cleanup: Seq::empty(), result: Err(over_error()) },
        ),
    }
}

/// A search by name looks at the names alone.
pub proof fn lemma_index_same_names(
    a: Seq<ContainerStateView>,
    b: Seq<ContainerStateView>,
    name: Seq<char>,
    start: int,
)
    requires
        a.len() == b.len(),
        forall|i: int| 0 <= i < a.len() ==> name_of(#[trigger] a[i]) == name_of(b[i]),
    ensures
        index_from(a, name, start) == index_from(b, name, start),
    decreases a.len() - start,
{
    if 0 <= start < a.len() {
        assert(name_of(a[start]) == name_of(b[start]));
        if name_of(a[start]) != name {
            lemma_index_same_names(a, b, name, start + 1);
        }
    }
}

/// Replacing the state of a named container by one of the same name changes
/// that state and no other, and keeps the network well formed.
pub proof fn lemma_set_state(net: ContainerNetworkView, name: Seq<char>, s: ContainerStateView)
    requires
        net.wf(),
        index_of(net.states, name) is Some,
        name_of(s) == name,
        s.wf(),
    ensures
        set_state(net, name, s).wf(),
        forall|m: Seq<char>|
            index_of(set_state(net, name, s).states, m) == #[trigger] index_of(net.states, m),
        state_named(set_state(net, name, s).states, name) == s,
        forall|m: Seq<char>|
            m != name && index_of(net.states, m) is Some ==> #[trigger] state_named(
                set_state(net, name, s).states,
                m,
            ) == state_named(net.states, m),
        set_state(net, name, s) == (ContainerNetworkView {
            states: set_state(net, name, s).states,
            ..net
        }),
{
    lemma_index_from(net.states, name, 0);
    let i = index_of(net.states, name)->0;
    let after = net.states.update(i, s);
    crate::network::lemma_update_keeps_order(net.states, i, s);
    assert forall|m: Seq<char>| index_of(after, m) == #[trigger] index_of(net.states, m) by {
        lemma_index_same_names(after, net.states, m, 0);
    }
    assert forall|m: Seq<char>| m != name && index_of(net.states, m) is Some implies #[trigger] state_named(
        after,
        m,
    ) == state_named(net.states, m) by {
        lemma_index_from(net.states, m, 0);
    }
    assert forall|k: int| 0 <= k < after.len() implies (#[trigger] after[k]).wf() by {
        if k != i {
            assert(after[k] == net.states[k]);
        }
    }
}

/// Whether `name` is among `names`.
pub open spec fn listed(names: Seq<Seq<char>>, name: Seq<char>) -> bool {
    exists|k: int| 0 <= k < names.len() && names[k] == name
}

/// Terminating containers by name terminates exactly the states of those
/// names, keeps every state in its place, and keeps the network well formed.
pub proof fn lemma_terminate_effect(net: ContainerNetworkView, names: Seq<Seq<char>>)
    requires
        net.wf(),
    ensures
        (ContainerNetworkView { states: terminate_names(net.states, names).0, ..net }).wf(),
        terminate_names(net.states, names).0.len() == net.states.len(),
        forall|i: int|
            0 <= i < net.states.len() ==> #[trigger] terminate_names(net.states, names).0[i] == (
            if listed(names, name_of(net.states[i])) {
                net.states[i].terminated()
            } else {
                net.states[i]
            }),
    decreases names.len(),
{
    let states = net.states;
    if names.len() > 0 {
        let front = names.drop_last();
        let n = names.last();
        lemma_terminate_effect(net, front);
        let s = terminate_names(states, front).0;
        let after = terminate_names(states, names).0;
        lemma_index_from(s, n, 0);
        assert forall|i: int| 0 <= i < states.len() implies name_of(#[trigger] s[i]) == name_of(
            states[i],
        ) by {}
        assert forall|i: int| 0 <= i < states.len() implies #[trigger] after[i] == (if listed(
            names,
            name_of(states[i]),
        ) {
            states[i].terminated()
        } else {
            states[i]
        }) by {
            let was = listed(front, name_of(states[i]));
            if was {
                let k = choose|k: int| 0 <= k < front.len() && front[k] == name_of(states[i]);
                assert(names[k] == name_of(states[i]));
            }
            match index_of(s, n) {
                Some(at) => {
                    if i == at {
                        assert(names[names.len() - 1] == name_of(states[i]));
                    } else {
                        assert(after[i] == s[i]);
                        if name_of(states[i]) == n {
                            crate::network::lemma_sorted_unique(s, i, at);
                        }
                        if listed(names, name_of(states[i])) {
                            let k = choose|k: int|
                                0 <= k < names.len() && names[k] == name_of(states[i]);
                            assert(front[k] == name_of(states[i]));
                        }
                    }
                },
                None => {
                    assert(name_of(s[i]) != n);
                    if listed(names, name_of(states[i])) {
                        let k = choose|k: int|
                            0 <= k < names.len() && names[k] == name_of(states[i]);
                        assert(front[k] == name_of(states[i]));
                    }
                },
            }
        }
        assert forall|a: int, b: int| 0 <= a < b < after.len() implies crate::text::text_lt(
            #[trigger] name_of(after[a]),
            #[trigger] name_of(after[b]),
        ) by {
            assert(name_of(after[a]) == name_of(states[a]));
            assert(name_of(after[b]) == name_of(states[b]));
        }
        assert forall|k: int| 0 <= k < after.len() implies (#[trigger] after[k]).wf() by {
            assert(states[k].wf());
        }
    } else {
        assert forall|i: int| 0 <= i < states.len() implies !listed(names, name_of(states[i])) by {}
    }
}

/// After containers were terminated by name, a listed name that is known
/// names a clean state, and every other known name names the state it named.
pub proof fn lemma_terminate_named(net: ContainerNetworkView, names: Seq<Seq<char>>, m: Seq<char>)
    requires
        net.wf(),
        index_of(net.states, m) is Some,
    ensures
        index_of(terminate_names(net.states, names).0, m) == index_of(net.states, m),
        state_named(terminate_names(net.states, names).0, m) == (if listed(names, m) {
            state_named(net.states, m).terminated()
        } else {
            state_named(net.states, m)
        }),
{
    lemma_terminate_effect(net, names);
    let after = terminate_names(net.states, names).0;
    assert forall|i: int| 0 <= i < after.len() implies name_of(#[trigger] after[i]) == name_of(
        net.states[i],
    ) by {}
    lemma_index_same_names(after, net.states, m, 0);
    lemma_index_from(net.states, m, 0);
}

/// The invariant of a bring-up holds after every step, and the network stays
/// well formed.
pub proof fn lemma_run_step_keeps_inv(
    net: ContainerNetworkView,
    p: RunProgressView,
    event: RunEventView,
)
    requires
        net.wf(),
        run_inv(net, p),
    ensures
        run_step(net, p, event).0.wf(),
        run_inv(run_step(net, p, event).0, run_step(net, p, event).1),
        run_step(net, p, event).1.names == p.names,
{
    let (after, progress, action) = run_step(net, p, event);
    match p.phase {
        RunPhase::Prepare => {
            match event {
                RunEventView::Success { output } => {},
                RunEventView::Failure(e) => {
                    lemma_terminate_effect(net, Seq::empty());
                },
            }
        },
        RunPhase::Network => {
            match event {
                RunEventView::Success { output } => {},
                RunEventView::Failure(e) => {
                    lemma_terminate_effect(net, Seq::empty());
                },
            }
        },
        RunPhase::Create(i) => {
            let failed = match event {
                RunEventView::Success { output } => trimmed(output).len() == 0,
                RunEventView::Failure(e) => true,
            };
            if failed {
                lemma_terminate_effect(net, p.names.take(i as int));
                assert forall|k: int| 0 <= k < p.names.len() implies index_of(
                    after.states,
                    #[trigger] p.names[k],
                ) is Some by {
                    lemma_terminate_named(net, p.names.take(i as int), p.names[k]);
                }
            } else {
                let output = event->Success_output;
                let name = p.names[i as int];
                let s = state_named(net.states, name).created(trimmed(output));
                lemma_index_from(net.states, name, 0);
                lemma_set_state(net, name, s);
                let mid = set_state(net, name, s);
                assert forall|k: int| 0 <= k < p.names.len() implies if k < i + 1 {
                    is_created(state_named(mid.states, #[trigger] p.names[k]))
                } else {
                    state_named(mid.states, p.names[k]).is_clean()
                } by {
                    if k != i {
                        assert(p.names[k] != name);
                    }
                }
            }
        },
        RunPhase::Start(j) => {
            match event {
                RunEventView::Success { output } => {
                    let name = p.names[j as int];
                    let s = state_named(net.states, name).started();
                    lemma_index_from(net.states, name, 0);
                    lemma_set_state(net, name, s);
                    let mid = set_state(net, name, s);
                    assert forall|k: int| 0 <= k < p.names.len() implies if k < j + 1 {
                        is_started(state_named(mid.states, #[trigger] p.names[k]))
                    } else {
                        is_created(state_named(mid.states, p.names[k]))
                    } by {
                        if k != j {
                            assert(p.names[k] != name);
                        }
                    }
                },
                RunEventView::Failure(e) => {
                    lemma_terminate_effect(net, p.names);
                    assert forall|k: int| 0 <= k < p.names.len() implies index_of(
                        after.states,
                        #[trigger] p.names[k],
                    ) is Some by {
                        lemma_terminate_named(net, p.names, p.names[k]);
                    }
                },
            }
        },
        RunPhase::Done => {},
    }
}

/// A bring-up that ends well leaves every named container active, with the
/// id of its external container at hand.
pub proof fn lemma_run_ok_all_active(
    net: ContainerNetworkView,
    p: RunProgressView,
    event: RunEventView,
)
    requires
        net.wf(),
        run_inv(net, p),
        run_step(net, p, event).2 matches RunActionView::Finished { result: Ok(_), .. },
    ensures
        forall|k: int|
            0 <= k < p.names.len() ==> is_started(
                state_named(run_step(net, p, event).0.states, #[trigger] p.names[k]),
            ),
{
    match p.phase {
        RunPhase::Start(j) => {
            let name = p.names[j as int];
            let s = state_named(net.states, name).started();
            lemma_index_from(net.states, name, 0);
            lemma_set_state(net, name, s);
            let mid = set_state(net, name, s);
            assert forall|k: int| 0 <= k < p.names.len() implies is_started(
                state_named(mid.states, #[trigger] p.names[k]),
            ) by {
                if k != j {
                    assert(p.names[k] != name);
                }
            }
        },
        RunPhase::Create(i) => {
            // A creation is never the last step of a bring-up that has a name.
        },
        _ => {},
    }
}

/// A bring-up that ends in an error leaves no named container active and none
/// with an external container: what it had created is cleaned up.
pub proof fn lemma_run_err_all_clean(
    net: ContainerNetworkView,
    p: RunProgressView,
    event: RunEventView,
)
    requires
        net.wf(),
        run_inv(net, p),
        !(p.phase is Done),
        run_step(net, p, event).2 matches RunActionView::Finished { result: Err(_), .. },
    ensures
        forall|k: int|
            0 <= k < p.names.len() ==> state_named(
                run_step(net, p, event).0.states,
                #[trigger] p.names[k],
            ).is_clean(),
{
    let after = run_step(net, p, event).0;
    match p.phase {
        RunPhase::Prepare | RunPhase::Network => {
            assert forall|k: int| 0 <= k < p.names.len() implies state_named(
                after.states,
                #[trigger] p.names[k],
            ).is_clean() by {
                lemma_terminate_named(net, Seq::empty(), p.names[k]);
            }
        },
        RunPhase::Create(i) => {
            let gone = p.names.take(i as int);
            assert forall|k: int| 0 <= k < p.names.len() implies state_named(
                after.states,
                #[trigger] p.names[k],
            ).is_clean() by {
                lemma_terminate_named(net, gone, p.names[k]);
                if k < i {
                    assert(gone[k] == p.names[k]);
                } else if listed(gone, p.names[k]) {
                    let w = choose|w: int| 0 <= w < gone.len() && gone[w] == p.names[k];
                    assert(p.names[w] == p.names[k]);
                }
            }
        },
        RunPhase::Start(j) => {
            assert forall|k: int| 0 <= k < p.names.len() implies state_named(
                after.states,
                #[trigger] p.names[k],
            ).is_clean() by {
                lemma_terminate_named(net, p.names, p.names[k]);
            }
        },
        RunPhase::Done => {},
    }
}

/// How a bring-up ends when the actions come out as the events say, one
/// event for each action in turn: the network at the end and the result.
/// `None` where the events run out before the bring-up is over.
pub open spec fn run_outcome(
    net: ContainerNetworkView,
    p: RunProgressView,
    events: Seq<RunEventView>,
) -> Option<(ContainerNetworkView, Result<(), ErrorView>)>
    decreases events.len(),
{
    if events.len() == 0 {
        None
    } else {
        let (after, progress, action) = run_step(net, p, events.first());
        match action {
            RunActionView::Finished { cleanup, result } => Some((after, result)),
            _ => run_outcome(after, progress, events.drop_first()),
        }
    }
}

/// A bring-up that ends well leaves every one of its containers active, with
/// the id of its external container at hand; a bring-up that ends in an error
/// leaves none of them active and none with an external container.
pub proof fn lemma_run_outcome(
    net: ContainerNetworkView,
    p: RunProgressView,
    events: Seq<RunEventView>,
)
    requires
        net.wf(),
        run_inv(net, p),
        !(p.phase is Done),
    ensures
        match run_outcome(net, p, events) {
            Some((after, Ok(_))) => after.wf() && forall|k: int|
                0 <= k < p.names.len() ==> is_started(
                    state_named(after.states, #[trigger] p.names[k]),
                ),
            Some((after, Err(_))) => after.wf() && forall|k: int|
                0 <= k < p.names.len() ==> state_named(
                    after.states,
                    #[trigger] p.names[k],
                ).is_clean(),
            None => true,
        },
    decreases events.len(),
{
    if events.len() > 0 {
        let event = events.first();
        let (after, progress, action) = run_step(net, p, event);
        lemma_run_step_keeps_inv(net, p, event);
        match action {
            RunActionView::Finished { cleanup, result } => {
                match result {
                    Ok(_) => {
                        lemma_run_ok_all_active(net, p, event);
                    },
                    Err(_) => {
                        lemma_run_err_all_clean(net, p, event);
                    },
                }
            },
            _ => {
                lemma_run_outcome(after, progress, events.drop_first());
            },
        }
    }
}

impl RunProgress {
    /// The names of the containers that are brought up.
    pub fn names(&self) -> (r: &Vec<String>)
        ensures
            r.deep_view() == self@.names,
    {
        &self.names
    }

    /// Whether the bring-up is traced.
    pub fn debug(&self) -> (r: bool)
        ensures
            r == self@.debug,
    {
        self.debug
    }

    /// Where the bring-up stands.
    pub fn phase(&self) -> (r: RunPhase)
        ensures
            r == self@.phase,
    {
        self.phase
    }

    /// The scratch file for Dockerfiles that are given by their contents.
    pub fn write_file(&self) -> (r: Option<&String>)
        ensures
            match r {
                Some(f) => self@.write_file == Some(f@),
                None => self@.write_file is None,
            },
    {
        self.write_file.as_ref()
    }
}

/// The first `n` of the names.
fn first_names(names: &Vec<String>, n: usize) -> (r: Vec<String>)
    requires
        n <= names.len(),
    ensures
        r.deep_view() == names.deep_view().take(n as int),
{
    let mut r: Vec<String> = Vec::new();
    let mut k: usize = 0;
    assert(r.deep_view() =~= names.deep_view().take(0));
    while k < n
        invariant
            k <= n <= names.len(),
            r.deep_view() == names.deep_view().take(k as int),
        decreases n - k,
    {
        let ghost before = r.deep_view();
        r.push(names[k].clone());
        k += 1;
        assert(r.deep_view() =~= before.push(names[k - 1]@));
        assert(r.deep_view() =~= names.deep_view().take(k as int));
    }
    r
}

/// The output of `docker create` without the newline that ends it.
pub fn trim_newline(output: &str) -> (r: String)
    ensures
        r@ == trimmed(output@),
{
    let chars = chars_of(output);
    let n = chars.len();
    if n > 0 && chars[n - 1] == '\n' {
        let r = string_of_range(&chars, 0, n - 1);
        assert(chars@.subrange(0, n - 1) =~= chars@.drop_last());
        r
    } else {
        let r = string_of_range(&chars, 0, n);
        assert(chars@.subrange(0, n as int) =~= chars@);
        r
    }
}

/// Options for writing to the file whose name is made of the three parts, in
/// the directory `dir`.
fn log_options(dir: &str, before: &str, name: &str, after: &str) -> (r: FileOptions)
    ensures
        r@ == write_in(dir@, before@ + name@ + after@),
{
    let mut file_name = before.to_owned();
    file_name.append(name);
    file_name.append(after);
    FileOptions::write2(dir, file_name.as_str())
}

impl ContainerNetwork {
    /// Begins to bring the named containers up: checks the names, and says
    /// what has to be checked on the filesystem before the first step.
    ///
    /// The names are refused, with an error of kind `Validation`, where one
    /// occurs twice, is not in the network, or is active already, and where a
    /// container is built from the contents of a Dockerfile and the network
    /// has no directory to write them to. Nothing has happened then.
    pub fn run(&self, names: Vec<String>, debug: bool) -> (r: Result<
        (RunProgress, RunChecks),
        Error,
    >)
        requires
            self.wf(),
        ensures
            match r {
                Ok(begun) => {
                    &&& run_valid(self@, names.deep_view())
                    &&& begun.0@ == (RunProgressView {
                        names: names.deep_view(),
                        debug,
                        phase: RunPhase::Prepare,
                        write_file: None,
                    })
                    &&& begun.1@ == checks_of(self@, names.deep_view())
                    &&& run_inv(self@, begun.0@)
                },
                Err(e) => !run_valid(self@, names.deep_view()) && e.kind == ErrorKind::Validation,
            },
    {
        let ghost all = names.deep_view();
        let ghost states = self@.states;
        let mut paths: Vec<String> = Vec::new();
        let mut need = false;
        let mut k: usize = 0;
        assert(all.take(0) =~= Seq::<Seq<char>>::empty());
        assert(paths.deep_view() =~= dockerfile_paths(states, all.take(0)));
        while k < names.len()
            invariant
                k <= names.len(),
                all == names.deep_view(),
                states == self@.states,
                self.wf(),
                distinct(all.take(k as int)),
                forall|j: int|
                    0 <= j < k ==> index_of(states, #[trigger] all[j]) is Some && state_named(
                        states,
                        all[j],
                    ).is_clean(),
                paths.deep_view() == dockerfile_paths(states, all.take(k as int)),
                need == needs_write_dir(states, all.take(k as int)),
            decreases names.len() - k,
        {
            let name = names[k].as_str();
            let mut j: usize = 0;
            while j < k
                invariant
                    j <= k < names.len(),
                    all == names.deep_view(),
                    name@ == all[k as int],
                    forall|a: int| 0 <= a < j ==> all[a] != all[k as int],
                decreases k - j,
            {
                if same_text(names[j].as_str(), name) {
                    let mut message =
                        "ContainerNetwork::run -> two containers were supplied with the same name \"".to_owned();
                    message.append(name);
                    message.append("\"");
                    assert(all[j as int] == all[k as int]);
                    return Err(Error::new(ErrorKind::Validation, message));
                }
                j += 1;
            }
            match self.position(name) {
                None => {
                    let mut message = "ContainerNetwork::run -> argument name \"".to_owned();
                    message.append(name);
                    message.append("\" is not contained in the network");
                    assert(index_of(states, all[k as int]) is None);
                    return Err(Error::new(ErrorKind::Validation, message));
                },
                Some(i) => {
                    let state = self.state_at(i);
                    if state.is_active() || state.active_container_id().is_some() {
                        let mut message = "ContainerNetwork::run -> name \"".to_owned();
                        message.append(name);
                        message.append("\" is already an active container");
                        assert(!state_named(states, all[k as int]).is_clean());
                        return Err(Error::new(ErrorKind::Validation, message));
                    }
                    let ghost before = paths.deep_view();
                    match &state.container().dockerfile {
                        Dockerfile::NameTag(_) => {},
                        Dockerfile::Path(p) => {
                            paths.push(p.clone());
                            assert(paths.deep_view() =~= before.push(p@));
                        },
                        Dockerfile::Contents(_) => {
                            need = true;
                        },
                    }
                },
            }
            k += 1;
            proof {
                assert(all.take(k as int).drop_last() =~= all.take(k - 1));
                assert(all.take(k as int).last() == all[k - 1]);
                assert forall|a: int, b: int| 0 <= a < b < k implies all.take(k as int)[a]
                    != all.take(k as int)[b] by {
                    if b < k - 1 {
                        assert(all.take(k - 1)[a] != all.take(k - 1)[b]);
                    }
                }
            }
        }
        assert(all.take(k as int) =~= all);
        let write_file = if need {
            match self.dockerfile_write_dir() {
                Some(dir) => Some(FileOptions::write2(dir.as_str(), "__tmp.dockerfile")),
                None => {
                    return Err(
                        Error::new(
                            ErrorKind::Validation,
                            "ContainerNetwork::run -> a container is built with `Dockerfile::Contents`, but `dockerfile_write_dir` is unset".to_owned(),
                        ),
                    );
                },
            }
        } else {
            None
        };
        let log_file = log_options(self.log_dir(), "container_network_", self.network_name(), ".log");
        let checks = RunChecks { dockerfile_paths: paths, write_file, log_file };
        let progress = RunProgress { names, debug, phase: RunPhase::Prepare, write_file: None };
        Ok((progress, checks))
    }

    /// Begins to bring up every container that is not active: `run` on
    /// the names of `inactive_names`.
    pub fn run_all(&self, debug: bool) -> (r: Result<(RunProgress, RunChecks), Error>)
        requires
            self.wf(),
        ensures
            match r {
                Ok(begun) => {
                    &&& run_valid(self@, crate::network::names_where(self@.states, false))
                    &&& begun.0@ == (RunProgressView {
                        names: crate::network::names_where(self@.states, false),
                        debug,
                        phase: RunPhase::Prepare,
                        write_file: None,
                    })
                    &&& begun.1@ == checks_of(
                        self@,
                        crate::network::names_where(self@.states, false),
                    )
                    &&& run_inv(self@, begun.0@)
                },
                Err(e) => !run_valid(self@, crate::network::names_where(self@.states, false))
                    && e.kind == ErrorKind::Validation,
            },
    {
        self.run(self.inactive_names(), debug)
    }

    /// Says how the container at position `j` among the names is started, or
    /// that the bring-up has ended well.
    fn run_begin_start(&self, p: &mut RunProgress, j: usize) -> (action: RunAction)
        requires
            j <= old(p)@.names.len(),
            forall|k: int|
                0 <= k < old(p)@.names.len() ==> index_of(self@.states, #[trigger] old(p)@.names[k])
                    is Some,
        ensures
            (self@, final(p)@, action@) == begin_start(self@, old(p)@, j as int),
    {
        if j < p.names.len() {
            let name = p.names[j].clone();
            assert(name@ == p@.names[j as int]);
            match self.position(name.as_str()) {
                Some(i) => {
                    let state = self.state_at(i);
                    let id = match state.active_container_id() {
                        Some(id) => id.clone(),
                        None => String::new(),
                    };
                    let stdout_log = match &state.container().stdout_log {
                        Some(f) => f.duplicate(),
                        None => log_options(self.log_dir(), "container_", name.as_str(), "_stdout.log"),
                    };
                    let stderr_log = match &state.container().stderr_log {
                        Some(f) => f.duplicate(),
                        None => log_options(self.log_dir(), "container_", name.as_str(), "_stderr.log"),
                    };
                    p.phase = RunPhase::Start(j);
                    RunAction::StartContainer { name, id, stdout_log, stderr_log }
                },
                None => {
                    // Every name of a bring-up is in the network.
                    assert(false);
                    p.phase = RunPhase::Done;
                    RunAction::Finished { cleanup: Vec::new(), result: Ok(()) }
                },
            }
        } else {
            p.phase = RunPhase::Done;
            let action = RunAction::Finished { cleanup: Vec::new(), result: Ok(()) };
            assert(action@ == (RunActionView::Finished { cleanup: Seq::empty(), result: Ok(()) }))
                by {
                assert(terminations(Seq::<Termination>::empty()) =~= Seq::<TerminationView>::empty());
            }
            action
        }
    }

    /// Says which container is created next, or how the first is started.
    fn run_begin_create(&self, p: &mut RunProgress, i: usize) -> (action: RunAction)
        requires
            i <= old(p)@.names.len(),
            forall|k: int|
                0 <= k < old(p)@.names.len() ==> index_of(self@.states, #[trigger] old(p)@.names[k])
                    is Some,
        ensures
            (self@, final(p)@, action@) == begin_create(self@, old(p)@, i as int),
    {
        if i < p.names.len() {
            let name = p.names[i].clone();
            p.phase = RunPhase::Create(i);
            RunAction::CreateContainer { name }
        } else {
            self.run_begin_start(p, 0)
        }
    }

    /// Ends the bring-up in failure and terminates the named containers.
    fn run_fail(&mut self, p: &mut RunProgress, names: &Vec<String>, e: Error) -> (action: RunAction)
        requires
            old(self).wf(),
        ensures
            final(self).wf(),
            (final(self)@, final(p)@, action@) == fail(
                old(self)@,
                old(p)@,
                names.deep_view(),
                e@,
            ),
    {
        let cleanup = self.terminate(names);
        p.phase = RunPhase::Done;
        RunAction::Finished { cleanup, result: Err(e) }
    }

    /// Takes what came of the last action of a bring-up and says what is to
    /// be done next.
    ///
    /// The steps are those of `run_step`. When the action is `Finished` with
    /// `Ok`, every named container is active and has the id of its external
    /// container; when it is `Finished` with an error, none of them is
    /// active and none holds an external container, once the caller has
    /// completed the terminations of the action.
    pub fn run_next(&mut self, p: &mut RunProgress, event: RunEvent) -> (action: RunAction)
        requires
            old(self).wf(),
            run_inv(old(self)@, old(p)@),
        ensures
            final(self).wf(),
            run_inv(final(self)@, final(p)@),
            (final(self)@, final(p)@, action@) == run_step(old(self)@, old(p)@, event@),
            action matches RunAction::Finished { result: Ok(_), .. } ==> forall|k: int|
                0 <= k < old(p)@.names.len() ==> is_started(
                    state_named(final(self)@.states, #[trigger] old(p)@.names[k]),
                ),
            action matches RunAction::Finished { result: Err(_), .. } && !(old(p)@.phase is Done)
                ==> forall|k: int|
                0 <= k < old(p)@.names.len() ==> state_named(
                    final(self)@.states,
                    #[trigger] old(p)@.names[k],
                ).is_clean(),
    {
        proof {
            lemma_run_step_keeps_inv(self@, p@, event@);
            if run_step(self@, p@, event@).2 matches RunActionView::Finished { result: Ok(_), .. } {
                lemma_run_ok_all_active(self@, p@, event@);
            }
            if run_step(self@, p@, event@).2 matches RunActionView::Finished { result: Err(_), .. } {
                if !(p@.phase is Done) {
                    lemma_run_err_all_clean(self@, p@, event@);
                }
            }
        }
        let phase = p.phase;
        match phase {
            RunPhase::Prepare => {
                match event {
                    RunEvent::Success { output } => {
                        let need = self.run_needs_write_dir(p);
                        p.write_file = if need {
                            Some(output)
                        } else {
                            None
                        };
                        if !self.network_active() {
                            let args = self.network_create_args();
                            p.phase = RunPhase::Network;
                            RunAction::CreateNetwork { args }
                        } else {
                            self.run_begin_create(p, 0)
                        }
                    },
                    RunEvent::Failure(e) => {
                        let none: Vec<String> = Vec::new();
                        assert(none.deep_view() =~= Seq::<Seq<char>>::empty());
                        self.run_fail(p, &none, e.with_kind(ErrorKind::Validation))
                    },
                }
            },
            RunPhase::Network => {
                match event {
                    RunEvent::Success { output } => {
                        self.set_network_active(true);
                        self.run_begin_create(p, 0)
                    },
                    RunEvent::Failure(e) => {
                        let none: Vec<String> = Vec::new();
                        assert(none.deep_view() =~= Seq::<Seq<char>>::empty());
                        self.run_fail(p, &none, e)
                    },
                }
            },
            RunPhase::Create(i) => {
                let created = first_names(&p.names, i);
                match event {
                    RunEvent::Success { output } => {
                        let id = trim_newline(output.as_str());
                        if id.as_str().unicode_len() == 0 {
                            let e = Error::new(
                                ErrorKind::ExternalCommand,
                                "ContainerNetwork::run -> the creation of a container gave no id".to_owned(),
                            );
                            self.run_fail(p, &created, e)
                        } else {
                            match self.position(p.names[i].as_str()) {
                                Some(at) => {
                                    self.mark_created(at, id);
                                },
                                None => {
                                    // Every name of a bring-up is in the
                                    // network.
                                    assert(false);
                                },
                            }
                            proof {
                                let name = old(p)@.names[i as int];
                                let s = state_named(old(self)@.states, name).created(id@);
                                lemma_set_state(old(self)@, name, s);
                            }
                            self.run_begin_create(p, i + 1)
                        }
                    },
                    RunEvent::Failure(e) => self.run_fail(p, &created, e),
                }
            },
            RunPhase::Start(j) => {
                match event {
                    RunEvent::Success { output } => {
                        match self.position(p.names[j].as_str()) {
                            Some(at) => {
                                self.mark_started(at);
                            },
                            None => {
                                // Every name of a bring-up is in the network.
                                assert(false);
                            },
                        }
                        proof {
                            let name = old(p)@.names[j as int];
                            let s = state_named(old(self)@.states, name).started();
                            lemma_set_state(old(self)@, name, s);
                        }
                        self.run_begin_start(p, j + 1)
                    },
                    RunEvent::Failure(e) => {
                        let all = first_names(&p.names, p.names.len());
                        assert(p.names.deep_view().take(p.names.len() as int) =~= p.names.deep_view());
                        self.run_fail(p, &all, e)
                    },
                }
            },
            RunPhase::Done => {
                let e = Error::new(
                    ErrorKind::Validation,
                    "ContainerNetwork::run -> the bring-up is over".to_owned(),
                );
                let action = RunAction::Finished { cleanup: Vec::new(), result: Err(e) };
                assert(action@ == (RunActionView::Finished {
                    cleanup: Seq::empty(),
                    result: Err(over_error()),
                })) by {
                    assert(terminations(Seq::<Termination>::empty()) =~= Seq::<
                        TerminationView,
                    >::empty());
                }
                action
            },
        }
    }

    /// Whether the network and the progress fit together, as they do between
    /// the steps of a bring-up that nothing else has interfered with. A caller
    /// that is not verified asks this before `run_next`.
    pub fn run_in_step(&self, p: &RunProgress) -> (r: bool)
        ensures
            r == run_inv(self@, p@),
    {
        if !all_distinct(&p.names) {
            return false;
        }
        let n = p.names.len();
        let (created_before, started_before): (usize, usize) = match p.phase {
            RunPhase::Prepare | RunPhase::Network => (0, 0),
            RunPhase::Create(i) => {
                if i >= n {
                    return false;
                }
                (i, 0)
            },
            RunPhase::Start(j) => {
                if j >= n {
                    return false;
                }
                (n, j)
            },
            RunPhase::Done => (0, 0),
        };
        let done = match p.phase {
            RunPhase::Done => true,
            _ => false,
        };
        let mut k: usize = 0;
        while k < n
            invariant
                k <= n == p.names.len(),
                n == p@.names.len(),
                done == (p@.phase is Done),
                match p@.phase {
                    RunPhase::Prepare | RunPhase::Network => created_before == 0 && started_before
                        == 0,
                    RunPhase::Create(i) => created_before == i && started_before == 0,
                    RunPhase::Start(j) => created_before == n && started_before == j,
                    RunPhase::Done => true,
                },
                forall|x: int| 0 <= x < k ==> named_ok(self@, p@.phase, #[trigger] p@.names[x], x),
            decreases n - k,
        {
            let ghost name = p@.names[k as int];
            assert(name == p.names[k as int]@);
            match self.position(p.names[k].as_str()) {
                None => {
                    assert(!named_ok(self@, p@.phase, p@.names[k as int], k as int));
                    return false;
                },
                Some(i) => {
                    if !done {
                        let state = self.state_at(i);
                        let active = state.is_active();
                        let has_id = match state.active_container_id() {
                            Some(id) => id.as_str().unicode_len() > 0,
                            None => false,
                        };
                        let none = state.active_container_id().is_none();
                        let ok = if k < started_before {
                            active && has_id
                        } else if k < created_before {
                            !active && has_id
                        } else {
                            !active && none
                        };
                        if !ok {
                            assert(!named_ok(self@, p@.phase, p@.names[k as int], k as int));
                            return false;
                        }
                    }
                },
            }
            k += 1;
        }
        true
    }

    /// Whether one of the containers of the bring-up is built from the
    /// contents of a Dockerfile.
    fn run_needs_write_dir(&self, p: &RunProgress) -> (r: bool)
        requires
            forall|k: int|
                0 <= k < p@.names.len() ==> index_of(self@.states, #[trigger] p@.names[k]) is Some,
        ensures
            r == needs_write_dir(self@.states, p@.names),
    {
        let mut need = false;
        let mut k: usize = 0;
        assert(p@.names.take(0) =~= Seq::<Seq<char>>::empty());
        while k < p.names.len()
            invariant
                k <= p.names.len(),
                forall|k: int|
                    0 <= k < p@.names.len() ==> index_of(self@.states, #[trigger] p@.names[k])
                        is Some,
                need == needs_write_dir(self@.states, p@.names.take(k as int)),
            decreases p.names.len() - k,
        {
            assert(index_of(self@.states, p@.names[k as int]) is Some);
            match self.position(p.names[k].as_str()) {
                Some(i) => {
                    match &self.state_at(i).container().dockerfile {
                        Dockerfile::Contents(_) => {
                            need = true;
                        },
                        _ => {},
                    }
                },
                None => {},
            }
            k += 1;
            assert(p@.names.take(k as int).drop_last() =~= p@.names.take(k - 1));
            assert(p@.names.take(k as int).last() == p@.names[k - 1]);
        }
        assert(p@.names.take(k as int) =~= p@.names);
        need
    }
}

} // verus!
