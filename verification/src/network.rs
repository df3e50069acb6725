//! The engine that owns the containers of one Docker network.
//!
//! The engine keeps the state of every container and decides what has to be
//! done; the caller performs the Docker commands and reports what came of
//! them.

use vstd::prelude::*;
use crate::container::{network_create_command, network_create_command_args, Container};
use crate::container_state::{
    CommandResult, ContainerState, ContainerStateView, RunState, TerminateAction,
};
use crate::diagnostics::{container_report, report};
use crate::dockerfile::Dockerfile;
use crate::error::{Error, ErrorKind};
use crate::ids::{fresh_uuid, hyphenated, uuid_text};
use crate::text::{
    lemma_text_lt_irreflexive, lemma_text_lt_total, lemma_text_lt_transitive, same_text,
    text_before, text_lt,
};

verus! {

/// The name of the container that a state belongs to.
pub open spec fn name_of(s: ContainerStateView) -> Seq<char> {
    s.container.name@
}

/// Whether the states are in the strict order of their names.
pub open spec fn sorted_by_name(states: Seq<ContainerStateView>) -> bool {
    forall|i: int, j: int|
        0 <= i < j < states.len() ==> text_lt(
            #[trigger] name_of(states[i]),
            #[trigger] name_of(states[j]),
        )
}

/// The position of the first state at or after `start` with the given name.
pub open spec fn index_from(states: Seq<ContainerStateView>, name: Seq<char>, start: int) -> Option<
    int,
>
    decreases states.len() - start,
{
    if start < 0 || start >= states.len() {
        None
    } else if name_of(states[start]) == name {
        Some(start)
    } else {
        index_from(states, name, start + 1)
    }
}

/// The position of the state with the given name.
pub open spec fn index_of(states: Seq<ContainerStateView>, name: Seq<char>) -> Option<int> {
    index_from(states, name, 0)
}

/// The number of leading states whose names are not above `name`: the place
/// where a state of that name belongs.
pub open spec fn rank(states: Seq<ContainerStateView>, name: Seq<char>) -> int
    decreases states.len(),
{
    if states.len() == 0 {
        0
    } else if text_lt(name_of(states.last()), name) {
        states.len() as int
    } else {
        rank(states.drop_last(), name)
    }
}

/// What a search from `start` finds is a state of that name at or after
/// `start`, and where it finds none there is none.
pub proof fn lemma_index_from(states: Seq<ContainerStateView>, name: Seq<char>, start: int)
    requires
        0 <= start,
    ensures
        match index_from(states, name, start) {
            Some(i) => start <= i < states.len() && name_of(states[i]) == name,
            None => forall|i: int| start <= i < states.len() ==> name_of(#[trigger] states[i]) != name,
        },
    decreases states.len() - start,
{
    if start < states.len() && name_of(states[start]) != name {
        lemma_index_from(states, name, start + 1);
    }
}

/// In sorted states a name stands at one position at most.
pub proof fn lemma_sorted_unique(states: Seq<ContainerStateView>, i: int, j: int)
    requires
        sorted_by_name(states),
        0 <= i < states.len(),
        0 <= j < states.len(),
        name_of(states[i]) == name_of(states[j]),
    ensures
        i == j,
{
    if i < j {
        lemma_text_lt_irreflexive(name_of(states[i]));
    } else if j < i {
        lemma_text_lt_irreflexive(name_of(states[j]));
    }
}

/// In sorted states the state with a name is found at its position.
pub proof fn lemma_index_of_position(states: Seq<ContainerStateView>, i: int)
    requires
        sorted_by_name(states),
        0 <= i < states.len(),
    ensures
        index_of(states, name_of(states[i])) == Some(i),
{
    lemma_index_from(states, name_of(states[i]), 0);
    let found = index_of(states, name_of(states[i]));
    lemma_sorted_unique(states, i, found->0);
}

/// Replacing a state by one of the same name keeps the order.
pub proof fn lemma_update_keeps_order(
    states: Seq<ContainerStateView>,
    i: int,
    s: ContainerStateView,
)
    requires
        sorted_by_name(states),
        0 <= i < states.len(),
        name_of(s) == name_of(states[i]),
    ensures
        sorted_by_name(states.update(i, s)),
{
    let after = states.update(i, s);
    assert forall|a: int, b: int| 0 <= a < b < after.len() implies text_lt(
        #[trigger] name_of(after[a]),
        #[trigger] name_of(after[b]),
    ) by {
        assert(name_of(after[a]) == name_of(states[a]));
        assert(name_of(after[b]) == name_of(states[b]));
    }
}

/// Putting a state where its name belongs keeps the order: where the state
/// before the place is below the new name, and no state from the place on is
/// below the new name or has it.
pub proof fn lemma_insert_keeps_order(
    states: Seq<ContainerStateView>,
    i: int,
    s: ContainerStateView,
)
    requires
        sorted_by_name(states),
        forall|k: int| 0 <= k < states.len() ==> (#[trigger] states[k]).wf(),
        s.wf(),
        0 <= i <= states.len(),
        i > 0 ==> text_lt(name_of(states[i - 1]), name_of(s)),
        forall|j: int| i <= j < states.len() ==> !text_lt(name_of(#[trigger] states[j]), name_of(s)),
        forall|j: int| 0 <= j < states.len() ==> name_of(#[trigger] states[j]) != name_of(s),
    ensures
        sorted_by_name(states.insert(i, s)),
        forall|k: int| 0 <= k <= states.len() ==> (#[trigger] states.insert(i, s)[k]).wf(),
{
    let after = states.insert(i, s);
    let name = name_of(s);
    assert forall|a: int, b: int| 0 <= a < b < after.len() implies text_lt(
        #[trigger] name_of(after[a]),
        #[trigger] name_of(after[b]),
    ) by {
        if b < i {
            assert(after[a] == states[a] && after[b] == states[b]);
        } else if b == i {
            assert(after[a] == states[a]);
            if a < i - 1 {
                lemma_text_lt_transitive(name_of(states[a]), name_of(states[i - 1]), name);
            }
        } else {
            assert(after[b] == states[b - 1]);
            lemma_text_lt_total(name, name_of(states[b - 1]));
            if a < i {
                assert(after[a] == states[a]);
                if a < i - 1 {
                    lemma_text_lt_transitive(name_of(states[a]), name_of(states[i - 1]), name);
                }
                lemma_text_lt_transitive(name_of(states[a]), name, name_of(states[b - 1]));
            } else if a > i {
                assert(after[a] == states[a - 1]);
            }
        }
    }
    assert forall|k: int| 0 <= k <= states.len() implies (#[trigger] after[k]).wf() by {
        if k < i {
            assert(after[k] == states[k]);
        } else if k > i {
            assert(after[k] == states[k - 1]);
        }
    }
}

/// One termination that the caller has to complete.
#[derive(Debug, Clone, PartialEq, Eq)]
pub struct Termination {
    /// The name of the container.
    pub name: String,
    /// What has to be done for it.
    pub action: TerminateAction,
}

/// A `Termination` as plain values.
pub struct TerminationView {
    pub name: Seq<char>,
    pub remove_container: Option<Seq<char>>,
    pub stop_runner: bool,
}

impl View for Termination {
    type V = TerminationView;

    open spec fn view(&self) -> TerminationView {
        TerminationView {
            name: self.name@,
            remove_container: match self.action.remove_container {
                Some(id) => Some(id@),
                None => None,
            },
            stop_runner: self.action.stop_runner,
        }
    }
}

/// What the caller has to do to tear a network down: complete the
/// terminations in order, then remove the network, ignoring errors.
#[derive(Debug, Clone, PartialEq, Eq)]
pub struct Teardown {
    pub containers: Vec<Termination>,
    /// The name of the external network to remove, if there is one.
    pub remove_network: Option<String>,
}

/// The terminations as plain values.
pub open spec fn terminations(v: Seq<Termination>) -> Seq<TerminationView> {
    v.map_values(|t: Termination| t@)
}

/// What the termination of a state asks of the caller.
pub open spec fn termination_of(s: ContainerStateView) -> TerminationView {
    TerminationView {
        name: name_of(s),
        remove_container: s.active_container_id,
        stop_runner: s.run_state is Active,
    }
}

/// The states after each of them was terminated.
pub open spec fn all_terminated(states: Seq<ContainerStateView>) -> Seq<ContainerStateView> {
    states.map_values(|s: ContainerStateView| s.terminated())
}

/// What the termination of every state asks of the caller, in order.
pub open spec fn all_terminations(states: Seq<ContainerStateView>) -> Seq<TerminationView> {
    states.map_values(|s: ContainerStateView| termination_of(s))
}

/// The states after the containers with the given names were terminated one
/// after the other, and what that asks of the caller. A name that is not in
/// the network is passed over.
pub open spec fn terminate_names(states: Seq<ContainerStateView>, names: Seq<Seq<char>>) -> (
    Seq<ContainerStateView>,
    Seq<TerminationView>,
)
    decreases names.len(),
{
    if names.len() == 0 {
        (states, Seq::empty())
    } else {
        let (s, plan) = terminate_names(states, names.drop_last());
        match index_of(s, names.last()) {
            Some(i) => (s.update(i, s[i].terminated()), plan.push(termination_of(s[i]))),
            None => (s, plan),
        }
    }
}

/// A network as plain values.
pub struct ContainerNetworkView {
    pub uuid: u128,
    pub network_name: Seq<char>,
    pub network_args: Seq<Seq<char>>,
    /// The states of the containers, in the order of their names.
    pub states: Seq<ContainerStateView>,
    pub dockerfile_write_dir: Option<Seq<char>>,
    pub log_dir: Seq<char>,
    /// Whether an external Docker network exists that this engine has to remove.
    pub network_active: bool,
}

impl ContainerNetworkView {
    /// The containers are in the order of their names, which are therefore
    /// unique, and each state is well formed.
    pub open spec fn wf(self) -> bool {
        &&& sorted_by_name(self.states)
        &&& forall|i: int| 0 <= i < self.states.len() ==> (#[trigger] self.states[i]).wf()
    }

    /// Nothing external is left: no container runs or waits to be removed,
    /// and there is no network.
    pub open spec fn is_clean(self) -> bool {
        &&& !self.network_active
        &&& forall|i: int| 0 <= i < self.states.len() ==> (#[trigger] self.states[i]).is_clean()
    }
}

/// A complete network of one or more containers, a more programmable
/// alternative to `docker-compose`.
#[derive(Debug)]
pub struct ContainerNetwork {
    uuid: u128,
    network_name: String,
    /// Arguments passed to `docker network create`.
    pub network_args: Vec<String>,
    set: Vec<ContainerState>,
    dockerfile_write_dir: Option<String>,
    log_dir: String,
    network_active: bool,
}

impl View for ContainerNetwork {
    type V = ContainerNetworkView;

    closed spec fn view(&self) -> ContainerNetworkView {
        ContainerNetworkView {
            uuid: self.uuid,
            network_name: self.network_name@,
            network_args: self.network_args.deep_view(),
            states: self.set@.map_values(|s: ContainerState| s@),
            dockerfile_write_dir: match self.dockerfile_write_dir {
                Some(d) => Some(d@),
                None => None,
            },
            log_dir: self.log_dir@,
            network_active: self.network_active,
        }
    }
}

/// The messages that the states contribute to the error of the network, in
/// the order of the containers: those of the finished containers that were
/// unsuccessful.
pub open spec fn reports(states: Seq<ContainerStateView>) -> Seq<Seq<char>>
    decreases states.len(),
{
    if states.len() == 0 {
        Seq::empty()
    } else {
        reports(states.drop_last()) + (match states.last().run_state {
            RunState::PostActive(result) => report(name_of(states.last()), result),
            _ => Seq::empty(),
        })
    }
}

/// The state of a container that was never started.
pub open spec fn fresh_state(container: Container) -> ContainerStateView {
    ContainerStateView {
        container,
        run_state: RunState::PreActive,
        active_container_id: None,
        already_tried_drop: false,
    }
}

/// The names of the states that are active (or of those that are not), in order.
pub open spec fn names_where(states: Seq<ContainerStateView>, active: bool) -> Seq<Seq<char>>
    decreases states.len(),
{
    if states.len() == 0 {
        Seq::empty()
    } else if (states.last().run_state is Active) == active {
        names_where(states.drop_last(), active).push(name_of(states.last()))
    } else {
        names_where(states.drop_last(), active)
    }
}

/// The ids that the guards of last resort of the states hand out, in order.
pub open spec fn guard_ids(states: Seq<ContainerStateView>) -> Seq<Seq<char>>
    decreases states.len(),
{
    if states.len() == 0 {
        Seq::empty()
    } else {
        match states.last().guard_id() {
            Some(id) => guard_ids(states.drop_last()).push(id),
            None => guard_ids(states.drop_last()),
        }
    }
}

/// The names of the states that own an external container, in order.
pub open spec fn names_with_id(states: Seq<ContainerStateView>) -> Seq<Seq<char>>
    decreases states.len(),
{
    if states.len() == 0 {
        Seq::empty()
    } else if states.last().active_container_id is Some {
        names_with_id(states.drop_last()).push(name_of(states.last()))
    } else {
        names_with_id(states.drop_last())
    }
}

/// Whether `name` is the name of a state of the given activity.
pub open spec fn names_state(states: Seq<ContainerStateView>, name: Seq<char>, active: bool) -> bool {
    exists|i: int|
        0 <= i < states.len() && name_of(#[trigger] states[i]) == name && (
        states[i].run_state is Active) == active
}

/// The names that `names_where` lists are names of states of that activity,
/// and none is listed twice.
pub proof fn lemma_names_where(states: Seq<ContainerStateView>, active: bool)
    requires
        sorted_by_name(states),
    ensures
        forall|k: int|
            0 <= k < names_where(states, active).len() ==> names_state(
                states,
                #[trigger] names_where(states, active)[k],
                active,
            ),
        forall|a: int, b: int|
            0 <= a < b < names_where(states, active).len() ==> names_where(states, active)[a]
                != names_where(states, active)[b],
    decreases states.len(),
{
    if states.len() > 0 {
        let front = states.drop_last();
        let last = states.last();
        assert forall|a: int, b: int| 0 <= a < b < front.len() implies text_lt(
            #[trigger] name_of(front[a]),
            #[trigger] name_of(front[b]),
        ) by {
            assert(front[a] == states[a] && front[b] == states[b]);
        }
        lemma_names_where(front, active);
        let fnames = names_where(front, active);
        let names = names_where(states, active);
        assert forall|k: int| 0 <= k < names.len() implies names_state(
            states,
            #[trigger] names[k],
            active,
        ) by {
            if k < fnames.len() {
                assert(names[k] == fnames[k]);
                assert(names_state(front, fnames[k], active));
                let i = choose|i: int|
                    0 <= i < front.len() && name_of(#[trigger] front[i]) == fnames[k] && (
                    front[i].run_state is Active) == active;
                assert(states[i] == front[i]);
            } else {
                assert(name_of(states[states.len() - 1]) == names[k]);
            }
        }
        assert forall|a: int, b: int| 0 <= a < b < names.len() implies names[a] != names[b] by {
            if b >= fnames.len() {
                assert(names[a] == fnames[a]);
                assert(names_state(front, fnames[a], active));
                let i = choose|i: int|
                    0 <= i < front.len() && name_of(#[trigger] front[i]) == fnames[a] && (
                    front[i].run_state is Active) == active;
                assert(states[i] == front[i]);
                assert(text_lt(name_of(states[i]), name_of(states[states.len() - 1])));
                lemma_text_lt_irreflexive(names[b]);
            } else {
                assert(names[a] == fnames[a] && names[b] == fnames[b]);
            }
        }
    }
}

/// The pairs of name and container id of the active states, in order.
pub open spec fn active_ids(states: Seq<ContainerStateView>) -> Seq<(Seq<char>, Seq<char>)>
    decreases states.len(),
{
    if states.len() == 0 {
        Seq::empty()
    } else {
        let s = states.last();
        match s.active_container_id {
            Some(id) if s.run_state is Active => active_ids(states.drop_last()).push(
                (name_of(s), id),
            ),
            _ => active_ids(states.drop_last()),
        }
    }
}

/// Whether `after` is `before` with the volumes added to its container.
pub open spec fn volumes_added(
    before: ContainerStateView,
    after: ContainerStateView,
    volumes: Seq<(String, String)>,
) -> bool {
    &&& after.container.volumes@ == before.container.volumes@ + volumes
    &&& after == (ContainerStateView {
        container: Container { volumes: after.container.volumes, ..before.container },
        ..before
    })
}

/// Whether `after` is `before` with the arguments added to those of its
/// container's entrypoint.
pub open spec fn entrypoint_args_added(
    before: ContainerStateView,
    after: ContainerStateView,
    args: Seq<String>,
) -> bool {
    &&& after.container.entrypoint_args@ == before.container.entrypoint_args@ + args
    &&& after == (ContainerStateView {
        container: Container {
            entrypoint_args: after.container.entrypoint_args,
            ..before.container
        },
        ..before
    })
}

/// Adds the volumes to the container.
fn extend_volumes(c: &mut Container, volumes: &Vec<(String, String)>)
    ensures
        final(c).volumes@ == old(c).volumes@ + volumes@,
        *final(c) == (Container { volumes: final(c).volumes, ..*old(c) }),
{
    let mut k: usize = 0;
    assert(c.volumes@ =~= old(c).volumes@ + volumes@.take(0));
    while k < volumes.len()
        invariant
            k <= volumes.len(),
            c.volumes@ == old(c).volumes@ + volumes@.take(k as int),
            *c == (Container { volumes: c.volumes, ..*old(c) }),
        decreases volumes.len() - k,
    {
        c.volumes.push((volumes[k].0.clone(), volumes[k].1.clone()));
        k += 1;
        assert(c.volumes@ =~= old(c).volumes@ + volumes@.take(k as int));
    }
    assert(volumes@.take(k as int) =~= volumes@);
}

/// Adds the arguments to those of the container's entrypoint.
fn extend_entrypoint_args(c: &mut Container, args: &Vec<String>)
    ensures
        final(c).entrypoint_args@ == old(c).entrypoint_args@ + args@,
        *final(c) == (Container { entrypoint_args: final(c).entrypoint_args, ..*old(c) }),
{
    let mut k: usize = 0;
    assert(c.entrypoint_args@ =~= old(c).entrypoint_args@ + args@.take(0));
    while k < args.len()
        invariant
            k <= args.len(),
            c.entrypoint_args@ == old(c).entrypoint_args@ + args@.take(k as int),
            *c == (Container { entrypoint_args: c.entrypoint_args, ..*old(c) }),
        decreases args.len() - k,
    {
        c.entrypoint_args.push(args[k].clone());
        k += 1;
        assert(c.entrypoint_args@ =~= old(c).entrypoint_args@ + args@.take(k as int));
    }
    assert(args@.take(k as int) =~= args@);
}

impl ContainerNetwork {
    /// The containers are in the order of their names and each state is well
    /// formed. Every network that this library makes is so, and stays so.
    pub open spec fn wf(&self) -> bool {
        self@.wf()
    }

    /// Creates a new `ContainerNetwork` with the given UUID.
    ///
    /// `network_name` sets the name of the docker network that containers will
    /// be attached to, `dockerfile_write_dir` is the directory in which
    /// "__tmp.dockerfile" can be written if `Dockerfile::Contents` is used,
    /// and `log_dir` is where ".log" log files will be written.
    pub fn new_with_uuid(
        uuid: u128,
        network_name: &str,
        dockerfile_write_dir: Option<&str>,
        log_dir: &str,
    ) -> (r: Self)
        ensures
            r.wf(),
            r@ == (ContainerNetworkView {
                uuid,
                network_name: network_name@,
                network_args: Seq::empty(),
                states: Seq::empty(),
                dockerfile_write_dir: match dockerfile_write_dir {
                    Some(d) => Some(d@),
                    None => None,
                },
                log_dir: log_dir@,
                network_active: false,
            }),
    {
        let r = ContainerNetwork {
            uuid,
            network_name: network_name.to_owned(),
            network_args: Vec::new(),
            set: Vec::new(),
            dockerfile_write_dir: match dockerfile_write_dir {
                Some(d) => Some(d.to_owned()),
                None => None,
            },
            log_dir: log_dir.to_owned(),
            network_active: false,
        };
        assert(r@.network_args =~= Seq::<Seq<char>>::empty());
        assert(r@.states =~= Seq::<ContainerStateView>::empty());
        r
    }

    /// Creates a new `ContainerNetwork`.
    ///
    /// This function generates a UUID used for enabling multiple
    /// `ContainerNetwork`s with the same names and ids to run simultaneously;
    /// see `new_with_uuid` for the arguments.
    pub fn new(network_name: &str, dockerfile_write_dir: Option<&str>, log_dir: &str) -> (r: Self)
        ensures
            r.wf(),
            r@ == (ContainerNetworkView {
                uuid: r@.uuid,
                network_name: network_name@,
                network_args: Seq::empty(),
                states: Seq::empty(),
                dockerfile_write_dir: match dockerfile_write_dir {
                    Some(d) => Some(d@),
                    None => None,
                },
                log_dir: log_dir@,
                network_active: false,
            }),
    {
        ContainerNetwork::new_with_uuid(fresh_uuid(), network_name, dockerfile_write_dir, log_dir)
    }

    /// Adds arguments to be passed to `docker network create` (which will be
    /// run once any container is started)
    pub fn add_network_args(&mut self, network_args: Vec<String>)
        ensures
            final(self)@ == (ContainerNetworkView {
                network_args: old(self)@.network_args + network_args.deep_view(),
                ..old(self)@
            }),
    {
        let mut more = network_args;
        let ghost added = more.deep_view();
        self.network_args.append(&mut more);
        assert(self.network_args.deep_view() =~= old(self).network_args.deep_view() + added);
    }

    /// The arguments with which `docker` creates the network of this engine.
    pub fn network_create_args(&self) -> (r: Vec<String>)
        ensures
            r.deep_view() == network_create_command(self@.network_args, self@.network_name),
    {
        network_create_command_args(&self.network_args, self.network_name.as_str())
    }

    /// Returns the common UUID
    pub fn uuid(&self) -> (r: u128)
        ensures
            r == self@.uuid,
    {
        self.uuid
    }

    /// Returns the common UUID as a string
    pub fn uuid_as_string(&self) -> (r: String)
        ensures
            r@ == hyphenated(self@.uuid),
    {
        uuid_text(self.uuid)
    }

    /// Returns the full network name
    pub fn network_name(&self) -> (r: &str)
        ensures
            r@ == self@.network_name,
    {
        self.network_name.as_str()
    }

    /// The directory in which log files are written.
    pub fn log_dir(&self) -> (r: &str)
        ensures
            r@ == self@.log_dir,
    {
        self.log_dir.as_str()
    }

    /// The directory in which a Dockerfile given by its contents is written.
    pub fn dockerfile_write_dir(&self) -> (r: Option<&String>)
        ensures
            match r {
                Some(d) => self@.dockerfile_write_dir == Some(d@),
                None => self@.dockerfile_write_dir is None,
            },
    {
        self.dockerfile_write_dir.as_ref()
    }

    /// Whether the external network exists.
    pub fn network_active(&self) -> (r: bool)
        ensures
            r == self@.network_active,
    {
        self.network_active
    }

    /// The number of containers.
    pub fn len(&self) -> (r: usize)
        ensures
            r == self@.states.len(),
    {
        self.set.len()
    }

    /// The position of the container with the given name.
    pub fn position(&self, name: &str) -> (r: Option<usize>)
        ensures
            match r {
                Some(i) => index_of(self@.states, name@) == Some(i as int) && i < self@.states.len()
                    && name_of(self@.states[i as int]) == name@,
                None => index_of(self@.states, name@) is None,
            },
    {
        let mut i: usize = 0;
        while i < self.set.len()
            invariant
                i <= self.set.len(),
                index_of(self@.states, name@) == index_from(self@.states, name@, i as int),
            decreases self.set.len() - i,
        {
            if same_text(self.set[i].container().name.as_str(), name) {
                return Some(i);
            }
            i += 1;
        }
        None
    }

    /// The state of the container with the given name.
    pub fn state(&self, name: &str) -> (r: Option<&ContainerState>)
        ensures
            match r {
                Some(s) => index_of(self@.states, name@) matches Some(i) && self@.states[i] == s@,
                None => index_of(self@.states, name@) is None,
            },
    {
        match self.position(name) {
            Some(i) => Some(&self.set[i]),
            None => None,
        }
    }

    /// The description of the container with the given name.
    pub fn container(&self, name: &str) -> (r: Option<&Container>)
        ensures
            match r {
                Some(c) => index_of(self@.states, name@) matches Some(i) && self@.states[i].container
                    == *c,
                None => index_of(self@.states, name@) is None,
            },
    {
        match self.position(name) {
            Some(i) => Some(self.set[i].container()),
            None => None,
        }
    }

    /// Adds the container to the inactive set.
    ///
    /// This is refused, and nothing changes, where a container of that name is
    /// in the network already, or where the container is built from
    /// `Dockerfile::Contents` and the network has no `dockerfile_write_dir`.
    pub fn add_container(&mut self, container: Container) -> (r: Result<(), Error>)
        requires
            old(self).wf(),
        ensures
            final(self).wf(),
            match r {
                Ok(_) => {
                    &&& index_of(old(self)@.states, container.name@) is None
                    &&& !(container.dockerfile is Contents && old(self)@.dockerfile_write_dir is None)
                    &&& final(self)@ == (ContainerNetworkView {
                        states: old(self)@.states.insert(
                            rank(old(self)@.states, container.name@),
                            fresh_state(container),
                        ),
                        ..old(self)@
                    })
                },
                Err(e) => {
                    &&& e.kind == ErrorKind::Validation
                    &&& (index_of(old(self)@.states, container.name@) is Some || (
                    container.dockerfile is Contents && old(self)@.dockerfile_write_dir is None))
                    &&& final(self)@ == old(self)@
                },
            },
    {
        let contents = match container.dockerfile {
            Dockerfile::Contents(_) => true,
            _ => false,
        };
        if self.dockerfile_write_dir.is_none() && contents {
            return Err(
                Error::new(
                    ErrorKind::Validation,
                    "ContainerNetwork::add_container -> a container is built with `Dockerfile::Contents`, but `dockerfile_write_dir` is unset".to_owned(),
                ),
            );
        }
        match self.position(container.name.as_str()) {
            Some(_) => {
                let mut message =
                    "ContainerNetwork::add_container -> two containers were supplied with the same name \"".to_owned();
                message.append(container.name.as_str());
                message.append("\"");
                return Err(Error::new(ErrorKind::Validation, message));
            },
            None => {},
        }
        let ghost states = self@.states;
        let ghost name = container.name@;
        proof {
            lemma_index_from(states, name, 0);
        }
        let mut i: usize = self.set.len();
        assert(states.take(i as int) =~= states);
        while i > 0 && !text_before(self.set[i - 1].container().name.as_str(), container.name.as_str())
            invariant
                i <= self.set.len(),
                states == self@.states,
                name == container.name@,
                *self == *old(self),
                rank(states, name) == rank(states.take(i as int), name),
                forall|j: int| i <= j < states.len() ==> !text_lt(name_of(#[trigger] states[j]), name),
            decreases i,
        {
            assert(states.take(i as int).drop_last() =~= states.take(i - 1));
            i -= 1;
        }
        assert(rank(states, name) == i) by {
            if i > 0 {
                assert(states.take(i as int).last() == states[i - 1]);
            }
        }
        let state = ContainerState::new(container);
        self.set.insert(i, state);
        proof {
            assert(self@.states =~= states.insert(i as int, fresh_state(container)));
            if i > 0 {
                assert(text_lt(name_of(states[i - 1]), name));
            }
            lemma_insert_keeps_order(states, i as int, fresh_state(container));
        }
        Ok(())
    }

    /// Adds the volumes to every container currently in the network
    pub fn add_common_volumes(&mut self, volumes: Vec<(String, String)>)
        requires
            old(self).wf(),
        ensures
            final(self).wf(),
            final(self)@.states.len() == old(self)@.states.len(),
            forall|i: int|
                0 <= i < old(self)@.states.len() ==> volumes_added(
                    old(self)@.states[i],
                    #[trigger] final(self)@.states[i],
                    volumes@,
                ),
            final(self)@ == (ContainerNetworkView { states: final(self)@.states, ..old(self)@ }),
    {
        let mut i: usize = 0;
        while i < self.set.len()
            invariant
                i <= self.set.len(),
                self.set.len() == old(self).set.len(),
                self@ == (ContainerNetworkView { states: self@.states, ..old(self)@ }),
                forall|k: int| i <= k < self.set.len() ==> self@.states[k] == old(self)@.states[k],
                forall|k: int|
                    0 <= k < i ==> volumes_added(
                        old(self)@.states[k],
                        #[trigger] self@.states[k],
                        volumes@,
                    ),
            decreases self.set.len() - i,
        {
            let ghost before_set = self.set@;
            let ghost before_states = self@.states;
            extend_volumes(self.set[i].container_mut(), &volumes);
            proof {
                assert(self.set@.len() == before_set.len());
                assert(self@.states[i as int] == self.set@[i as int]@);
                assert(before_states[i as int] == before_set[i as int]@);
                assert(volumes_added(old(self)@.states[i as int], self@.states[i as int], volumes@));
                assert forall|j: int| 0 <= j < self.set.len() && j != i implies self@.states[j]
                    == before_states[j] by {
                    assert(self.set@[j] == before_set[j]);
                    assert(self@.states[j] == self.set@[j]@);
                    assert(before_states[j] == before_set[j]@);
                }
                assert forall|k: int| 0 <= k < i + 1 implies volumes_added(
                    old(self)@.states[k],
                    #[trigger] self@.states[k],
                    volumes@,
                ) by {
                    if k < i {
                        assert(self@.states[k] == before_states[k]);
                        assert(volumes_added(old(self)@.states[k], before_states[k], volumes@));
                    }
                }
            }
            i += 1;
        }
        proof {
            assert forall|a: int, b: int| 0 <= a < b < self@.states.len() implies text_lt(
                #[trigger] name_of(self@.states[a]),
                #[trigger] name_of(self@.states[b]),
            ) by {
                assert(name_of(self@.states[a]) == name_of(old(self)@.states[a]));
                assert(name_of(self@.states[b]) == name_of(old(self)@.states[b]));
            }
        }
    }

    /// Adds the arguments to every container currently in the network
    pub fn add_common_entrypoint_args(&mut self, args: Vec<String>)
        requires
            old(self).wf(),
        ensures
            final(self).wf(),
            final(self)@.states.len() == old(self)@.states.len(),
            forall|i: int|
                0 <= i < old(self)@.states.len() ==> entrypoint_args_added(
                    old(self)@.states[i],
                    #[trigger] final(self)@.states[i],
                    args@,
                ),
            final(self)@ == (ContainerNetworkView { states: final(self)@.states, ..old(self)@ }),
    {
        let mut i: usize = 0;
        while i < self.set.len()
            invariant
                i <= self.set.len(),
                self.set.len() == old(self).set.len(),
                self@ == (ContainerNetworkView { states: self@.states, ..old(self)@ }),
                forall|k: int| i <= k < self.set.len() ==> self@.states[k] == old(self)@.states[k],
                forall|k: int|
                    0 <= k < i ==> entrypoint_args_added(
                        old(self)@.states[k],
                        #[trigger] self@.states[k],
                        args@,
                    ),
            decreases self.set.len() - i,
        {
            let ghost before_set = self.set@;
            let ghost before_states = self@.states;
            extend_entrypoint_args(self.set[i].container_mut(), &args);
            proof {
                assert(self.set@.len() == before_set.len());
                assert(self@.states[i as int] == self.set@[i as int]@);
                assert(before_states[i as int] == before_set[i as int]@);
                assert(entrypoint_args_added(old(self)@.states[i as int], self@.states[i as int], args@));
                assert forall|j: int| 0 <= j < self.set.len() && j != i implies self@.states[j]
                    == before_states[j] by {
                    assert(self.set@[j] == before_set[j]);
                    assert(self@.states[j] == self.set@[j]@);
                    assert(before_states[j] == before_set[j]@);
                }
                assert forall|k: int| 0 <= k < i + 1 implies entrypoint_args_added(
                    old(self)@.states[k],
                    #[trigger] self@.states[k],
                    args@,
                ) by {
                    if k < i {
                        assert(self@.states[k] == before_states[k]);
                        assert(entrypoint_args_added(old(self)@.states[k], before_states[k], args@));
                    }
                }
            }
            i += 1;
        }
        proof {
            assert forall|a: int, b: int| 0 <= a < b < self@.states.len() implies text_lt(
                #[trigger] name_of(self@.states[a]),
                #[trigger] name_of(self@.states[b]),
            ) by {
                assert(name_of(self@.states[a]) == name_of(old(self)@.states[a]));
                assert(name_of(self@.states[b]) == name_of(old(self)@.states[b]));
            }
        }
    }

    /// Get the names of all active containers with their container ids, in
    /// the order of the names.
    pub fn get_active_container_ids(&self) -> (r: Vec<(String, String)>)
        ensures
            r@.map_values(|p: (String, String)| (p.0@, p.1@)) == active_ids(self@.states),
    {
        let mut v: Vec<(String, String)> = Vec::new();
        let mut i: usize = 0;
        assert(self@.states.take(0) =~= Seq::<ContainerStateView>::empty());
        assert(v@.map_values(|p: (String, String)| (p.0@, p.1@)) =~= active_ids(
            self@.states.take(0),
        ));
        while i < self.set.len()
            invariant
                i <= self.set.len(),
                v@.map_values(|p: (String, String)| (p.0@, p.1@)) == active_ids(
                    self@.states.take(i as int),
                ),
            decreases self.set.len() - i,
        {
            let ghost before = v@.map_values(|p: (String, String)| (p.0@, p.1@));
            let state = &self.set[i];
            i += 1;
            assert(self@.states.take(i as int).drop_last() =~= self@.states.take(i - 1));
            assert(self@.states.take(i as int).last() == state@);
            if state.is_active() {
                match state.active_container_id() {
                    Some(id) => {
                        let pair = (state.container().name.clone(), id.clone());
                        v.push(pair);
                        assert(v@.map_values(|p: (String, String)| (p.0@, p.1@)) =~= before.push(
                            (pair.0@, pair.1@),
                        ));
                    },
                    None => {},
                }
            }
        }
        assert(self@.states.take(i as int) =~= self@.states);
        v
    }

    /// The names of the containers that are active, or of those that are not.
    fn names_by_activity(&self, active: bool) -> (r: Vec<String>)
        ensures
            r.deep_view() == names_where(self@.states, active),
    {
        let mut v: Vec<String> = Vec::new();
        let mut i: usize = 0;
        assert(self@.states.take(0) =~= Seq::<ContainerStateView>::empty());
        assert(v.deep_view() =~= names_where(self@.states.take(0), active));
        while i < self.set.len()
            invariant
                i <= self.set.len(),
                v.deep_view() == names_where(self@.states.take(i as int), active),
            decreases self.set.len() - i,
        {
            let ghost before = v.deep_view();
            let state = &self.set[i];
            i += 1;
            assert(self@.states.take(i as int).drop_last() =~= self@.states.take(i - 1));
            assert(self@.states.take(i as int).last() == state@);
            if state.is_active() == active {
                let name = state.container().name.clone();
                v.push(name);
                assert(v.deep_view() =~= before.push(name@));
            }
        }
        assert(self@.states.take(i as int) =~= self@.states);
        v
    }

    /// Get the names of all active containers
    pub fn active_names(&self) -> (r: Vec<String>)
        ensures
            r.deep_view() == names_where(self@.states, true),
    {
        self.names_by_activity(true)
    }

    /// Get the names of all inactive containers (both containers that have not
    /// been run before, and containers that were terminated)
    pub fn inactive_names(&self) -> (r: Vec<String>)
        ensures
            r.deep_view() == names_where(self@.states, false),
    {
        self.names_by_activity(false)
    }

    /// Terminates the container at position `i`.
    fn terminate_at(&mut self, i: usize) -> (t: Termination)
        requires
            old(self).wf(),
            i < old(self)@.states.len(),
        ensures
            final(self).wf(),
            final(self)@ == (ContainerNetworkView {
                states: old(self)@.states.update(i as int, old(self)@.states[i as int].terminated()),
                ..old(self)@
            }),
            t@ == termination_of(old(self)@.states[i as int]),
    {
        let ghost before = self@.states;
        let action = self.set[i].terminate();
        let name = self.set[i].container().name.clone();
        proof {
            assert(self@.states =~= before.update(i as int, before[i as int].terminated()));
            lemma_update_keeps_order(before, i as int, before[i as int].terminated());
        }
        Termination { name, action }
    }

    /// Force removes any active containers found with the given names: each
    /// gives up its external container and stops being active, and the
    /// caller gets the list of what is to be done for that. Names that are
    /// not in the network are passed over. Does not remove the network.
    pub fn terminate(&mut self, names: &Vec<String>) -> (plan: Vec<Termination>)
        requires
            old(self).wf(),
        ensures
            final(self).wf(),
            final(self)@ == (ContainerNetworkView {
                states: terminate_names(old(self)@.states, names.deep_view()).0,
                ..old(self)@
            }),
            terminations(plan@) == terminate_names(old(self)@.states, names.deep_view()).1,
    {
        let mut plan: Vec<Termination> = Vec::new();
        let mut k: usize = 0;
        assert(names.deep_view().take(0) =~= Seq::<Seq<char>>::empty());
        assert(terminations(plan@) =~= Seq::<TerminationView>::empty());
        while k < names.len()
            invariant
                k <= names.len(),
                self.wf(),
                self@ == (ContainerNetworkView {
                    states: terminate_names(old(self)@.states, names.deep_view().take(k as int)).0,
                    ..old(self)@
                }),
                terminations(plan@) == terminate_names(
                    old(self)@.states,
                    names.deep_view().take(k as int),
                ).1,
            decreases names.len() - k,
        {
            let ghost before = terminations(plan@);
            let found = self.position(names[k].as_str());
            k += 1;
            proof {
                assert(names.deep_view().take(k as int).drop_last() =~= names.deep_view().take(
                    k - 1,
                ));
                assert(names.deep_view().take(k as int).last() == names[k - 1]@);
            }
            match found {
                Some(i) => {
                    let t = self.terminate_at(i);
                    plan.push(t);
                    assert(terminations(plan@) =~= before.push(t@));
                },
                None => {},
            }
        }
        assert(names.deep_view().take(k as int) =~= names.deep_view());
        plan
    }

    /// Force removes all active containers, but does not remove the docker
    /// network: every container gives up its external container and stops
    /// being active, and the caller gets the list of what is to be done.
    pub fn terminate_containers(&mut self) -> (plan: Vec<Termination>)
        requires
            old(self).wf(),
        ensures
            final(self).wf(),
            final(self)@ == (ContainerNetworkView {
                states: all_terminated(old(self)@.states),
                ..old(self)@
            }),
            terminations(plan@) == all_terminations(old(self)@.states),
            forall|i: int|
                0 <= i < final(self)@.states.len() ==> (#[trigger] final(self)@.states[i]).is_clean(),
    {
        let mut plan: Vec<Termination> = Vec::new();
        let mut i: usize = 0;
        while i < self.set.len()
            invariant
                i <= self.set.len(),
                self.wf(),
                self@.states.len() == old(self)@.states.len(),
                self@ == (ContainerNetworkView { states: self@.states, ..old(self)@ }),
                forall|k: int|
                    0 <= k < i ==> #[trigger] self@.states[k] == old(self)@.states[k].terminated(),
                forall|k: int|
                    i <= k < self@.states.len() ==> #[trigger] self@.states[k] == old(
                        self,
                    )@.states[k],
                plan@.len() == i,
                forall|k: int|
                    0 <= k < i ==> (#[trigger] plan@[k])@ == termination_of(old(self)@.states[k]),
            decreases self.set.len() - i,
        {
            let t = self.terminate_at(i);
            plan.push(t);
            i += 1;
        }
        assert(self@.states =~= all_terminated(old(self)@.states));
        assert(terminations(plan@) =~= all_terminations(old(self)@.states));
        plan
    }

    /// Force removes all active containers and removes the network. After
    /// this no container is active and there is no network; on a network
    /// where nothing was left to clean up, nothing changes.
    pub fn terminate_all(&mut self) -> (teardown: Teardown)
        requires
            old(self).wf(),
        ensures
            final(self).wf(),
            final(self)@ == (ContainerNetworkView {
                states: all_terminated(old(self)@.states),
                network_active: false,
                ..old(self)@
            }),
            final(self)@.is_clean(),
            old(self)@.is_clean() ==> final(self)@ == old(self)@,
            terminations(teardown.containers@) == all_terminations(old(self)@.states),
            match teardown.remove_network {
                Some(n) => old(self)@.network_active && n@ == old(self)@.network_name,
                None => !old(self)@.network_active,
            },
    {
        let containers = self.terminate_containers();
        let remove_network = if self.network_active {
            self.network_active = false;
            Some(self.network_name.clone())
        } else {
            None
        };
        proof {
            if old(self)@.is_clean() {
                assert(all_terminated(old(self)@.states) =~= old(self)@.states);
            }
        }
        Teardown { containers, remove_network }
    }

    /// Records what the supervising handle of a container left behind when
    /// the caller terminated it: a container that a termination brought back
    /// to `PreActive` becomes `PostActive` with the result.
    pub fn stopped(&mut self, name: &str, result: Option<CommandResult>)
        requires
            old(self).wf(),
        ensures
            final(self).wf(),
            final(self)@ == (ContainerNetworkView {
                states: match index_of(old(self)@.states, name@) {
                    Some(i) => old(self)@.states.update(i, old(self)@.states[i].stopped(result)),
                    None => old(self)@.states,
                },
                ..old(self)@
            }),
    {
        match self.position(name) {
            Some(i) => {
                let ghost before = self@.states;
                self.set[i].stopped(result);
                proof {
                    assert(self@.states =~= before.update(i as int, before[i as int].stopped(result)));
                    lemma_update_keeps_order(before, i as int, before[i as int].stopped(result));
                }
            },
            None => {},
        }
    }

    /// Looks through the results and includes the last "Error { stack: [" or
    /// " panicked at " parts of the outputs of the containers that were
    /// unsuccessful. Omits stacks that have "ProbablyNotRootCauseError".
    pub fn error_compilation(&self) -> (e: Error)
        ensures
            e.kind == ErrorKind::Aggregate,
            e.messages() == reports(self@.states),
    {
        let mut stack: Vec<String> = Vec::new();
        let mut i: usize = 0;
        assert(self@.states.take(0) =~= Seq::<ContainerStateView>::empty());
        assert(stack.deep_view() =~= reports(self@.states.take(0)));
        while i < self.set.len()
            invariant
                i <= self.set.len(),
                stack.deep_view() == reports(self@.states.take(i as int)),
            decreases self.set.len() - i,
        {
            let ghost before = stack.deep_view();
            let state = &self.set[i];
            i += 1;
            assert(self@.states.take(i as int).drop_last() =~= self@.states.take(i - 1));
            assert(self@.states.take(i as int).last() == state@);
            match state.run_state() {
                RunState::PostActive(result) => {
                    let mut more = container_report(state.container().name.as_str(), result);
                    let ghost added = more.deep_view();
                    stack.append(&mut more);
                    assert(stack.deep_view() =~= before + added);
                },
                _ => {
                    assert(stack.deep_view() =~= before + Seq::<Seq<char>>::empty());
                },
            }
        }
        assert(self@.states.take(i as int) =~= self@.states);
        Error { kind: ErrorKind::Aggregate, stack }
    }

    /// The state at position `i`.
    pub(crate) fn state_at(&self, i: usize) -> (s: &ContainerState)
        requires
            i < self@.states.len(),
        ensures
            s@ == self@.states[i as int],
    {
        &self.set[i]
    }

    /// Records that the external network exists, or that it is gone.
    pub(crate) fn set_network_active(&mut self, active: bool)
        ensures
            final(self)@ == (ContainerNetworkView { network_active: active, ..old(self)@ }),
    {
        self.network_active = active;
    }

    /// Records that the external container of the state at `i` was created.
    pub(crate) fn mark_created(&mut self, i: usize, id: String)
        requires
            old(self).wf(),
            i < old(self)@.states.len(),
        ensures
            final(self).wf(),
            final(self)@ == (ContainerNetworkView {
                states: old(self)@.states.update(i as int, old(self)@.states[i as int].created(id@)),
                ..old(self)@
            }),
    {
        let ghost before = self@.states;
        self.set[i].created(id);
        proof {
            assert(self@.states =~= before.update(i as int, before[i as int].created(id@)));
            lemma_update_keeps_order(before, i as int, before[i as int].created(id@));
        }
    }

    /// Records that the created container of the state at `i` was started.
    pub(crate) fn mark_started(&mut self, i: usize)
        requires
            old(self).wf(),
            i < old(self)@.states.len(),
        ensures
            final(self).wf(),
            final(self)@ == (ContainerNetworkView {
                states: old(self)@.states.update(i as int, old(self)@.states[i as int].started()),
                ..old(self)@
            }),
    {
        let ghost before = self@.states;
        let _ = self.set[i].started();
        proof {
            assert(self@.states =~= before.update(i as int, before[i as int].started()));
            lemma_update_keeps_order(before, i as int, before[i as int].started());
        }
    }

    /// Records that the start process of the container at `i` has exited.
    pub(crate) fn mark_finished(&mut self, i: usize, result: CommandResult)
        requires
            old(self).wf(),
            i < old(self)@.states.len(),
        ensures
            final(self).wf(),
            final(self)@ == (ContainerNetworkView {
                states: old(self)@.states.update(
                    i as int,
                    old(self)@.states[i as int].finished(result),
                ),
                ..old(self)@
            }),
    {
        let ghost before = self@.states;
        let _ = self.set[i].finished(result);
        proof {
            assert(self@.states =~= before.update(i as int, before[i as int].finished(result)));
            lemma_update_keeps_order(before, i as int, before[i as int].finished(result));
        }
    }

    /// The names of the containers that own an external container, in order.
    pub fn get_ids(&self) -> (r: Vec<String>)
        ensures
            r.deep_view() == names_with_id(self@.states),
    {
        let mut v: Vec<String> = Vec::new();
        let mut i: usize = 0;
        assert(self@.states.take(0) =~= Seq::<ContainerStateView>::empty());
        assert(v.deep_view() =~= names_with_id(self@.states.take(0)));
        while i < self.set.len()
            invariant
                i <= self.set.len(),
                v.deep_view() == names_with_id(self@.states.take(i as int)),
            decreases self.set.len() - i,
        {
            let ghost before = v.deep_view();
            let state = &self.set[i];
            i += 1;
            assert(self@.states.take(i as int).drop_last() =~= self@.states.take(i - 1));
            assert(self@.states.take(i as int).last() == state@);
            if state.active_container_id().is_some() {
                let name = state.container().name.clone();
                v.push(name);
                assert(v.deep_view() =~= before.push(name@));
            }
        }
        assert(self@.states.take(i as int) =~= self@.states);
        v
    }

    /// The id of the external container of the named container, for asking
    /// Docker about it (its IP address, say). The error is of kind
    /// `Validation`: where the name is not in the network, and where the
    /// container has no external container.
    pub fn container_id(&self, name: &str) -> (r: Result<String, Error>)
        ensures
            match r {
                Ok(id) => index_of(self@.states, name@) matches Some(i)
                    && self@.states[i].active_container_id == Some(id@),
                Err(e) => e.kind == ErrorKind::Validation && match index_of(self@.states, name@) {
                    Some(i) => self@.states[i].active_container_id is None,
                    None => true,
                },
            },
    {
        match self.position(name) {
            Some(i) => match self.set[i].active_container_id() {
                Some(id) => Ok(id.clone()),
                None => {
                    let mut message = "ContainerNetwork::get_ip_addr(name: ".to_owned();
                    message.append(name);
                    message.append(") -> found container, but it was not active");
                    Err(Error::new(ErrorKind::Validation, message))
                },
            },
            None => {
                let mut message = "ContainerNetwork::get_ip_addr(name: ".to_owned();
                message.append(name);
                message.append(") -> could not find name in container network");
                Err(Error::new(ErrorKind::Validation, message))
            },
        }
    }

    /// Fires the guard of last resort of every container, for when the
    /// network is given up: hands out the ids of the external containers that
    /// are still to be removed, each once, in the order of the containers.
    ///
    /// An active container stays active and loses its id, so nothing else is
    /// to be done with the network afterwards.
    pub fn drop_guards(&mut self) -> (ids: Vec<String>)
        ensures
            final(self)@ == (ContainerNetworkView {
                states: old(self)@.states.map_values(|s: ContainerStateView| s.guarded()),
                ..old(self)@
            }),
            ids.deep_view() == guard_ids(old(self)@.states),
    {
        let mut ids: Vec<String> = Vec::new();
        let mut i: usize = 0;
        assert(old(self)@.states.take(0) =~= Seq::<ContainerStateView>::empty());
        assert(ids.deep_view() =~= guard_ids(old(self)@.states.take(0)));
        while i < self.set.len()
            invariant
                i <= self.set.len(),
                self.set.len() == old(self).set.len(),
                self@ == (ContainerNetworkView { states: self@.states, ..old(self)@ }),
                forall|k: int| 0 <= k < i ==> #[trigger] self@.states[k] == old(self)@.states[k].guarded(),
                forall|k: int|
                    i <= k < self.set.len() ==> #[trigger] self@.states[k] == old(self)@.states[k],
                ids.deep_view() == guard_ids(old(self)@.states.take(i as int)),
            decreases self.set.len() - i,
        {
            let ghost before_ids = ids.deep_view();
            let ghost before_set = self.set@;
            let ghost before_states = self@.states;
            let id = self.set[i].drop_guard();
            proof {
                assert(before_states[i as int] == before_set[i as int]@);
                assert forall|j: int| 0 <= j < self.set.len() && j != i implies self@.states[j]
                    == before_states[j] by {
                    assert(self.set@[j] == before_set[j]);
                    assert(self@.states[j] == self.set@[j]@);
                    assert(before_states[j] == before_set[j]@);
                }
                assert(self@.states[i as int] == self.set@[i as int]@);
                assert forall|k: int| 0 <= k < i + 1 implies #[trigger] self@.states[k] == old(
                    self,
                )@.states[k].guarded() by {
                    if k < i {
                        assert(self@.states[k] == before_states[k]);
                    }
                }
                assert forall|k: int| i + 1 <= k < self.set.len() implies #[trigger] self@.states[k]
                    == old(self)@.states[k] by {
                    assert(self@.states[k] == before_states[k]);
                }
            }
            i += 1;
            proof {
                let all = old(self)@.states;
                assert(all.take(i as int).drop_last() =~= all.take(i - 1));
                assert(all.take(i as int).last() == all[i - 1]);
            }
            match id {
                Some(id) => {
                    ids.push(id);
                    assert(ids.deep_view() =~= before_ids.push(id@));
                },
                None => {},
            }
        }
        assert(old(self)@.states.take(i as int) =~= old(self)@.states);
        assert(self@.states =~= old(self)@.states.map_values(|s: ContainerStateView| s.guarded()));
        ids
    }
}

} // verus!
