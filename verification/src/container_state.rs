//! The state machine of one container: never started, active, or finished.

use vstd::prelude::*;
use crate::container::Container;

verus! {

/// What a finished command left behind.
#[derive(Debug, Clone, PartialEq, Eq)]
pub struct CommandResult {
    /// The exit code, or `None` where the command was terminated before it
    /// exited by itself.
    pub status: Option<i32>,
    /// Everything the command wrote to its standard output.
    pub stdout: Vec<u8>,
    /// Everything the command wrote to its standard error.
    pub stderr: Vec<u8>,
}

impl CommandResult {
    /// Whether the command exited with code 0.
    pub open spec fn spec_successful(&self) -> bool {
        self.status == Some(0i32)
    }

    /// Whether the command exited with code 0 or was terminated.
    pub open spec fn spec_successful_or_terminated(&self) -> bool {
        self.status is None || self.status == Some(0i32)
    }

    /// Whether the command exited with code 0.
    #[verifier::when_used_as_spec(spec_successful)]
    pub fn successful(&self) -> (b: bool)
        ensures
            b == self.spec_successful(),
    {
        match self.status {
            Some(code) => code == 0,
            None => false,
        }
    }

    /// Whether the command exited with code 0 or was terminated.
    #[verifier::when_used_as_spec(spec_successful_or_terminated)]
    pub fn successful_or_terminated(&self) -> (b: bool)
        ensures
            b == self.spec_successful_or_terminated(),
    {
        match self.status {
            Some(code) => code == 0,
            None => true,
        }
    }
}

/// Where a container is in its life.
#[derive(Debug, Clone, PartialEq, Eq)]
pub enum RunState {
    /// Never started, or brought back by a termination without a result.
    PreActive,
    /// Created and started; the caller holds the handle that supervises it.
    Active,
    /// The start process has exited; carries its status and outputs.
    PostActive(CommandResult),
}

/// What the caller has to do to complete the termination of a container.
#[derive(Debug, Clone, PartialEq, Eq)]
pub struct TerminateAction {
    /// The id of the external container to remove by force, ignoring errors.
    pub remove_container: Option<String>,
    /// Whether the supervising handle has to be terminated.
    pub stop_runner: bool,
}

/// One container of a network: its description and where it is in its life.
#[derive(Debug)]
pub struct ContainerState {
    container: Container,
    run_state: RunState,
    // The `Active` state is not the only one that owns an external
    // container: between its creation and its start a container is not
    // active yet, and the id says that it has to be removed.
    active_container_id: Option<String>,
    already_tried_drop: bool,
}

/// A `ContainerState` as plain values.
pub struct ContainerStateView {
    pub container: Container,
    pub run_state: RunState,
    pub active_container_id: Option<Seq<char>>,
    pub already_tried_drop: bool,
}

impl ContainerStateView {
    /// An active container has an external container behind it.
    pub open spec fn wf(self) -> bool {
        self.run_state is Active ==> self.active_container_id is Some
    }

    /// Nothing external is left to remove and nothing runs.
    pub open spec fn is_clean(self) -> bool {
        !(self.run_state is Active) && self.active_container_id is None
    }

    /// The state after a termination: the external container is given up,
    /// and an active container is no longer active.
    pub open spec fn terminated(self) -> ContainerStateView {
        ContainerStateView {
            run_state: if self.run_state is Active {
                RunState::PreActive
            } else {
                self.run_state
            },
            active_container_id: None,
            ..self
        }
    }
}

impl ContainerStateView {
    /// The state after the supervising handle was terminated and left the
    /// given result: a container that a termination brought back to
    /// `PreActive` becomes `PostActive` with the result.
    pub open spec fn stopped(self, result: Option<CommandResult>) -> ContainerStateView {
        match result {
            Some(r) if self.run_state is PreActive => ContainerStateView {
                run_state: RunState::PostActive(r),
                ..self
            },
            _ => self,
        }
    }

    /// The state after the external container with the given id was created.
    pub open spec fn created(self, id: Seq<char>) -> ContainerStateView {
        ContainerStateView { active_container_id: Some(id), ..self }
    }

    /// The state after the created container was started.
    pub open spec fn started(self) -> ContainerStateView {
        if self.active_container_id is Some {
            ContainerStateView { run_state: RunState::Active, ..self }
        } else {
            self
        }
    }

    /// The state after the guard of last resort has fired.
    pub open spec fn guarded(self) -> ContainerStateView {
        if self.already_tried_drop {
            self
        } else {
            ContainerStateView { active_container_id: None, already_tried_drop: true, ..self }
        }
    }

    /// The id that the guard of last resort hands out when it fires.
    pub open spec fn guard_id(self) -> Option<Seq<char>> {
        if self.already_tried_drop {
            None
        } else {
            self.active_container_id
        }
    }

    /// The state after the start process of an active container has exited.
    pub open spec fn finished(self, result: CommandResult) -> ContainerStateView {
        if self.run_state is Active {
            ContainerStateView {
                run_state: RunState::PostActive(result),
                active_container_id: None,
                ..self
            }
        } else {
            self
        }
    }
}

/// Terminating twice is terminating once.
pub proof fn lemma_terminate_idempotent(s: ContainerStateView)
    ensures
        s.terminated().terminated() == s.terminated(),
        s.terminated().is_clean(),
        s.terminated().wf(),
{
}

/// A termination changes nothing where there is nothing to terminate.
pub proof fn lemma_terminate_clean(s: ContainerStateView)
    requires
        s.is_clean(),
    ensures
        s.terminated() == s,
{
}

impl View for ContainerState {
    type V = ContainerStateView;

    closed spec fn view(&self) -> ContainerStateView {
        ContainerStateView {
            container: self.container,
            run_state: self.run_state,
            active_container_id: match self.active_container_id {
                Some(id) => Some(id@),
                None => None,
            },
            already_tried_drop: self.already_tried_drop,
        }
    }
}

impl ContainerState {
    /// The state of a container that was never started.
    pub fn new(container: Container) -> (s: Self)
        ensures
            s@ == (ContainerStateView {
                container,
                run_state: RunState::PreActive,
                active_container_id: None,
                already_tried_drop: false,
            }),
    {
        ContainerState {
            container,
            run_state: RunState::PreActive,
            active_container_id: None,
            already_tried_drop: false,
        }
    }

    /// The description of the container.
    pub fn container(&self) -> (c: &Container)
        ensures
            *c == self@.container,
    {
        &self.container
    }

    /// The description of the container, to change it.
    pub fn container_mut(&mut self) -> (c: &mut Container)
        ensures
            *c == old(self)@.container,
            final(self)@ == (ContainerStateView { container: *final(c), ..old(self)@ }),
    {
        &mut self.container
    }

    /// Whether the container is active.
    pub fn is_active(&self) -> (b: bool)
        ensures
            b == (self@.run_state is Active),
    {
        match self.run_state {
            RunState::Active => true,
            _ => false,
        }
    }

    /// Where the container is in its life.
    pub fn run_state(&self) -> (r: &RunState)
        ensures
            *r == self@.run_state,
    {
        &self.run_state
    }

    /// The id of the external container that has to be removed, if any.
    pub fn active_container_id(&self) -> (r: Option<&String>)
        ensures
            match r {
                Some(id) => self@.active_container_id == Some(id@),
                None => self@.active_container_id is None,
            },
    {
        self.active_container_id.as_ref()
    }

    /// The single entry of cleanup. The state gives up its external
    /// container and stops being active; the action says what the caller has
    /// to do for that: remove the container by force, and terminate the
    /// supervising handle. A second call finds nothing to do.
    pub fn terminate(&mut self) -> (action: TerminateAction)
        ensures
            final(self)@ == old(self)@.terminated(),
            action.stop_runner == (old(self)@.run_state is Active),
            match action.remove_container {
                Some(id) => old(self)@.active_container_id == Some(id@),
                None => old(self)@.active_container_id is None,
            },
    {
        let remove_container = self.active_container_id.take();
        let stop_runner = self.is_active();
        if stop_runner {
            self.run_state = RunState::PreActive;
        }
        TerminateAction { remove_container, stop_runner }
    }

    /// Records what the supervising handle left behind when it was
    /// terminated: a container that a termination brought back to
    /// `PreActive` becomes `PostActive` with the result. Where there is no
    /// result, or the container is in another state, nothing changes.
    pub fn stopped(&mut self, result: Option<CommandResult>)
        ensures
            final(self)@ == old(self)@.stopped(result),
    {
        match result {
            Some(r) => {
                match self.run_state {
                    RunState::PreActive => {
                        self.run_state = RunState::PostActive(r);
                    },
                    _ => {},
                }
            },
            None => {},
        }
    }

    /// Records that the external container with the given id was created.
    pub fn created(&mut self, id: String)
        ensures
            final(self)@ == old(self)@.created(id@),
    {
        self.active_container_id = Some(id);
    }

    /// Records that the created container was started. A container that was
    /// not created stays as it is, and the answer is `false`.
    pub fn started(&mut self) -> (ok: bool)
        ensures
            ok == (old(self)@.active_container_id is Some),
            final(self)@ == old(self)@.started(),
    {
        if self.active_container_id.is_some() {
            self.run_state = RunState::Active;
            true
        } else {
            false
        }
    }

    /// Records that the start process of an active container has exited: the
    /// result is kept and the id is given up, since the container removes
    /// itself. A container that is not active stays as it is, and the answer
    /// is `false`.
    pub fn finished(&mut self, result: CommandResult) -> (ok: bool)
        ensures
            ok == (old(self)@.run_state is Active),
            final(self)@ == old(self)@.finished(result),
    {
        if self.is_active() {
            self.run_state = RunState::PostActive(result);
            self.active_container_id = None;
            true
        } else {
            false
        }
    }

    /// The guard of last resort, for when the state is given up without a
    /// termination: hands out the id of the external container that is still
    /// to be removed, once. Later calls hand out nothing, so that a failing
    /// removal cannot set off another.
    pub fn drop_guard(&mut self) -> (id: Option<String>)
        ensures
            final(self)@ == old(self)@.guarded(),
            match id {
                Some(i) => old(self)@.guard_id() == Some(i@),
                None => old(self)@.guard_id() is None,
            },
    {
        if self.already_tried_drop {
            return None;
        }
        self.already_tried_drop = true;
        self.active_container_id.take()
    }
}

} // verus!
