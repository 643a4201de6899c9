//! The lifecycle controller: the states of an instance, and what each trigger
//! does in each state.

use vstd::prelude::*;
use crate::error::LayerError;

verus! {

/// The state of an instance, as live queries show it.
#[derive(Clone, Copy, Debug, PartialEq, Eq, Structural)]
pub enum InstanceState {
    Absent,
    Defined,
    Mounted,
    Running,
    Stopping,
}

/// What is asked of an instance.
#[derive(Clone, Copy, Debug, PartialEq, Eq, Structural)]
pub enum Trigger {
    Add,
    Mount,
    Start,
    Stop,
    Commit,
    Rollback,
    Down,
    Remove,
}

/// One step that the controller asks of the layer manager or the container runtime.
#[derive(Clone, Copy, Debug, PartialEq, Eq, Structural)]
pub enum Action {
    /// Create the instance's directory skeleton.
    CreateInstance,
    /// Present the stacked view.
    MountLayers,
    /// Start the container.
    StartContainer,
    /// Stop the container and wait for it, killing it after the timeout.
    StopContainer,
    /// Detach the stacked view.
    UnmountLayers,
    /// Merge the upper layer into the lower layer.
    CommitLayers,
    /// Discard the upper layer.
    RollbackLayers,
    /// Remove the instance directory.
    DestroyLayers,
}

/// The state in which a trigger leaves an instance, and the steps that take it there.
pub struct Transition {
    pub to: InstanceState,
    pub actions: Vec<Action>,
}

/// The state that live queries show: whether the instance directory exists,
/// whether the instance is mounted, and whether its container runs.
pub open spec fn observe_spec(exists: bool, mounted: bool, active: bool) -> InstanceState {
    if !exists {
        InstanceState::Absent
    } else if active {
        InstanceState::Running
    } else if mounted {
        InstanceState::Mounted
    } else {
        InstanceState::Defined
    }
}

/// What `t` does from `s`: the state it leaves and the steps, in order, or the
/// precondition it violates.  The layers are never committed, rolled back or
/// removed while mounted: a mounted instance is unmounted first and mounted again
/// after; the container is stopped before its layers are unmounted.
pub open spec fn transition_spec(s: InstanceState, t: Trigger) -> Result<(InstanceState, Seq<Action>), LayerError> {
    match s {
        InstanceState::Absent => match t {
            Trigger::Add => Ok((InstanceState::Defined, seq![Action::CreateInstance])),
            _ => Err(LayerError::UnknownInstance),
        },
        InstanceState::Stopping => match t {
            Trigger::Add => Err(LayerError::InstanceExists),
            _ => Err(LayerError::Busy),
        },
        InstanceState::Defined => match t {
            Trigger::Add => Err(LayerError::InstanceExists),
            Trigger::Mount => Ok((InstanceState::Mounted, seq![Action::MountLayers])),
            Trigger::Start => Err(LayerError::NotMounted),
            Trigger::Stop => Ok((InstanceState::Defined, Seq::empty())),
            Trigger::Commit => Ok((InstanceState::Defined, seq![Action::CommitLayers])),
            Trigger::Rollback => Ok((InstanceState::Defined, seq![Action::RollbackLayers])),
            Trigger::Down => Err(LayerError::NotMounted),
            Trigger::Remove => Ok((InstanceState::Absent, seq![Action::DestroyLayers])),
        },
        InstanceState::Mounted => match t {
            Trigger::Add => Err(LayerError::InstanceExists),
            Trigger::Mount => Err(LayerError::AlreadyMounted),
            Trigger::Start => Ok((InstanceState::Running, seq![Action::StartContainer])),
            Trigger::Stop => Ok((InstanceState::Mounted, Seq::empty())),
            Trigger::Commit => Ok(
                (
                    InstanceState::Mounted,
                    seq![Action::UnmountLayers, Action::CommitLayers, Action::MountLayers],
                ),
            ),
            Trigger::Rollback => Ok(
                (
                    InstanceState::Mounted,
                    seq![Action::UnmountLayers, Action::RollbackLayers, Action::MountLayers],
                ),
            ),
            Trigger::Down => Ok((InstanceState::Defined, seq![Action::UnmountLayers])),
            Trigger::Remove => Err(LayerError::AlreadyMounted),
        },
        InstanceState::Running => match t {
            Trigger::Add => Err(LayerError::InstanceExists),
            Trigger::Mount => Err(LayerError::AlreadyMounted),
            Trigger::Start => Err(LayerError::Busy),
            Trigger::Stop => Ok((InstanceState::Mounted, seq![Action::StopContainer])),
            Trigger::Down => Ok(
                (InstanceState::Defined, seq![Action::StopContainer, Action::UnmountLayers]),
            ),
            _ => Err(LayerError::Busy),
        },
    }
}

/// Whether the layers are mounted and whether the container runs, in state `s`.
pub open spec fn live_flags(s: InstanceState) -> (bool, bool) {
    match s {
        InstanceState::Mounted => (true, false),
        InstanceState::Running => (true, true),
        InstanceState::Stopping => (true, true),
        _ => (false, false),
    }
}

/// The live flags after step `a` from `f` (mounted, running), or `None` when `a`
/// is not allowed there: the layers are mounted only when unmounted, detached only
/// when mounted and no container runs; a container starts only on mounted layers
/// and stops only when running; the layers are committed, rolled back or removed
/// only when unmounted with no container running.
pub open spec fn action_spec(f: (bool, bool), a: Action) -> Option<(bool, bool)> {
    let (mounted, running) = f;
    match a {
        Action::CreateInstance => if !mounted && !running {
            Some(f)
        } else {
            None
        },
        Action::MountLayers => if !mounted {
            Some((true, running))
        } else {
            None
        },
        Action::StartContainer => if mounted && !running {
            Some((true, true))
        } else {
            None
        },
        Action::StopContainer => if running {
            Some((mounted, false))
        } else {
            None
        },
        Action::UnmountLayers => if mounted && !running {
            Some((false, false))
        } else {
            None
        },
        _ => if !mounted && !running {
            Some(f)
        } else {
            None
        },
    }
}

/// The live flags after the steps `acts` from `f`, or `None` when one is not
/// allowed where it comes.
pub open spec fn run_spec(f: (bool, bool), acts: Seq<Action>) -> Option<(bool, bool)>
    decreases acts.len(),
{
    if acts.len() == 0 {
        Some(f)
    } else {
        match action_spec(f, acts[0]) {
            Some(g) => run_spec(g, acts.drop_first()),
            None => None,
        }
    }
}

/// Whether a commit may run: the instance is neither mounted nor active.
pub open spec fn commit_check_spec(mounted: bool, active: bool) -> Result<(), LayerError> {
    if mounted {
        Err(LayerError::AlreadyMounted)
    } else if active {
        Err(LayerError::Busy)
    } else {
        Ok(())
    }
}

/// The state that live queries show.
pub fn observe(exists: bool, mounted: bool, active: bool) -> (r: InstanceState)
    ensures
        r == observe_spec(exists, mounted, active),
{
    if !exists {
        InstanceState::Absent
    } else if active {
        InstanceState::Running
    } else if mounted {
        InstanceState::Mounted
    } else {
        InstanceState::Defined
    }
}

fn steps(a: &[Action]) -> (r: Vec<Action>)
    ensures
        r@ == a@,
{
    let mut r: Vec<Action> = Vec::new();
    let mut i: usize = 0;
    while i < a.len()
        invariant
            0 <= i <= a@.len(),
            r@ == a@.subrange(0, i as int),
        decreases a@.len() - i,
    {
        r.push(a[i]);
        assert(a@.subrange(0, i + 1) == a@.subrange(0, i as int).push(a@[i as int]));
        i = i + 1;
    }
    assert(a@.subrange(0, a@.len() as int) == a@);
    r
}

fn ok(to: InstanceState, a: &[Action]) -> (r: Result<Transition, LayerError>)
    ensures
        r matches Ok(tr) && tr.to == to && tr.actions@ == a@,
{
    Ok(Transition { to, actions: steps(a) })
}

/// What trigger `t` does from state `s`.
pub fn transition(s: InstanceState, t: Trigger) -> (r: Result<Transition, LayerError>)
    ensures
        match transition_spec(s, t) {
            Ok((to, acts)) => r matches Ok(tr) && tr.to == to && tr.actions@ == acts,
            Err(e) => r matches Err(e2) && e2 == e,
        },
{
    let r = match s {
        InstanceState::Absent => match t {
            Trigger::Add => ok(InstanceState::Defined, &[Action::CreateInstance]),
            _ => Err(LayerError::UnknownInstance),
        },
        InstanceState::Stopping => match t {
            Trigger::Add => Err(LayerError::InstanceExists),
            _ => Err(LayerError::Busy),
        },
        InstanceState::Defined => match t {
            Trigger::Add => Err(LayerError::InstanceExists),
            Trigger::Mount => ok(InstanceState::Mounted, &[Action::MountLayers]),
            Trigger::Start => Err(LayerError::NotMounted),
            Trigger::Stop => ok(InstanceState::Defined, &[]),
            Trigger::Commit => ok(InstanceState::Defined, &[Action::CommitLayers]),
            Trigger::Rollback => ok(InstanceState::Defined, &[Action::RollbackLayers]),
            Trigger::Down => Err(LayerError::NotMounted),
            Trigger::Remove => ok(InstanceState::Absent, &[Action::DestroyLayers]),
        },
        InstanceState::Mounted => match t {
            Trigger::Add => Err(LayerError::InstanceExists),
            Trigger::Mount => Err(LayerError::AlreadyMounted),
            Trigger::Start => ok(InstanceState::Running, &[Action::StartContainer]),
            Trigger::Stop => ok(InstanceState::Mounted, &[]),
            Trigger::Commit => ok(
                InstanceState::Mounted,
                &[Action::UnmountLayers, Action::CommitLayers, Action::MountLayers],
            ),
            Trigger::Rollback => ok(
                InstanceState::Mounted,
                &[Action::UnmountLayers, Action::RollbackLayers, Action::MountLayers],
            ),
            Trigger::Down => ok(InstanceState::Defined, &[Action::UnmountLayers]),
            Trigger::Remove => Err(LayerError::AlreadyMounted),
        },
        InstanceState::Running => match t {
            Trigger::Add => Err(LayerError::InstanceExists),
            Trigger::Mount => Err(LayerError::AlreadyMounted),
            Trigger::Start => Err(LayerError::Busy),
            Trigger::Stop => ok(InstanceState::Mounted, &[Action::StopContainer]),
            Trigger::Down => ok(InstanceState::Defined, &[Action::StopContainer, Action::UnmountLayers]),
            _ => Err(LayerError::Busy),
        },
    };
    r
}

/// Whether a commit may run now.  Fails with `AlreadyMounted` while the instance
/// is mounted, else with `Busy` while its container is active.
pub fn check_commit(mounted: bool, active: bool) -> (r: Result<(), LayerError>)
    ensures
        r == commit_check_spec(mounted, active),
{
    if mounted {
        Err(LayerError::AlreadyMounted)
    } else if active {
        Err(LayerError::Busy)
    } else {
        Ok(())
    }
}

/// Whether a rollback may run now.  Fails with `Busy` while the container is active.
pub fn check_rollback(active: bool) -> (r: Result<(), LayerError>)
    ensures
        active ==> r == Err::<(), LayerError>(LayerError::Busy),
        !active ==> r == Ok::<(), LayerError>(()),
{
    if active {
        Err(LayerError::Busy)
    } else {
        Ok(())
    }
}

/// How long a stopping container is given to shut down before it is killed.
pub const STOP_TIMEOUT_SECS: u64 = 30;

/// What stopping a container does next.
#[derive(Clone, Copy, Debug, PartialEq, Eq, Structural)]
pub enum StopStep {
    /// The container is down: stopping is over.
    Done,
    /// Wait one second more for it to shut down.
    Wait,
    /// The timeout has passed: kill it.
    Kill,
}

/// The next step of stopping a container that was asked to shut down `waited`
/// seconds ago, and that `running` tells whether it still runs.
pub open spec fn stop_step_spec(running: bool, waited: u64) -> StopStep {
    if !running {
        StopStep::Done
    } else if waited < STOP_TIMEOUT_SECS {
        StopStep::Wait
    } else {
        StopStep::Kill
    }
}

/// The next step of stopping a container: done once it is down, else wait until
/// the timeout has passed, then kill it.
pub fn stop_step(running: bool, waited: u64) -> (r: StopStep)
    ensures
        r == stop_step_spec(running, waited),
{
    if !running {
        StopStep::Done
    } else if waited < STOP_TIMEOUT_SECS {
        StopStep::Wait
    } else {
        StopStep::Kill
    }
}

} // verus!
