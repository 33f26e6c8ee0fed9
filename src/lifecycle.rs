//! Lifecycle of the single node instance: uninitialized, started, stopped.

use vstd::prelude::*;

verus! {

#[derive(Clone, Copy, Debug, PartialEq, Eq, Structural)]
pub enum NodeState {
    Uninitialized,
    Started,
    /// Terminal.
    Stopped,
}

#[derive(Clone, Copy, Debug, PartialEq, Eq, Structural)]
pub enum LifecycleError {
    /// Key setup, listening or the initial chain sync failed.
    StartupError,
    AlreadyStarted,
    /// The node was stopped and cannot start again.
    AlreadyStopped,
    /// The node never started.
    NotStarted,
}

pub struct NodeLifecycle {
    pub state: NodeState,
}

/// Outcome of a start whose initialization `succeeded` or not.
pub open spec fn start_spec(s: NodeState, succeeded: bool) -> (NodeState, Result<(), LifecycleError>) {
    match s {
        NodeState::Uninitialized => if succeeded {
            (NodeState::Started, Ok(()))
        } else {
            (NodeState::Uninitialized, Err(LifecycleError::StartupError))
        },
        NodeState::Started => (s, Err(LifecycleError::AlreadyStarted)),
        NodeState::Stopped => (s, Err(LifecycleError::AlreadyStopped)),
    }
}

/// Outcome of a stop; `Ok(true)` when listeners are to be torn down, `Ok(false)`
/// for a repeated stop.
pub open spec fn stop_spec(s: NodeState) -> (NodeState, Result<bool, LifecycleError>) {
    match s {
        NodeState::Started => (NodeState::Stopped, Ok(true)),
        NodeState::Stopped => (NodeState::Stopped, Ok(false)),
        NodeState::Uninitialized => (s, Err(LifecycleError::NotStarted)),
    }
}

impl NodeLifecycle {
    pub fn new() -> (r: Self)
        ensures
            r.state == NodeState::Uninitialized,
    {
        NodeLifecycle { state: NodeState::Uninitialized }
    }

    /// Whether a start may be attempted now.
    pub fn may_start(&self) -> (r: Result<(), LifecycleError>)
        ensures
            r is Ok <==> self.state == NodeState::Uninitialized,
            r is Err ==> r == start_spec(self.state, true).1,
    {
        match self.state {
            NodeState::Uninitialized => Ok(()),
            NodeState::Started => Err(LifecycleError::AlreadyStarted),
            NodeState::Stopped => Err(LifecycleError::AlreadyStopped),
        }
    }

    /// Records the result of an initialization attempt; a failed one leaves
    /// the node uninitialized.
    pub fn record_start(&mut self, succeeded: bool) -> (r: Result<(), LifecycleError>)
        ensures
            (final(self).state, r) == start_spec(old(self).state, succeeded),
    {
        match self.state {
            NodeState::Uninitialized => if succeeded {
                self.state = NodeState::Started;
                Ok(())
            } else {
                Err(LifecycleError::StartupError)
            },
            NodeState::Started => Err(LifecycleError::AlreadyStarted),
            NodeState::Stopped => Err(LifecycleError::AlreadyStopped),
        }
    }

    /// Stops the node; stopping again is a no-op success.
    pub fn stop(&mut self) -> (r: Result<bool, LifecycleError>)
        ensures
            (final(self).state, r) == stop_spec(old(self).state),
    {
        match self.state {
            NodeState::Started => {
                self.state = NodeState::Stopped;
                Ok(true)
            },
            NodeState::Stopped => Ok(false),
            NodeState::Uninitialized => Err(LifecycleError::NotStarted),
        }
    }

    pub fn is_started(&self) -> (r: bool)
        ensures
            r == (self.state == NodeState::Started),
    {
        match self.state {
            NodeState::Started => true,
            _ => false,
        }
    }
}

/// Stopping is idempotent: a second stop changes nothing and succeeds.
pub proof fn lemma_stop_idempotent(s: NodeState)
    requires
        stop_spec(s).1 is Ok,
    ensures
        stop_spec(stop_spec(s).0) == (stop_spec(s).0, Ok::<bool, LifecycleError>(false)),
{
}

} // verus!
