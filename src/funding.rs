//! The channel-funding workflow as a state machine: the caller performs each
//! action and reports what happened.

use vstd::prelude::*;
use crate::events::{event_matches, matches_event, EventMatcher, NodeEvent};

verus! {

#[derive(Clone, Copy, Debug, PartialEq, Eq, Structural)]
pub enum FundingFailure {
    /// The open request failed: peer unreachable or funds insufficient.
    ChannelOpenError,
    /// A wait outlived the caller's timeout.
    ChannelOpenTimeout,
}

#[derive(Clone, Copy, Debug)]
pub enum FundingStage {
    AwaitingFunds,
    Opening,
    AwaitingPending,
    AwaitingReady { channel_id: [u8; 32] },
    Ready { channel_id: [u8; 32] },
    Failed(FundingFailure),
}

/// What the caller observed since the last step.
#[derive(Clone, Copy, Debug)]
pub enum FundingInput {
    /// The on-chain balance, in satoshi, after a wallet sync.
    FundsObserved { onchain_sats: u64 },
    /// The open request was accepted (`true`) or refused.
    OpenResult { accepted: bool },
    Event(NodeEvent),
    WalletsSynced,
    Timeout,
}

/// What the caller is to do next.
#[derive(Clone, Copy, Debug)]
pub enum FundingAction {
    WaitForFunds,
    OpenChannel { counterparty_node_id: [u8; 33], amount_sats: u64 },
    WaitForEvent(EventMatcher),
    SyncWallets,
    Done { channel_id: [u8; 32] },
    Abort(FundingFailure),
}

/// Opening one channel of `amount_sats` to `peer`.
#[derive(Clone, Copy, Debug)]
pub struct FundingWorkflow {
    pub peer: [u8; 33],
    pub amount_sats: u64,
    pub stage: FundingStage,
}

/// The action that repeats the wait of a stage.
pub open spec fn stage_action(w: FundingWorkflow) -> FundingAction {
    match w.stage {
        FundingStage::AwaitingFunds => FundingAction::WaitForFunds,
        FundingStage::Opening => FundingAction::OpenChannel {
            counterparty_node_id: w.peer,
            amount_sats: w.amount_sats,
        },
        FundingStage::AwaitingPending => FundingAction::WaitForEvent(
            EventMatcher::ChannelPendingWith { counterparty_node_id: w.peer },
        ),
        FundingStage::AwaitingReady { channel_id } => FundingAction::WaitForEvent(
            EventMatcher::ChannelReadyFor { channel_id },
        ),
        FundingStage::Ready { channel_id } => FundingAction::Done { channel_id },
        FundingStage::Failed(f) => FundingAction::Abort(f),
    }
}

pub open spec fn with_stage(w: FundingWorkflow, stage: FundingStage) -> FundingWorkflow {
    FundingWorkflow { stage, ..w }
}

/// One step of the workflow. Terminal stages stay; a timeout ends any other
/// stage; an input a stage does not expect leaves it waiting as before.
pub open spec fn funding_step(w: FundingWorkflow, input: FundingInput) -> (
    FundingWorkflow,
    FundingAction,
) {
    match (w.stage, input) {
        (FundingStage::Ready { .. }, _) => (w, stage_action(w)),
        (FundingStage::Failed(_), _) => (w, stage_action(w)),
        (_, FundingInput::Timeout) => {
            let f = FundingFailure::ChannelOpenTimeout;
            (with_stage(w, FundingStage::Failed(f)), FundingAction::Abort(f))
        },
        (FundingStage::AwaitingFunds, FundingInput::FundsObserved { onchain_sats }) => {
            if onchain_sats >= w.amount_sats {
                let n = with_stage(w, FundingStage::Opening);
                (n, stage_action(n))
            } else {
                (w, FundingAction::WaitForFunds)
            }
        },
        (FundingStage::Opening, FundingInput::OpenResult { accepted }) => {
            if accepted {
                let n = with_stage(w, FundingStage::AwaitingPending);
                (n, stage_action(n))
            } else {
                let f = FundingFailure::ChannelOpenError;
                (with_stage(w, FundingStage::Failed(f)), FundingAction::Abort(f))
            }
        },
        (FundingStage::AwaitingPending, FundingInput::Event(e)) => {
            match e {
                NodeEvent::ChannelPending { channel_id, .. } => {
                    if event_matches(
                        EventMatcher::ChannelPendingWith { counterparty_node_id: w.peer },
                        e,
                    ) {
                        (
                            with_stage(w, FundingStage::AwaitingReady { channel_id }),
                            FundingAction::SyncWallets,
                        )
                    } else {
                        (w, stage_action(w))
                    }
                },
                _ => (w, stage_action(w)),
            }
        },
        (FundingStage::AwaitingReady { channel_id }, FundingInput::Event(e)) => {
            if event_matches(EventMatcher::ChannelReadyFor { channel_id }, e) {
                let n = with_stage(w, FundingStage::Ready { channel_id });
                (n, stage_action(n))
            } else {
                (w, FundingAction::SyncWallets)
            }
        },
        _ => (w, stage_action(w)),
    }
}

impl FundingWorkflow {
    pub fn new(peer: [u8; 33], amount_sats: u64) -> (r: Self)
        ensures
            r.peer == peer,
            r.amount_sats == amount_sats,
            r.stage == FundingStage::AwaitingFunds,
    {
        FundingWorkflow { peer, amount_sats, stage: FundingStage::AwaitingFunds }
    }

    fn current_action(&self) -> (r: FundingAction)
        ensures
            r == stage_action(*self),
    {
        match self.stage {
            FundingStage::AwaitingFunds => FundingAction::WaitForFunds,
            FundingStage::Opening => FundingAction::OpenChannel {
                counterparty_node_id: self.peer,
                amount_sats: self.amount_sats,
            },
            FundingStage::AwaitingPending => FundingAction::WaitForEvent(
                EventMatcher::ChannelPendingWith { counterparty_node_id: self.peer },
            ),
            FundingStage::AwaitingReady { channel_id } => FundingAction::WaitForEvent(
                EventMatcher::ChannelReadyFor { channel_id },
            ),
            FundingStage::Ready { channel_id } => FundingAction::Done { channel_id },
            FundingStage::Failed(f) => FundingAction::Abort(f),
        }
    }

    /// Advances the workflow by what the caller observed and says what to do next.
    pub fn step(&mut self, input: FundingInput) -> (r: FundingAction)
        ensures
            (*final(self), r) == funding_step(*old(self), input),
    {
        match (self.stage, input) {
            (FundingStage::Ready { .. }, _) => self.current_action(),
            (FundingStage::Failed(_), _) => self.current_action(),
            (_, FundingInput::Timeout) => {
                let f = FundingFailure::ChannelOpenTimeout;
                self.stage = FundingStage::Failed(f);
                FundingAction::Abort(f)
            },
            (FundingStage::AwaitingFunds, FundingInput::FundsObserved { onchain_sats }) => {
                if onchain_sats >= self.amount_sats {
                    self.stage = FundingStage::Opening;
                    self.current_action()
                } else {
                    FundingAction::WaitForFunds
                }
            },
            (FundingStage::Opening, FundingInput::OpenResult { accepted }) => {
                if accepted {
                    self.stage = FundingStage::AwaitingPending;
                    self.current_action()
                } else {
                    let f = FundingFailure::ChannelOpenError;
                    self.stage = FundingStage::Failed(f);
                    FundingAction::Abort(f)
                }
            },
            (FundingStage::AwaitingPending, FundingInput::Event(e)) => {
                match e {
                    NodeEvent::ChannelPending { channel_id, .. } => {
                        let m = EventMatcher::ChannelPendingWith { counterparty_node_id: self.peer };
                        if matches_event(&m, &e) {
                            self.stage = FundingStage::AwaitingReady { channel_id };
                            FundingAction::SyncWallets
                        } else {
                            self.current_action()
                        }
                    },
                    _ => self.current_action(),
                }
            },
            (FundingStage::AwaitingReady { channel_id }, FundingInput::Event(e)) => {
                let m = EventMatcher::ChannelReadyFor { channel_id };
                if matches_event(&m, &e) {
                    self.stage = FundingStage::Ready { channel_id };
                    self.current_action()
                } else {
                    FundingAction::SyncWallets
                }
            },
            _ => self.current_action(),
        }
    }
}

/// A channel-pending event for another counterparty leaves the workflow
/// waiting as before; the matching one moves it on to await readiness.
pub proof fn lemma_pending_wait_correlated(w: FundingWorkflow, e: NodeEvent)
    requires
        w.stage == FundingStage::AwaitingPending,
        e is ChannelPending,
    ensures
        !event_matches(EventMatcher::ChannelPendingWith { counterparty_node_id: w.peer }, e)
            ==> funding_step(w, FundingInput::Event(e)) == (w, stage_action(w)),
        event_matches(EventMatcher::ChannelPendingWith { counterparty_node_id: w.peer }, e)
            ==> funding_step(w, FundingInput::Event(e)).0.stage == (FundingStage::AwaitingReady {
            channel_id: e->ChannelPending_channel_id,
        }),
{
}

} // verus!
