//! Control-plane logic of a self-custodial Lightning payment node: cookie
//! discovery for the companion full node, balance aggregation, the payment
//! ledger, the acknowledged event queue and the channel-funding workflow.

pub mod balance;
pub mod cookie;
pub mod events;
pub mod funding;
pub mod lifecycle;
pub mod payments;
pub mod request;

pub use balance::{get_balance, BalanceError, ChannelSnapshot};
pub use events::{
    EventMatcher, EventQueue, NodeEvent, QueueError, QueuedEvent, WaitOutcome,
};
pub use funding::{FundingAction, FundingFailure, FundingInput, FundingStage, FundingWorkflow};
pub use lifecycle::{LifecycleError, NodeLifecycle, NodeState};
pub use request::{decode_invoice, parse_node_id, PaymentRequestError};
pub use cookie::{get_cookie_path, CookiePathError, NetworkVariant, Platform};
pub use payments::{
    LedgerError, PaymentDirection, PaymentLedger, PaymentRecord, PaymentStatus,
};
