//! A verified escrow and custody accounting engine.
//!
//! The engine keeps a ledger of escrow records, each tracking funds locked
//! against a bounty identifier, and drives their lifecycle through release,
//! refund and administrative rescue operations. Token transfers, caller
//! authentication, ledger time and persistent storage are the hosting
//! environment's business: the engine receives the facts it needs (current
//! time, current custody balance) as plain values, decides, and reports the
//! transfer the host must perform.

pub mod laws;
pub mod model;

mod engine;

pub use engine::BountyEscrow;
pub use engine::StateView;
pub use model::Address;
pub use model::Config;
pub use model::Error;
pub use model::Escrow;
pub use model::EscrowStatus;
pub use model::PendingRefund;
pub use model::RefundMode;
