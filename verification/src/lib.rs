//! Transaction-processing core of a cross-chain asset bridge.
//!
//! Outbound deposits move value from the local ledger towards a remote
//! domain; inbound proposals credit value that a committee has attested to.
//! Every executable function carries a contract over the mathematical model
//! of the bridge state, and the safety laws of the bridge are proved in
//! [`laws`].

pub mod bitmap;
pub mod laws;
pub mod ledger;
pub mod location;
pub mod pallet;
pub mod registry;
pub mod store;
pub mod traits;
pub mod types;
pub mod wire;
