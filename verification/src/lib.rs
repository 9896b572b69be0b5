//! Quorum-gated, height-triggered scheduling of contract calls.
//!
//! A fixed set of validator operators agrees on a strongly typed contract
//! call (a "cork") against a named contract on an execution chain.  The call
//! is dispatched exactly once, only after a quorum of validators has endorsed
//! it and only once the coordinating chain has finally reached the cork's
//! trigger height.

pub mod address;
pub mod cmd;
pub mod cork;
pub mod encode;
pub mod hash;
pub mod registry;
pub mod validators;

pub use address::AddressError;
pub use address::NormalizedAddress;
pub use address::normalize;
pub use address::parse_contract_id;
pub use cmd::CellarcontractCmd;
pub use cmd::FeesDistributorCmd;
pub use cork::Cork;
pub use cork::CorkIdentity;
pub use cork::CorkState;
pub use encode::CallVariant;
pub use encode::EncodedPayload;
pub use encode::encode;
pub use registry::Registry;
pub use validators::ValidatorSet;
