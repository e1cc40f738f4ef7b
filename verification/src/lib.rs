//! A bounded directory of relayer participants.
//!
//! Each relayer registers once under an authenticated identity, declares
//! which chains it can service together with free-form metadata, and may
//! later update or remove its entry. The registry keeps its entries unique
//! per identity, bounded in number, and bounded per field; every mutating
//! operation either applies in full or leaves the state untouched and
//! reports a precise error.
//!
//! The caller identity and the logical timestamp recorded at registration
//! are supplied by the environment as already-resolved plain values, and
//! each successful mutation hands back the notification it would emit, so
//! the whole registry is ordinary in-memory state with a verified contract
//! on every operation.

pub mod laws;
pub mod model;
pub mod registry;
pub mod types;

pub use registry::Registry;

pub use types::AccountId;
pub use types::BlockNumber;
pub use types::ChainId;
pub use types::Config;
pub use types::Error;
pub use types::Event;
pub use types::RelayerInfo;
pub use types::RelayerInfoView;
