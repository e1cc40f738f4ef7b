//! The registry's value types: configuration, errors, notifications, and
//! the entry stored for each registered relayer, together with their
//! mathematical views.

use vstd::prelude::*;

verus! {

/// Identifier of a blockchain network a relayer can service.
pub type ChainId = u32;

/// Opaque, equality-comparable identity of an authenticated caller.
pub type AccountId = u64;

/// Logical timestamp (block or sequence number) supplied by the
/// environment for each registration.
pub type BlockNumber = u64;

/// The registry's capacity bounds, fixed at construction and never changed
/// at runtime.
#[derive(Clone, Copy, Debug, PartialEq, Eq, Structural)]
pub struct Config {
    /// Largest number of chain identifiers one entry may declare.
    pub max_supported_chains: u32,
    /// Largest metadata length, in bytes.
    pub max_metadata_length: u32,
    /// Largest number of entries the registry may hold at once.
    pub max_relayers: u32,
}

impl Config {
    /// All bounds are positive integers.
    pub open spec fn valid(self) -> bool {
        &&& self.max_supported_chains >= 1
        &&& self.max_metadata_length >= 1
        &&& self.max_relayers >= 1
    }
}

/// Why a mutating operation was refused. Every error is recoverable and is
/// reported synchronously; a refused operation mutates nothing.
#[derive(Clone, Copy, Debug, PartialEq, Eq, Structural)]
pub enum Error {
    /// Registration was requested for an identity that already has an entry.
    AlreadyRegistered,
    /// Deregistration or update was requested for an absent identity.
    NotRegistered,
    /// The supplied chain list was empty.
    EmptyChainList,
    /// The supplied chain list is longer than `max_supported_chains`.
    TooManySupportedChains,
    /// The supplied metadata is longer than `max_metadata_length`.
    MetadataTooLong,
    /// The registry already holds `max_relayers` entries.
    CapacityExceeded,
}

/// The notification a successful mutation emits to the environment's
/// observer. The registry hands it back to its caller and does not
/// interpret delivery.
#[derive(Debug, PartialEq, Eq)]
pub enum Event {
    /// A new relayer has been registered.
    RelayerRegistered { relayer: AccountId, supported_chains: Vec<ChainId> },
    /// A relayer has been deregistered.
    RelayerDeregistered { relayer: AccountId },
    /// A relayer's chain list and metadata have been replaced.
    RelayerUpdated { relayer: AccountId },
}

/// One registry entry. `account` and `registration_block` are immutable
/// after creation; `supported_chains` and `metadata` may be replaced by an
/// update.
#[derive(Debug, PartialEq, Eq)]
pub struct RelayerInfo {
    /// The registering caller's identity.
    pub account: AccountId,
    /// The chain identifiers this relayer services; never empty.
    pub supported_chains: Vec<ChainId>,
    /// Logical timestamp captured at registration time.
    pub registration_block: BlockNumber,
    /// Caller-controlled byte sequence, not interpreted by the registry.
    pub metadata: Vec<u8>,
}

/// Mathematical image of one entry, used throughout the contracts.
pub ghost struct RelayerInfoView {
    pub account: AccountId,
    pub supported_chains: Seq<ChainId>,
    pub registration_block: BlockNumber,
    pub metadata: Seq<u8>,
}

impl View for RelayerInfo {
    type V = RelayerInfoView;

    open spec fn view(&self) -> RelayerInfoView {
        RelayerInfoView {
            account: self.account,
            supported_chains: self.supported_chains@,
            registration_block: self.registration_block,
            metadata: self.metadata@,
        }
    }
}

/// Copies a vector of plain values element by element.
pub(crate) fn copy_items<T: Copy>(v: &Vec<T>) -> (r: Vec<T>)
    ensures
        r@ == v@,
{
    let mut r: Vec<T> = Vec::new();
    let mut i: usize = 0;
    while i < v.len()
        invariant
            i <= v@.len(),
            r@ == v@.take(i as int),
        decreases v@.len() - i,
    {
        r.push(v[i]);
        proof {
            assert(r@ =~= v@.take(i + 1 as int));
        }
        i = i + 1;
    }
    proof {
        assert(v@.take(v@.len() as int) =~= v@);
    }
    r
}

impl Clone for RelayerInfo {
    fn clone(&self) -> (r: Self)
        ensures
            r@ == self@,
    {
        RelayerInfo {
            account: self.account,
            supported_chains: copy_items(&self.supported_chains),
            registration_block: self.registration_block,
            metadata: copy_items(&self.metadata),
        }
    }
}

} // verus!
