//! The mathematical model of the registry: predicates over sequences of
//! entry views, the outcome and post-state of each mutating operation, and
//! the lemmas about them that the implementation and the stated laws use.
//!
//! The registry state is modelled as one insertion-ordered sequence of
//! entries whose owners are unique; the key set, the enumeration order and
//! the count are all read off that sequence.

use vstd::prelude::*;
use crate::types::AccountId;
use crate::types::BlockNumber;
use crate::types::ChainId;
use crate::types::Config;
use crate::types::Error;
use crate::types::RelayerInfo;
use crate::types::RelayerInfoView;

verus! {

/// The owners of the entries, in enumeration order.
pub open spec fn accounts_of(s: Seq<RelayerInfoView>) -> Seq<AccountId> {
    s.map_values(|e: RelayerInfoView| e.account)
}

/// Whether some entry is owned by `who`.
pub open spec fn has_account(s: Seq<RelayerInfoView>, who: AccountId) -> bool {
    exists|i: int| 0 <= i < s.len() && s[i].account == who
}

/// No two entries share an owner.
pub open spec fn unique_accounts(s: Seq<RelayerInfoView>) -> bool {
    forall|i: int, j: int| 0 <= i < j < s.len() ==> s[i].account != s[j].account
}

/// The per-entry bounds: a non-empty chain list within the configured
/// maximum, and metadata within the configured maximum.
pub open spec fn entry_wf(e: RelayerInfoView, cfg: Config) -> bool {
    &&& 1 <= e.supported_chains.len() <= cfg.max_supported_chains
    &&& e.metadata.len() <= cfg.max_metadata_length
}

/// Every entry satisfies the per-entry bounds.
pub open spec fn entries_wf(s: Seq<RelayerInfoView>, cfg: Config) -> bool {
    forall|i: int| 0 <= i < s.len() ==> entry_wf(#[trigger] s[i], cfg)
}

/// The entry a successful registration stores.
pub open spec fn entry_view(
    who: AccountId,
    chains: Seq<ChainId>,
    metadata: Seq<u8>,
    now: BlockNumber,
) -> RelayerInfoView {
    RelayerInfoView { account: who, supported_chains: chains, registration_block: now, metadata }
}

/// The outcome of validating a registration request against state `s`:
/// the existence check comes first, then the request bounds, then the
/// capacity of the registry.
pub open spec fn register_check(
    s: Seq<RelayerInfoView>,
    cfg: Config,
    who: AccountId,
    chains: Seq<ChainId>,
    metadata: Seq<u8>,
) -> Result<(), Error> {
    if has_account(s, who) {
        Err(Error::AlreadyRegistered)
    } else if chains.len() == 0 {
        Err(Error::EmptyChainList)
    } else if chains.len() > cfg.max_supported_chains {
        Err(Error::TooManySupportedChains)
    } else if metadata.len() > cfg.max_metadata_length {
        Err(Error::MetadataTooLong)
    } else if s.len() >= cfg.max_relayers {
        Err(Error::CapacityExceeded)
    } else {
        Ok(())
    }
}

/// The state after a successful registration: the new entry is appended,
/// every existing entry is untouched.
pub open spec fn register_post(
    s: Seq<RelayerInfoView>,
    who: AccountId,
    chains: Seq<ChainId>,
    metadata: Seq<u8>,
    now: BlockNumber,
) -> Seq<RelayerInfoView> {
    s.push(entry_view(who, chains, metadata, now))
}

/// The outcome of validating an update request against state `s`: the
/// existence check comes first, then the request bounds.
pub open spec fn update_check(
    s: Seq<RelayerInfoView>,
    cfg: Config,
    who: AccountId,
    chains: Seq<ChainId>,
    metadata: Seq<u8>,
) -> Result<(), Error> {
    if !has_account(s, who) {
        Err(Error::NotRegistered)
    } else if chains.len() == 0 {
        Err(Error::EmptyChainList)
    } else if chains.len() > cfg.max_supported_chains {
        Err(Error::TooManySupportedChains)
    } else if metadata.len() > cfg.max_metadata_length {
        Err(Error::MetadataTooLong)
    } else {
        Ok(())
    }
}

/// The state after a successful update: the entry owned by `who` carries
/// the new chain list and metadata, keeps its owner and registration
/// timestamp, and every entry keeps its position.
pub open spec fn update_post(
    s: Seq<RelayerInfoView>,
    who: AccountId,
    chains: Seq<ChainId>,
    metadata: Seq<u8>,
) -> Seq<RelayerInfoView> {
    s.map_values(
        |e: RelayerInfoView|
            if e.account == who {
                RelayerInfoView {
                    account: e.account,
                    supported_chains: chains,
                    registration_block: e.registration_block,
                    metadata,
                }
            } else {
                e
            },
    )
}

/// The state after deregistration of `who`: every entry owned by another
/// identity stays, in its relative order.
pub open spec fn remove_post(s: Seq<RelayerInfoView>, who: AccountId) -> Seq<RelayerInfoView> {
    s.filter(|e: RelayerInfoView| e.account != who)
}

/// The entries that declare support for `chain_id`, in enumeration order.
pub open spec fn chain_filter(s: Seq<RelayerInfoView>, chain_id: ChainId) -> Seq<RelayerInfoView> {
    s.filter(|e: RelayerInfoView| e.supported_chains.contains(chain_id))
}

/// The views of a sequence of stored entries.
pub open spec fn views_of(s: Seq<RelayerInfo>) -> Seq<RelayerInfoView> {
    s.map_values(|e: RelayerInfo| e@)
}

/// Deregistration commutes with appending one entry: the appended entry
/// survives exactly when it is owned by someone else.
pub proof fn lemma_remove_post_push(s: Seq<RelayerInfoView>, e: RelayerInfoView, who: AccountId)
    ensures
        remove_post(s.push(e), who) == (if e.account != who {
            remove_post(s, who).push(e)
        } else {
            remove_post(s, who)
        }),
{
    reveal(Seq::filter);
    assert(s.push(e).drop_last() =~= s);
    assert(s.push(e).last() == e);
}

/// The chain filter commutes with appending one entry: the appended entry
/// survives exactly when it supports the chain.
pub proof fn lemma_chain_filter_push(s: Seq<RelayerInfoView>, e: RelayerInfoView, chain_id: ChainId)
    ensures
        chain_filter(s.push(e), chain_id) == (if e.supported_chains.contains(chain_id) {
            chain_filter(s, chain_id).push(e)
        } else {
            chain_filter(s, chain_id)
        }),
{
    reveal(Seq::filter);
    assert(s.push(e).drop_last() =~= s);
    assert(s.push(e).last() == e);
}

/// Deregistering an identity that owns no entry changes nothing.
pub proof fn lemma_remove_post_absent(s: Seq<RelayerInfoView>, who: AccountId)
    requires
        !has_account(s, who),
    ensures
        remove_post(s, who) == s,
    decreases s.len(),
{
    reveal(Seq::filter);
    if s.len() == 0 {
        assert(remove_post(s, who) =~= s);
    } else {
        let s0 = s.drop_last();
        assert(forall|i: int| 0 <= i < s.len() ==> s[i].account != who);
        assert(forall|i: int| 0 <= i < s0.len() ==> s0[i] == s[i]);
        lemma_remove_post_absent(s0, who);
        lemma_remove_post_push(s0, s.last(), who);
        assert(s0.push(s.last()) =~= s);
    }
}

/// Deregistering the sole owner of the entry at index `i` removes exactly
/// that entry.
pub proof fn lemma_remove_post_hit(s: Seq<RelayerInfoView>, who: AccountId, i: int)
    requires
        0 <= i < s.len(),
        s[i].account == who,
        forall|j: int| 0 <= j < s.len() && j != i ==> s[j].account != who,
    ensures
        remove_post(s, who) == s.remove(i),
    decreases s.len(),
{
    let s0 = s.drop_last();
    assert(s0.push(s.last()) =~= s);
    lemma_remove_post_push(s0, s.last(), who);
    if i == s.len() - 1 {
        assert(forall|j: int| 0 <= j < s0.len() ==> s0[j] == s[j]);
        assert(!has_account(s0, who));
        lemma_remove_post_absent(s0, who);
        assert(s.remove(i) =~= s0);
    } else {
        assert(forall|j: int| 0 <= j < s0.len() ==> s0[j] == s[j]);
        lemma_remove_post_hit(s0, who, i);
        assert(s.remove(i) =~= s0.remove(i).push(s.last()));
    }
}

} // verus!
