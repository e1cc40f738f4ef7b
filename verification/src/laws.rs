//! Laws of the registry that relate several operations, stated over the
//! model that the operations' own contracts use and proved once and for
//! all.

use vstd::prelude::*;
use crate::model::accounts_of;
use crate::model::entry_view;
use crate::model::has_account;
use crate::model::lemma_remove_post_absent;
use crate::model::lemma_remove_post_push;
use crate::model::register_check;
use crate::model::register_post;
use crate::model::remove_post;
use crate::model::update_check;
use crate::model::update_post;
use crate::types::AccountId;
use crate::types::BlockNumber;
use crate::types::ChainId;
use crate::types::Config;
use crate::types::Error;
use crate::types::RelayerInfoView;

verus! {

/// Uniqueness: once a registration of `who` has succeeded, a second
/// registration of `who` — whatever chain list and metadata it carries —
/// is refused with `AlreadyRegistered`, and by `register_relayer`'s
/// contract the refused call changes nothing.
pub proof fn lemma_register_is_unique(
    s: Seq<RelayerInfoView>,
    cfg: Config,
    who: AccountId,
    chains1: Seq<ChainId>,
    metadata1: Seq<u8>,
    now: BlockNumber,
    chains2: Seq<ChainId>,
    metadata2: Seq<u8>,
)
    requires
        register_check(s, cfg, who, chains1, metadata1) is Ok,
    ensures
        register_check(
            register_post(s, who, chains1, metadata1, now),
            cfg,
            who,
            chains2,
            metadata2,
        ) == Err::<(), Error>(Error::AlreadyRegistered),
{
    let post = register_post(s, who, chains1, metadata1, now);
    assert(post[s.len() as int].account == who);
    assert(has_account(post, who));
}

/// Capacity: a registry that already holds `max_relayers` entries refuses
/// a fresh, otherwise valid registration with `CapacityExceeded`, and by
/// `register_relayer`'s contract the refused call changes nothing, so the
/// registry still holds exactly `max_relayers` entries.
pub proof fn lemma_register_capacity(
    s: Seq<RelayerInfoView>,
    cfg: Config,
    who: AccountId,
    chains: Seq<ChainId>,
    metadata: Seq<u8>,
)
    requires
        s.len() == cfg.max_relayers,
        !has_account(s, who),
        1 <= chains.len() <= cfg.max_supported_chains,
        metadata.len() <= cfg.max_metadata_length,
    ensures
        register_check(s, cfg, who, chains, metadata) == Err::<(), Error>(
            Error::CapacityExceeded,
        ),
{
}

/// Deregistration removes fully: registering a fresh identity and then
/// deregistering it leaves the identity unregistered and restores the
/// state — entries, order and count — exactly as it was before the
/// registration.
pub proof fn lemma_register_then_deregister(
    s: Seq<RelayerInfoView>,
    who: AccountId,
    chains: Seq<ChainId>,
    metadata: Seq<u8>,
    now: BlockNumber,
)
    requires
        !has_account(s, who),
    ensures
        remove_post(register_post(s, who, chains, metadata, now), who) == s,
        !has_account(remove_post(register_post(s, who, chains, metadata, now), who), who),
{
    lemma_remove_post_push(s, entry_view(who, chains, metadata, now), who);
    lemma_remove_post_absent(s, who);
}

/// Deregistration removes the identity from any state: after deregistering
/// `who`, no entry is owned by `who`, whatever the registry held before.
pub proof fn lemma_deregister_clears_identity(s: Seq<RelayerInfoView>, who: AccountId)
    ensures
        !has_account(remove_post(s, who), who),
    decreases s.len(),
{
    reveal(Seq::filter);
    if s.len() == 0 {
        assert(remove_post(s, who) =~= Seq::<RelayerInfoView>::empty());
    } else {
        let s0 = s.drop_last();
        lemma_deregister_clears_identity(s0, who);
        lemma_remove_post_push(s0, s.last(), who);
        let r0 = remove_post(s0, who);
        let r = remove_post(s, who);
        assert(forall|j: int| 0 <= j < r0.len() ==> r0[j].account != who);
        if s.last().account != who {
            assert(r == r0.push(s.last()));
            assert(forall|j: int| 0 <= j < r.len() ==> r[j].account != who);
        }
    }
}

/// Updates preserve identity and timestamp: a successful update replaces
/// only the chain list and the metadata — every entry keeps its owner and
/// its registration timestamp, and the enumeration order and the count
/// are untouched.
pub proof fn lemma_update_preserves_identity(
    s: Seq<RelayerInfoView>,
    who: AccountId,
    chains: Seq<ChainId>,
    metadata: Seq<u8>,
)
    ensures
        update_post(s, who, chains, metadata).len() == s.len(),
        accounts_of(update_post(s, who, chains, metadata)) == accounts_of(s),
        forall|i: int|
            0 <= i < s.len() ==> #[trigger] update_post(s, who, chains, metadata)[i]
                .registration_block == s[i].registration_block,
{
    let u = update_post(s, who, chains, metadata);
    assert forall|i: int| 0 <= i < s.len() implies #[trigger] u[i].registration_block
        == s[i].registration_block && u[i].account == s[i].account by {
    }
    assert forall|i: int| 0 <= i < s.len() implies accounts_of(u)[i] == accounts_of(s)[i] by {
        assert(u[i].account == s[i].account);
    }
    assert(accounts_of(u) =~= accounts_of(s));
}

/// Empty-chain rejection: whichever of registration and update applies to
/// `who`, a request carrying an empty chain list is refused with
/// `EmptyChainList`, and by the operations' contracts the refused call
/// changes nothing.
pub proof fn lemma_empty_chain_list_rejected(
    s: Seq<RelayerInfoView>,
    cfg: Config,
    who: AccountId,
    metadata: Seq<u8>,
)
    ensures
        !has_account(s, who) ==> register_check(s, cfg, who, Seq::<ChainId>::empty(), metadata)
            == Err::<(), Error>(Error::EmptyChainList),
        has_account(s, who) ==> update_check(s, cfg, who, Seq::<ChainId>::empty(), metadata)
            == Err::<(), Error>(Error::EmptyChainList),
{
}

} // verus!
