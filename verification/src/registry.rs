//! The registry: one owned state object holding the registered entries,
//! with the three mutating operations and the read-side queries, each
//! carrying its full contract.

use vstd::prelude::*;
use crate::model::accounts_of;
use crate::model::chain_filter;
use crate::model::entries_wf;
use crate::model::entry_view;
use crate::model::entry_wf;
use crate::model::has_account;
use crate::model::lemma_chain_filter_push;
use crate::model::lemma_remove_post_hit;
use crate::model::register_check;
use crate::model::register_post;
use crate::model::remove_post;
use crate::model::unique_accounts;
use crate::model::update_check;
use crate::model::update_post;
use crate::model::views_of;
use crate::types::copy_items;
use crate::types::AccountId;
use crate::types::BlockNumber;
use crate::types::ChainId;
use crate::types::Config;
use crate::types::Error;
use crate::types::Event;
use crate::types::RelayerInfo;
use crate::types::RelayerInfoView;

verus! {

/// The relayer directory. It owns its entries outright; the environment
/// supplies an authenticated caller identity for each mutating call and a
/// logical timestamp for each registration, and receives the returned
/// notification on success.
///
/// The entries form one insertion-ordered sequence with unique owners, so
/// the key set, the enumeration order and the count are all read off the
/// same collection and can never disagree.
pub struct Registry {
    /// The entries, in registration order, owners unique.
    pub entries: Vec<RelayerInfo>,
    /// The number of entries; always equal to `entries.len()`.
    pub count: u32,
    /// The bounds this registry was constructed with.
    pub config: Config,
}

impl View for Registry {
    type V = Seq<RelayerInfoView>;

    open spec fn view(&self) -> Seq<RelayerInfoView> {
        views_of(self.entries@)
    }
}

/// Whether `chain_id` occurs in `chains`.
fn contains_chain(chains: &Vec<ChainId>, chain_id: ChainId) -> (r: bool)
    ensures
        r == chains@.contains(chain_id),
{
    let mut i: usize = 0;
    while i < chains.len()
        invariant
            i <= chains@.len(),
            forall|j: int| 0 <= j < i ==> chains@[j] != chain_id,
        decreases chains@.len() - i,
    {
        if chains[i] == chain_id {
            return true;
        }
        i = i + 1;
    }
    false
}

impl Registry {
    /// The invariants that hold before and after every operation: valid
    /// bounds, a count that equals the number of entries, a number of
    /// entries within capacity, unique owners, and per-entry bounds.
    pub open spec fn wf(&self) -> bool {
        &&& self.config.valid()
        &&& self.count as int == self@.len()
        &&& self@.len() <= self.config.max_relayers
        &&& unique_accounts(self@)
        &&& entries_wf(self@, self.config)
    }

    /// Creates an empty registry with the given bounds.
    pub fn new(config: Config) -> (r: Registry)
        requires
            config.valid(),
        ensures
            r.wf(),
            r@ == Seq::<RelayerInfoView>::empty(),
            r.config == config,
    {
        let r = Registry { entries: Vec::new(), count: 0, config };
        proof {
            assert(r@ =~= Seq::<RelayerInfoView>::empty());
        }
        r
    }

    /// Position of the entry owned by `who`, if any.
    fn find_index(&self, who: AccountId) -> (r: Option<usize>)
        ensures
            (r matches Some(i) ==> i < self@.len() && self@[i as int].account == who),
            r is None ==> !has_account(self@, who),
    {
        let mut i: usize = 0;
        while i < self.entries.len()
            invariant
                i <= self@.len(),
                self@.len() == self.entries@.len(),
                forall|j: int| 0 <= j < i ==> self@[j].account != who,
            decreases self@.len() - i,
        {
            if self.entries[i].account == who {
                proof {
                    assert(self@[i as int].account == who);
                }
                return Some(i);
            }
            i = i + 1;
        }
        None
    }

    /// Registers `who` with the given chain list and metadata, recording
    /// `now` as the registration timestamp.
    ///
    /// The request is validated in priority order — existence first, then
    /// the request bounds, then capacity — and on failure the state is
    /// untouched. On success the entry is appended to the enumeration
    /// order and the `RelayerRegistered` notification is returned.
    pub fn register_relayer(
        &mut self,
        who: AccountId,
        supported_chains: Vec<ChainId>,
        metadata: Vec<u8>,
        now: BlockNumber,
    ) -> (r: Result<Event, Error>)
        requires
            old(self).wf(),
        ensures
            final(self).wf(),
            final(self).config == old(self).config,
            (match register_check(
                old(self)@,
                old(self).config,
                who,
                supported_chains@,
                metadata@,
            ) {
                Ok(()) => {
                    &&& final(self)@ == register_post(
                        old(self)@,
                        who,
                        supported_chains@,
                        metadata@,
                        now,
                    )
                    &&& (r matches Ok(ev) && ev matches Event::RelayerRegistered {
                        relayer,
                        supported_chains: sc,
                    } && relayer == who && sc@ == supported_chains@)
                },
                Err(e) => {
                    &&& r matches Err(e2) && e2 == e
                    &&& final(self)@ == old(self)@
                },
            }),
    {
        match self.find_index(who) {
            Some(i) => {
                proof {
                    assert(self@[i as int].account == who);
                    assert(has_account(self@, who));
                }
                return Err(Error::AlreadyRegistered);
            },
            None => {},
        }
        if supported_chains.len() == 0 {
            return Err(Error::EmptyChainList);
        }
        if supported_chains.len() > self.config.max_supported_chains as usize {
            return Err(Error::TooManySupportedChains);
        }
        if metadata.len() > self.config.max_metadata_length as usize {
            return Err(Error::MetadataTooLong);
        }
        if self.entries.len() >= self.config.max_relayers as usize {
            return Err(Error::CapacityExceeded);
        }
        let entry = RelayerInfo {
            account: who,
            supported_chains: copy_items(&supported_chains),
            registration_block: now,
            metadata,
        };
        let ghost pre = self@;
        self.entries.push(entry);
        self.count = self.count + 1;
        proof {
            assert(self@ =~= pre.push(entry_view(who, supported_chains@, metadata@, now)));
            assert forall|i: int, j: int| 0 <= i < j < self@.len() implies self@[i].account
                != self@[j].account by {
                if j == self@.len() - 1 {
                    assert(!has_account(pre, who));
                    assert(pre[i].account != who);
                }
            }
        }
        Ok(Event::RelayerRegistered { relayer: who, supported_chains })
    }

    /// Removes the entry owned by `who`.
    ///
    /// Fails with `NotRegistered`, touching nothing, when `who` has no
    /// entry. On success the entry is gone from the enumeration order, the
    /// relative order of the remaining entries is preserved, the count
    /// drops by one, and the `RelayerDeregistered` notification is
    /// returned.
    pub fn deregister_relayer(&mut self, who: AccountId) -> (r: Result<Event, Error>)
        requires
            old(self).wf(),
        ensures
            final(self).wf(),
            final(self).config == old(self).config,
            has_account(old(self)@, who) ==> {
                &&& final(self)@ == remove_post(old(self)@, who)
                &&& (r matches Ok(ev) && ev matches Event::RelayerDeregistered { relayer }
                    && relayer == who)
            },
            !has_account(old(self)@, who) ==> {
                &&& r matches Err(e) && e == Error::NotRegistered
                &&& final(self)@ == old(self)@
            },
    {
        match self.find_index(who) {
            None => Err(Error::NotRegistered),
            Some(i) => {
                let ghost pre = self@;
                proof {
                    assert(pre[i as int].account == who);
                    assert forall|j: int| 0 <= j < pre.len() && j != i as int
                        implies pre[j].account != who by {
                        assert(unique_accounts(pre));
                    }
                    lemma_remove_post_hit(pre, who, i as int);
                }
                self.entries.remove(i);
                self.count = self.count - 1;
                proof {
                    assert(self@ =~= pre.remove(i as int));
                }
                Ok(Event::RelayerDeregistered { relayer: who })
            },
        }
    }

    /// Replaces the chain list and the metadata of the entry owned by
    /// `who`; its owner, registration timestamp, position and the count
    /// are untouched.
    ///
    /// The request is validated in priority order — existence first, then
    /// the request bounds — and on failure the state is untouched. On
    /// success the `RelayerUpdated` notification is returned.
    pub fn update_relayer(
        &mut self,
        who: AccountId,
        supported_chains: Vec<ChainId>,
        metadata: Vec<u8>,
    ) -> (r: Result<Event, Error>)
        requires
            old(self).wf(),
        ensures
            final(self).wf(),
            final(self).config == old(self).config,
            (match update_check(
                old(self)@,
                old(self).config,
                who,
                supported_chains@,
                metadata@,
            ) {
                Ok(()) => {
                    &&& final(self)@ == update_post(old(self)@, who, supported_chains@, metadata@)
                    &&& (r matches Ok(ev) && ev matches Event::RelayerUpdated { relayer }
                        && relayer == who)
                },
                Err(e) => {
                    &&& r matches Err(e2) && e2 == e
                    &&& final(self)@ == old(self)@
                },
            }),
    {
        let i = match self.find_index(who) {
            None => {
                return Err(Error::NotRegistered);
            },
            Some(i) => i,
        };
        proof {
            assert(self@[i as int].account == who);
            assert(has_account(self@, who));
        }
        if supported_chains.len() == 0 {
            return Err(Error::EmptyChainList);
        }
        if supported_chains.len() > self.config.max_supported_chains as usize {
            return Err(Error::TooManySupportedChains);
        }
        if metadata.len() > self.config.max_metadata_length as usize {
            return Err(Error::MetadataTooLong);
        }
        let entry = RelayerInfo {
            account: self.entries[i].account,
            supported_chains,
            registration_block: self.entries[i].registration_block,
            metadata,
        };
        let ghost pre = self@;
        self.entries.set(i, entry);
        proof {
            assert forall|j: int| 0 <= j < pre.len() && j != i as int implies pre[j].account
                != who by {
                assert(unique_accounts(pre));
            }
            assert(self@ =~= update_post(pre, who, supported_chains@, metadata@));
        }
        Ok(Event::RelayerUpdated { relayer: who })
    }

    /// All entries, in registration order. Pure read.
    pub fn get_all_relayers(&self) -> (r: Vec<RelayerInfo>)
        ensures
            views_of(r@) == self@,
    {
        let mut r: Vec<RelayerInfo> = Vec::new();
        let mut i: usize = 0;
        while i < self.entries.len()
            invariant
                i <= self@.len(),
                self@.len() == self.entries@.len(),
                views_of(r@) == self@.take(i as int),
            decreases self@.len() - i,
        {
            let info = self.entries[i].clone();
            proof {
                assert(info@ == self@[i as int]);
            }
            let ghost taken = r@;
            r.push(info);
            proof {
                assert(views_of(r@) =~= views_of(taken).push(info@));
                assert(self@.take(i + 1 as int) =~= self@.take(i as int).push(self@[i as int]));
            }
            i = i + 1;
        }
        proof {
            assert(self@.take(self@.len() as int) =~= self@);
        }
        r
    }

    /// The entries that declare support for `chain_id`, in registration
    /// order; empty when none match. Pure read.
    pub fn get_relayers_for_chain(&self, chain_id: ChainId) -> (r: Vec<RelayerInfo>)
        ensures
            views_of(r@) == chain_filter(self@, chain_id),
    {
        let mut r: Vec<RelayerInfo> = Vec::new();
        let mut i: usize = 0;
        while i < self.entries.len()
            invariant
                i <= self@.len(),
                self@.len() == self.entries@.len(),
                views_of(r@) == chain_filter(self@.take(i as int), chain_id),
            decreases self@.len() - i,
        {
            proof {
                assert(self@.take(i + 1 as int) =~= self@.take(i as int).push(self@[i as int]));
                lemma_chain_filter_push(self@.take(i as int), self@[i as int], chain_id);
                assert(self@[i as int].supported_chains == self.entries@[i as int].supported_chains@);
            }
            if contains_chain(&self.entries[i].supported_chains, chain_id) {
                let info = self.entries[i].clone();
                proof {
                    assert(info@ == self@[i as int]);
                }
                let ghost taken = r@;
                r.push(info);
                proof {
                    assert(views_of(r@) =~= views_of(taken).push(info@));
                }
            }
            i = i + 1;
        }
        proof {
            assert(self@.take(self@.len() as int) =~= self@);
        }
        r
    }

    /// The stored entry owned by `who`, if any. Pure read.
    pub fn relayers(&self, who: AccountId) -> (r: Option<RelayerInfo>)
        ensures
            r is Some <==> has_account(self@, who),
            (r matches Some(info) ==> info@.account == who && self@.contains(info@)),
    {
        match self.find_index(who) {
            None => None,
            Some(i) => {
                let info = self.entries[i].clone();
                proof {
                    assert(self@[i as int] == info@);
                }
                Some(info)
            },
        }
    }

    /// The owners of all entries, in registration order. Pure read.
    pub fn relayer_list(&self) -> (r: Vec<AccountId>)
        ensures
            r@ == accounts_of(self@),
    {
        let mut r: Vec<AccountId> = Vec::new();
        let mut i: usize = 0;
        while i < self.entries.len()
            invariant
                i <= self@.len(),
                self@.len() == self.entries@.len(),
                r@ == accounts_of(self@).take(i as int),
            decreases self@.len() - i,
        {
            r.push(self.entries[i].account);
            proof {
                assert(accounts_of(self@)[i as int] == self@[i as int].account);
                assert(self@[i as int].account == self.entries@[i as int].account);
                assert(r@ =~= accounts_of(self@).take(i + 1 as int));
            }
            i = i + 1;
        }
        proof {
            assert(accounts_of(self@).take(self@.len() as int) =~= accounts_of(self@));
        }
        r
    }

    /// The number of entries. Pure read.
    pub fn relayer_count(&self) -> (r: u32)
        requires
            self.wf(),
        ensures
            r as int == self@.len(),
    {
        self.count
    }

    /// Decides at run time whether this registry satisfies `wf`. Every
    /// operation preserves `wf`, so on a registry built through this API
    /// the check always passes; unverified callers that hold a registry
    /// can use it to treat a corrupted state as a fault.
    pub fn well_formed(&self) -> (r: bool)
        ensures
            r == self.wf(),
    {
        if self.config.max_supported_chains < 1 || self.config.max_metadata_length < 1
            || self.config.max_relayers < 1 {
            return false;
        }
        if self.count as usize != self.entries.len() {
            return false;
        }
        if self.entries.len() > self.config.max_relayers as usize {
            return false;
        }
        let n = self.entries.len();
        let mut i: usize = 0;
        while i < n
            invariant
                i <= n,
                n == self@.len(),
                self@.len() == self.entries@.len(),
                forall|p: int, q: int| 0 <= p < q < n && p < i ==> self@[p].account
                    != self@[q].account,
            decreases n - i,
        {
            let mut j: usize = i + 1;
            while j < n
                invariant
                    i < j <= n,
                    n == self@.len(),
                    self@.len() == self.entries@.len(),
                    forall|q: int| i < q < j ==> self@[q].account != self@[i as int].account,
                decreases n - j,
            {
                if self.entries[j].account == self.entries[i].account {
                    proof {
                        assert(self@[i as int].account == self@[j as int].account);
                        assert(!unique_accounts(self@));
                    }
                    return false;
                }
                j = j + 1;
            }
            i = i + 1;
        }
        let mut k: usize = 0;
        while k < n
            invariant
                k <= n,
                n == self@.len(),
                self@.len() == self.entries@.len(),
                forall|p: int| 0 <= p < k ==> entry_wf(#[trigger] self@[p], self.config),
            decreases n - k,
        {
            let chains_len = self.entries[k].supported_chains.len();
            let metadata_len = self.entries[k].metadata.len();
            if chains_len < 1 || chains_len > self.config.max_supported_chains as usize
                || metadata_len > self.config.max_metadata_length as usize {
                proof {
                    assert(!entry_wf(self@[k as int], self.config));
                }
                return false;
            }
            proof {
                assert(entry_wf(self@[k as int], self.config));
            }
            k = k + 1;
        }
        true
    }

    /// Whether `who` currently has an entry. Pure read.
    pub fn is_relayer(&self, who: AccountId) -> (r: bool)
        ensures
            r == has_account(self@, who),
    {
        match self.find_index(who) {
            Some(i) => {
                proof {
                    assert(self@[i as int].account == who);
                }
                true
            },
            None => false,
        }
    }
}

} // verus!
