//! Accounts that were fetched once, by address and block, and code by address.
use crate::account::{
    clone_storage_proofs, proves, Account, AccountView, StorageProof, StorageProofView,
};
use crate::primitives::{clone_list, views, Address, Bytes, B256};
use std::collections::BTreeMap;
use vstd::prelude::*;

verus! {

broadcast use {vstd::laws_cmp::group_laws_cmp, vstd::std_specs::btree::group_btree_axioms};

/// An account at a block.
pub type AccountKey = ((u32, u128), (u128, u128));

/// The key of an account at a block.
pub open spec fn account_key(address: Address, block_hash: B256) -> AccountKey {
    (address.pair(), block_hash.pair())
}

/// Accounts by address and block hash, and the code last seen at an address.
///
/// A proof is valid for one block, so an account is kept under the hash of its block. Code
/// hardly ever changes, so it is kept by address, with its hash to tell whether it is still the
/// code of the account. Nothing leaves the cache; of two accounts under one key the later one
/// counts, and the slots of both are kept.
pub struct Cache {
    pub accounts: BTreeMap<AccountKey, Account>,
    pub codes: BTreeMap<(u32, u128), (B256, Bytes)>,
}

/// What a cache holds.
#[verifier::ext_equal]
pub ghost struct CacheView {
    pub accounts: Map<AccountKey, AccountView>,
    pub codes: Map<(u32, u128), (B256, Seq<u8>)>,
}

impl View for Cache {
    type V = CacheView;

    open spec fn view(&self) -> CacheView {
        CacheView {
            accounts: self.accounts@.map_values(|a: Account| a@),
            codes: self.codes@.map_values(|c: (B256, Bytes)| (c.0, c.1@)),
        }
    }
}

/// The first proof of a slot.
pub open spec fn proof_of(proofs: Seq<StorageProofView>, slot: B256) -> StorageProofView
    decreases proofs.len(),
{
    if proofs.len() <= 1 || proofs[0].key == slot {
        proofs[0]
    } else {
        proof_of(proofs.drop_first(), slot)
    }
}

/// The proofs of those slots that are proven, in the order of the slots.
pub open spec fn proofs_of(proofs: Seq<StorageProofView>, slots: Seq<B256>) -> Seq<
    StorageProofView,
>
    decreases slots.len(),
{
    if slots.len() == 0 {
        Seq::empty()
    } else {
        let before = proofs_of(proofs, slots.drop_last());
        if proves(proofs, slots.last()) {
            before.push(proof_of(proofs, slots.last()))
        } else {
            before
        }
    }
}

/// Those slots that are not proven, in their order.
pub open spec fn missing_of(proofs: Seq<StorageProofView>, slots: Seq<B256>) -> Seq<B256>
    decreases slots.len(),
{
    if slots.len() == 0 {
        Seq::empty()
    } else {
        let before = missing_of(proofs, slots.drop_last());
        if proves(proofs, slots.last()) {
            before
        } else {
            before.push(slots.last())
        }
    }
}

/// Old proofs of slots that the new ones do not prove.
pub open spec fn still_needed(old: Seq<StorageProofView>, new: Seq<StorageProofView>) -> Seq<
    StorageProofView,
>
    decreases old.len(),
{
    if old.len() == 0 {
        Seq::empty()
    } else {
        let before = still_needed(old.drop_last(), new);
        if proves(new, old.last().key) {
            before
        } else {
            before.push(old.last())
        }
    }
}

impl CacheView {
    /// The code last seen at an address and its hash.
    pub open spec fn code_at(self, address: Address) -> Option<(B256, Seq<u8>)> {
        if self.codes.contains_key(address.pair()) {
            Some(self.codes[address.pair()])
        } else {
            None
        }
    }

    /// The code of an account whose code has this hash, where it is known.
    pub open spec fn code_for(self, address: Address, code_hash: B256) -> Option<Seq<u8>> {
        match self.code_at(address) {
            Some((hash, code)) => if hash == code_hash {
                Some(code)
            } else {
                None
            },
            None => None,
        }
    }

    /// An account at a block, as far as it is known: with the proofs of the slots that are
    /// known, and the slots that are not.
    pub open spec fn account_at(
        self,
        address: Address,
        slots: Seq<B256>,
        block_hash: B256,
    ) -> Option<(AccountView, Seq<B256>)> {
        let key = account_key(address, block_hash);
        if self.accounts.contains_key(key) {
            let held = self.accounts[key];
            Some(
                (
                    AccountView {
                        account: held.account,
                        code: self.code_for(address, held.account.code_hash),
                        account_proof: held.account_proof,
                        storage_proof: proofs_of(held.storage_proof, slots),
                    },
                    missing_of(held.storage_proof, slots),
                ),
            )
        } else {
            None
        }
    }

    /// The cache with one more account: its slots join those that are known at the same block.
    pub open spec fn with_account(
        self,
        address: Address,
        account: AccountView,
        block_hash: B256,
    ) -> CacheView {
        let key = account_key(address, block_hash);
        let old_proofs = if self.accounts.contains_key(key) {
            self.accounts[key].storage_proof
        } else {
            Seq::empty()
        };
        CacheView {
            accounts: self.accounts.insert(
                key,
                AccountView {
                    account: account.account,
                    code: None,
                    account_proof: account.account_proof,
                    storage_proof: account.storage_proof + still_needed(
                        old_proofs,
                        account.storage_proof,
                    ),
                },
            ),
            codes: match account.code {
                Some(code) => self.codes.insert(
                    address.pair(),
                    (account.account.code_hash, code),
                ),
                None => self.codes,
            },
        }
    }
}

/// The place of the first proof of a slot.
fn find_proof(proofs: &Vec<StorageProof>, slot: B256) -> (r: Option<usize>)
    ensures
        match r {
            Some(i) => {
                &&& i < proofs@.len()
                &&& proves(views(proofs@), slot)
                &&& proofs@[i as int]@ == proof_of(views(proofs@), slot)
            },
            None => !proves(views(proofs@), slot),
        },
{
    let ghost all = views(proofs@);
    let mut i: usize = 0;
    assert(all.skip(0) =~= all);
    while i < proofs.len()
        invariant
            i <= proofs@.len(),
            all == views(proofs@),
            forall|k: int| 0 <= k < i ==> (#[trigger] all[k]).key != slot,
            i < all.len() && proves(all, slot) ==> proof_of(all.skip(i as int), slot) == proof_of(
                all,
                slot,
            ),
        decreases proofs@.len() - i,
    {
        assert(all[i as int] == proofs@[i as int]@);
        assert(all.skip(i as int)[0] == all[i as int]);
        if proofs[i].key == slot {
            assert(proves(all, slot));
            return Some(i);
        }
        assert(all.skip(i as int).drop_first() =~= all.skip(i + 1));
        proof {
            if proves(all, slot) {
                let k = choose|k: int| 0 <= k < all.len() && (#[trigger] all[k]).key == slot;
                assert(k > i);
            }
        }
        i = i + 1;
    }
    None
}

impl Cache {
    /// An empty cache.
    pub fn new() -> (r: Self)
        ensures
            r@.accounts == Map::<AccountKey, AccountView>::empty(),
            r@.codes == Map::<(u32, u128), (B256, Seq<u8>)>::empty(),
    {
        let r = Cache { accounts: BTreeMap::new(), codes: BTreeMap::new() };
        assert(r@.accounts =~= Map::empty());
        assert(r@.codes =~= Map::empty());
        r
    }

    /// The code last seen at an address, and its hash. Whether it is still the code of the
    /// account is for the caller to find out.
    pub fn get_code_optimistically(&self, address: Address) -> (r: Option<(B256, Bytes)>)
        ensures
            match r {
                Some((hash, code)) => self@.code_at(address) == Some((hash, code@)),
                None => self@.code_at(address) is None,
            },
    {
        let key = address.key();
        match self.codes.get(&key) {
            Some(entry) => Some((entry.0, entry.1.clone())),
            None => None,
        }
    }

    /// An account at a block, as far as it is known, and the slots of those asked for that are
    /// not.
    pub fn get_account(&self, address: Address, slots: &Vec<B256>, block_hash: B256) -> (r: Option<
        (Account, Vec<B256>),
    >)
        ensures
            match r {
                Some((account, missing)) => self@.account_at(address, slots@, block_hash) == Some(
                    (account@, missing@),
                ),
                None => self@.account_at(address, slots@, block_hash) is None,
            },
    {
        let key = (address.key(), block_hash.key());
        let held = match self.accounts.get(&key) {
            Some(held) => held,
            None => {
                return None;
            },
        };
        let ghost proofs = views(held.storage_proof@);
        let mut found: Vec<StorageProof> = Vec::new();
        let mut missing: Vec<B256> = Vec::new();
        let mut i: usize = 0;
        assert(slots@.take(0) =~= Seq::<B256>::empty());
        assert(views(found@) =~= Seq::empty());
        while i < slots.len()
            invariant
                i <= slots@.len(),
                proofs == views(held.storage_proof@),
                views(found@) == proofs_of(proofs, slots@.take(i as int)),
                missing@ == missing_of(proofs, slots@.take(i as int)),
            decreases slots@.len() - i,
        {
            assert(slots@.take(i + 1).drop_last() =~= slots@.take(i as int));
            assert(slots@.take(i + 1).last() == slots@[i as int]);
            let ghost before = found@;
            match find_proof(&held.storage_proof, slots[i]) {
                Some(at) => {
                    found.push(held.storage_proof[at].clone());
                    assert(views(found@) =~= views(before).push(found@.last()@));
                },
                None => {
                    missing.push(slots[i]);
                },
            }
            i = i + 1;
        }
        assert(slots@.take(i as int) =~= slots@);
        let code: Option<Bytes> = match self.get_code_optimistically(address) {
            Some((hash, code)) => {
                if hash == held.account.code_hash {
                    Some(code)
                } else {
                    None
                }
            },
            None => None,
        };
        let account = Account {
            account: held.account,
            code,
            account_proof: clone_list(&held.account_proof),
            storage_proof: found,
        };
        Some((account, missing))
    }

    /// Keeps an account as it was fetched at a block.
    pub fn insert_account(&mut self, address: Address, account: &Account, block_hash: B256)
        ensures
            final(self)@ == old(self)@.with_account(address, account@, block_hash),
    {
        let ghost before = self@;
        let key = (address.key(), block_hash.key());
        let mut proofs = clone_storage_proofs(&account.storage_proof);
        let ghost new_proofs = views(account.storage_proof@);
        match self.accounts.get(&key) {
            Some(held) => {
                let ghost old_proofs = views(held.storage_proof@);
                let mut i: usize = 0;
                assert(old_proofs.take(0) =~= Seq::empty());
                assert(views(proofs@) =~= new_proofs + Seq::empty());
                while i < held.storage_proof.len()
                    invariant
                        i <= held.storage_proof@.len(),
                        old_proofs == views(held.storage_proof@),
                        new_proofs == views(account.storage_proof@),
                        views(proofs@) == new_proofs + still_needed(
                            old_proofs.take(i as int),
                            new_proofs,
                        ),
                    decreases held.storage_proof@.len() - i,
                {
                    assert(old_proofs.take(i + 1).drop_last() =~= old_proofs.take(i as int));
                    assert(old_proofs.take(i + 1).last() == held.storage_proof@[i as int]@);
                    let ghost so_far = proofs@;
                    if find_proof(&account.storage_proof, held.storage_proof[i].key).is_none() {
                        proofs.push(held.storage_proof[i].clone());
                        assert(views(proofs@) =~= views(so_far).push(proofs@.last()@));
                    }
                    assert(views(proofs@) =~= new_proofs + still_needed(
                        old_proofs.take(i + 1),
                        new_proofs,
                    ));
                    i = i + 1;
                }
                assert(old_proofs.take(i as int) =~= old_proofs);
            },
            None => {
                assert(views(proofs@) =~= new_proofs + Seq::empty());
            },
        }
        let kept = Account {
            account: account.account,
            code: None,
            account_proof: clone_list(&account.account_proof),
            storage_proof: proofs,
        };
        self.accounts.insert(key, kept);
        if let Some(code) = &account.code {
            self.codes.insert(address.key(), (account.account.code_hash, code.clone()));
        }
        assert(self@.accounts =~= before.with_account(address, account@, block_hash).accounts);
        assert(self@.codes =~= before.with_account(address, account@, block_hash).codes);
    }
}

} // verus!
