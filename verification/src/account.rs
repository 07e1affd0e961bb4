//! Accounts with the proofs of their state.
use crate::primitives::{clone_list, views, Bytes, B256, U256};
use vstd::prelude::*;

verus! {

/// What the state trie says of an account.
#[derive(Clone, Copy, Debug, PartialEq, Eq, Structural)]
pub struct TrieAccount {
    pub nonce: u64,
    pub balance: U256,
    pub storage_root: B256,
    pub code_hash: B256,
}

/// The value of a storage slot and the proof of it.
#[derive(Debug)]
pub struct StorageProof {
    pub key: B256,
    pub value: U256,
    pub proof: Vec<Bytes>,
}

/// What the proof of a storage slot says.
pub ghost struct StorageProofView {
    pub key: B256,
    pub value: U256,
    pub proof: Seq<Seq<u8>>,
}

impl View for StorageProof {
    type V = StorageProofView;

    open spec fn view(&self) -> StorageProofView {
        StorageProofView { key: self.key, value: self.value, proof: views(self.proof@) }
    }
}

impl Clone for StorageProof {
    fn clone(&self) -> (r: Self)
        ensures
            r@ == self@,
    {
        StorageProof { key: self.key, value: self.value, proof: clone_list(&self.proof) }
    }
}

/// An account: what the state trie says of it, its code where it was asked for, and the proofs.
#[derive(Debug)]
pub struct Account {
    pub account: TrieAccount,
    pub code: Option<Bytes>,
    pub account_proof: Vec<Bytes>,
    pub storage_proof: Vec<StorageProof>,
}

/// What an account says.
#[verifier::ext_equal]
pub ghost struct AccountView {
    pub account: TrieAccount,
    pub code: Option<Seq<u8>>,
    pub account_proof: Seq<Seq<u8>>,
    pub storage_proof: Seq<StorageProofView>,
}

/// What an optional byte string says.
pub open spec fn bytes_view(bytes: Option<Bytes>) -> Option<Seq<u8>> {
    match bytes {
        Some(b) => Some(b@),
        None => None,
    }
}

impl View for Account {
    type V = AccountView;

    open spec fn view(&self) -> AccountView {
        AccountView {
            account: self.account,
            code: bytes_view(self.code),
            account_proof: views(self.account_proof@),
            storage_proof: views(self.storage_proof@),
        }
    }
}

/// A list of storage proofs, copied.
pub fn clone_storage_proofs(list: &Vec<StorageProof>) -> (r: Vec<StorageProof>)
    ensures
        views(r@) == views(list@),
{
    let r = list.clone();
    assert(views(r@) =~= views(list@));
    r
}

/// An optional byte string, copied.
pub fn clone_code(code: &Option<Bytes>) -> (r: Option<Bytes>)
    ensures
        bytes_view(r) == bytes_view(*code),
{
    match code {
        Some(b) => Some(b.clone()),
        None => None,
    }
}

impl Clone for Account {
    fn clone(&self) -> (r: Self)
        ensures
            r@ == self@,
    {
        Account {
            account: self.account,
            code: clone_code(&self.code),
            account_proof: clone_list(&self.account_proof),
            storage_proof: clone_storage_proofs(&self.storage_proof),
        }
    }
}

/// The slots that are proven.
pub open spec fn proves(proofs: Seq<StorageProofView>, slot: B256) -> bool {
    exists|i: int| 0 <= i < proofs.len() && (#[trigger] proofs[i]).key == slot
}

} // verus!
