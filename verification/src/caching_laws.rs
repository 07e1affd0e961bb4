//! What holds of every reading through the cache.
use crate::account::{proves, AccountView, StorageProofView, TrieAccount};
use crate::cache::{
    account_key, missing_of, proof_of, proofs_of, still_needed, AccountKey, CacheView,
};
use crate::caching_provider::{completed, PendingView, StepView};
use crate::chain::BlockView;
use crate::error::ErrorView;
use crate::primitives::{Address, BlockId, BlockNumberOrTag, B256};
use vstd::prelude::*;

verus! {

/// How the inner provider answers for one account at one block.
pub type Source = spec_fn(Seq<B256>, bool) -> Result<AccountView, ErrorView>;

/// A reading from its look-up to its end: what it answers, and the cache afterwards.
pub open spec fn read(
    cache: CacheView,
    address: Address,
    slots: Seq<B256>,
    with_code: bool,
    block_hash: B256,
    source: Source,
) -> (Result<AccountView, ErrorView>, CacheView) {
    match cache.looked_up(address, slots, with_code, block_hash) {
        StepView::Done(result) => (result, cache),
        StepView::AskAccount { slots: asked, with_code: code_asked, pending, .. } => {
            let (step, after) = cache.with_account_answer(
                address,
                slots,
                with_code,
                block_hash,
                pending,
                source(asked, code_asked),
            );
            match step {
                StepView::Done(result) => (result, after),
                StepView::AskAccount { slots: asked, with_code: code_asked, pending, .. } => {
                    let (step, last) = after.with_account_answer(
                        address,
                        slots,
                        with_code,
                        block_hash,
                        pending,
                        source(asked, code_asked),
                    );
                    (step->Done_0, last)
                },
                StepView::AskBlock => (Err(ErrorView::BlockNotFound), after),
            }
        },
        StepView::AskBlock => (Err(ErrorView::BlockNotFound), cache),
    }
}

/// The state of the chain: what is proven of each account at each block, and the code of each
/// code hash.
pub ghost struct Truth {
    pub trie: spec_fn(AccountKey) -> TrieAccount,
    pub account_proof: spec_fn(AccountKey) -> Seq<Seq<u8>>,
    pub slot: spec_fn(AccountKey, B256) -> StorageProofView,
    pub code: spec_fn(B256) -> Seq<u8>,
}

impl Truth {
    /// All that an account says is so.
    pub open spec fn tells(self, account: AccountView, key: AccountKey) -> bool {
        &&& account.account == (self.trie)(key)
        &&& account.account_proof == (self.account_proof)(key)
        &&& forall|i: int|
            0 <= i < account.storage_proof.len() ==> (#[trigger] account.storage_proof[i]) == (
            self.slot)(key, account.storage_proof[i].key)
        &&& account.code matches Some(code) ==> code == (self.code)(account.account.code_hash)
    }

    /// All that a cache says is so.
    pub open spec fn tells_cache(self, cache: CacheView) -> bool {
        &&& forall|key: AccountKey| #[trigger]
            cache.accounts.contains_key(key) ==> self.tells(cache.accounts[key], key)
        &&& forall|address: (u32, u128)| #[trigger]
            cache.codes.contains_key(address) ==> cache.codes[address].1 == (self.code)(
                cache.codes[address].0,
            )
    }

    /// All that a provider answers for an account is so, and holds what it was asked for.
    pub open spec fn tells_source(self, source: Source, key: AccountKey) -> bool {
        forall|slots: Seq<B256>, with_code: bool|
            #![trigger source(slots, with_code)]
            source(slots, with_code) matches Ok(account) ==> self.tells(account, key) && answers(
                account,
                slots,
                with_code,
            )
    }
}

/// An account holds what was asked for: a proof of each slot, and the code.
pub open spec fn answers(account: AccountView, slots: Seq<B256>, with_code: bool) -> bool {
    &&& forall|slot: B256| #[trigger]
        slots.contains(slot) ==> proves(account.storage_proof, slot)
    &&& with_code ==> account.code is Some
}

/// An account holds proofs of no other slots than these.
pub open spec fn proves_only(account: AccountView, slots: Seq<B256>) -> bool {
    forall|i: int|
        0 <= i < account.storage_proof.len() ==> slots.contains(
            (#[trigger] account.storage_proof[i]).key,
        )
}

/// A provider answers with proofs of no other slots than it was asked for.
pub open spec fn adds_nothing(source: Source) -> bool {
    forall|slots: Seq<B256>, with_code: bool|
        #![trigger source(slots, with_code)]
        source(slots, with_code) matches Ok(account) ==> proves_only(account, slots)
}

proof fn lemma_proof_of(proofs: Seq<StorageProofView>, slot: B256) -> (at: int)
    requires
        proves(proofs, slot),
    ensures
        0 <= at < proofs.len(),
        proofs[at] == proof_of(proofs, slot),
        proofs[at].key == slot,
    decreases proofs.len(),
{
    let i = choose|i: int| 0 <= i < proofs.len() && (#[trigger] proofs[i]).key == slot;
    if proofs[0].key == slot || proofs.len() <= 1 {
        0
    } else {
        assert(proofs.drop_first()[i - 1] == proofs[i]);
        let at = lemma_proof_of(proofs.drop_first(), slot);
        assert(proofs[at + 1] == proofs.drop_first()[at]);
        at + 1
    }
}

proof fn lemma_proofs_of(proofs: Seq<StorageProofView>, slots: Seq<B256>)
    ensures
        forall|slot: B256|
            #![trigger slots.contains(slot)]
            slots.contains(slot) && proves(proofs, slot) ==> proves(
                proofs_of(proofs, slots),
                slot,
            ),
        forall|slot: B256|
            #![trigger slots.contains(slot)]
            slots.contains(slot) && !proves(proofs, slot) ==> missing_of(proofs, slots).contains(
                slot,
            ),
        forall|i: int|
            0 <= i < proofs_of(proofs, slots).len() ==> slots.contains(
                (#[trigger] proofs_of(proofs, slots)[i]).key,
            ) && proofs.contains(proofs_of(proofs, slots)[i]),
        forall|i: int|
            0 <= i < missing_of(proofs, slots).len() ==> slots.contains(
                #[trigger] missing_of(proofs, slots)[i],
            ) && !proves(proofs, missing_of(proofs, slots)[i]),
    decreases slots.len(),
{
    if slots.len() > 0 {
        let front = slots.drop_last();
        let last = slots.last();
        lemma_proofs_of(proofs, front);
        let before = proofs_of(proofs, front);
        let lacking = missing_of(proofs, front);
        let found = proofs_of(proofs, slots);
        let missing = missing_of(proofs, slots);
        assert(slots[slots.len() - 1] == last);
        assert forall|slot: B256| #[trigger] front.contains(slot) implies slots.contains(slot) by {
            let k = choose|k: int| 0 <= k < front.len() && front[k] == slot;
            assert(slots[k] == slot);
        }
        if proves(proofs, last) {
            let at = lemma_proof_of(proofs, last);
            assert(found[before.len() as int] == proofs[at]);
            assert(proves(found, last));
        } else {
            assert(missing[lacking.len() as int] == last);
        }
        assert forall|slot: B256| #[trigger] slots.contains(slot) && proves(proofs, slot) implies
            proves(found, slot) by {
            let k = choose|k: int| 0 <= k < slots.len() && slots[k] == slot;
            if k < front.len() {
                assert(front[k] == slot);
                assert(front.contains(slot));
                let i = choose|i: int| 0 <= i < before.len() && (#[trigger] before[i]).key == slot;
                assert(found[i] == before[i]);
            }
        }
        assert forall|slot: B256|
            #[trigger] slots.contains(slot) && !proves(proofs, slot) implies missing.contains(
            slot,
        ) by {
            let k = choose|k: int| 0 <= k < slots.len() && slots[k] == slot;
            if k < front.len() {
                assert(front[k] == slot);
                assert(front.contains(slot));
                let i = choose|i: int| 0 <= i < lacking.len() && lacking[i] == slot;
                assert(missing[i] == slot);
            }
        }
        assert forall|i: int| 0 <= i < found.len() implies slots.contains(
            (#[trigger] found[i]).key,
        ) && proofs.contains(found[i]) by {
            if i < before.len() {
                assert(found[i] == before[i]);
                assert(front.contains(before[i].key));
            }
        }
        assert forall|i: int| 0 <= i < missing.len() implies slots.contains(
            #[trigger] missing[i],
        ) && !proves(proofs, missing[i]) by {
            if i < lacking.len() {
                assert(missing[i] == lacking[i]);
                assert(front.contains(lacking[i]));
            }
        }
    }
}

proof fn lemma_still_needed(old_proofs: Seq<StorageProofView>, new: Seq<StorageProofView>)
    ensures
        forall|i: int|
            0 <= i < still_needed(old_proofs, new).len() ==> old_proofs.contains(
                #[trigger] still_needed(old_proofs, new)[i],
            ),
        forall|i: int|
            0 <= i < old_proofs.len() && !proves(new, (#[trigger] old_proofs[i]).key)
                ==> still_needed(old_proofs, new).contains(old_proofs[i]),
    decreases old_proofs.len(),
{
    if old_proofs.len() > 0 {
        let front = old_proofs.drop_last();
        lemma_still_needed(front, new);
        let before = still_needed(front, new);
        let all = still_needed(old_proofs, new);
        assert forall|i: int| 0 <= i < all.len() implies old_proofs.contains(
            #[trigger] all[i],
        ) by {
            if i < before.len() {
                assert(all[i] == before[i]);
                let k = choose|k: int| 0 <= k < front.len() && front[k] == before[i];
                assert(old_proofs[k] == all[i]);
            } else {
                assert(old_proofs[old_proofs.len() - 1] == all[i]);
            }
        }
        assert forall|i: int|
            0 <= i < old_proofs.len() && !proves(
                new,
                (#[trigger] old_proofs[i]).key,
            ) implies all.contains(old_proofs[i]) by {
            if i < front.len() {
                assert(front[i] == old_proofs[i]);
                let k = choose|k: int| 0 <= k < before.len() && before[k] == front[i];
                assert(all[k] == old_proofs[i]);
            } else {
                assert(all[before.len() as int] == old_proofs[i]);
            }
        }
    }
}

/// The slots proven by an entry after an insertion are those proven before and those brought.
proof fn lemma_merged(
    cache: CacheView,
    address: Address,
    account: AccountView,
    block_hash: B256,
    slot: B256,
)
    ensures
        ({
            let key = account_key(address, block_hash);
            let after = cache.with_account(address, account, block_hash).accounts[key].storage_proof;
            proves(after, slot) == (proves(account.storage_proof, slot)
                || cache.accounts.contains_key(key) && proves(
                cache.accounts[key].storage_proof,
                slot,
            ))
        }),
{
    let key = account_key(address, block_hash);
    let new = account.storage_proof;
    let old_proofs = if cache.accounts.contains_key(key) {
        cache.accounts[key].storage_proof
    } else {
        Seq::empty()
    };
    let kept = still_needed(old_proofs, new);
    let after = new + kept;
    lemma_still_needed(old_proofs, new);
    assert(cache.with_account(address, account, block_hash).accounts[key].storage_proof == after);
    if proves(new, slot) {
        let i = choose|i: int| 0 <= i < new.len() && (#[trigger] new[i]).key == slot;
        assert(after[i] == new[i]);
    } else if proves(old_proofs, slot) {
        let i = choose|i: int| 0 <= i < old_proofs.len() && (#[trigger] old_proofs[i]).key == slot;
        assert(kept.contains(old_proofs[i]));
        let k = choose|k: int| 0 <= k < kept.len() && kept[k] == old_proofs[i];
        assert(after[new.len() + k] == kept[k]);
    }
    if proves(after, slot) {
        let i = choose|i: int| 0 <= i < after.len() && (#[trigger] after[i]).key == slot;
        if i < new.len() {
            assert(new[i] == after[i]);
        } else {
            assert(kept[i - new.len()] == after[i]);
            assert(old_proofs.contains(kept[i - new.len()]));
            let k = choose|k: int| 0 <= k < old_proofs.len() && old_proofs[k] == after[i];
            assert(proves(old_proofs, slot));
        }
    }
}

/// What is true stays true when a true account comes in.
proof fn lemma_insertion_is_true(
    truth: Truth,
    cache: CacheView,
    address: Address,
    account: AccountView,
    block_hash: B256,
)
    requires
        truth.tells_cache(cache),
        truth.tells(account, account_key(address, block_hash)),
    ensures
        truth.tells_cache(cache.with_account(address, account, block_hash)),
{
    let key = account_key(address, block_hash);
    let after = cache.with_account(address, account, block_hash);
    let old_proofs = if cache.accounts.contains_key(key) {
        cache.accounts[key].storage_proof
    } else {
        Seq::empty()
    };
    let new = account.storage_proof;
    lemma_still_needed(old_proofs, new);
    assert forall|k: AccountKey| #[trigger] after.accounts.contains_key(k) implies truth.tells(
        after.accounts[k],
        k,
    ) by {
        if k == key {
            let proofs = after.accounts[k].storage_proof;
            assert forall|i: int| 0 <= i < proofs.len() implies (#[trigger] proofs[i]) == (
            truth.slot)(key, proofs[i].key) by {
                if i < new.len() {
                    assert(proofs[i] == new[i]);
                } else {
                    assert(proofs[i] == still_needed(old_proofs, new)[i - new.len()]);
                    let j = choose|j: int|
                        0 <= j < old_proofs.len() && old_proofs[j] == proofs[i];
                    assert(cache.accounts.contains_key(key));
                    assert(truth.tells(cache.accounts[key], key));
                }
            }
        } else {
            assert(cache.accounts.contains_key(k));
        }
    }
    assert forall|a: (u32, u128)| #[trigger] after.codes.contains_key(a) implies after.codes[a].1
        == (truth.code)(after.codes[a].0) by {
        if a != address.pair() || account.code is None {
            assert(cache.codes.contains_key(a));
        }
    }
}

/// What the cache knows of an account is true, and with what is missing it is what was asked
/// for.
proof fn lemma_known_part(
    truth: Truth,
    cache: CacheView,
    address: Address,
    slots: Seq<B256>,
    block_hash: B256,
)
    requires
        truth.tells_cache(cache),
        cache.account_at(address, slots, block_hash) is Some,
    ensures
        ({
            let key = account_key(address, block_hash);
            let (known, missing) = cache.account_at(address, slots, block_hash)->0;
            &&& truth.tells(known, key)
            &&& forall|slot: B256| #[trigger]
                slots.contains(slot) ==> proves(known.storage_proof, slot) || missing.contains(slot)
            &&& forall|i: int|
                0 <= i < known.storage_proof.len() ==> slots.contains(
                    (#[trigger] known.storage_proof[i]).key,
                )
            &&& forall|i: int| 0 <= i < missing.len() ==> slots.contains(#[trigger] missing[i])
        }),
{
    let key = account_key(address, block_hash);
    let held = cache.accounts[key];
    let (known, missing) = cache.account_at(address, slots, block_hash)->0;
    lemma_proofs_of(held.storage_proof, slots);
    assert(truth.tells(held, key));
    assert forall|i: int| 0 <= i < known.storage_proof.len() implies (
    #[trigger] known.storage_proof[i]) == (truth.slot)(key, known.storage_proof[i].key) by {
        let p = known.storage_proof[i];
        assert(held.storage_proof.contains(p));
        let j = choose|j: int| 0 <= j < held.storage_proof.len() && held.storage_proof[j] == p;
        assert(held.storage_proof[j] == p);
    }
    assert(known.code matches Some(code) ==> cache.codes.contains_key(address.pair()));
}

/// The two parts of an answer make one true answer.
proof fn lemma_completed(
    truth: Truth,
    key: AccountKey,
    known: AccountView,
    fetched: AccountView,
    slots: Seq<B256>,
    missing: Seq<B256>,
    with_code: bool,
)
    requires
        truth.tells(known, key),
        truth.tells(fetched, key),
        answers(fetched, missing, with_code && known.code is None),
        forall|slot: B256| #[trigger]
            slots.contains(slot) ==> proves(known.storage_proof, slot) || missing.contains(slot),
        forall|i: int|
            0 <= i < known.storage_proof.len() ==> slots.contains(
                (#[trigger] known.storage_proof[i]).key,
            ),
        forall|i: int| 0 <= i < missing.len() ==> slots.contains(#[trigger] missing[i]),
    ensures
        truth.tells(completed(known, fetched), key),
        answers(completed(known, fetched), slots, with_code),
        proves_only(fetched, missing) ==> proves_only(completed(known, fetched), slots),
{
    let whole = completed(known, fetched);
    let n = known.storage_proof.len();
    assert forall|slot: B256| #[trigger] slots.contains(slot) implies proves(
        whole.storage_proof,
        slot,
    ) by {
        if proves(known.storage_proof, slot) {
            let i = choose|i: int|
                0 <= i < n && (#[trigger] known.storage_proof[i]).key == slot;
            assert(whole.storage_proof[i] == known.storage_proof[i]);
        } else {
            assert(missing.contains(slot));
            let i = choose|i: int|
                0 <= i < fetched.storage_proof.len() && (#[trigger] fetched.storage_proof[i]).key
                    == slot;
            assert(whole.storage_proof[n + i] == fetched.storage_proof[i]);
        }
    }
    assert forall|i: int| 0 <= i < whole.storage_proof.len() implies (
    #[trigger] whole.storage_proof[i]) == (truth.slot)(key, whole.storage_proof[i].key) by {
        if i < n {
            assert(whole.storage_proof[i] == known.storage_proof[i]);
        } else {
            assert(whole.storage_proof[i] == fetched.storage_proof[i - n]);
        }
    }
    if proves_only(fetched, missing) {
        assert forall|i: int| 0 <= i < whole.storage_proof.len() implies slots.contains(
            (#[trigger] whole.storage_proof[i]).key,
        ) by {
            if i < n {
                assert(whole.storage_proof[i] == known.storage_proof[i]);
            } else {
                let p = fetched.storage_proof[i - n];
                assert(whole.storage_proof[i] == p);
                assert(missing.contains(p.key));
                let k = choose|k: int| 0 <= k < missing.len() && missing[k] == p.key;
                assert(slots.contains(missing[k]));
            }
        }
    }
}

/// The cache is not seen in the answers: before a provider whose answers are true and hold what
/// was asked for, a cache of true things gives true answers, which hold what was asked for, and
/// no more where the provider gives no more; it still holds true things afterwards.
pub proof fn law_cache_is_not_seen(
    truth: Truth,
    cache: CacheView,
    address: Address,
    slots: Seq<B256>,
    with_code: bool,
    block_hash: B256,
    source: Source,
)
    requires
        truth.tells_cache(cache),
        truth.tells_source(source, account_key(address, block_hash)),
    ensures
        ({
            let (result, after) = read(cache, address, slots, with_code, block_hash, source);
            &&& truth.tells_cache(after)
            &&& result matches Ok(account) ==> truth.tells(
                account,
                account_key(address, block_hash),
            ) && answers(account, slots, with_code) && (adds_nothing(source) ==> proves_only(
                account,
                slots,
            ))
        }),
{
    let key = account_key(address, block_hash);
    match cache.looked_up(address, slots, with_code, block_hash) {
        StepView::Done(result) => {
            lemma_known_part(truth, cache, address, slots, block_hash);
        },
        StepView::AskAccount { slots: asked, with_code: code_asked, pending, .. } => {
            match source(asked, code_asked) {
                Ok(fetched) => {
                    match pending {
                        PendingView::KnownCode { code_hash, code } => {
                            assert(cache.codes.contains_key(address.pair()));
                            if fetched.account.code_hash == code_hash {
                                let account = AccountView { code: Some(code), ..fetched };
                                assert(truth.tells(account, key));
                                lemma_insertion_is_true(truth, cache, address, account, block_hash);
                            } else {
                                match source(slots, with_code) {
                                    Ok(again) => {
                                        lemma_insertion_is_true(
                                            truth,
                                            cache,
                                            address,
                                            again,
                                            block_hash,
                                        );
                                    },
                                    Err(_) => {},
                                }
                            }
                        },
                        PendingView::Whole => {
                            lemma_insertion_is_true(truth, cache, address, fetched, block_hash);
                        },
                        PendingView::Rest(known) => {
                            lemma_known_part(truth, cache, address, slots, block_hash);
                            lemma_completed(truth, key, known, fetched, slots, asked, with_code);
                            lemma_insertion_is_true(truth, cache, address, fetched, block_hash);
                        },
                    }
                },
                Err(_) => {},
            }
        },
        StepView::AskBlock => {},
    }
}

/// The provider, asked for what is lacking of an account whose code is known, does not say that
/// the account has other code without giving that code.
pub open spec fn keeps_the_code(
    cache: CacheView,
    address: Address,
    slots: Seq<B256>,
    with_code: bool,
    block_hash: B256,
    source: Source,
) -> bool {
    match cache.looked_up(address, slots, with_code, block_hash) {
        StepView::AskAccount { slots: asked, with_code: code_asked, pending, .. } => {
            match (pending, source(asked, code_asked)) {
                (PendingView::Rest(known), Ok(fetched)) => known.code is Some && fetched.code is None
                    ==> fetched.account.code_hash == known.account.code_hash,
                _ => true,
            }
        },
        _ => true,
    }
}

/// Within one block the first reading pays for every later one: after a reading that gave an
/// account, whatever the provider, a reading of the same account at the same block asks for
/// nothing, where its slots are among those proven in the first answer and the code is wanted
/// only if that answer had it. The later answer has the same account and code, and proves its
/// slots. Left out is a provider that, at one block, says first one thing of the account's code
/// and then another.
pub proof fn law_later_reads_ask_for_nothing(
    cache: CacheView,
    address: Address,
    slots: Seq<B256>,
    with_code: bool,
    block_hash: B256,
    source: Source,
    later_slots: Seq<B256>,
    later_with_code: bool,
)
    requires
        read(cache, address, slots, with_code, block_hash, source).0 is Ok,
        keeps_the_code(cache, address, slots, with_code, block_hash, source),
        ({
            let first = read(cache, address, slots, with_code, block_hash, source).0->Ok_0;
            &&& forall|i: int|
                0 <= i < later_slots.len() ==> proves(
                    first.storage_proof,
                    #[trigger] later_slots[i],
                )
            &&& later_with_code ==> first.code is Some
        }),
    ensures
        ({
            let (result, after) = read(cache, address, slots, with_code, block_hash, source);
            let first = result->Ok_0;
            let step = after.looked_up(address, later_slots, later_with_code, block_hash);
            let later = step->Done_0->Ok_0;
            &&& step is Done && step->Done_0 is Ok
            &&& later.account == first.account
            &&& first.code is Some ==> later.code == first.code
            &&& forall|i: int|
                0 <= i < later_slots.len() ==> proves(
                    later.storage_proof,
                    #[trigger] later_slots[i],
                )
        }),
{
    let key = account_key(address, block_hash);
    let (result, after) = read(cache, address, slots, with_code, block_hash, source);
    let first = result->Ok_0;
    assert forall|slot: B256| proves(first.storage_proof, slot) implies #[trigger] proves(
        after.accounts[key].storage_proof,
        slot,
    ) by {
        lemma_first_proofs_are_kept(cache, address, slots, with_code, block_hash, source, slot);
    }
    assert(after.accounts.contains_key(key));
    let held = after.accounts[key].storage_proof;
    lemma_proofs_of(held, later_slots);
    if missing_of(held, later_slots).len() > 0 {
        let slot = missing_of(held, later_slots)[0];
        assert(later_slots.contains(slot));
        let k = choose|k: int| 0 <= k < later_slots.len() && later_slots[k] == slot;
        assert(proves(first.storage_proof, later_slots[k]));
    }
    assert forall|i: int| 0 <= i < later_slots.len() implies proves(
        proofs_of(held, later_slots),
        #[trigger] later_slots[i],
    ) by {
        assert(later_slots.contains(later_slots[i]));
        assert(proves(held, later_slots[i]));
    }
}

/// What the first answer proves is known afterwards.
proof fn lemma_first_proofs_are_kept(
    cache: CacheView,
    address: Address,
    slots: Seq<B256>,
    with_code: bool,
    block_hash: B256,
    source: Source,
    slot: B256,
)
    requires
        read(cache, address, slots, with_code, block_hash, source).0 is Ok,
        proves(
            read(cache, address, slots, with_code, block_hash, source).0->Ok_0.storage_proof,
            slot,
        ),
    ensures
        ({
            let after = read(cache, address, slots, with_code, block_hash, source).1;
            proves(after.accounts[account_key(address, block_hash)].storage_proof, slot)
        }),
{
    let key = account_key(address, block_hash);
    let first = read(cache, address, slots, with_code, block_hash, source).0->Ok_0;
    let at = choose|i: int|
        0 <= i < first.storage_proof.len() && (#[trigger] first.storage_proof[i]).key == slot;
    match cache.looked_up(address, slots, with_code, block_hash) {
        StepView::Done(_) => {
            lemma_held_proof(cache.accounts[key].storage_proof, slots, at);
        },
        StepView::AskAccount { slots: asked, with_code: code_asked, pending, .. } => {
            let fetched = source(asked, code_asked)->Ok_0;
            match pending {
                PendingView::KnownCode { code_hash, code } => {
                    if fetched.account.code_hash == code_hash {
                        let account = AccountView { code: Some(code), ..fetched };
                        lemma_merged(cache, address, account, block_hash, slot);
                    } else {
                        let again = source(slots, with_code)->Ok_0;
                        lemma_merged(cache, address, again, block_hash, slot);
                    }
                },
                PendingView::Whole => {
                    lemma_merged(cache, address, fetched, block_hash, slot);
                },
                PendingView::Rest(known) => {
                    lemma_merged(cache, address, fetched, block_hash, slot);
                    let n = known.storage_proof.len();
                    if at < n {
                        assert(known.storage_proof[at] == first.storage_proof[at]);
                        lemma_held_proof(cache.accounts[key].storage_proof, slots, at);
                    } else {
                        assert(fetched.storage_proof[at - n] == first.storage_proof[at]);
                    }
                },
            }
        },
        StepView::AskBlock => {},
    }
}

/// A proof that is picked out of those that are held is one of them.
proof fn lemma_held_proof(held: Seq<StorageProofView>, slots: Seq<B256>, at: int)
    requires
        0 <= at < proofs_of(held, slots).len(),
    ensures
        proves(held, proofs_of(held, slots)[at].key),
{
    lemma_proofs_of(held, slots);
    let p = proofs_of(held, slots)[at];
    assert(held.contains(p));
    let k = choose|k: int| 0 <= k < held.len() && held[k] == p;
    assert(held[k].key == p.key);
}

/// A reading fails only where the inner provider did, with its error, and leaves the cache as
/// it was.
pub proof fn law_failed_read_changes_nothing(
    cache: CacheView,
    address: Address,
    slots: Seq<B256>,
    with_code: bool,
    block_hash: B256,
    source: Source,
)
    ensures
        ({
            let (result, after) = read(cache, address, slots, with_code, block_hash, source);
            result matches Err(error) ==> after == cache && exists|asked: Seq<B256>, code: bool|
                #[trigger] source(asked, code) == Err::<AccountView, ErrorView>(error)
        }),
{
    match cache.looked_up(address, slots, with_code, block_hash) {
        StepView::AskAccount { slots: asked, with_code: code_asked, .. } => {
            let first = source(asked, code_asked);
            let second = source(slots, with_code);
        },
        _ => {},
    }
}

/// What is known of an account at a block does not depend on what comes in of other accounts.
pub proof fn law_other_accounts_do_not_matter(
    cache: CacheView,
    address: Address,
    slots: Seq<B256>,
    with_code: bool,
    block_hash: B256,
    other: Address,
    account: AccountView,
    other_block_hash: B256,
)
    requires
        other != address,
    ensures
        cache.with_account(other, account, other_block_hash).looked_up(
            address,
            slots,
            with_code,
            block_hash,
        ) == cache.looked_up(address, slots, with_code, block_hash),
{
    assert(other.pair() != address.pair());
}

/// A reading at a block named by number or tag goes on, once the block is found, as a reading at
/// that block named by its hash.
pub proof fn law_named_block_reads_as_its_hash(
    cache: CacheView,
    address: Address,
    slots: Seq<B256>,
    with_code: bool,
    tag: BlockNumberOrTag,
    block: BlockView,
)
    ensures
        cache.started(address, slots, with_code, BlockId::Number(tag)) is AskBlock,
        cache.with_block_answer(address, slots, with_code, Ok(Some(block))) == cache.started(
            address,
            slots,
            with_code,
            BlockId::of_hash(block.header.hash),
        ),
{
}

} // verus!
