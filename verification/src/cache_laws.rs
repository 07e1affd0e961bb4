//! What the account cache knows and asks for, piece by piece.
use crate::account::{AccountView, StorageProofView};
use crate::cache::{
    missing_of, proof_of, proofs_of, still_needed, AccountKey, Cache, CacheView,
};
use crate::caching_provider::{AccountStep, Pending, PendingView, StepView};
use crate::chain::BlockView;
use crate::error::ErrorView;
use crate::primitives::{Address, BlockId, BlockNumberOrTag, RpcBlockHash, B256};
use vstd::prelude::*;

verus! {

/// An account at a block, as the cache keys it: the parts of the address and of the hash.
pub open spec fn key_at(address: Address, block_hash: B256) -> AccountKey {
    ((address.hi, address.lo), (block_hash.hi, block_hash.lo))
}

/// A slot has a proof among these.
pub open spec fn has_proof(proofs: Seq<StorageProofView>, slot: B256) -> bool {
    exists|i: int| 0 <= i < proofs.len() && (#[trigger] proofs[i]).key == slot
}

proof fn lemma_first_proof(proofs: Seq<StorageProofView>, slot: B256, at: int)
    requires
        0 <= at < proofs.len(),
        proofs[at].key == slot,
        forall|i: int| 0 <= i < at ==> (#[trigger] proofs[i]).key != slot,
    ensures
        proof_of(proofs, slot) == proofs[at],
    decreases at,
{
    if at > 0 {
        let rest = proofs.drop_first();
        assert(proofs[0].key != slot);
        assert(rest[at - 1] == proofs[at]);
        assert forall|i: int| 0 <= i < at - 1 implies (#[trigger] rest[i]).key != slot by {
            assert(rest[i] == proofs[i + 1]);
        }
        lemma_first_proof(rest, slot, at - 1);
    }
}

/// Each slot that is asked for is either proven or missing, in the order in which it was asked
/// for: the proofs are the first that are held for their slots, and what is missing has none.
pub proof fn law_slots_are_proven_or_missing(proofs: Seq<StorageProofView>, slots: Seq<B256>)
    ensures
        proofs_of(proofs, slots).len() + missing_of(proofs, slots).len() == slots.len(),
        slots.len() > 0 && has_proof(proofs, slots.last()) ==> {
            &&& proofs_of(proofs, slots).len() > 0
            &&& proofs_of(proofs, slots).last().key == slots.last()
            &&& proofs.contains(proofs_of(proofs, slots).last())
            &&& proofs_of(proofs, slots).drop_last() == proofs_of(proofs, slots.drop_last())
            &&& missing_of(proofs, slots) == missing_of(proofs, slots.drop_last())
        },
        slots.len() > 0 && !has_proof(proofs, slots.last()) ==> {
            &&& missing_of(proofs, slots).len() > 0
            &&& missing_of(proofs, slots).last() == slots.last()
            &&& missing_of(proofs, slots).drop_last() == missing_of(proofs, slots.drop_last())
            &&& proofs_of(proofs, slots) == proofs_of(proofs, slots.drop_last())
        },
    decreases slots.len(),
{
    if slots.len() > 0 {
        law_slots_are_proven_or_missing(proofs, slots.drop_last());
        let slot = slots.last();
        if has_proof(proofs, slot) {
            lemma_some_first_proof(proofs, slot);
            assert(proofs_of(proofs, slots).drop_last() =~= proofs_of(proofs, slots.drop_last()));
        } else {
            assert(missing_of(proofs, slots).drop_last() =~= missing_of(proofs, slots.drop_last()));
        }
    }
}

proof fn lemma_some_first_proof(proofs: Seq<StorageProofView>, slot: B256)
    requires
        has_proof(proofs, slot),
    ensures
        proof_of(proofs, slot).key == slot,
        proofs.contains(proof_of(proofs, slot)),
    decreases proofs.len(),
{
    let i = choose|i: int| 0 <= i < proofs.len() && (#[trigger] proofs[i]).key == slot;
    if proofs[0].key == slot {
        assert(proofs.contains(proofs[0]));
    } else {
        let rest = proofs.drop_first();
        assert(rest[i - 1] == proofs[i]);
        lemma_some_first_proof(rest, slot);
        let k = choose|k: int| 0 <= k < rest.len() && rest[k] == proof_of(rest, slot);
        assert(proofs[k + 1] == rest[k]);
    }
}

/// What is known of an account at a block is what is held for that address and that block hash:
/// its state and its proof, the proofs of the slots that are held, and the code that is known at
/// the address where it has the account's code hash.
pub proof fn law_known_account_is_the_one_held(
    cache: CacheView,
    address: Address,
    slots: Seq<B256>,
    block_hash: B256,
)
    ensures
        ({
            let key = key_at(address, block_hash);
            let held = cache.accounts[key];
            let known_code = (address.hi, address.lo);
            match cache.account_at(address, slots, block_hash) {
                None => !cache.accounts.contains_key(key),
                Some((account, missing)) => {
                    &&& cache.accounts.contains_key(key)
                    &&& account.account == held.account
                    &&& account.account_proof == held.account_proof
                    &&& account.storage_proof == proofs_of(held.storage_proof, slots)
                    &&& missing == missing_of(held.storage_proof, slots)
                    &&& if cache.codes.contains_key(known_code) && cache.codes[known_code].0
                        == held.account.code_hash {
                        account.code == Some(cache.codes[known_code].1)
                    } else {
                        account.code is None
                    }
                },
            }
        }),
{
}

/// An account that comes in is held under its address and block with its state and its proof;
/// its slots are known and those that were known stay so, a newer proof counting before an
/// older; its code, if it came, is known at its address under its code hash; all else stays.
pub proof fn law_incoming_account_is_kept(
    cache: CacheView,
    address: Address,
    account: AccountView,
    block_hash: B256,
)
    ensures
        ({
            let after = cache.with_account(address, account, block_hash);
            let key = key_at(address, block_hash);
            let place = (address.hi, address.lo);
            let before = if cache.accounts.contains_key(key) {
                cache.accounts[key].storage_proof
            } else {
                Seq::empty()
            };
            let held = after.accounts[key].storage_proof;
            &&& after.accounts.contains_key(key)
            &&& after.accounts[key].account == account.account
            &&& after.accounts[key].account_proof == account.account_proof
            &&& forall|slot: B256| #[trigger]
                has_proof(held, slot) <==> has_proof(account.storage_proof, slot) || has_proof(
                    before,
                    slot,
                )
            &&& held.len() >= account.storage_proof.len()
            &&& held.take(account.storage_proof.len() as int) == account.storage_proof
            &&& forall|i: int|
                account.storage_proof.len() <= i < held.len() ==> before.contains(
                    #[trigger] held[i],
                )
            &&& match account.code {
                Some(code) => after.codes.contains_key(place) && after.codes[place] == (
                    account.account.code_hash,
                    code,
                ),
                None => after.codes == cache.codes,
            }
            &&& forall|other: AccountKey|
                other != key ==> (#[trigger] after.accounts.contains_key(other))
                    == cache.accounts.contains_key(other)
            &&& forall|other: AccountKey|
                other != key && #[trigger] cache.accounts.contains_key(other)
                    ==> after.accounts[other] == cache.accounts[other]
            &&& forall|other: (u32, u128)|
                other != place ==> (#[trigger] after.codes.contains_key(other))
                    == cache.codes.contains_key(other)
            &&& forall|other: (u32, u128)|
                other != place && #[trigger] cache.codes.contains_key(other) ==> after.codes[other]
                    == cache.codes[other]
        }),
{
    let key = key_at(address, block_hash);
    let before = if cache.accounts.contains_key(key) {
        cache.accounts[key].storage_proof
    } else {
        Seq::empty()
    };
    let new = account.storage_proof;
    let after = cache.with_account(address, account, block_hash);
    let held = after.accounts[key].storage_proof;
    assert(held == new + still_needed(before, new));
    assert(held.take(new.len() as int) =~= new);
    lemma_needed(before, new);
    let kept = still_needed(before, new);
    assert forall|i: int| new.len() <= i < held.len() implies before.contains(
        #[trigger] held[i],
    ) by {
        assert(held[i] == kept[i - new.len()]);
    }
    assert forall|slot: B256| #[trigger]
        has_proof(held, slot) <==> has_proof(new, slot) || has_proof(before, slot) by {
        if has_proof(new, slot) {
            let i = choose|i: int| 0 <= i < new.len() && (#[trigger] new[i]).key == slot;
            assert(held[i] == new[i]);
        } else if has_proof(before, slot) {
            let i = choose|i: int| 0 <= i < before.len() && (#[trigger] before[i]).key == slot;
            assert(kept.contains(before[i]));
            let k = choose|k: int| 0 <= k < kept.len() && kept[k] == before[i];
            assert(held[new.len() + k] == kept[k]);
        }
        if has_proof(held, slot) {
            let i = choose|i: int| 0 <= i < held.len() && (#[trigger] held[i]).key == slot;
            if i < new.len() {
                assert(new[i] == held[i]);
            } else {
                assert(before.contains(held[i]));
                let k = choose|k: int| 0 <= k < before.len() && before[k] == held[i];
                assert(before[k].key == slot);
            }
        }
    }
}

proof fn lemma_needed(before: Seq<StorageProofView>, new: Seq<StorageProofView>)
    ensures
        forall|i: int|
            0 <= i < still_needed(before, new).len() ==> before.contains(
                #[trigger] still_needed(before, new)[i],
            ),
        forall|i: int|
            0 <= i < before.len() && !has_proof(new, (#[trigger] before[i]).key) ==> still_needed(
                before,
                new,
            ).contains(before[i]),
    decreases before.len(),
{
    if before.len() > 0 {
        let front = before.drop_last();
        lemma_needed(front, new);
        let kept = still_needed(front, new);
        let all = still_needed(before, new);
        assert(crate::account::proves(new, before.last().key) == has_proof(
            new,
            before.last().key,
        ));
        assert forall|i: int| 0 <= i < all.len() implies before.contains(#[trigger] all[i]) by {
            if i < kept.len() {
                assert(all[i] == kept[i]);
                let k = choose|k: int| 0 <= k < front.len() && front[k] == kept[i];
                assert(before[k] == all[i]);
            } else {
                assert(before[before.len() - 1] == all[i]);
            }
        }
        assert forall|i: int|
            0 <= i < before.len() && !has_proof(
                new,
                (#[trigger] before[i]).key,
            ) implies all.contains(before[i]) by {
            if i < front.len() {
                assert(front[i] == before[i]);
                let k = choose|k: int| 0 <= k < kept.len() && kept[k] == front[i];
                assert(all[k] == before[i]);
            } else {
                assert(all[kept.len() as int] == before[i]);
            }
        }
    }
}

/// Where a slot has a proof in an account that comes in, the first such proof is the one that
/// counts from then on.
pub proof fn law_newer_proof_counts(
    cache: CacheView,
    address: Address,
    account: AccountView,
    block_hash: B256,
    at: int,
)
    requires
        0 <= at < account.storage_proof.len(),
        forall|i: int|
            0 <= i < at ==> (#[trigger] account.storage_proof[i]).key
                != account.storage_proof[at].key,
    ensures
        ({
            let slot = account.storage_proof[at].key;
            let known = cache.with_account(address, account, block_hash).account_at(
                address,
                seq![slot],
                block_hash,
            );
            &&& known is Some
            &&& (known->0).0.storage_proof == seq![account.storage_proof[at]]
            &&& (known->0).1.len() == 0
        }),
{
    let slot = account.storage_proof[at].key;
    let after = cache.with_account(address, account, block_hash);
    let key = key_at(address, block_hash);
    let held = after.accounts[key].storage_proof;
    let new = account.storage_proof;
    assert(held[at] == new[at]);
    assert forall|i: int| 0 <= i < at implies (#[trigger] held[i]).key != slot by {
        assert(held[i] == new[i]);
    }
    lemma_first_proof(held, slot, at);
    assert(crate::account::proves(held, slot));
    assert(seq![slot].drop_last() =~= Seq::empty());
    assert(seq![slot].last() == slot);
    assert(proofs_of(held, seq![slot].drop_last()) =~= Seq::empty());
    assert(missing_of(held, seq![slot].drop_last()) =~= Seq::empty());
    assert(proofs_of(held, seq![slot]) =~= seq![new[at]]);
}

/// What is asked for: nothing, where all that is wanted is known; exactly the slots that are
/// missing, and the code only where it is wanted and not known, where the account is known; and
/// else all slots, with the code where it is wanted and none is known at the address.
pub proof fn law_only_what_is_not_known_is_asked_for(
    cache: CacheView,
    address: Address,
    slots: Seq<B256>,
    with_code: bool,
    block_hash: B256,
)
    ensures
        ({
            let step = cache.looked_up(address, slots, with_code, block_hash);
            let key = key_at(address, block_hash);
            let place = (address.hi, address.lo);
            let held = cache.accounts[key];
            let missing = missing_of(held.storage_proof, slots);
            let fits = cache.codes.contains_key(place) && cache.codes[place].0
                == held.account.code_hash;
            if cache.accounts.contains_key(key) {
                if missing.len() == 0 && (!with_code || fits) {
                    &&& step is Done && step->Done_0 is Ok
                    &&& step->Done_0->Ok_0.account == held.account
                    &&& step->Done_0->Ok_0.account_proof == held.account_proof
                    &&& step->Done_0->Ok_0.storage_proof == proofs_of(held.storage_proof, slots)
                    &&& fits ==> step->Done_0->Ok_0.code == Some(cache.codes[place].1)
                    &&& !fits ==> step->Done_0->Ok_0.code is None
                } else {
                    match step {
                        StepView::AskAccount {
                            slots: asked,
                            with_code: code_asked,
                            block_hash: at,
                            pending: PendingView::Rest(known),
                        } => {
                            &&& asked == missing
                            &&& code_asked == (with_code && !fits)
                            &&& at == block_hash
                            &&& known.account == held.account
                            &&& known.storage_proof == proofs_of(held.storage_proof, slots)
                            &&& fits ==> known.code == Some(cache.codes[place].1)
                            &&& !fits ==> known.code is None
                        },
                        _ => false,
                    }
                }
            } else if with_code && cache.codes.contains_key(place) {
                step == (StepView::AskAccount {
                    slots,
                    with_code: false,
                    block_hash,
                    pending: PendingView::KnownCode {
                        code_hash: cache.codes[place].0,
                        code: cache.codes[place].1,
                    },
                })
            } else {
                step == (StepView::AskAccount {
                    slots,
                    with_code,
                    block_hash,
                    pending: PendingView::Whole,
                })
            }
        }),
{
}

/// What becomes of an answer: an account that was asked for whole is the answer as it is; one
/// whose code was known gets that code where its code hash is the known one, and is asked for
/// once more, whole, where it is not; one that brings the rest has its own state, and with the
/// slots that were known its own. Each answer is kept as it came.
pub proof fn law_answers_are_handed_on(
    cache: CacheView,
    address: Address,
    slots: Seq<B256>,
    with_code: bool,
    block_hash: B256,
    fetched: AccountView,
    known: AccountView,
    code_hash: B256,
    code: Seq<u8>,
    error: ErrorView,
)
    ensures
        cache.with_account_answer(
            address,
            slots,
            with_code,
            block_hash,
            PendingView::Whole,
            Ok(fetched),
        ) == (
            StepView::Done(Ok(fetched)),
            cache.with_account(address, fetched, block_hash),
        ),
        ({
            let (step, after) = cache.with_account_answer(
                address,
                slots,
                with_code,
                block_hash,
                PendingView::KnownCode { code_hash, code },
                Ok(fetched),
            );
            if fetched.account.code_hash == code_hash {
                &&& step is Done && step->Done_0 is Ok
                &&& step->Done_0->Ok_0.account == fetched.account
                &&& step->Done_0->Ok_0.account_proof == fetched.account_proof
                &&& step->Done_0->Ok_0.storage_proof == fetched.storage_proof
                &&& step->Done_0->Ok_0.code == Some(code)
                &&& after == cache.with_account(address, step->Done_0->Ok_0, block_hash)
            } else {
                &&& after == cache
                &&& step == (StepView::AskAccount {
                    slots,
                    with_code,
                    block_hash,
                    pending: PendingView::Whole,
                })
            }
        }),
        ({
            let (step, after) = cache.with_account_answer(
                address,
                slots,
                with_code,
                block_hash,
                PendingView::Rest(known),
                Ok(fetched),
            );
            &&& step is Done && step->Done_0 is Ok
            &&& step->Done_0->Ok_0.account == fetched.account
            &&& step->Done_0->Ok_0.account_proof == fetched.account_proof
            &&& step->Done_0->Ok_0.storage_proof == known.storage_proof + fetched.storage_proof
            &&& fetched.code is Some ==> step->Done_0->Ok_0.code == fetched.code
            &&& fetched.code is None ==> step->Done_0->Ok_0.code == known.code
            &&& after == cache.with_account(address, fetched, block_hash)
        }),
        cache.with_account_answer(
            address,
            slots,
            with_code,
            block_hash,
            PendingView::Rest(known),
            Err(error),
        ) == (StepView::Done(Err(error)), cache),
        cache.with_account_answer(
            address,
            slots,
            with_code,
            block_hash,
            PendingView::Whole,
            Err(error),
        ) == (StepView::Done(Err(error)), cache),
        cache.with_account_answer(
            address,
            slots,
            with_code,
            block_hash,
            PendingView::KnownCode { code_hash, code },
            Err(error),
        ) == (StepView::Done(Err(error)), cache),
{
}

/// A block named by its hash is looked up by that hash; one named otherwise is asked for, and
/// then looked up by its own; one that is not there is an error, and so is a failure to ask.
pub proof fn law_blocks_are_looked_up_by_hash(
    cache: CacheView,
    address: Address,
    slots: Seq<B256>,
    with_code: bool,
    hash: B256,
    canonical: Option<bool>,
    tag: BlockNumberOrTag,
    block: BlockView,
    error: ErrorView,
)
    ensures
        cache.started(
            address,
            slots,
            with_code,
            BlockId::Hash(RpcBlockHash { block_hash: hash, require_canonical: canonical }),
        ) == cache.looked_up(address, slots, with_code, hash),
        cache.started(address, slots, with_code, BlockId::Number(tag)) is AskBlock,
        cache.with_block_answer(address, slots, with_code, Ok(Some(block))) == cache.looked_up(
            address,
            slots,
            with_code,
            block.header.hash,
        ),
        cache.with_block_answer(address, slots, with_code, Ok(None)) == StepView::Done(
            Err(ErrorView::BlockNotFound),
        ),
        cache.with_block_answer(address, slots, with_code, Err(error)) == StepView::Done(
            Err(error),
        ),
{
}

/// What the cache and its steps say are their fields, all of them.
pub proof fn law_cache_views_hold_every_field(cache: Cache, pending: Pending, step: AccountStep)
    ensures
        forall|key: AccountKey| #[trigger]
            cache@.accounts.contains_key(key) <==> cache.accounts@.contains_key(key),
        forall|key: AccountKey| #[trigger]
            cache@.accounts.contains_key(key) ==> cache@.accounts[key] == cache.accounts@[key]@,
        forall|place: (u32, u128)| #[trigger]
            cache@.codes.contains_key(place) <==> cache.codes@.contains_key(place),
        forall|place: (u32, u128)| #[trigger]
            cache@.codes.contains_key(place) ==> cache@.codes[place].0 == cache.codes@[place].0
                && cache@.codes[place].1 == cache.codes@[place].1.data@,
        match pending {
            Pending::KnownCode { code_hash, code } => pending@ == (PendingView::KnownCode {
                code_hash,
                code: code.data@,
            }),
            Pending::Whole => pending@ is Whole,
            Pending::Rest(account) => pending@ == PendingView::Rest(account@),
        },
        match step {
            AccountStep::AskBlock => step@ is AskBlock,
            AccountStep::AskAccount { slots, with_code, block_hash, pending } => step@
                == (StepView::AskAccount {
                slots: slots@,
                with_code,
                block_hash,
                pending: pending@,
            }),
            AccountStep::Done(Ok(account)) => step@ == StepView::Done(Ok(account@)),
            AccountStep::Done(Err(error)) => step@ == StepView::Done(Err(error@)),
        },
{
}

} // verus!
