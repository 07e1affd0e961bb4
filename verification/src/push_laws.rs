//! What becomes of each block when one is pushed, block by block.
use crate::block_cache::{least, BlockCache, BlockCacheView};
use crate::chain::{Block, BlockTransactions, BlockTransactionsView, BlockView, Transaction};
use crate::primitives::{BlockId, BlockNumberOrTag, RpcBlockHash, B256};
use vstd::prelude::*;

verus! {

/// The finalized block is of this height.
pub open spec fn is_final_height(v: BlockCacheView, n: u64) -> bool {
    v.finalized matches Some(b) && b.header.number == n
}

/// The pair under which a hash is known.
pub open spec fn key_of(hash: B256) -> (u128, u128) {
    (hash.hi, hash.lo)
}

proof fn lemma_least_is_lowest(blocks: Map<u64, BlockView>)
    requires
        blocks.dom().finite(),
        blocks.len() > 0,
    ensures
        blocks.contains_key(least(blocks)),
        forall|k: u64| #[trigger] blocks.contains_key(k) ==> least(blocks) <= k,
{
    crate::block_cache::lemma_least_exists(blocks);
}

/// A block whose parent's height is held by another block than its parent proves that block
/// abandoned: from there up nothing is left but the new block and the finalized one, what is
/// below stays while there is room, and what left is not found by its hash. So it is whatever
/// the block is named, but for a finalized one.
pub proof fn law_mismatched_parent_goes(v: BlockCacheView, block: BlockView, block_id: BlockId)
    requires
        v.wf(),
        block_id != BlockId::Number(BlockNumberOrTag::Finalized),
        block.header.number > 0,
        !v.blocks.contains_key(block.header.number),
        v.blocks.contains_key((block.header.number - 1) as u64),
        v.blocks[(block.header.number - 1) as u64].header.hash != block.header.parent_hash,
    ensures
        ({
            let after = v.pushed(block, block_id);
            let parent = (block.header.number - 1) as u64;
            &&& !is_final_height(v, parent) ==> !after.blocks.contains_key(parent)
            &&& forall|n: u64| #[trigger]
                after.blocks.contains_key(n) && n >= parent ==> n == block.header.number
                    || is_final_height(v, n)
            &&& forall|n: u64| #[trigger]
                v.blocks.contains_key(n) && n >= parent && !is_final_height(v, n)
                    && v.blocks[n].header.hash != block.header.hash ==> !after.hashes.contains_key(
                    key_of(v.blocks[n].header.hash),
                )
            &&& v.blocks.len() < v.size || !is_final_height(v, parent) ==> forall|n: u64| #[trigger]
                v.blocks.contains_key(n) && (n < parent || is_final_height(v, n))
                    ==> after.blocks.contains_key(n) && after.blocks[n] == v.blocks[n]
            &&& block_id != BlockId::Number(BlockNumberOrTag::Latest) ==> (match v.latest {
                Some(b) => if b.header.number >= parent {
                    after.latest is None
                } else {
                    after.latest == v.latest
                },
                None => after.latest is None,
            })
        }),
{
    let parent = (block.header.number - 1) as u64;
    lemma_contradiction(v, block, block_id, parent);
    if !is_final_height(v, parent) {
        let r = v.reconciled(block.header, block_id);
        let g = r.with_block(block, block_id);
        crate::block_cache::lemma_reconciled_wf(v, block.header, block_id);
        assert(v.doomed(parent).contains(parent));
        assert(r.blocks.dom().subset_of(v.blocks.dom().remove(parent)));
        vstd::set_lib::lemma_len_subset(r.blocks.dom(), v.blocks.dom().remove(parent));
        assert(g.blocks.len() <= v.size);
    }
}

/// Another block at a height that is held proves the block there abandoned, whatever the height
/// and however the new block is named: from there up nothing is left but the new block and the
/// finalized one, what is below stays while there is room, and neither what left nor the block
/// whose place was taken is found by its hash.
pub proof fn law_other_block_at_its_height_goes(
    v: BlockCacheView,
    block: BlockView,
    block_id: BlockId,
)
    requires
        v.wf(),
        v.blocks.contains_key(block.header.number),
        v.blocks[block.header.number].header.hash != block.header.hash,
    ensures
        ({
            let after = v.pushed(block, block_id);
            let number = block.header.number;
            &&& !after.hashes.contains_key(key_of(v.blocks[number].header.hash))
            &&& after.blocks.contains_key(number) ==> after.blocks[number] == block
            &&& forall|n: u64| #[trigger]
                after.blocks.contains_key(n) && n >= number ==> n == number || is_final_height(v, n)
            &&& forall|n: u64| #[trigger]
                v.blocks.contains_key(n) && n >= number && !is_final_height(v, n)
                    && v.blocks[n].header.hash != block.header.hash ==> !after.hashes.contains_key(
                    key_of(v.blocks[n].header.hash),
                )
            &&& forall|n: u64| #[trigger]
                v.blocks.contains_key(n) && (n < number || n > number && is_final_height(v, n))
                    ==> after.blocks.contains_key(n) && after.blocks[n] == v.blocks[n]
            &&& block_id != BlockId::Number(BlockNumberOrTag::Latest) ==> (match v.latest {
                Some(b) => if b.header.number >= number {
                    after.latest is None
                } else {
                    after.latest == v.latest
                },
                None => after.latest is None,
            })
        }),
{
    let number = block.header.number;
    lemma_contradiction(v, block, block_id, number);
    let r = v.reconciled(block.header, block_id);
    let g = r.with_block(block, block_id);
    crate::block_cache::lemma_reconciled_wf(v, block.header, block_id);
    assert(g.blocks.dom().subset_of(v.blocks.dom()));
    vstd::set_lib::lemma_len_subset(g.blocks.dom(), v.blocks.dom());
    assert(g.blocks.len() <= v.size);
}

proof fn lemma_contradiction(v: BlockCacheView, block: BlockView, block_id: BlockId, from: u64)
    requires
        v.wf(),
        v.divergence(block.header, block_id) == Some(from),
        from <= block.header.number,
    ensures
        ({
            let after = v.pushed(block, block_id);
            &&& forall|n: u64| #[trigger]
                after.blocks.contains_key(n) && n >= from ==> n == block.header.number
                    || is_final_height(v, n)
            &&& forall|n: u64| #[trigger]
                v.blocks.contains_key(n) && n >= from && (!is_final_height(v, n) || n
                    == block.header.number) && v.blocks[n].header.hash != block.header.hash
                    ==> !after.hashes.contains_key(key_of(v.blocks[n].header.hash))
            &&& v.blocks.len() < v.size ==> forall|n: u64| #[trigger]
                v.blocks.contains_key(n) && n != block.header.number && (n < from
                    || is_final_height(v, n)) ==> after.blocks.contains_key(n) && after.blocks[n]
                    == v.blocks[n]
        }),
{
    let after = v.pushed(block, block_id);
    let r = v.reconciled(block.header, block_id);
    let g = r.with_block(block, block_id);
    crate::block_cache::lemma_reconciled_wf(v, block.header, block_id);
    assert forall|n: u64| #[trigger]
        v.blocks.contains_key(n) && n >= from && (!is_final_height(v, n) || n
            == block.header.number) && v.blocks[n].header.hash
            != block.header.hash implies !after.hashes.contains_key(
        key_of(v.blocks[n].header.hash),
    ) by {
        let p = v.blocks[n].header.hash.pair();
        assert(p == key_of(v.blocks[n].header.hash));
        assert(p != block.header.hash.pair());
        if !is_final_height(v, n) {
            assert(v.doomed(from).contains(n));
            assert(v.hashes_at(v.doomed(from)).contains(p));
        } else {
            assert(r.blocks.contains_key(n) && r.blocks[n] == v.blocks[n]);
        }
        assert(!g.hashes.contains_key(p));
    }
    if v.blocks.len() < v.size {
        assert(r.blocks.dom().subset_of(v.blocks.dom()));
        vstd::set_lib::lemma_len_subset(r.blocks.dom(), v.blocks.dom());
        assert(g.blocks.len() <= v.size);
    }
}

/// Where nothing contradicts the new block, no block goes on its account but the lowest, and
/// that only where there is no room: each of the others stays as it is, and so does its hash
/// and the latest block.
pub proof fn law_uncontradicted_block_evicts_nothing(
    v: BlockCacheView,
    block: BlockView,
    block_id: BlockId,
)
    requires
        v.wf(),
        v.blocks.contains_key(block.header.number) ==> v.blocks[block.header.number].header.hash
            == block.header.hash,
        !v.blocks.contains_key(block.header.number) && block.header.number > 0
            && v.blocks.contains_key((block.header.number - 1) as u64) && block_id
            != BlockId::Number(BlockNumberOrTag::Finalized) ==> v.blocks[(block.header.number
            - 1) as u64].header.hash == block.header.parent_hash,
    ensures
        ({
            let after = v.pushed(block, block_id);
            let fits = v.blocks.contains_key(block.header.number) || v.blocks.len() < v.size;
            &&& fits ==> forall|n: u64| #[trigger]
                v.blocks.contains_key(n) && n != block.header.number ==> after.blocks.contains_key(
                    n,
                ) && after.blocks[n] == v.blocks[n]
            &&& fits ==> forall|p: (u128, u128)| #[trigger]
                v.hashes.contains_key(p) && p != key_of(block.header.hash)
                    ==> after.hashes.contains_key(p) && after.hashes[p] == v.hashes[p]
            &&& !fits ==> forall|n: u64| #[trigger]
                v.blocks.contains_key(n) && !after.blocks.contains_key(n) ==> n
                    < block.header.number && forall|m: u64| #[trigger]
                    v.blocks.contains_key(m) ==> n <= m
            &&& forall|n: u64| #[trigger]
                v.blocks.contains_key(n) && after.blocks.contains_key(n) && n
                    != block.header.number ==> after.blocks[n] == v.blocks[n]
            &&& block_id != BlockId::Number(BlockNumberOrTag::Latest) ==> after.latest == v.latest
        }),
{
    let g = v.with_block(block, block_id);
    assert(v.reconciled(block.header, block_id) == v);
    if v.blocks.contains_key(block.header.number) {
        assert(g.blocks.dom() =~= v.blocks.dom());
    }
    if g.blocks.len() > g.size {
        lemma_least_is_lowest(g.blocks);
        let low = least(g.blocks);
        assert forall|n: u64| #[trigger]
            v.blocks.contains_key(n) && !v.pushed(block, block_id).blocks.contains_key(n) implies n
            < block.header.number && forall|m: u64| #[trigger]
            v.blocks.contains_key(m) ==> n <= m by {
            assert(g.blocks.contains_key(n));
            assert(n == low);
            assert(g.blocks.contains_key(block.header.number));
            assert forall|m: u64| #[trigger] v.blocks.contains_key(m) implies n <= m by {
                assert(g.blocks.contains_key(m));
            }
        }
    }
}

/// No more blocks are held than the limit. The new block is held under its height, and found
/// under its hash, where there is room or a lower block is held; only the lowest of all leaves.
pub proof fn law_new_block_is_held(v: BlockCacheView, block: BlockView, block_id: BlockId)
    requires
        v.wf(),
    ensures
        ({
            let after = v.pushed(block, block_id);
            let number = block.header.number;
            &&& after.blocks.dom().finite() && after.blocks.len() <= v.size
            &&& after.size == v.size
            &&& forall|n: u64| #[trigger]
                after.blocks.contains_key(n) ==> after.blocks[n].header.number == n
            &&& v.blocks.contains_key(number) || v.blocks.len() < v.size
                ==> after.blocks.contains_key(number) && after.blocks[number] == block
                && after.hashes.contains_key(key_of(block.header.hash))
                && after.hashes[key_of(block.header.hash)] == number
            &&& !after.blocks.contains_key(number) ==> forall|n: u64| #[trigger]
                after.blocks.contains_key(n) ==> number < n
            &&& forall|n: u64| #[trigger]
                after.blocks.contains_key(n) ==> n == number && after.blocks[n] == block
                    || v.blocks.contains_key(n) && after.blocks[n] == v.blocks[n]
        }),
{
    let number = block.header.number;
    crate::block_cache::lemma_pushed_wf(v, block, block_id);
    crate::block_cache::lemma_reconciled_wf(v, block.header, block_id);
    let r = v.reconciled(block.header, block_id);
    let g = r.with_block(block, block_id);
    assert(r.blocks.dom().subset_of(v.blocks.dom()));
    vstd::set_lib::lemma_len_subset(r.blocks.dom(), v.blocks.dom());
    if v.blocks.contains_key(number) {
        assert(g.blocks.dom().subset_of(v.blocks.dom()));
        vstd::set_lib::lemma_len_subset(g.blocks.dom(), v.blocks.dom());
    }
    if g.blocks.len() > g.size {
        lemma_least_is_lowest(g.blocks);
        assert forall|n: u64|
            v.pushed(block, block_id).blocks.contains_key(n) && !v.pushed(
                block,
                block_id,
            ).blocks.contains_key(number) implies number < n by {
            assert(g.blocks.contains_key(n));
            assert(g.blocks.contains_key(number));
        }
    }
}

/// A block is the latest or the finalized one exactly where it was pushed as such; no push but
/// that of a finalized block changes the finalized one.
pub proof fn law_tags_follow_the_push(v: BlockCacheView, block: BlockView, block_id: BlockId)
    ensures
        block_id == BlockId::Number(BlockNumberOrTag::Latest) ==> v.pushed(block, block_id).latest
            == Some(block),
        block_id == BlockId::Number(BlockNumberOrTag::Finalized) ==> v.pushed(
            block,
            block_id,
        ).finalized == Some(block),
        block_id != BlockId::Number(BlockNumberOrTag::Finalized) ==> v.pushed(
            block,
            block_id,
        ).finalized == v.finalized,
        block_id != BlockId::Number(BlockNumberOrTag::Latest) ==> v.pushed(block, block_id).latest
            == v.latest || v.pushed(block, block_id).latest is None,
{
}

/// An eviction drops exactly the blocks from a height up, but the finalized one, and exactly
/// their hashes; the latest block goes where it stands there.
pub proof fn law_eviction_drops_exactly(v: BlockCacheView, from: u64)
    ensures
        forall|n: u64| #[trigger]
            v.evicted_from(from).blocks.contains_key(n) <==> v.blocks.contains_key(n) && (n < from
                || is_final_height(v, n)),
        forall|n: u64| #[trigger]
            v.evicted_from(from).blocks.contains_key(n) ==> v.evicted_from(from).blocks[n]
                == v.blocks[n],
        forall|p: (u128, u128)| #[trigger]
            v.evicted_from(from).hashes.contains_key(p) ==> v.hashes.contains_key(p) && v.evicted_from(
                from,
            ).hashes[p] == v.hashes[p],
        forall|n: u64| #[trigger]
            v.blocks.contains_key(n) && from <= n && !is_final_height(v, n) ==> !v.evicted_from(
                from,
            ).hashes.contains_key(key_of(v.blocks[n].header.hash)),
        forall|p: (u128, u128)| #[trigger]
            v.hashes.contains_key(p) && (forall|n: u64|
                v.blocks.contains_key(n) && from <= n && !is_final_height(v, n) ==> key_of(
                    (#[trigger] v.blocks[n]).header.hash,
                ) != p) ==> v.evicted_from(from).hashes.contains_key(p),
        match v.latest {
            Some(b) => if b.header.number < from {
                v.evicted_from(from).latest == v.latest
            } else {
                v.evicted_from(from).latest is None
            },
            None => v.evicted_from(from).latest is None,
        },
        v.evicted_from(from).finalized == v.finalized,
        v.evicted_from(from).size == v.size,
{
    let after = v.evicted_from(from);
    assert forall|n: u64| #[trigger]
        v.blocks.contains_key(n) && from <= n && !is_final_height(
            v,
            n,
        ) implies !after.hashes.contains_key(key_of(v.blocks[n].header.hash)) by {
        assert(v.doomed(from).contains(n));
        assert(v.hashes_at(v.doomed(from)).contains(v.blocks[n].header.hash.pair()));
    }
    assert forall|p: (u128, u128)| #[trigger]
        v.hashes.contains_key(p) && (forall|n: u64|
            v.blocks.contains_key(n) && from <= n && !is_final_height(v, n) ==> key_of(
                (#[trigger] v.blocks[n]).header.hash,
            ) != p) implies after.hashes.contains_key(p) by {
        if v.hashes_at(v.doomed(from)).contains(p) {
            let k = choose|k: u64|
                v.doomed(from).contains(k) && v.blocks.contains_key(k)
                    && v.blocks[k].header.hash.pair() == p;
            assert(key_of(v.blocks[k].header.hash) == p);
        }
    }
}

/// Each way to name a block leads where it says: a tag to the block of that tag, a number to the
/// block under it, and a hash to the block under the number that is known for it.
pub proof fn law_names_lead_to_their_blocks(
    v: BlockCacheView,
    number: u64,
    hash: B256,
    canonical: Option<bool>,
)
    ensures
        v.lookup(BlockId::Number(BlockNumberOrTag::Latest)) == v.latest,
        v.lookup(BlockId::Number(BlockNumberOrTag::Finalized)) == v.finalized,
        v.lookup(BlockId::Number(BlockNumberOrTag::Safe)) == v.finalized,
        v.lookup(BlockId::Number(BlockNumberOrTag::Pending)) is None,
        v.lookup(BlockId::Number(BlockNumberOrTag::Earliest)) is None,
        v.blocks.contains_key(number) ==> v.lookup(
            BlockId::Number(BlockNumberOrTag::Number(number)),
        ) == Some(v.blocks[number]),
        !v.blocks.contains_key(number) ==> v.lookup(
            BlockId::Number(BlockNumberOrTag::Number(number)),
        ) is None,
        ({
            let found = v.lookup(
                BlockId::Hash(RpcBlockHash { block_hash: hash, require_canonical: canonical }),
            );
            let key = key_of(hash);
            if v.hashes.contains_key(key) && v.blocks.contains_key(v.hashes[key]) {
                found == Some(v.blocks[v.hashes[key]])
            } else {
                found is None
            }
        }),
{
}

/// A block in full is handed out as it is; by hash it keeps its header and the rest, and each of
/// its transactions is its hash, in its place.
pub proof fn law_shown_block_is_the_block(block: BlockView)
    ensures
        block.shown(true) == block,
        block.shown(false).header == block.header,
        block.shown(false).rest == block.rest,
        match block.transactions {
            BlockTransactionsView::Full(txs) => match block.shown(false).transactions {
                BlockTransactionsView::Hashes(hashes) => hashes.len() == txs.len() && forall|
                    i: int,
                |
                    0 <= i < txs.len() ==> (#[trigger] hashes[i]) == txs[i].hash,
                _ => false,
            },
            BlockTransactionsView::Hashes(hashes) => block.shown(false).transactions
                == BlockTransactionsView::Hashes(hashes),
            BlockTransactionsView::Uncle => match block.shown(false).transactions {
                BlockTransactionsView::Hashes(hashes) => hashes.len() == 0,
                _ => false,
            },
        },
        match block.transactions {
            BlockTransactionsView::Full(txs) => block.transactions.full() == txs,
            _ => block.transactions.full().len() == 0,
        },
{
}

/// What a block says is its fields, all of them.
pub proof fn law_block_views_hold_every_field(block: Block, tx: Transaction)
    ensures
        block@.header == block.header,
        block@.rest == block.rest.data@,
        match block.transactions {
            BlockTransactions::Full(txs) => match block@.transactions {
                BlockTransactionsView::Full(seen) => seen.len() == txs@.len() && forall|i: int|
                    0 <= i < txs@.len() ==> (#[trigger] seen[i]) == txs@[i]@,
                _ => false,
            },
            BlockTransactions::Hashes(hashes) => block@.transactions
                == BlockTransactionsView::Hashes(hashes@),
            BlockTransactions::Uncle => block@.transactions is Uncle,
        },
        tx@.hash == tx.hash,
        tx@.block_hash == tx.block_hash,
        tx@.rest == tx.rest.data@,
{
}

/// What a cache says is its fields, all of them.
pub proof fn law_cache_view_holds_every_field(cache: BlockCache)
    ensures
        match cache.latest {
            Some(b) => cache@.latest == Some(b@),
            None => cache@.latest is None,
        },
        match cache.finalized {
            Some(b) => cache@.finalized == Some(b@),
            None => cache@.finalized is None,
        },
        forall|n: u64| #[trigger]
            cache@.blocks.contains_key(n) <==> cache.blocks@.contains_key(n),
        forall|n: u64| #[trigger]
            cache@.blocks.contains_key(n) ==> cache@.blocks[n] == cache.blocks@[n]@,
        cache@.hashes == cache.hashes@,
        cache@.size == cache.size,
{
}

/// After a clearing the finalized block is held, alone, under its height and its hash.
pub proof fn law_clearing_leaves_the_finalized_block_alone(v: BlockCacheView)
    ensures
        v.cleared().latest is None,
        v.cleared().finalized == v.finalized,
        v.cleared().size == v.size,
        forall|n: u64| #[trigger]
            v.cleared().blocks.contains_key(n) <==> is_final_height(v, n),
        v.finalized matches Some(b) ==> v.cleared().blocks[b.header.number] == b
            && v.cleared().hashes.contains_key(key_of(b.header.hash)) && v.cleared().hashes[key_of(
            b.header.hash,
        )] == b.header.number,
        forall|p: (u128, u128)| #[trigger]
            v.cleared().hashes.contains_key(p) ==> v.finalized is Some && p == key_of(
                v.finalized->0.header.hash,
            ),
{
}

} // verus!
