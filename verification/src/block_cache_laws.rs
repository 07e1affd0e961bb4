//! What holds of every block cache, whatever was pushed into it.
use crate::block_cache::{height, least, BlockCacheView};
use crate::chain::{BlockView, Header};
use crate::primitives::{BlockId, BlockNumberOrTag, B256};
use vstd::prelude::*;

verus! {

/// The hashes lead to the blocks and the blocks to their hashes: each hash that is known is that
/// of the block it leads to, and each block can be found by its hash.
pub open spec fn indexed(v: BlockCacheView) -> bool {
    &&& forall|p: (u128, u128)| #[trigger]
        v.hashes.contains_key(p) ==> v.blocks.contains_key(v.hashes[p])
            && v.blocks[v.hashes[p]].header.hash.pair() == p
    &&& forall|n: u64| #[trigger]
        v.blocks.contains_key(n) ==> v.hashes.contains_key(v.blocks[n].header.hash.pair())
            && v.hashes[v.blocks[n].header.hash.pair()] == n
}

/// There is room for the block: no other block has to leave for it.
pub open spec fn has_room(v: BlockCacheView, block: BlockView, block_id: BlockId) -> bool {
    v.reconciled(block.header, block_id).with_block(block, block_id).blocks.len() <= v.size
}

/// The block is not the one that leaves when the cache is too full.
pub open spec fn stays(v: BlockCacheView, block: BlockView, block_id: BlockId) -> bool {
    let grown = v.reconciled(block.header, block_id).with_block(block, block_id);
    grown.blocks.len() <= v.size || least(grown.blocks) < block.header.number
}

/// To take in the block drops the lowest one, which is another and has the block's hash: the two
/// share one entry among the hashes, and it goes.
pub open spec fn drops_its_namesake(v: BlockCacheView, block: BlockView, block_id: BlockId) -> bool {
    let grown = v.reconciled(block.header, block_id).with_block(block, block_id);
    let low = least(grown.blocks);
    grown.blocks.len() > v.size && low != block.header.number && grown.blocks[low].header.hash
        == block.header.hash
}

/// A block that follows on from its parent, or that is held already, contradicts nothing: a
/// chain without a gap never loses a block while there is room.
pub proof fn law_contiguous_chain_keeps_everything(
    v: BlockCacheView,
    block: BlockView,
    block_id: BlockId,
)
    requires
        v.wf(),
        block.header.number > 0,
        v.blocks.contains_key((block.header.number - 1) as u64),
        v.blocks[(block.header.number - 1) as u64].header.hash == block.header.parent_hash,
        v.blocks.contains_key(block.header.number) ==> v.blocks[block.header.number].header.hash
            == block.header.hash,
        has_room(v, block, block_id),
    ensures
        v.pushed(block, block_id).blocks == v.blocks.insert(block.header.number, block),
        v.pushed(block, block_id).hashes == v.hashes.insert(
            block.header.hash.pair(),
            block.header.number,
        ),
{
    assert(v.pushed(block, block_id).hashes =~= v.hashes.insert(
        block.header.hash.pair(),
        block.header.number,
    ));
}

/// A block whose height and whose parent's height are both empty is a gap and not a
/// reorganisation: no block goes on its account but the lowest, where the cache is full.
pub proof fn law_gap_is_no_reorganisation(v: BlockCacheView, block: BlockView, block_id: BlockId)
    requires
        v.wf(),
        !v.blocks.contains_key(block.header.number),
        block.header.number > 0 ==> !v.blocks.contains_key((block.header.number - 1) as u64),
    ensures
        v.pushed(block, block_id) == v.with_block(block, block_id).trimmed(),
        has_room(v, block, block_id) ==> v.pushed(block, block_id).blocks == v.blocks.insert(
            block.header.number,
            block,
        ),
{
}

/// Two blocks that follow each other can arrive in either order: both are held in the end, and
/// the cache is the same.
pub proof fn law_arrival_order_does_not_matter(
    v: BlockCacheView,
    parent: BlockView,
    child: BlockView,
)
    requires
        v.wf(),
        v.blocks.len() + 2 <= v.size,
        child.header.number == parent.header.number + 1,
        child.header.parent_hash == parent.header.hash,
        parent.header.number > 0 && v.blocks.contains_key((parent.header.number - 1) as u64)
            ==> v.blocks[(parent.header.number - 1) as u64].header.hash
            == parent.header.parent_hash,
        !v.blocks.contains_key(parent.header.number),
        !v.blocks.contains_key(child.header.number),
        parent.header.hash != child.header.hash,
    ensures
        ({
            let p = BlockId::Number(BlockNumberOrTag::Number(parent.header.number));
            let c = BlockId::Number(BlockNumberOrTag::Number(child.header.number));
            &&& v.pushed(parent, p).pushed(child, c) == v.pushed(child, c).pushed(parent, p)
            &&& v.pushed(child, c).pushed(parent, p).at(parent.header.number) == Some(parent)
            &&& v.pushed(child, c).pushed(parent, p).at(child.header.number) == Some(child)
        }),
{
    let p = BlockId::Number(BlockNumberOrTag::Number(parent.header.number));
    let c = BlockId::Number(BlockNumberOrTag::Number(child.header.number));
    let a1 = v.pushed(parent, p);
    let a2 = a1.pushed(child, c);
    let b1 = v.pushed(child, c);
    let b2 = b1.pushed(parent, p);
    assert(a1 == v.with_block(parent, p));
    assert(a2 == a1.with_block(child, c));
    assert(b1 == v.with_block(child, c));
    assert(b2 == b1.with_block(parent, p));
    assert(a2.blocks =~= b2.blocks);
    assert(parent.header.hash.pair() != child.header.hash.pair());
    assert(a2.hashes =~= b2.hashes);
}

/// Where a block proves a divergence, nothing is left from there up but the finalized block and
/// the new one, and every block below stays while there is room.
pub proof fn law_reorganisation_drops_from_there_up(
    v: BlockCacheView,
    block: BlockView,
    block_id: BlockId,
    from: u64,
)
    requires
        v.wf(),
        v.divergence(block.header, block_id) == Some(from),
    ensures
        from == block.header.number || from == block.header.number - 1,
        v.pushed(block, block_id).wf(),
        forall|n: u64| #[trigger]
            v.pushed(block, block_id).blocks.contains_key(n) && n >= from ==> n
                == block.header.number || Some(n) == height(v.finalized),
        has_room(v, block, block_id) ==> forall|n: u64|
            n < from && #[trigger] v.blocks.contains_key(n) ==> v.pushed(
                block,
                block_id,
            ).at(n) == Some(v.blocks[n]),
{
    crate::block_cache::lemma_pushed_wf(v, block, block_id);
}

/// The finalized block outlives every eviction.
pub proof fn law_finalized_block_survives(v: BlockCacheView, from: u64, number: u64)
    requires
        height(v.finalized) == Some(number),
        v.blocks.contains_key(number),
    ensures
        v.evicted_from(from).at(number) == Some(v.blocks[number]),
        v.evicted_from(from).finalized == v.finalized,
{
}

/// An eviction touches nothing below the divergence.
pub proof fn law_eviction_spares_what_is_below(v: BlockCacheView, from: u64, number: u64)
    requires
        number < from,
    ensures
        v.evicted_from(from).at(number) == v.at(number),
{
}

/// Another block at a height that is held is a reorganisation there, whatever the height and
/// however the new block is named: of that height and all above, only the new block and the
/// finalized one are left.
pub proof fn law_another_block_at_a_height_is_a_reorganisation(
    v: BlockCacheView,
    block: BlockView,
    block_id: BlockId,
)
    requires
        v.wf(),
        v.blocks.contains_key(block.header.number),
        v.blocks[block.header.number].header.hash != block.header.hash,
    ensures
        v.divergence(block.header, block_id) == Some(block.header.number),
        forall|n: u64| #[trigger]
            v.pushed(block, block_id).blocks.contains_key(n) && n >= block.header.number ==> n
                == block.header.number || Some(n) == height(v.finalized),
{
    law_reorganisation_drops_from_there_up(v, block, block_id, block.header.number);
}

/// A block that a new block displaces, at its own height or by a divergence, cannot be found by
/// its hash any more.
pub proof fn law_evicted_blocks_are_unreachable_by_hash(
    v: BlockCacheView,
    block: BlockView,
    block_id: BlockId,
    from: u64,
    number: u64,
)
    requires
        v.divergence(block.header, block_id) == Some(from),
        v.doomed(from).contains(number) || number == block.header.number && v.blocks.contains_key(
            number,
        ),
        v.blocks[number].header.hash != block.header.hash,
    ensures
        !v.pushed(block, block_id).hashes.contains_key(v.blocks[number].header.hash.pair()),
        v.pushed(block, block_id).by_hash(v.blocks[number].header.hash) is None,
{
    let p = v.blocks[number].header.hash.pair();
    let r = v.reconciled(block.header, block_id);
    if v.doomed(from).contains(number) {
        assert(v.hashes_at(v.doomed(from)).contains(p));
    } else {
        assert(r.blocks.contains_key(number) && r.blocks[number] == v.blocks[number]);
    }
    assert(p != block.header.hash.pair());
    assert(!r.with_block(block, block_id).hashes.contains_key(p));
}

/// A block that was pushed is found by its height and by its hash, and as the latest or the
/// finalized one where it was pushed as such. Left out is a block that leaves at once, being the
/// lowest of too many, and one whose hash leaves with that of its namesake.
pub proof fn law_pushed_block_is_found(v: BlockCacheView, block: BlockView, block_id: BlockId)
    requires
        v.wf(),
        stays(v, block, block_id),
        !drops_its_namesake(v, block, block_id),
    ensures
        v.pushed(block, block_id).lookup(
            BlockId::Number(BlockNumberOrTag::Number(block.header.number)),
        ) == Some(block),
        v.pushed(block, block_id).lookup(BlockId::of_hash(block.header.hash)) == Some(block),
        block_id == BlockId::Number(BlockNumberOrTag::Latest) || block_id == BlockId::Number(
            BlockNumberOrTag::Finalized,
        ) ==> v.pushed(block, block_id).lookup(block_id) == Some(block),
{
    let grown = v.reconciled(block.header, block_id).with_block(block, block_id);
    if grown.blocks.len() > grown.size {
        crate::block_cache::lemma_reconciled_wf(v, block.header, block_id);
        crate::block_cache::lemma_least_exists(grown.blocks);
        let low = least(grown.blocks);
        assert(grown.blocks[low].header.hash != block.header.hash);
        assert(!grown.hashes_at(set![low]).contains(block.header.hash.pair()));
    }
}

/// To push a block a second time changes nothing, be it held or so low that it left at once. Left
/// out is a push that drops another block of the same hash: the second one finds its hash gone
/// and brings it back.
pub proof fn law_push_again_changes_nothing(v: BlockCacheView, block: BlockView, block_id: BlockId)
    requires
        v.wf(),
        !drops_its_namesake(v, block, block_id),
    ensures
        v.pushed(block, block_id).pushed(block, block_id) == v.pushed(block, block_id),
{
    crate::block_cache::lemma_pushed_wf(v, block, block_id);
    let number = block.header.number;
    let pair = block.header.hash.pair();
    let grown = v.reconciled(block.header, block_id).with_block(block, block_id);
    let once = v.pushed(block, block_id);
    if stays(v, block, block_id) {
        law_pushed_block_is_found(v, block, block_id);
        assert(once.blocks.insert(number, block) =~= once.blocks);
        assert(once.hashes.contains_key(pair));
        assert(grown.hashes[pair] == number);
        assert(once.hashes.remove(pair).insert(pair, number) =~= once.hashes);
        assert(once.with_block(block, block_id) =~= once);
    } else {
        crate::block_cache::lemma_reconciled_wf(v, block.header, block_id);
        crate::block_cache::lemma_least_exists(grown.blocks);
        assert(grown.blocks.contains_key(number));
        assert(least(grown.blocks) == number);
        assert(set![number].contains(number));
        assert forall|p: (u128, u128)| grown.hashes_at(set![number]).contains(p) == (p == pair) by {
            if p == pair {
                assert(set![number].contains(number));
            }
        }
        assert(once.blocks =~= grown.blocks.remove(number));
        assert(once.hashes =~= grown.hashes.remove(pair));
        let again = once.with_block(block, block_id);
        assert(again.blocks =~= grown.blocks);
        assert(again.hashes =~= grown.hashes);
        assert(once.divergence(block.header, block_id) is None) by {
            if number > 0 && grown.blocks.contains_key((number - 1) as u64) {
                assert(least(grown.blocks) <= number - 1);
            }
        }
        assert(again == grown);
    }
}

/// Hashes and blocks stay in step, where the block's hash is not that of a block at another
/// height.
pub proof fn law_hashes_and_blocks_stay_in_step(
    v: BlockCacheView,
    block: BlockView,
    block_id: BlockId,
)
    requires
        v.wf(),
        indexed(v),
        forall|n: u64| #[trigger]
            v.blocks.contains_key(n) && v.blocks[n].header.hash == block.header.hash ==> n
                == block.header.number,
    ensures
        indexed(v.pushed(block, block_id)),
{
    let number = block.header.number;
    let r = v.reconciled(block.header, block_id);
    lemma_reconciled_indexed(v, block.header, block_id);
    let g = r.with_block(block, block_id);
    assert(indexed(g)) by {
        assert forall|p: (u128, u128)| #[trigger] g.hashes.contains_key(p) implies g.blocks.contains_key(
            g.hashes[p],
        ) && g.blocks[g.hashes[p]].header.hash.pair() == p by {
            if p != block.header.hash.pair() {
                assert(r.hashes.contains_key(p));
                assert(g.hashes[p] == r.hashes[p]);
                assert(r.hashes[p] != number);
            }
        }
        assert forall|n: u64| #[trigger] g.blocks.contains_key(n) implies g.hashes.contains_key(
            g.blocks[n].header.hash.pair(),
        ) && g.hashes[g.blocks[n].header.hash.pair()] == n by {
            if n != number {
                assert(r.blocks.contains_key(n));
                assert(v.blocks.contains_key(n));
                assert(v.blocks[n].header.hash != block.header.hash);
                assert(v.blocks[n].header.hash.pair() != block.header.hash.pair());
                assert(r.hashes[r.blocks[n].header.hash.pair()] == n);
                if r.blocks.contains_key(number) {
                    assert(r.hashes[r.blocks[number].header.hash.pair()] == number);
                }
            }
        }
    }
    if g.blocks.len() > g.size {
        crate::block_cache::lemma_reconciled_wf(v, block.header, block_id);
        crate::block_cache::lemma_least_exists(g.blocks);
        lemma_without_indexed(g, set![least(g.blocks)]);
    }
}

/// To drop blocks keeps hashes and blocks in step.
proof fn lemma_without_indexed(v: BlockCacheView, numbers: Set<u64>)
    requires
        indexed(v),
    ensures
        indexed(v.without(numbers)),
{
    let w = v.without(numbers);
    assert forall|p: (u128, u128)| #[trigger] w.hashes.contains_key(p) implies w.blocks.contains_key(
        w.hashes[p],
    ) && w.blocks[w.hashes[p]].header.hash.pair() == p by {
        assert(v.hashes.contains_key(p));
        let n = v.hashes[p];
        if numbers.contains(n) {
            assert(v.hashes_at(numbers).contains(p));
        }
    }
    assert forall|n: u64| #[trigger] w.blocks.contains_key(n) implies w.hashes.contains_key(
        w.blocks[n].header.hash.pair(),
    ) && w.hashes[w.blocks[n].header.hash.pair()] == n by {
        assert(v.blocks.contains_key(n));
        let p = v.blocks[n].header.hash.pair();
        if v.hashes_at(numbers).contains(p) {
            let k = choose|k: u64|
                numbers.contains(k) && v.blocks.contains_key(k) && v.blocks[k].header.hash.pair()
                    == p;
            assert(v.hashes[p] == k);
            assert(v.hashes[p] == n);
        }
    }
}

proof fn lemma_reconciled_indexed(v: BlockCacheView, header: Header, block_id: BlockId)
    requires
        indexed(v),
    ensures
        indexed(v.reconciled(header, block_id)),
{
    if let Some(from) = v.divergence(header, block_id) {
        lemma_without_indexed(v, v.doomed(from));
    }
}

/// A hash never leads to a block with another hash, while hashes and blocks are in step.
pub proof fn law_lookup_by_hash_is_right(v: BlockCacheView, hash: B256)
    requires
        indexed(v),
    ensures
        match v.lookup(BlockId::of_hash(hash)) {
            Some(b) => b.header.hash == hash,
            None => forall|n: u64| #[trigger]
                v.blocks.contains_key(n) ==> v.blocks[n].header.hash != hash,
        },
{
    if v.hashes.contains_key(hash.pair()) {
        assert(v.blocks.contains_key(v.hashes[hash.pair()]));
    }
}

/// After a clearing only the finalized block is left, and it is found by its height and hash.
pub proof fn law_clear_keeps_the_finalized_block(v: BlockCacheView)
    ensures
        indexed(v.cleared()),
        v.cleared().latest is None,
        forall|n: u64| #[trigger]
            v.cleared().blocks.contains_key(n) ==> Some(n) == height(v.finalized),
        v.finalized matches Some(b) ==> v.cleared().at(b.header.number) == Some(b)
            && v.cleared().by_hash(b.header.hash) == Some(b),
{
}

/// Each hash that leads to a block leads to one that has it; the finalized block, where there is
/// one, is held, its hash leads to it, and no other block that is held has that hash.
pub open spec fn is_told_apart(v: BlockCacheView) -> bool {
    &&& forall|p: (u128, u128)| #[trigger]
        v.hashes.contains_key(p) && v.blocks.contains_key(v.hashes[p])
            ==> v.blocks[v.hashes[p]].header.hash.pair() == p
    &&& v.finalized matches Some(b) ==> {
        let number = b.header.number;
        let pair = b.header.hash.pair();
        &&& v.at(number) == Some(b)
        &&& v.hashes.contains_key(pair) && v.hashes[pair] == number
        &&& forall|n: u64| #[trigger]
            v.blocks.contains_key(n) && v.blocks[n].header.hash == b.header.hash ==> n == number
    }
}

/// An eviction is the targeted form of a clearing: one from height zero answers every lookup as
/// a clearing does.
pub proof fn law_eviction_from_zero_is_a_clearing(v: BlockCacheView, block_id: BlockId)
    requires
        is_told_apart(v),
    ensures
        v.evicted_from(0).lookup(block_id) == v.cleared().lookup(block_id),
{
    let e = v.evicted_from(0);
    let c = v.cleared();
    assert forall|n: u64| e.at(n) == c.at(n) by {
        if v.blocks.contains_key(n) && Some(n) != height(v.finalized) {
            assert(v.doomed(0).contains(n));
        }
    }
    if let BlockId::Hash(hash) = block_id {
        let p = hash.block_hash.pair();
        if let Some(b) = v.finalized {
            let pair = b.header.hash.pair();
            if v.hashes_at(v.doomed(0)).contains(pair) {
                let k = choose|k: u64|
                    v.doomed(0).contains(k) && v.blocks.contains_key(k)
                        && v.blocks[k].header.hash.pair() == pair;
                assert(v.blocks[k].header.hash == b.header.hash);
            }
            assert(e.hashes.contains_key(pair) && e.hashes[pair] == b.header.number);
            assert(e.at(b.header.number) == c.at(b.header.number));
        }
        if e.hashes.contains_key(p) {
            let n = e.hashes[p];
            assert(v.hashes.contains_key(p));
            assert(e.at(n) == c.at(n));
            if e.blocks.contains_key(n) {
                assert(v.blocks.contains_key(n));
                assert(Some(n) == height(v.finalized));
            }
        }
    }
}

} // verus!
