use alloy::consensus::Header as ConsensusHeader;
use alloy::primitives::B64;
use helios_execution::block_cache::BlockCache;
use helios_execution::chain::{Block, BlockTransactions, Header, Transaction};
use helios_execution::primitives::{
    Address, BlockId, BlockNumberOrTag, Bytes, RpcBlockHash, B256, U256,
};

fn word(outside: alloy::primitives::B256) -> B256 {
    B256 {
        hi: u128::from_be_bytes(outside.0[..16].try_into().unwrap()),
        lo: u128::from_be_bytes(outside.0[16..].try_into().unwrap()),
    }
}

fn outside(word: B256) -> alloy::primitives::B256 {
    let mut bytes = word.hi.to_be_bytes().to_vec();
    bytes.extend_from_slice(&word.lo.to_be_bytes());
    alloy::primitives::B256::from_slice(&bytes)
}

/// A block whose hash is the real hash of its header. `salt` gives two different blocks at the
/// same height, which is what a reorganisation looks like on the wire.
fn block(number: u64, parent: B256, salt: u8) -> Block {
    let inner = ConsensusHeader {
        number,
        parent_hash: outside(parent),
        nonce: B64::with_last_byte(salt),
        ..Default::default()
    };
    Block {
        header: Header {
            hash: word(inner.hash_slow()),
            parent_hash: parent,
            number,
            timestamp: inner.timestamp,
            state_root: word(inner.state_root),
            beneficiary: Address { hi: 0, lo: 0 },
            gas_limit: inner.gas_limit,
            base_fee_per_gas: inner.base_fee_per_gas,
            difficulty: U256 { hi: 0, lo: 0 },
            mix_hash: Some(word(inner.mix_hash)),
        },
        transactions: BlockTransactions::Full(vec![Transaction {
            hash: B256 { hi: salt as u128, lo: number as u128 },
            block_hash: None,
            rest: Bytes { data: vec![salt] },
        }]),
        rest: Bytes { data: Vec::new() },
    }
}

fn at(n: u64) -> BlockId {
    BlockId::Number(BlockNumberOrTag::Number(n))
}

fn zero() -> B256 {
    B256 { hi: 0, lo: 0 }
}

fn repeat_byte(byte: u8) -> B256 {
    word(alloy::primitives::B256::repeat_byte(byte))
}

fn by_hash(hash: B256) -> BlockId {
    BlockId::Hash(RpcBlockHash { block_hash: hash, require_canonical: None })
}

/// A contiguous chain must never evict anything.
#[test]
fn contiguous_chain_keeps_everything() {
    let mut cache = BlockCache::new(64);
    let b100 = block(100, zero(), 1);
    let b101 = block(101, b100.header.hash, 1);
    let b102 = block(102, b101.header.hash, 1);
    cache.push_block(b100, at(100));
    cache.push_block(b101, at(101));
    cache.push_block(b102, at(102));
    assert_eq!(cache.numbers(), vec![100, 101, 102]);
}

/// A block whose parent is simply not cached is a gap, not a reorganisation.
#[test]
fn gap_does_not_wipe_the_cache() {
    let mut cache = BlockCache::new(64);
    cache.push_block(block(100, zero(), 1), at(100));
    cache.push_block(block(200, repeat_byte(0xAB), 1), at(200));
    assert_eq!(
        cache.numbers(),
        vec![100, 200],
        "a missing parent must not evict unrelated blocks"
    );
}

/// Out-of-order arrival is the common concurrent case: N lands before N-1.
#[test]
fn out_of_order_arrival_keeps_both() {
    let mut cache = BlockCache::new(64);
    let b100 = block(100, zero(), 1);
    let b101 = block(101, b100.header.hash, 1);
    cache.push_block(b101, at(101));
    cache.push_block(b100, at(100));
    assert_eq!(cache.numbers(), vec![100, 101]);
}

/// A different block at a height that is held is a reorganisation: that height and everything
/// above must go, lower blocks must survive.
#[test]
fn reorg_at_same_height_evicts_from_there_up() {
    let mut cache = BlockCache::new(64);
    let b100 = block(100, zero(), 1);
    let b101 = block(101, b100.header.hash, 1);
    let b102 = block(102, b101.header.hash, 1);
    cache.push_block(b100.clone(), at(100));
    cache.push_block(b101.clone(), at(101));
    cache.push_block(b102, at(102));

    let b101b = block(101, b100.header.hash, 2);
    assert_ne!(b101.header.hash, b101b.header.hash);
    cache.push_block(b101b.clone(), at(101));

    assert_eq!(
        cache.numbers(),
        vec![100, 101],
        "102 was built on the abandoned 101 and must be dropped"
    );
    assert_eq!(
        cache.blocks.get(&101).unwrap().header.hash,
        b101b.header.hash,
        "the surviving 101 must be the new one"
    );
}

/// A parent that is held and whose hash does not match is on the abandoned branch, so eviction
/// starts at the parent.
#[test]
fn mismatched_parent_evicts_the_parent_too() {
    let mut cache = BlockCache::new(64);
    let b100 = block(100, zero(), 1);
    let b101 = block(101, b100.header.hash, 1);
    cache.push_block(b100, at(100));
    cache.push_block(b101, at(101));
    cache.push_block(block(102, repeat_byte(0xCD), 1), at(102));
    assert_eq!(
        cache.numbers(),
        vec![100, 102],
        "the divergent 101 must go; 100 is below the divergence and stays"
    );
}

/// Evicted blocks must not remain addressable by hash.
#[test]
fn evicted_blocks_are_unreachable_by_hash() {
    let mut cache = BlockCache::new(64);
    let b100 = block(100, zero(), 1);
    let b101 = block(101, b100.header.hash, 1);
    cache.push_block(b100.clone(), at(100));
    cache.push_block(b101.clone(), at(101));
    cache.push_block(block(101, b100.header.hash, 2), at(101));
    assert!(
        !cache.hashes.contains_key(&b101.header.hash.key()),
        "the abandoned block must not remain addressable by hash"
    );
    assert!(cache.get_block(by_hash(b101.header.hash), false).is_none());
}

#[test]
fn pushed_block_is_found_by_number_hash_and_tag() {
    let mut cache = BlockCache::new(64);
    let b7 = block(7, zero(), 3);
    let hash = b7.header.hash;
    cache.push_block(b7, BlockId::Number(BlockNumberOrTag::Latest));
    assert_eq!(cache.get_block(at(7), true).unwrap().header.hash, hash);
    assert_eq!(cache.get_block(by_hash(hash), true).unwrap().header.number, 7);
    let latest = cache.get_block(BlockId::Number(BlockNumberOrTag::Latest), true).unwrap();
    assert_eq!(latest.header.hash, hash);
    assert!(cache.get_block(BlockId::Number(BlockNumberOrTag::Finalized), true).is_none());
    assert!(cache.get_block(BlockId::Number(BlockNumberOrTag::Pending), true).is_none());
    assert!(cache.get_block(BlockId::Number(BlockNumberOrTag::Earliest), true).is_none());
    assert!(cache.get_untrusted_block(at(7), true).is_none());
}

#[test]
fn safe_block_is_the_finalized_one() {
    let mut cache = BlockCache::new(64);
    let b9 = block(9, zero(), 1);
    let hash = b9.header.hash;
    cache.push_block(b9, BlockId::Number(BlockNumberOrTag::Finalized));
    let safe = cache.get_block(BlockId::Number(BlockNumberOrTag::Safe), false).unwrap();
    assert_eq!(safe.header.hash, hash);
}

#[test]
fn transactions_are_handed_out_in_full_or_by_hash() {
    let mut cache = BlockCache::new(64);
    let b7 = block(7, zero(), 3);
    cache.push_block(b7, at(7));
    match cache.get_block(at(7), true).unwrap().transactions {
        BlockTransactions::Full(txs) => {
            assert_eq!(txs.len(), 1);
            assert_eq!(txs[0].rest.data, vec![3]);
        }
        other => panic!("{other:?}"),
    }
    match cache.get_block(at(7), false).unwrap().transactions {
        BlockTransactions::Hashes(hashes) => assert_eq!(hashes, vec![B256 { hi: 3, lo: 7 }]),
        other => panic!("{other:?}"),
    }
}

#[test]
fn full_cache_drops_the_lowest_block() {
    let mut cache = BlockCache::new(2);
    let b1 = block(1, zero(), 1);
    let b2 = block(2, b1.header.hash, 1);
    let b3 = block(3, b2.header.hash, 1);
    let first = b1.header.hash;
    cache.push_block(b1, at(1));
    cache.push_block(b2, at(2));
    cache.push_block(b3, at(3));
    assert_eq!(cache.numbers(), vec![2, 3]);
    assert!(cache.get_block(by_hash(first), false).is_none());
}

#[test]
fn finalized_block_survives_a_reorganisation_below_it() {
    let mut cache = BlockCache::new(64);
    let b100 = block(100, zero(), 1);
    let b101 = block(101, b100.header.hash, 1);
    let b102 = block(102, b101.header.hash, 1);
    cache.push_block(b100.clone(), at(100));
    cache.push_block(b101, BlockId::Number(BlockNumberOrTag::Finalized));
    cache.push_block(b102, at(102));
    cache.push_block(block(100, repeat_byte(1), 9), at(100));
    assert_eq!(cache.numbers(), vec![100, 101]);
}

#[test]
fn same_block_again_changes_nothing() {
    let mut cache = BlockCache::new(64);
    let b100 = block(100, zero(), 1);
    let b101 = block(101, b100.header.hash, 1);
    cache.push_block(b100.clone(), at(100));
    cache.push_block(b101, at(101));
    cache.push_block(b100, at(100));
    assert_eq!(cache.numbers(), vec![100, 101]);
}

#[test]
fn cleared_cache_keeps_the_finalized_block_only() {
    let mut cache = BlockCache::new(64);
    let b100 = block(100, zero(), 1);
    let b101 = block(101, b100.header.hash, 1);
    let hash = b100.header.hash;
    cache.push_block(b100, BlockId::Number(BlockNumberOrTag::Finalized));
    cache.push_block(b101, BlockId::Number(BlockNumberOrTag::Latest));
    cache.clear();
    assert_eq!(cache.numbers(), vec![100]);
    assert!(cache.get_block(BlockId::Number(BlockNumberOrTag::Latest), false).is_none());
    assert_eq!(cache.get_block(by_hash(hash), false).unwrap().header.number, 100);
}

#[test]
fn another_block_at_height_zero_is_a_reorganisation() {
    let mut cache = BlockCache::new(64);
    let g = block(0, zero(), 1);
    let b1 = block(1, g.header.hash, 1);
    let g2 = block(0, zero(), 2);
    let (first, second) = (g.header.hash, g2.header.hash);
    assert_ne!(first, second);
    cache.push_block(g, at(0));
    cache.push_block(b1, at(1));
    cache.push_block(g2, at(0));
    assert_eq!(cache.numbers(), vec![0]);
    assert_eq!(cache.get_block(at(0), true).unwrap().header.hash, second);
    assert!(cache.get_block(by_hash(first), true).is_none());
    assert_eq!(cache.get_block(by_hash(second), true).unwrap().header.number, 0);
}

#[test]
fn another_block_pushed_as_finalized_is_a_reorganisation() {
    let mut cache = BlockCache::new(64);
    let b101 = block(101, zero(), 1);
    let b102 = block(102, b101.header.hash, 1);
    let b101b = block(101, zero(), 2);
    let (first, child, second) = (b101.header.hash, b102.header.hash, b101b.header.hash);
    cache.push_block(b101, at(101));
    cache.push_block(b102, at(102));
    cache.push_block(b101b, BlockId::Number(BlockNumberOrTag::Finalized));
    assert_eq!(cache.numbers(), vec![101]);
    assert!(cache.get_block(by_hash(first), true).is_none());
    assert!(cache.get_block(by_hash(child), true).is_none());
    assert_eq!(cache.get_block(by_hash(second), true).unwrap().header.hash, second);
}

#[test]
fn another_block_at_the_finalized_height_leaves_no_hash_behind() {
    let mut cache = BlockCache::new(64);
    let b101 = block(101, zero(), 1);
    let b101b = block(101, zero(), 2);
    let (first, second) = (b101.header.hash, b101b.header.hash);
    cache.push_block(b101, BlockId::Number(BlockNumberOrTag::Finalized));
    cache.push_block(b101b, at(101));
    assert_eq!(cache.get_block(at(101), true).unwrap().header.hash, second);
    assert!(cache.get_block(by_hash(first), true).is_none());
    assert_eq!(cache.get_block(by_hash(second), true).unwrap().header.hash, second);
    let finalized = cache.get_block(BlockId::Number(BlockNumberOrTag::Finalized), true);
    assert_eq!(finalized.unwrap().header.hash, first);
}

#[test]
fn gap_below_a_finalized_block_evicts_nothing() {
    let mut cache = BlockCache::new(64);
    cache.push_block(block(100, zero(), 1), at(100));
    let finalized = BlockId::Number(BlockNumberOrTag::Finalized);
    cache.push_block(block(101, repeat_byte(0xCD), 1), finalized);
    assert_eq!(cache.numbers(), vec![100, 101]);
}

#[test]
fn too_low_a_block_leaves_at_once_and_again() {
    let mut cache = BlockCache::new(1);
    let b9 = block(9, zero(), 1);
    let b5 = block(5, zero(), 1);
    let low = b5.header.hash;
    cache.push_block(b9, at(9));
    cache.push_block(b5.clone(), at(5));
    cache.push_block(b5, at(5));
    assert_eq!(cache.numbers(), vec![9]);
    assert!(cache.get_block(by_hash(low), false).is_none());
}

#[test]
fn eviction_from_zero_is_a_clearing() {
    let ids = |hashes: &[B256]| {
        let mut ids = vec![
            BlockId::Number(BlockNumberOrTag::Latest),
            BlockId::Number(BlockNumberOrTag::Finalized),
            BlockId::Number(BlockNumberOrTag::Safe),
            BlockId::Number(BlockNumberOrTag::Pending),
        ];
        ids.extend((99..104).map(at));
        ids.extend(hashes.iter().copied().map(by_hash));
        ids
    };
    for with_finalized in [true, false] {
        let b100 = block(100, zero(), 1);
        let b101 = block(101, b100.header.hash, 1);
        let b102 = block(102, b101.header.hash, 1);
        let hashes = [b100.header.hash, b101.header.hash, b102.header.hash, zero()];
        let fill = || {
            let mut cache = BlockCache::new(64);
            cache.push_block(b100.clone(), at(100));
            let id = if with_finalized {
                BlockId::Number(BlockNumberOrTag::Finalized)
            } else {
                at(101)
            };
            cache.push_block(b101.clone(), id);
            cache.push_block(b102.clone(), BlockId::Number(BlockNumberOrTag::Latest));
            cache
        };
        let mut evicted = fill();
        evicted.evict_from(0);
        let mut cleared = fill();
        cleared.clear();
        for id in ids(&hashes) {
            let one = evicted.get_block(id, true).map(|b| b.header.hash);
            let two = cleared.get_block(id, true).map(|b| b.header.hash);
            assert_eq!(one, two);
        }
        assert_eq!(evicted.numbers(), cleared.numbers());
        // Either goes on as a cache does.
        evicted.push_block(b100.clone(), at(100));
        cleared.push_block(b100.clone(), at(100));
        assert_eq!(evicted.numbers(), cleared.numbers());
    }
}

#[test]
fn block_of_a_hash_held_elsewhere_can_be_pushed_again() {
    let mut cache = BlockCache::new(64);
    let b5 = block(5, zero(), 1);
    let mut twin = block(9, zero(), 1);
    twin.header.hash = b5.header.hash;
    cache.push_block(b5.clone(), at(5));
    cache.push_block(twin.clone(), at(9));
    assert_eq!(cache.get_block(by_hash(b5.header.hash), true).unwrap().header.number, 9);
    cache.push_block(twin, at(9));
    assert_eq!(cache.numbers(), vec![5, 9]);
    assert_eq!(cache.get_block(by_hash(b5.header.hash), true).unwrap().header.number, 9);
}
