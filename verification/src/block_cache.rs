//! The blocks that the node holds, by height and by hash, and how they give way to a
//! reorganisation of the chain.
use crate::chain::{block_view, Block, BlockView, Header};
use crate::primitives::{BlockId, BlockNumberOrTag, B256};
use std::collections::BTreeMap;
use vstd::prelude::*;
use vstd::std_specs::btree::{increasing_seq, key_obeys_cmp_spec};
use vstd::std_specs::cmp::OrdSpec;
use vstd::std_specs::iter::IteratorSpec;

verus! {

broadcast use {vstd::laws_cmp::group_laws_cmp, vstd::std_specs::btree::group_btree_axioms};

/// A bounded set of blocks, found by height and by hash, with the latest and the finalized one.
pub struct BlockCache {
    pub latest: Option<Block>,
    pub finalized: Option<Block>,
    pub blocks: BTreeMap<u64, Block>,
    pub hashes: BTreeMap<(u128, u128), u64>,
    pub size: usize,
}

/// What a block cache holds. A hash is a pair of its halves.
#[verifier::ext_equal]
pub ghost struct BlockCacheView {
    pub latest: Option<BlockView>,
    pub finalized: Option<BlockView>,
    pub blocks: Map<u64, BlockView>,
    pub hashes: Map<(u128, u128), u64>,
    pub size: nat,
}

impl View for BlockCache {
    type V = BlockCacheView;

    open spec fn view(&self) -> BlockCacheView {
        BlockCacheView {
            latest: block_view(self.latest),
            finalized: block_view(self.finalized),
            blocks: self.blocks@.map_values(|b: Block| b@),
            hashes: self.hashes@,
            size: self.size as nat,
        }
    }
}

/// The height of a block, where there is one.
pub open spec fn height(block: Option<BlockView>) -> Option<u64> {
    match block {
        Some(b) => Some(b.header.number),
        None => None,
    }
}

/// `n` is the least of the heights.
pub open spec fn is_least(blocks: Map<u64, BlockView>, n: u64) -> bool {
    blocks.contains_key(n) && forall|k: u64| #[trigger] blocks.contains_key(k) ==> n <= k
}

/// The least of the heights.
pub open spec fn least(blocks: Map<u64, BlockView>) -> u64 {
    choose|n: u64| is_least(blocks, n)
}

impl BlockCacheView {
    /// Each block stands under its own height, and no more blocks are held than the limit.
    pub open spec fn wf(self) -> bool {
        &&& self.blocks.dom().finite()
        &&& self.blocks.len() <= self.size
        &&& forall|n: u64| #[trigger]
            self.blocks.contains_key(n) ==> self.blocks[n].header.number == n
    }

    /// The block at a height.
    pub open spec fn at(self, number: u64) -> Option<BlockView> {
        if self.blocks.contains_key(number) {
            Some(self.blocks[number])
        } else {
            None
        }
    }

    /// The block that a hash leads to.
    pub open spec fn by_hash(self, hash: B256) -> Option<BlockView> {
        if self.hashes.contains_key(hash.pair()) {
            self.at(self.hashes[hash.pair()])
        } else {
            None
        }
    }

    /// The block that an identifier names.
    pub open spec fn lookup(self, block_id: BlockId) -> Option<BlockView> {
        match block_id {
            BlockId::Number(BlockNumberOrTag::Latest) => self.latest,
            BlockId::Number(BlockNumberOrTag::Finalized) => self.finalized,
            BlockId::Number(BlockNumberOrTag::Safe) => self.finalized,
            BlockId::Number(BlockNumberOrTag::Number(number)) => self.at(number),
            BlockId::Number(BlockNumberOrTag::Pending) => None,
            BlockId::Number(BlockNumberOrTag::Earliest) => None,
            BlockId::Hash(hash) => self.by_hash(hash.block_hash),
        }
    }

    /// The hashes of the blocks at the given heights.
    pub open spec fn hashes_at(self, numbers: Set<u64>) -> Set<(u128, u128)> {
        Set::new(
            |p: (u128, u128)|
                exists|n: u64|
                    #![trigger numbers.contains(n)]
                    numbers.contains(n) && self.blocks.contains_key(n)
                        && self.blocks[n].header.hash.pair() == p,
        )
    }

    /// The cache without the blocks at the given heights, and without their hashes.
    pub open spec fn without(self, numbers: Set<u64>) -> BlockCacheView {
        BlockCacheView {
            blocks: self.blocks.remove_keys(numbers),
            hashes: self.hashes.remove_keys(self.hashes_at(numbers)),
            ..self
        }
    }

    /// The heights that a divergence at `from` puts in doubt: all from there up but that of the
    /// finalized block.
    pub open spec fn doomed(self, from: u64) -> Set<u64> {
        Set::new(
            |n: u64|
                self.blocks.contains_key(n) && from <= n && Some(n) != height(self.finalized),
        )
    }

    /// The cache after a divergence at `from`.
    pub open spec fn evicted_from(self, from: u64) -> BlockCacheView {
        BlockCacheView {
            latest: match self.latest {
                Some(b) => if b.header.number >= from { None } else { Some(b) },
                None => None,
            },
            ..self.without(self.doomed(from))
        }
    }

    /// Where a new block proves that the chain diverged from what is held: at its own height,
    /// where another block is held there; or else at its parent's height, where a block is held
    /// there that is not its parent. The first block of the chain has no parent to ask after. Nor
    /// is the parent of a finalized block: such a block is taken on its own standing, apart from
    /// the chain at the head, and only another block in its own place has to give way to it.
    pub open spec fn divergence(self, header: Header, block_id: BlockId) -> Option<u64> {
        let number = header.number;
        if self.blocks.contains_key(number) {
            if self.blocks[number].header.hash != header.hash {
                Some(number)
            } else {
                None
            }
        } else if block_id == BlockId::Number(BlockNumberOrTag::Finalized) || number == 0 {
            None
        } else if self.blocks.contains_key((number - 1) as u64) {
            if self.blocks[(number - 1) as u64].header.hash != header.parent_hash {
                Some((number - 1) as u64)
            } else {
                None
            }
        } else {
            None
        }
    }

    /// The cache once the blocks that a new block contradicts are gone.
    pub open spec fn reconciled(self, header: Header, block_id: BlockId) -> BlockCacheView {
        match self.divergence(header, block_id) {
            Some(from) => self.evicted_from(from),
            None => self,
        }
    }

    /// The hashes without that of the block at a height.
    pub open spec fn hashes_but(self, number: u64) -> Map<(u128, u128), u64> {
        if self.blocks.contains_key(number) {
            self.hashes.remove(self.blocks[number].header.hash.pair())
        } else {
            self.hashes
        }
    }

    /// The cache with one more block, named by `block_id`. A block whose place it takes is not
    /// found by its hash any more.
    pub open spec fn with_block(self, block: BlockView, block_id: BlockId) -> BlockCacheView {
        BlockCacheView {
            latest: if block_id == BlockId::Number(BlockNumberOrTag::Latest) {
                Some(block)
            } else {
                self.latest
            },
            finalized: if block_id == BlockId::Number(BlockNumberOrTag::Finalized) {
                Some(block)
            } else {
                self.finalized
            },
            blocks: self.blocks.insert(block.header.number, block),
            hashes: self.hashes_but(block.header.number).insert(
                block.header.hash.pair(),
                block.header.number,
            ),
            size: self.size,
        }
    }

    /// The cache within its limit: the lowest block goes where there is one too many.
    pub open spec fn trimmed(self) -> BlockCacheView {
        if self.blocks.len() > self.size {
            self.without(set![least(self.blocks)])
        } else {
            self
        }
    }

    /// The cache after a block has been pushed.
    pub open spec fn pushed(self, block: BlockView, block_id: BlockId) -> BlockCacheView {
        self.reconciled(block.header, block_id).with_block(block, block_id).trimmed()
    }

    /// The cache with nothing but its finalized block.
    pub open spec fn cleared(self) -> BlockCacheView {
        BlockCacheView {
            latest: None,
            finalized: self.finalized,
            blocks: match self.finalized {
                Some(b) => map![b.header.number => b],
                None => Map::empty(),
            },
            hashes: match self.finalized {
                Some(b) => map![b.header.hash.pair() => b.header.number],
                None => Map::empty(),
            },
            size: self.size,
        }
    }
}

proof fn lemma_without_one_more(v: BlockCacheView, numbers: Set<u64>, n: u64)
    requires
        !numbers.contains(n),
    ensures
        v.without(numbers).without(set![n]) == v.without(numbers.insert(n)),
{
    let a = v.without(numbers).without(set![n]);
    let b = v.without(numbers.insert(n));
    assert(a.blocks =~= b.blocks);
    let h1 = v.hashes_at(numbers);
    let h2 = v.without(numbers).hashes_at(set![n]);
    let h3 = v.hashes_at(numbers.insert(n));
    assert forall|p: (u128, u128)| h3.contains(p) == (h1.contains(p) || h2.contains(p)) by {
        if h3.contains(p) {
            let k = choose|k: u64|
                numbers.insert(n).contains(k) && v.blocks.contains_key(k)
                    && v.blocks[k].header.hash.pair() == p;
            if k == n {
                assert(set![n].contains(k));
            } else {
                assert(numbers.contains(k));
            }
        }
        if h1.contains(p) {
            let k = choose|k: u64|
                numbers.contains(k) && v.blocks.contains_key(k) && v.blocks[k].header.hash.pair()
                    == p;
            assert(numbers.insert(n).contains(k));
        }
        if h2.contains(p) {
            assert(numbers.insert(n).contains(n));
        }
    }
    assert(a.hashes =~= b.hashes);
}

proof fn lemma_without_none(v: BlockCacheView)
    ensures
        v.without(Set::empty()) == v,
{
    assert(v.without(Set::empty()).blocks =~= v.blocks);
    assert(v.without(Set::empty()).hashes =~= v.hashes);
}

proof fn lemma_increasing(keys: Seq<u64>)
    ensures
        increasing_seq(keys) ==> forall|i: int, j: int|
            0 <= i < j < keys.len() ==> keys[i] < keys[j],
{
    assert(key_obeys_cmp_spec::<u64>());
    assert forall|i: int, j: int|
        increasing_seq(keys) && 0 <= i < j < keys.len() implies keys[i] < keys[j] by {
        assert(keys[i].cmp_spec(&keys[j]) is Less);
    }
}

proof fn lemma_least(blocks: Map<u64, BlockView>, n: u64)
    requires
        is_least(blocks, n),
    ensures
        least(blocks) == n,
{
}

impl BlockCache {
    /// An empty cache that holds at most `size` blocks.
    pub fn new(size: usize) -> (r: Self)
        ensures
            r@.wf(),
            r@ == (BlockCacheView {
                latest: None,
                finalized: None,
                blocks: Map::empty(),
                hashes: Map::empty(),
                size: size as nat,
            }),
    {
        let r = BlockCache {
            latest: None,
            finalized: None,
            blocks: BTreeMap::new(),
            hashes: BTreeMap::new(),
            size,
        };
        assert(r@.blocks =~= Map::empty());
        assert(r@.hashes =~= Map::empty());
        r
    }

    /// The block at a height.
    fn at(&self, number: u64) -> (r: Option<&Block>)
        ensures
            match r {
                Some(b) => self@.at(number) == Some(b@),
                None => self@.at(number) is None,
            },
    {
        self.blocks.get(&number)
    }

    /// Drops the block at a height, and its hash.
    fn forget(&mut self, number: u64)
        requires
            old(self)@.blocks.contains_key(number),
        ensures
            final(self)@ == old(self)@.without(set![number]),
    {
        let removed = self.blocks.remove(&number);
        let block = removed.unwrap();
        let key = block.header.hash.key();
        self.hashes.remove(&key);
        proof {
            let before = old(self)@;
            assert(self@.blocks =~= before.blocks.remove_keys(set![number]));
            assert forall|p: (u128, u128)|
                before.hashes_at(set![number]).contains(p) == (p == key) by {
                if p == key {
                    assert(set![number].contains(number));
                }
            }
            assert(self@.hashes =~= before.hashes.remove_keys(before.hashes_at(set![number])));
        }
    }

    /// The heights of the blocks that are held, from the lowest up.
    pub fn numbers(&self) -> (r: Vec<u64>)
        ensures
            forall|i: int, j: int| 0 <= i < j < r@.len() ==> r@[i] < r@[j],
            forall|n: u64| #[trigger] r@.contains(n) <==> self@.blocks.contains_key(n),
    {
        let mut r: Vec<u64> = Vec::new();
        let iter = self.blocks.iter();
        let ghost entries = iter.remaining();
        let ghost keys = entries.map_values(|kv: (&u64, &Block)| *kv.0);
        proof {
            lemma_increasing(keys);
            assert forall|n: u64| #[trigger] keys.contains(n) <==> self.blocks@.contains_key(n) by {
                if self.blocks@.contains_key(n) {
                    assert(entries.contains((&n, &self.blocks@[n])));
                    let k = choose|k: int|
                        0 <= k < entries.len() && entries[k] == (&n, &self.blocks@[n]);
                    assert(keys[k] == n);
                }
                if keys.contains(n) {
                    let k = choose|k: int| 0 <= k < keys.len() && keys[k] == n;
                    assert(self.blocks@.contains_key(*entries[k].0));
                }
            }
        }
        for (number, block) in it: iter
            invariant
                it.seq() == entries,
                keys == entries.map_values(|kv: (&u64, &Block)| *kv.0),
                r@ == keys.take(it.index()),
        {
            r.push(*number);
            assert(keys.take(it.index() + 1) =~= keys.take(it.index()).push(keys[it.index()]));
        }
        assert(keys.take(keys.len() as int) =~= keys);
        r
    }

    /// Drops every block from `from` up but the finalized one, and the latest where it stands
    /// there.
    ///
    /// A reorganisation can only touch blocks from the point of divergence up. What is below it,
    /// and what is finalized, still stands.
    pub fn evict_from(&mut self, from: u64)
        ensures
            final(self)@ == old(self)@.evicted_from(from),
            old(self)@.wf() ==> final(self)@.wf(),
    {
        let finalized_number: Option<u64> = match &self.finalized {
            Some(b) => Some(b.header.number),
            None => None,
        };
        let numbers = self.numbers();
        let ghost before = self@;
        let ghost mut gone: Set<u64> = Set::empty();
        proof {
            lemma_without_none(before);
        }
        let mut i: usize = 0;
        while i < numbers.len()
            invariant
                i <= numbers@.len(),
                finalized_number == height(before.finalized),
                forall|a: int, b: int| 0 <= a < b < numbers@.len() ==> numbers@[a] < numbers@[b],
                forall|n: u64| #[trigger]
                    numbers@.contains(n) <==> before.blocks.contains_key(n),
                forall|n: u64| #[trigger]
                    gone.contains(n) <==> before.doomed(from).contains(n)
                        && numbers@.take(i as int).contains(n),
                self@ == before.without(gone),
            decreases numbers@.len() - i,
        {
            let number: u64 = numbers[i];
            assert(numbers@.contains(number));
            assert(!numbers@.take(i as int).contains(number));
            assert(numbers@.take(i + 1) =~= numbers@.take(i as int).push(number));
            assert forall|n: u64|
                numbers@.take(i + 1).contains(n) <==> numbers@.take(i as int).contains(n) || n
                    == number by {
                if n == number {
                    assert(numbers@.take(i + 1)[i as int] == n);
                }
                if numbers@.take(i as int).contains(n) {
                    let k = choose|k: int| 0 <= k < i && numbers@[k] == n;
                    assert(numbers@.take(i + 1)[k] == n);
                }
            }
            if number >= from && Some(number) != finalized_number {
                self.forget(number);
                proof {
                    lemma_without_one_more(before, gone, number);
                    gone = gone.insert(number);
                }
            }
            i = i + 1;
        }
        proof {
            assert(numbers@.take(numbers@.len() as int) =~= numbers@);
            assert(gone =~= before.doomed(from));
        }
        let latest_gone = match &self.latest {
            Some(b) => b.header.number >= from,
            None => false,
        };
        if latest_gone {
            self.latest = None;
        }
        proof {
            if before.wf() {
                lemma_evicted_wf(before, from);
            }
        }
    }

    /// Drops everything but the finalized block, which cannot be reorganised away.
    pub fn clear(&mut self)
        ensures
            final(self)@ == old(self)@.cleared(),
            old(self)@.wf() && old(self)@.size > 0 ==> final(self)@.wf(),
    {
        self.blocks.clear();
        self.hashes.clear();
        self.latest = None;
        if let Some(finalized) = &self.finalized {
            let number: u64 = finalized.header.number;
            let key = finalized.header.hash.key();
            self.blocks.insert(number, finalized.clone());
            self.hashes.insert(key, number);
        }
        assert(self@.blocks =~= old(self)@.cleared().blocks);
        assert(self@.hashes =~= old(self)@.cleared().hashes);
    }

    /// The block that an identifier names, in full or with its transactions by hash only.
    pub fn get_block(&self, block_id: BlockId, full_tx: bool) -> (r: Option<Block>)
        ensures
            block_view(r) == match self@.lookup(block_id) {
                Some(b) => Some(b.shown(full_tx)),
                None => None,
            },
    {
        let found: Option<&Block> = match block_id {
            BlockId::Number(tag) => match tag {
                BlockNumberOrTag::Latest => self.latest.as_ref(),
                BlockNumberOrTag::Finalized | BlockNumberOrTag::Safe => self.finalized.as_ref(),
                BlockNumberOrTag::Number(number) => self.at(number),
                BlockNumberOrTag::Pending | BlockNumberOrTag::Earliest => None,
            },
            BlockId::Hash(hash) => {
                let key = hash.block_hash.key();
                match self.hashes.get(&key) {
                    Some(number) => self.at(*number),
                    None => None,
                }
            },
        };
        match found {
            Some(block) => Some(block.show(full_tx)),
            None => None,
        }
    }

    /// A cache holds only blocks that were checked: it has none that was not.
    pub fn get_untrusted_block(&self, block_id: BlockId, full_tx: bool) -> (r: Option<Block>)
        ensures
            r is None,
    {
        None
    }

    /// Where the new block proves that the chain diverged from what is held.
    ///
    /// Only two things prove it: another block at the same height, and a block at the parent's
    /// height that is not the parent. A parent that is missing proves nothing: blocks arrive out
    /// of order, and the lowest ones leave when the cache is full.
    fn find_divergence(&self, header: &Header, block_id: BlockId) -> (r: Option<u64>)
        ensures
            r == self@.divergence(*header, block_id),
    {
        let number: u64 = header.number;
        if let Some(existing) = self.at(number) {
            return if existing.header.hash != header.hash {
                Some(number)
            } else {
                None
            };
        }
        if block_id.is_finalized() || number == 0 {
            return None;
        }
        match self.at(number - 1) {
            Some(parent) => {
                if parent.header.hash != header.parent_hash {
                    Some(number - 1)
                } else {
                    None
                }
            },
            None => None,
        }
    }

    /// Takes in a block, named by `block_id`: what it contradicts goes, and so does the lowest
    /// block where there is one too many.
    pub fn push_block(&mut self, block: Block, block_id: BlockId)
        requires
            old(self)@.wf(),
        ensures
            final(self)@ == old(self)@.pushed(block@, block_id),
            final(self)@.wf(),
    {
        let ghost before = self@;
        let number: u64 = block.header.number;
        let key = block.header.hash.key();
        if let Some(from) = self.find_divergence(&block.header, block_id) {
            self.evict_from(from);
        }
        let ghost reconciled = self@;
        proof {
            lemma_reconciled_wf(before, block.header, block_id);
        }
        if let BlockId::Number(tag) = block_id {
            match tag {
                BlockNumberOrTag::Latest => {
                    self.latest = Some(block.clone());
                },
                BlockNumberOrTag::Finalized => {
                    self.finalized = Some(block.clone());
                },
                _ => {},
            }
        }
        if let Some(replaced) = self.at(number) {
            let replaced_key = replaced.header.hash.key();
            self.hashes.remove(&replaced_key);
        }
        assert(self@.hashes =~= reconciled.hashes_but(number));
        self.hashes.insert(key, number);
        self.blocks.insert(number, block);
        let ghost grown = self@;
        proof {
            assert(grown.blocks =~= reconciled.with_block(block@, block_id).blocks);
            assert(grown =~= reconciled.with_block(block@, block_id));
            assert(grown.blocks.dom() =~= self.blocks@.dom());
        }
        if self.blocks.len() > self.size {
            let numbers = self.numbers();
            proof {
                assert(grown.blocks.contains_key(number));
                assert(numbers@.contains(number));
                assert(numbers@.contains(numbers@[0]));
                assert forall|k: u64| #[trigger] grown.blocks.contains_key(k) implies numbers@[0]
                    <= k by {
                    assert(numbers@.contains(k));
                }
                assert(is_least(grown.blocks, numbers@[0]));
                lemma_least(grown.blocks, numbers@[0]);
            }
            self.forget(numbers[0]);
            proof {
                assert(self@.blocks =~= grown.blocks.remove(numbers@[0]));
            }
        }
    }
}

proof fn lemma_evicted_wf(v: BlockCacheView, from: u64)
    requires
        v.wf(),
    ensures
        v.evicted_from(from).wf(),
{
    let w = v.evicted_from(from);
    assert(w.blocks.dom() =~= v.blocks.dom().difference(v.doomed(from)));
    vstd::set_lib::lemma_len_difference(v.blocks.dom(), v.doomed(from));
}

pub(crate) proof fn lemma_reconciled_wf(v: BlockCacheView, header: Header, block_id: BlockId)
    requires
        v.wf(),
    ensures
        v.reconciled(header, block_id).wf(),
{
    if let Some(from) = v.divergence(header, block_id) {
        lemma_evicted_wf(v, from);
    }
}

pub(crate) proof fn lemma_least_exists(blocks: Map<u64, BlockView>)
    requires
        blocks.dom().finite(),
        blocks.len() > 0,
    ensures
        is_least(blocks, least(blocks)),
    decreases blocks.len(),
{
    let n = blocks.dom().choose();
    let rest = blocks.remove(n);
    if rest.len() > 0 {
        lemma_least_exists(rest);
        let k = least(rest);
        if n < k {
            assert(is_least(blocks, n)) by {
                assert forall|j: u64| #[trigger] blocks.contains_key(j) implies n <= j by {
                    assert(j == n || rest.contains_key(j));
                }
            }
        } else {
            assert(is_least(blocks, k)) by {
                assert(rest.contains_key(k));
                assert forall|j: u64| #[trigger] blocks.contains_key(j) implies k <= j by {
                    assert(j == n || rest.contains_key(j));
                }
            }
        }
    } else {
        assert(is_least(blocks, n)) by {
            assert forall|j: u64| #[trigger] blocks.contains_key(j) implies n <= j by {
                if j != n {
                    assert(rest.contains_key(j));
                    assert(rest.dom().contains(j));
                }
            }
        }
    }
}

pub(crate) proof fn lemma_pushed_wf(v: BlockCacheView, block: BlockView, block_id: BlockId)
    requires
        v.wf(),
    ensures
        v.pushed(block, block_id).wf(),
{
    lemma_reconciled_wf(v, block.header, block_id);
    let grown = v.reconciled(block.header, block_id).with_block(block, block_id);
    if grown.blocks.len() > grown.size {
        lemma_least_exists(grown.blocks);
        assert(v.pushed(block, block_id).blocks =~= grown.blocks.remove(least(grown.blocks)));
    }
}

} // verus!
