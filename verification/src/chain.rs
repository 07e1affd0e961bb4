//! Blocks and transactions, as far as the execution layer reads them.
use crate::error::{ErrorView, ProviderError};
use crate::primitives::{views, Address, Bytes, B256, U256};
use vstd::prelude::*;

verus! {

/// What a block header says.
#[derive(Clone, Copy, Debug, PartialEq, Eq, Structural)]
pub struct Header {
    pub hash: B256,
    pub parent_hash: B256,
    pub number: u64,
    pub timestamp: u64,
    pub state_root: B256,
    pub beneficiary: Address,
    pub gas_limit: u64,
    pub base_fee_per_gas: Option<u64>,
    pub difficulty: U256,
    pub mix_hash: Option<B256>,
}

/// A transaction: its hash, the block it is in, and the rest of it encoded.
#[derive(Debug)]
pub struct Transaction {
    pub hash: B256,
    pub block_hash: Option<B256>,
    pub rest: Bytes,
}

/// What a transaction says.
pub ghost struct TransactionView {
    pub hash: B256,
    pub block_hash: Option<B256>,
    pub rest: Seq<u8>,
}

impl View for Transaction {
    type V = TransactionView;

    open spec fn view(&self) -> TransactionView {
        TransactionView { hash: self.hash, block_hash: self.block_hash, rest: self.rest@ }
    }
}

impl Clone for Transaction {
    fn clone(&self) -> (r: Self)
        ensures
            r@ == self@,
    {
        Transaction { hash: self.hash, block_hash: self.block_hash, rest: self.rest.clone() }
    }
}

/// The transactions of a block: in full, or by hash only. An uncle carries none.
#[derive(Debug)]
pub enum BlockTransactions {
    Full(Vec<Transaction>),
    Hashes(Vec<B256>),
    Uncle,
}

/// What the transactions of a block say.
pub ghost enum BlockTransactionsView {
    Full(Seq<TransactionView>),
    Hashes(Seq<B256>),
    Uncle,
}

impl BlockTransactionsView {
    /// The hashes of the transactions, in order.
    pub open spec fn hashes(self) -> Seq<B256> {
        match self {
            BlockTransactionsView::Full(txs) => txs.map_values(|tx: TransactionView| tx.hash),
            BlockTransactionsView::Hashes(hashes) => hashes,
            BlockTransactionsView::Uncle => Seq::empty(),
        }
    }

    /// The transactions that are there in full.
    pub open spec fn full(self) -> Seq<TransactionView> {
        match self {
            BlockTransactionsView::Full(txs) => txs,
            _ => Seq::empty(),
        }
    }
}

impl View for BlockTransactions {
    type V = BlockTransactionsView;

    open spec fn view(&self) -> BlockTransactionsView {
        match self {
            BlockTransactions::Full(txs) => BlockTransactionsView::Full(views(txs@)),
            BlockTransactions::Hashes(hashes) => BlockTransactionsView::Hashes(hashes@),
            BlockTransactions::Uncle => BlockTransactionsView::Uncle,
        }
    }
}

impl Clone for BlockTransactions {
    fn clone(&self) -> (r: Self)
        ensures
            r@ == self@,
    {
        match self {
            BlockTransactions::Full(txs) => {
                let copy = txs.clone();
                assert(views(copy@) =~= views(txs@));
                BlockTransactions::Full(copy)
            },
            BlockTransactions::Hashes(hashes) => {
                let copy = hashes.clone();
                assert(copy@ =~= hashes@);
                BlockTransactions::Hashes(copy)
            },
            BlockTransactions::Uncle => BlockTransactions::Uncle,
        }
    }
}

impl BlockTransactions {
    /// The hashes of the transactions, in order.
    pub fn hashes(&self) -> (r: Vec<B256>)
        ensures
            r@ == self@.hashes(),
    {
        match self {
            BlockTransactions::Full(txs) => {
                let mut r: Vec<B256> = Vec::new();
                let mut i: usize = 0;
                while i < txs.len()
                    invariant
                        i <= txs@.len(),
                        r@.len() == i,
                        forall|k: int| 0 <= k < i ==> r@[k] == txs@[k].hash,
                    decreases txs@.len() - i,
                {
                    r.push(txs[i].hash);
                    i = i + 1;
                }
                assert(r@ =~= self@.hashes());
                r
            },
            BlockTransactions::Hashes(hashes) => {
                let r = hashes.clone();
                assert(r@ =~= hashes@);
                r
            },
            BlockTransactions::Uncle => Vec::new(),
        }
    }
}

/// A block: its header, its transactions, and the rest of it encoded.
#[derive(Debug)]
pub struct Block {
    pub header: Header,
    pub transactions: BlockTransactions,
    pub rest: Bytes,
}

/// What a block says.
pub ghost struct BlockView {
    pub header: Header,
    pub transactions: BlockTransactionsView,
    pub rest: Seq<u8>,
}

impl BlockView {
    /// The same block with its transactions by hash only.
    pub open spec fn with_hashes_only(self) -> BlockView {
        BlockView {
            transactions: BlockTransactionsView::Hashes(self.transactions.hashes()),
            ..self
        }
    }

    /// The block as it is handed out: in full, or with its transactions by hash only.
    pub open spec fn shown(self, full_tx: bool) -> BlockView {
        if full_tx {
            self
        } else {
            self.with_hashes_only()
        }
    }
}

impl View for Block {
    type V = BlockView;

    open spec fn view(&self) -> BlockView {
        BlockView {
            header: self.header,
            transactions: self.transactions@,
            rest: self.rest@,
        }
    }
}

impl Clone for Block {
    fn clone(&self) -> (r: Self)
        ensures
            r@ == self@,
    {
        Block {
            header: self.header,
            transactions: self.transactions.clone(),
            rest: self.rest.clone(),
        }
    }
}

impl Block {
    /// The block as it is handed out: in full, or with its transactions by hash only.
    pub fn show(&self, full_tx: bool) -> (r: Block)
        ensures
            r@ == self@.shown(full_tx),
    {
        if full_tx {
            self.clone()
        } else {
            Block {
                header: self.header,
                transactions: BlockTransactions::Hashes(self.transactions.hashes()),
                rest: self.rest.clone(),
            }
        }
    }
}

/// What an optional block says.
pub open spec fn block_view(block: Option<Block>) -> Option<BlockView> {
    match block {
        Some(b) => Some(b@),
        None => None,
    }
}

/// What a block answer says.
pub open spec fn block_answer_view(answer: Result<Option<Block>, ProviderError>) -> Result<
    Option<BlockView>,
    ErrorView,
> {
    match answer {
        Ok(block) => Ok(block_view(block)),
        Err(error) => Err(error@),
    }
}

} // verus!
