//! What the provider that stands on a node's own interface decides: what it asks the node for,
//! and what it makes of the answers.
//!
//! The node is not trusted. Its answers are checked against the header of a block that is
//! trusted already, by functions whose verdicts come in here as arguments.
use crate::account::{bytes_view, Account, AccountView, StorageProof, StorageProofView, TrieAccount};
use crate::chain::{
    block_answer_view, Block, BlockTransactions, BlockView, Transaction, TransactionView,
};
use crate::error::{plain_result, result_view, ErrorView, ProviderError};
use crate::logs::{Log, Receipt, ReceiptView};
use crate::primitives::{
    keccak_empty, keccak_of_nothing, views, BlockId, BlockNumberOrTag, Bytes, B256, U256,
};
use vstd::prelude::*;
use vstd::string::*;

verus! {

/// What was asked for, where it is there; where it is not, this error.
pub fn required<T>(answer: Result<Option<T>, ProviderError>, absent: ProviderError) -> (r: Result<
    T,
    ProviderError,
>)
    ensures
        r == match answer {
            Ok(Some(value)) => Ok(value),
            Ok(None) => Err(absent),
            Err(error) => Err(error),
        },
{
    match answer {
        Ok(Some(value)) => Ok(value),
        Ok(None) => Err(absent),
        Err(error) => Err(error),
    }
}

/// Whether older blocks than those at hand may be looked up for a block named so: only where it
/// is named by number or hash, not by a tag.
pub open spec fn is_historical(block_id: BlockId) -> bool {
    match block_id {
        BlockId::Hash(_) => true,
        BlockId::Number(BlockNumberOrTag::Number(_)) => true,
        BlockId::Number(_) => false,
    }
}

pub fn should_use_historical_provider(block_id: &BlockId) -> (r: bool)
    ensures
        r == is_historical(*block_id),
{
    match block_id {
        BlockId::Hash(_) => true,
        BlockId::Number(BlockNumberOrTag::Number(_)) => true,
        BlockId::Number(_) => false,
    }
}

/// Where a block comes from.
#[derive(Debug)]
pub enum BlockStep {
    Done(Result<Option<Block>, ProviderError>),
    /// The historical provider's answer is the answer. It is not kept among the recent blocks.
    AskHistorical,
}

/// What a step towards a block says.
pub ghost enum BlockStepView {
    Done(Result<Option<BlockView>, ErrorView>),
    AskHistorical,
}

impl View for BlockStep {
    type V = BlockStepView;

    open spec fn view(&self) -> BlockStepView {
        match self {
            BlockStep::Done(answer) => BlockStepView::Done(block_answer_view(*answer)),
            BlockStep::AskHistorical => BlockStepView::AskHistorical,
        }
    }
}

/// The step after the recent blocks answered.
pub open spec fn after_recent(
    recent: Result<Option<BlockView>, ErrorView>,
    has_historical: bool,
    block_id: BlockId,
) -> BlockStepView {
    match recent {
        Ok(None) if has_historical && is_historical(block_id) => BlockStepView::AskHistorical,
        answer => BlockStepView::Done(answer),
    }
}

/// A provider on top of the node at a URL: recent blocks come from one source, older ones from
/// another, where there is one.
pub struct RpcExecutionProvider<B, H> {
    pub rpc_url: String,
    pub block_provider: B,
    pub historical_provider: Option<H>,
}

impl<B> RpcExecutionProvider<B, ()> {
    /// A provider without a source of older blocks.
    pub fn new(rpc_url: &str, block_provider: B) -> (r: Self)
        ensures
            r.rpc_url@ == rpc_url@,
            r.block_provider == block_provider,
            r.historical_provider is None,
    {
        RpcExecutionProvider {
            rpc_url: rpc_url.to_owned(),
            block_provider,
            historical_provider: None,
        }
    }
}

impl<B, H> RpcExecutionProvider<B, H> {
    /// A provider with a source of older blocks.
    pub fn with_historical_provider(
        rpc_url: &str,
        block_provider: B,
        historical_provider: H,
    ) -> (r: Self)
        ensures
            r.rpc_url@ == rpc_url@,
            r.block_provider == block_provider,
            r.historical_provider == Some(historical_provider),
    {
        RpcExecutionProvider {
            rpc_url: rpc_url.to_owned(),
            block_provider,
            historical_provider: Some(historical_provider),
        }
    }

    /// Looks for a block among the recent ones first, whose answer is `recent`, and among the
    /// older ones where there is a source of those.
    pub fn get_block(&self, recent: Result<Option<Block>, ProviderError>, block_id: &BlockId) -> (r:
        BlockStep)
        ensures
            r@ == after_recent(
                block_answer_view(recent),
                self.historical_provider is Some,
                *block_id,
            ),
    {
        match recent {
            Err(error) => BlockStep::Done(Err(error)),
            Ok(Some(block)) => BlockStep::Done(Ok(Some(block))),
            Ok(None) => {
                if self.historical_provider.is_some() && should_use_historical_provider(block_id) {
                    BlockStep::AskHistorical
                } else {
                    BlockStep::Done(Ok(None))
                }
            },
        }
    }
}

/// What a node says of an account, with the proofs.
#[derive(Debug)]
pub struct AccountProof {
    pub nonce: u64,
    pub balance: U256,
    pub storage_hash: B256,
    pub code_hash: B256,
    pub account_proof: Vec<Bytes>,
    pub storage_proof: Vec<StorageProof>,
}

/// What the proof of an account says.
pub ghost struct AccountProofView {
    pub nonce: u64,
    pub balance: U256,
    pub storage_hash: B256,
    pub code_hash: B256,
    pub account_proof: Seq<Seq<u8>>,
    pub storage_proof: Seq<StorageProofView>,
}

impl View for AccountProof {
    type V = AccountProofView;

    open spec fn view(&self) -> AccountProofView {
        AccountProofView {
            nonce: self.nonce,
            balance: self.balance,
            storage_hash: self.storage_hash,
            code_hash: self.code_hash,
            account_proof: views(self.account_proof@),
            storage_proof: views(self.storage_proof@),
        }
    }
}

impl AccountProofView {
    /// The account has no code: its code hash is that of no bytes, or zero where the account
    /// does not exist.
    pub open spec fn is_without_code(self) -> bool {
        self.code_hash == keccak_of_nothing() || self.code_hash == (B256 { hi: 0, lo: 0 })
    }

    /// The account that the proof is of.
    pub open spec fn account(self, code: Option<Seq<u8>>) -> AccountView {
        AccountView {
            account: TrieAccount {
                nonce: self.nonce,
                balance: self.balance,
                storage_root: self.storage_hash,
                code_hash: self.code_hash,
            },
            code,
            account_proof: self.account_proof,
            storage_proof: self.storage_proof,
        }
    }
}

impl AccountProof {
    pub fn is_without_code(&self) -> (r: bool)
        ensures
            r == self@.is_without_code(),
    {
        self.code_hash == keccak_empty() || self.code_hash == B256::zero()
    }

    /// The account that the proof is of.
    pub fn into_account(self, code: Option<Bytes>) -> (r: Account)
        ensures
            r@ == self@.account(bytes_view(code)),
            r.account.nonce == self.nonce,
            r.account.balance == self.balance,
            r.account.storage_root == self.storage_hash,
            r.account.code_hash == self.code_hash,
            r.account_proof == self.account_proof,
            r.storage_proof == self.storage_proof,
            r.code == code,
    {
        Account {
            account: TrieAccount {
                nonce: self.nonce,
                balance: self.balance,
                storage_root: self.storage_hash,
                code_hash: self.code_hash,
            },
            code,
            account_proof: self.account_proof,
            storage_proof: self.storage_proof,
        }
    }
}

/// The answer for code that was asked for before it was known whether there is any.
pub type Speculative = Option<Result<Bytes, ProviderError>>;

/// What such an answer says.
pub open spec fn speculative_view(speculative: Speculative) -> Option<Result<Seq<u8>, ErrorView>> {
    match speculative {
        Some(answer) => Some(result_view(answer)),
        None => None,
    }
}

/// What comes next in the reading of an account from a node.
#[derive(Debug)]
pub enum ReadStep {
    /// Ask for the proof at the block of this hash and, at the same time, for the code where it
    /// is wanted.
    AskProof { block_hash: B256, state_root: B256, with_code: bool },
    /// Check the proof of the account against the state root, then those of its slots.
    CheckProof { proof: AccountProof, state_root: B256, speculative: Speculative },
    AskCode { proof: AccountProof },
    /// Check the code against the code hash of the proof.
    CheckCode { proof: AccountProof, code: Bytes },
    Done(Result<Account, ProviderError>),
}

/// What a step of a reading says.
pub ghost enum ReadStepView {
    AskProof { block_hash: B256, state_root: B256, with_code: bool },
    CheckProof {
        proof: AccountProofView,
        state_root: B256,
        speculative: Option<Result<Seq<u8>, ErrorView>>,
    },
    AskCode { proof: AccountProofView },
    CheckCode { proof: AccountProofView, code: Seq<u8> },
    Done(Result<AccountView, ErrorView>),
}

impl View for ReadStep {
    type V = ReadStepView;

    open spec fn view(&self) -> ReadStepView {
        match self {
            ReadStep::AskProof { block_hash, state_root, with_code } => ReadStepView::AskProof {
                block_hash: *block_hash,
                state_root: *state_root,
                with_code: *with_code,
            },
            ReadStep::CheckProof { proof, state_root, speculative } => ReadStepView::CheckProof {
                proof: proof@,
                state_root: *state_root,
                speculative: speculative_view(*speculative),
            },
            ReadStep::AskCode { proof } => ReadStepView::AskCode { proof: proof@ },
            ReadStep::CheckCode { proof, code } => ReadStepView::CheckCode {
                proof: proof@,
                code: code@,
            },
            ReadStep::Done(result) => ReadStepView::Done(result_view(*result)),
        }
    }
}

/// The step after the block was asked for.
pub open spec fn after_block(
    block: Result<Option<BlockView>, ErrorView>,
    with_code: bool,
) -> ReadStepView {
    match block {
        Err(error) => ReadStepView::Done(Err(error)),
        Ok(None) => ReadStepView::Done(Err(ErrorView::BlockNotFound)),
        Ok(Some(block)) => ReadStepView::AskProof {
            block_hash: block.header.hash,
            state_root: block.header.state_root,
            with_code,
        },
    }
}

/// Begins to read an account at a block.
pub fn start_account(block: Result<Option<Block>, ProviderError>, with_code: bool) -> (r: ReadStep)
    ensures
        r@ == after_block(block_answer_view(block), with_code),
{
    match required(block, ProviderError::BlockNotFound) {
        Err(error) => ReadStep::Done(Err(error)),
        Ok(block) => ReadStep::AskProof {
            block_hash: block.header.hash,
            state_root: block.header.state_root,
            with_code,
        },
    }
}

/// The step after the node answered with a proof.
pub open spec fn after_proof(
    state_root: B256,
    answer: Result<AccountProofView, ErrorView>,
    speculative: Option<Result<Seq<u8>, ErrorView>>,
) -> ReadStepView {
    match answer {
        Err(error) => ReadStepView::Done(Err(error)),
        Ok(proof) => ReadStepView::CheckProof { proof, state_root, speculative },
    }
}

/// Goes on once the node has answered with a proof and, where it was wanted, the code.
pub fn proof_answered(
    state_root: B256,
    answer: Result<AccountProof, ProviderError>,
    speculative: Speculative,
) -> (r: ReadStep)
    ensures
        r@ == after_proof(state_root, result_view(answer), speculative_view(speculative)),
{
    match answer {
        Err(error) => ReadStep::Done(Err(error)),
        Ok(proof) => ReadStep::CheckProof { proof, state_root, speculative },
    }
}

/// The step after the proof was checked.
pub open spec fn after_proof_check(
    with_code: bool,
    proof: AccountProofView,
    account_verdict: Result<(), ErrorView>,
    storage_verdict: Result<(), ErrorView>,
    speculative: Option<Result<Seq<u8>, ErrorView>>,
) -> ReadStepView {
    if account_verdict is Err {
        ReadStepView::Done(Err(account_verdict->Err_0))
    } else if storage_verdict is Err {
        ReadStepView::Done(Err(storage_verdict->Err_0))
    } else if !with_code {
        ReadStepView::Done(Ok(proof.account(None)))
    } else if proof.is_without_code() {
        ReadStepView::Done(Ok(proof.account(Some(Seq::empty()))))
    } else {
        match speculative {
            Some(Ok(code)) => ReadStepView::CheckCode { proof, code },
            Some(Err(error)) => ReadStepView::Done(Err(error)),
            None => ReadStepView::AskCode { proof },
        }
    }
}

/// Goes on once the proof was checked. The code that was asked for ahead is thrown away where
/// the account turns out to have none, also where asking for it failed.
pub fn proof_checked(
    with_code: bool,
    proof: AccountProof,
    account_verdict: Result<(), ProviderError>,
    storage_verdict: Result<(), ProviderError>,
    speculative: Speculative,
) -> (r: ReadStep)
    ensures
        r@ == after_proof_check(
            with_code,
            proof@,
            plain_result(account_verdict),
            plain_result(storage_verdict),
            speculative_view(speculative),
        ),
{
    if let Err(error) = account_verdict {
        return ReadStep::Done(Err(error));
    }
    if let Err(error) = storage_verdict {
        return ReadStep::Done(Err(error));
    }
    if !with_code {
        return ReadStep::Done(Ok(proof.into_account(None)));
    }
    if proof.is_without_code() {
        return ReadStep::Done(Ok(proof.into_account(Some(Bytes::empty()))));
    }
    match speculative {
        Some(Ok(code)) => ReadStep::CheckCode { proof, code },
        Some(Err(error)) => ReadStep::Done(Err(error)),
        None => ReadStep::AskCode { proof },
    }
}

/// The step after the node answered with code.
pub open spec fn after_code(
    proof: AccountProofView,
    code: Result<Seq<u8>, ErrorView>,
) -> ReadStepView {
    match code {
        Ok(code) => ReadStepView::CheckCode { proof, code },
        Err(error) => ReadStepView::Done(Err(error)),
    }
}

/// Goes on once the node has answered with code that was not asked for ahead.
pub fn code_answered(proof: AccountProof, code: Result<Bytes, ProviderError>) -> (r: ReadStep)
    ensures
        r@ == after_code(proof@, result_view(code)),
{
    match code {
        Ok(code) => ReadStep::CheckCode { proof, code },
        Err(error) => ReadStep::Done(Err(error)),
    }
}

/// The answer after the code was checked.
pub open spec fn after_code_check(
    proof: AccountProofView,
    code: Seq<u8>,
    verdict: Result<(), ErrorView>,
) -> Result<AccountView, ErrorView> {
    match verdict {
        Ok(()) => Ok(proof.account(Some(code))),
        Err(error) => Err(error),
    }
}

/// Ends a reading once the code was checked.
pub fn code_checked(
    proof: AccountProof,
    code: Bytes,
    verdict: Result<(), ProviderError>,
) -> (r: Result<Account, ProviderError>)
    ensures
        result_view(r) == after_code_check(proof@, code@, plain_result(verdict)),
{
    match verdict {
        Ok(()) => Ok(proof.into_account(Some(code))),
        Err(error) => Err(error),
    }
}

/// Where a transaction comes from.
#[derive(Debug)]
pub enum TransactionStep {
    Done(Result<Option<Transaction>, ProviderError>),
    /// Ask for the block of this hash in full, and look for the transaction of this hash in it.
    AskBlock { block_hash: B256, tx_hash: B256 },
}

/// What a transaction, if there is one, says.
pub open spec fn transaction_view(tx: Option<Transaction>) -> Option<TransactionView> {
    match tx {
        Some(tx) => Some(tx@),
        None => None,
    }
}

/// What the answer to a question for a transaction says.
pub open spec fn transaction_answer_view(
    answer: Result<Option<Transaction>, ProviderError>,
) -> Result<Option<TransactionView>, ErrorView> {
    match answer {
        Ok(tx) => Ok(transaction_view(tx)),
        Err(error) => Err(error@),
    }
}

/// What a step towards a transaction says.
pub ghost enum TransactionStepView {
    Done(Result<Option<TransactionView>, ErrorView>),
    AskBlock { block_hash: B256, tx_hash: B256 },
}

impl View for TransactionStep {
    type V = TransactionStepView;

    open spec fn view(&self) -> TransactionStepView {
        match self {
            TransactionStep::Done(answer) => TransactionStepView::Done(
                transaction_answer_view(*answer),
            ),
            TransactionStep::AskBlock { block_hash, tx_hash } => TransactionStepView::AskBlock {
                block_hash: *block_hash,
                tx_hash: *tx_hash,
            },
        }
    }
}

/// The step after the node answered with a transaction.
pub open spec fn after_transaction(
    answer: Result<Option<TransactionView>, ErrorView>,
) -> TransactionStepView {
    match answer {
        Err(error) => TransactionStepView::Done(Err(error)),
        Ok(None) => TransactionStepView::Done(Ok(None)),
        Ok(Some(tx)) => match tx.block_hash {
            None => TransactionStepView::Done(Err(ErrorView::BlockNotFound)),
            Some(block_hash) => TransactionStepView::AskBlock { block_hash, tx_hash: tx.hash },
        },
    }
}

/// Takes the node's word only for which block a transaction is in: the transaction itself is to
/// come from that block.
pub fn get_transaction(answer: Result<Option<Transaction>, ProviderError>) -> (r: TransactionStep)
    ensures
        r@ == after_transaction(transaction_answer_view(answer)),
{
    match answer {
        Err(error) => TransactionStep::Done(Err(error)),
        Ok(None) => TransactionStep::Done(Ok(None)),
        Ok(Some(tx)) => match tx.block_hash {
            None => TransactionStep::Done(Err(ProviderError::BlockNotFound)),
            Some(block_hash) => TransactionStep::AskBlock { block_hash, tx_hash: tx.hash },
        },
    }
}

/// The first transaction with this hash.
pub open spec fn first_with_hash(txs: Seq<TransactionView>, hash: B256) -> Option<TransactionView>
    decreases txs.len(),
{
    if txs.len() == 0 {
        None
    } else if txs[0].hash == hash {
        Some(txs[0])
    } else {
        first_with_hash(txs.drop_first(), hash)
    }
}

fn find_transaction(txs: &Vec<Transaction>, hash: B256) -> (r: Option<Transaction>)
    ensures
        transaction_view(r) == first_with_hash(views(txs@), hash),
{
    let ghost all = views(txs@);
    let mut i: usize = 0;
    assert(all.skip(0) =~= all);
    while i < txs.len()
        invariant
            i <= txs@.len(),
            all == views(txs@),
            first_with_hash(all, hash) == first_with_hash(all.skip(i as int), hash),
        decreases txs@.len() - i,
    {
        assert(all.skip(i as int)[0] == txs@[i as int]@);
        assert(all.skip(i as int).drop_first() =~= all.skip(i + 1));
        if txs[i].hash == hash {
            return Some(txs[i].clone());
        }
        i = i + 1;
    }
    None
}

/// The transaction in its block, where the block is there.
pub fn transaction_in_block(
    block: Result<Option<Block>, ProviderError>,
    tx_hash: B256,
) -> (r: Result<Option<Transaction>, ProviderError>)
    ensures
        transaction_answer_view(r) == match block_answer_view(block) {
            Err(error) => Err(error),
            Ok(None) => Err(ErrorView::BlockNotFound),
            Ok(Some(block)) => Ok(first_with_hash(block.transactions.full(), tx_hash)),
        },
{
    match required(block, ProviderError::BlockNotFound) {
        Err(error) => Err(error),
        Ok(block) => match &block.transactions {
            BlockTransactions::Full(txs) => Ok(find_transaction(txs, tx_hash)),
            _ => Ok(None),
        },
    }
}

/// The transaction at a place in a block, where the block is there.
pub fn get_transaction_by_location(
    block: Result<Option<Block>, ProviderError>,
    index: u64,
) -> (r: Result<Option<Transaction>, ProviderError>)
    ensures
        transaction_answer_view(r) == match block_answer_view(block) {
            Err(error) => Err(error),
            Ok(None) => Err(ErrorView::BlockNotFound),
            Ok(Some(block)) => {
                let txs = block.transactions.full();
                if (index as usize) < txs.len() {
                    Ok(Some(txs[(index as usize) as int]))
                } else {
                    Ok(None)
                }
            },
        },
{
    match required(block, ProviderError::BlockNotFound) {
        Err(error) => Err(error),
        Ok(block) => match &block.transactions {
            BlockTransactions::Full(txs) => {
                assert(block@.transactions.full() == views(txs@));
                let at: usize = index as usize;
                if at < txs.len() {
                    Ok(Some(txs[at].clone()))
                } else {
                    Ok(None)
                }
            },
            _ => Ok(None),
        },
    }
}

/// What a receipt, if there is one, says.
pub open spec fn receipt_view(receipt: Option<Receipt>) -> Option<ReceiptView> {
    match receipt {
        Some(receipt) => Some(receipt@),
        None => None,
    }
}

/// What the answer to a question for a receipt says.
pub open spec fn receipt_answer_view(answer: Result<Option<Receipt>, ProviderError>) -> Result<
    Option<ReceiptView>,
    ErrorView,
> {
    match answer {
        Ok(receipt) => Ok(receipt_view(receipt)),
        Err(error) => Err(error@),
    }
}

/// What the answer to a question for the receipts of a block says.
pub open spec fn receipts_answer_view(
    answer: Result<Option<Vec<Receipt>>, ProviderError>,
) -> Result<Option<Seq<ReceiptView>>, ErrorView> {
    match answer {
        Ok(receipts) => Ok(crate::logs::receipts_view(receipts)),
        Err(error) => Err(error@),
    }
}

/// Takes the node's word only for which block a receipt is in.
pub fn receipt_block(answer: Result<Option<Receipt>, ProviderError>) -> (r: Result<
    B256,
    ProviderError,
>)
    ensures
        plain_result(r) == match receipt_answer_view(answer) {
            Err(error) => Err(error),
            Ok(None) => Err(ErrorView::ReceiptNotFound),
            Ok(Some(receipt)) => match receipt.block_hash {
                Some(hash) => Ok(hash),
                None => Err(ErrorView::BlockNotFound),
            },
        },
{
    match required(answer, ProviderError::ReceiptNotFound) {
        Err(error) => Err(error),
        Ok(receipt) => match receipt.block_hash {
            Some(hash) => Ok(hash),
            None => Err(ProviderError::BlockNotFound),
        },
    }
}

/// The first receipt of the transaction with this hash.
pub open spec fn first_receipt_of(receipts: Seq<ReceiptView>, hash: B256) -> Option<ReceiptView>
    decreases receipts.len(),
{
    if receipts.len() == 0 {
        None
    } else if receipts[0].transaction_hash == hash {
        Some(receipts[0])
    } else {
        first_receipt_of(receipts.drop_first(), hash)
    }
}

/// The receipt of a transaction among those of its block, once all of them were checked
/// against the block.
pub fn get_receipt(
    receipts: Vec<Receipt>,
    verdict: Result<(), ProviderError>,
    hash: B256,
) -> (r: Result<Option<Receipt>, ProviderError>)
    ensures
        receipt_answer_view(r) == match plain_result(verdict) {
            Ok(()) => Ok(first_receipt_of(views(receipts@), hash)),
            Err(error) => Err(error),
        },
{
    if let Err(error) = verdict {
        return Err(error);
    }
    let ghost all = views(receipts@);
    let mut i: usize = 0;
    assert(all.skip(0) =~= all);
    while i < receipts.len()
        invariant
            i <= receipts@.len(),
            all == views(receipts@),
            verdict is Ok,
            first_receipt_of(all, hash) == first_receipt_of(all.skip(i as int), hash),
        decreases receipts@.len() - i,
    {
        assert(all.skip(i as int)[0] == receipts@[i as int]@);
        assert(all.skip(i as int).drop_first() =~= all.skip(i + 1));
        if receipts[i].transaction_hash == hash {
            return Ok(Some(receipts[i].clone()));
        }
        i = i + 1;
    }
    Ok(None)
}

/// Where the receipts of a block come from.
#[derive(Debug)]
pub enum ReceiptsStep {
    Done(Result<Option<Vec<Receipt>>, ProviderError>),
    /// Ask for the receipts of the block with this hash, and check them against the block.
    AskReceipts { block_hash: B256, block: Block },
}

/// Begins to read the receipts of a block: one that is not there has none.
pub fn start_block_receipts(block: Result<Option<Block>, ProviderError>) -> (r: ReceiptsStep)
    ensures
        match block_answer_view(block) {
            Err(error) => r matches ReceiptsStep::Done(Err(e)) && e@ == error,
            Ok(None) => r matches ReceiptsStep::Done(Ok(None)),
            Ok(Some(found)) => r matches ReceiptsStep::AskReceipts { block_hash, block: b }
                && block_hash == found.header.hash && b@ == found,
        },
{
    match block {
        Err(error) => ReceiptsStep::Done(Err(error)),
        Ok(None) => ReceiptsStep::Done(Ok(None)),
        Ok(Some(block)) => ReceiptsStep::AskReceipts { block_hash: block.header.hash, block },
    }
}

/// The receipts of a block, once they were checked against it.
pub fn get_block_receipts(receipts: Vec<Receipt>, verdict: Result<(), ProviderError>) -> (r: Result<
    Option<Vec<Receipt>>,
    ProviderError,
>)
    ensures
        receipts_answer_view(r) == match plain_result(verdict) {
            Ok(()) => Ok(Some(views(receipts@))),
            Err(error) => Err(error),
        },
{
    match verdict {
        Ok(()) => Ok(Some(receipts)),
        Err(error) => Err(error),
    }
}

/// How a block number is to be had.
#[derive(Clone, Copy, Debug, PartialEq, Eq, Structural)]
pub enum NumberPlan {
    Known(u64),
    /// It is the number of the block with this tag.
    Ask(BlockNumberOrTag),
    Refused,
}

/// A number stands for itself; the latest block, which is meant where none is named, and the
/// finalized one are asked for; no other tag is taken.
pub open spec fn number_plan(block: Option<BlockNumberOrTag>) -> NumberPlan {
    match block {
        None => NumberPlan::Ask(BlockNumberOrTag::Latest),
        Some(BlockNumberOrTag::Latest) => NumberPlan::Ask(BlockNumberOrTag::Latest),
        Some(BlockNumberOrTag::Finalized) => NumberPlan::Ask(BlockNumberOrTag::Finalized),
        Some(BlockNumberOrTag::Number(number)) => NumberPlan::Known(number),
        Some(_) => NumberPlan::Refused,
    }
}

/// How the number of a block is to be had.
pub fn plan_block_number(block: Option<BlockNumberOrTag>) -> (r: NumberPlan)
    ensures
        r == number_plan(block),
{
    match block {
        None => NumberPlan::Ask(BlockNumberOrTag::Latest),
        Some(BlockNumberOrTag::Latest) => NumberPlan::Ask(BlockNumberOrTag::Latest),
        Some(BlockNumberOrTag::Finalized) => NumberPlan::Ask(BlockNumberOrTag::Finalized),
        Some(BlockNumberOrTag::Number(number)) => NumberPlan::Known(number),
        Some(_) => NumberPlan::Refused,
    }
}

/// The number of a block that had to be asked for.
pub fn block_number(block: Result<Option<Block>, ProviderError>) -> (r: Result<u64, ProviderError>)
    ensures
        plain_result(r) == match block_answer_view(block) {
            Err(error) => Err(error),
            Ok(None) => Err(ErrorView::BlockNotFound),
            Ok(Some(block)) => Ok(block.header.number),
        },
{
    match required(block, ProviderError::BlockNotFound) {
        Ok(block) => Ok(block.header.number),
        Err(error) => Err(error),
    }
}

/// The number of a block: `asked` is the answer for the block where it has to be asked for.
pub open spec fn resolved_number(
    block: Option<BlockNumberOrTag>,
    asked: Result<Option<BlockView>, ErrorView>,
) -> Result<u64, ErrorView> {
    match number_plan(block) {
        NumberPlan::Known(number) => Ok(number),
        NumberPlan::Refused => Err(ErrorView::BlockNotFound),
        NumberPlan::Ask(_) => match asked {
            Err(error) => Err(error),
            Ok(None) => Err(ErrorView::BlockNotFound),
            Ok(Some(block)) => Ok(block.header.number),
        },
    }
}

/// The number of a block: `asked` is the answer for the block where the plan says to ask, and
/// is not looked at elsewhere.
pub fn resolve_block_number(
    block: Option<BlockNumberOrTag>,
    asked: Result<Option<Block>, ProviderError>,
) -> (r: Result<u64, ProviderError>)
    ensures
        plain_result(r) == resolved_number(block, block_answer_view(asked)),
{
    match plan_block_number(block) {
        NumberPlan::Known(number) => Ok(number),
        NumberPlan::Refused => Err(ProviderError::BlockNotFound),
        NumberPlan::Ask(_) => block_number(asked),
    }
}

/// Which blocks the logs of a filter are in.
#[derive(Clone, Copy, Debug, PartialEq, Eq, Structural)]
pub enum FilterBlockOption {
    Range { from_block: Option<BlockNumberOrTag>, to_block: Option<BlockNumberOrTag> },
    AtBlockHash(B256),
}

/// The same blocks with the ends of a range as numbers.
pub open spec fn resolved_option(option: FilterBlockOption, from: u64, to: u64) -> FilterBlockOption {
    match option {
        FilterBlockOption::Range { .. } => FilterBlockOption::Range {
            from_block: Some(BlockNumberOrTag::Number(from)),
            to_block: Some(BlockNumberOrTag::Number(to)),
        },
        FilterBlockOption::AtBlockHash(hash) => FilterBlockOption::AtBlockHash(hash),
    }
}

/// What a filter asks the node for, once the ends of its range are known: a filter by hash
/// stays as it is, whatever the ends. The error of the first end counts before that of the
/// second.
pub fn resolve_filter(
    option: FilterBlockOption,
    from: Result<u64, ProviderError>,
    to: Result<u64, ProviderError>,
) -> (r: Result<FilterBlockOption, ProviderError>)
    ensures
        plain_result(r) == match option {
            FilterBlockOption::AtBlockHash(_) => Ok(option),
            FilterBlockOption::Range { .. } => match (plain_result(from), plain_result(to)) {
                (Err(error), _) => Err(error),
                (Ok(_), Err(error)) => Err(error),
                (Ok(from), Ok(to)) => Ok(resolved_option(option, from, to)),
            },
        },
{
    match option {
        FilterBlockOption::AtBlockHash(hash) => Ok(FilterBlockOption::AtBlockHash(hash)),
        FilterBlockOption::Range { .. } => {
            let first: u64 = match from {
                Ok(first) => first,
                Err(error) => {
                    return Err(error);
                },
            };
            let last: u64 = match to {
                Ok(last) => last,
                Err(error) => {
                    return Err(error);
                },
            };
            Ok(
                FilterBlockOption::Range {
                    from_block: Some(BlockNumberOrTag::Number(first)),
                    to_block: Some(BlockNumberOrTag::Number(last)),
                },
            )
        },
    }
}

/// The logs that the node gave, once they were checked against receipts and against the
/// filter.
pub fn get_logs(
    logs: Vec<Log>,
    verified: Result<(), ProviderError>,
    matching: Result<(), ProviderError>,
) -> (r: Result<Vec<Log>, ProviderError>)
    ensures
        match (plain_result(verified), plain_result(matching)) {
            (Err(error), _) => r is Err && r->Err_0@ == error,
            (Ok(_), Err(error)) => r is Err && r->Err_0@ == error,
            (Ok(_), Ok(_)) => r == Ok::<Vec<Log>, ProviderError>(logs),
        },
{
    if let Err(error) = verified {
        return Err(error);
    }
    if let Err(error) = matching {
        return Err(error);
    }
    Ok(logs)
}

} // verus!
