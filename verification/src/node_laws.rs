//! What a reading from a node answers, field by field and case by case.
use crate::account::{Account, AccountView, StorageProof};
use crate::chain::{BlockView, TransactionView};
use crate::error::{plain_result, result_view, ErrorView, ProviderError};
use crate::logs::ReceiptView;
use crate::primitives::{BlockId, BlockNumberOrTag, Bytes, B256};
use crate::rpc_laws::{read_from_node, Node, Verdicts};
use crate::rpc_provider::{
    after_block, after_code, after_code_check, after_proof, after_proof_check, after_recent,
    after_transaction, first_receipt_of, first_with_hash, number_plan, resolved_number,
    resolved_option, AccountProof, AccountProofView, BlockStep, BlockStepView, FilterBlockOption,
    NumberPlan, ReadStep, ReadStepView, TransactionStep, TransactionStepView,
};
use vstd::prelude::*;

verus! {

/// Every account that a reading answers with has the nonce, the balance, the storage root, the
/// code hash and the proofs of the proof that the node gave at that block, whether or not code
/// was asked for.
pub proof fn law_answer_has_the_fields_of_the_proof(
    block: BlockView,
    with_code: bool,
    node: Node,
    verdicts: Verdicts,
    ahead: bool,
)
    requires
        read_from_node(Ok(Some(block)), with_code, node, verdicts, ahead) is Ok,
    ensures
        (node.proof_at)(block.header.hash) is Ok,
        ({
            let account = read_from_node(Ok(Some(block)), with_code, node, verdicts, ahead)->Ok_0;
            let shown = (node.proof_at)(block.header.hash)->Ok_0;
            &&& account.account.nonce == shown.nonce
            &&& account.account.balance == shown.balance
            &&& account.account.storage_root == shown.storage_hash
            &&& account.account.code_hash == shown.code_hash
            &&& account.account_proof == shown.account_proof
            &&& account.storage_proof == shown.storage_proof
        }),
{
}

/// A proof gives the account with all its fields, and the code that came with it.
pub proof fn law_account_of_a_proof_has_its_fields(shown: AccountProofView, code: Option<Seq<u8>>)
    ensures
        shown.account(code).account.nonce == shown.nonce,
        shown.account(code).account.balance == shown.balance,
        shown.account(code).account.storage_root == shown.storage_hash,
        shown.account(code).account.code_hash == shown.code_hash,
        shown.account(code).account_proof == shown.account_proof,
        shown.account(code).storage_proof == shown.storage_proof,
        shown.account(code).code == code,
{
}

/// The code hash of an account without code: the Keccak-256 hash of nothing, or zero.
pub open spec fn names_no_code(hash: B256) -> bool {
    ||| hash.hi == 0xc5d2460186f7233c927e7db2dcc703c0 && hash.lo == 0xe500b653ca82273b7bfad8045d85a470
    ||| hash.hi == 0 && hash.lo == 0
}

/// A reading succeeds where the block is there, the node gives a proof, the proof passes both
/// checks, and the code, where it is wanted and there is any, comes and passes its check. The
/// code is then none where it was not wanted, empty where the account has none, and else what
/// the node gave.
pub proof fn law_reading_succeeds(
    block: BlockView,
    with_code: bool,
    node: Node,
    verdicts: Verdicts,
    ahead: bool,
)
    requires
        (node.proof_at)(block.header.hash) is Ok,
        (verdicts.account)((node.proof_at)(block.header.hash)->Ok_0, block.header.state_root) is Ok,
        (verdicts.storage)((node.proof_at)(block.header.hash)->Ok_0) is Ok,
        with_code && !names_no_code((node.proof_at)(block.header.hash)->Ok_0.code_hash)
            ==> node.code is Ok && (verdicts.code)(
            (node.proof_at)(block.header.hash)->Ok_0,
            node.code->Ok_0,
        ) is Ok,
    ensures
        ({
            let result = read_from_node(Ok(Some(block)), with_code, node, verdicts, ahead);
            let shown = (node.proof_at)(block.header.hash)->Ok_0;
            &&& result is Ok
            &&& !with_code ==> result->Ok_0.code is None
            &&& with_code && names_no_code(shown.code_hash) ==> result->Ok_0.code == Some(
                Seq::<u8>::empty(),
            )
            &&& with_code && !names_no_code(shown.code_hash) ==> result->Ok_0.code == Some(
                node.code->Ok_0,
            )
        }),
{
    let shown = (node.proof_at)(block.header.hash)->Ok_0;
    assert(names_no_code(shown.code_hash) == shown.is_without_code());
}

/// A reading fails with the first thing that went wrong: the block, the proof, its check, the
/// check of its slots, the code, the check of the code.
pub proof fn law_reading_fails_with_the_first_error(
    block: Result<Option<BlockView>, ErrorView>,
    with_code: bool,
    node: Node,
    verdicts: Verdicts,
    ahead: bool,
)
    ensures
        ({
            let result = read_from_node(block, with_code, node, verdicts, ahead);
            match block {
                Err(error) => result == Err::<AccountView, ErrorView>(error),
                Ok(None) => result == Err::<AccountView, ErrorView>(ErrorView::BlockNotFound),
                Ok(Some(b)) => match (node.proof_at)(b.header.hash) {
                    Err(error) => result == Err::<AccountView, ErrorView>(error),
                    Ok(shown) => {
                        let account = (verdicts.account)(shown, b.header.state_root);
                        let storage = (verdicts.storage)(shown);
                        &&& account is Err ==> result == Err::<AccountView, ErrorView>(
                            account->Err_0,
                        )
                        &&& account is Ok && storage is Err ==> result == Err::<
                            AccountView,
                            ErrorView,
                        >(storage->Err_0)
                        &&& account is Ok && storage is Ok && with_code && !names_no_code(
                            shown.code_hash,
                        ) ==> {
                            &&& node.code is Err ==> result == Err::<AccountView, ErrorView>(
                                node.code->Err_0,
                            )
                            &&& node.code is Ok && (verdicts.code)(shown, node.code->Ok_0) is Err
                                ==> result == Err::<AccountView, ErrorView>(
                                (verdicts.code)(shown, node.code->Ok_0)->Err_0,
                            )
                        }
                    },
                },
            }
        }),
{
    if let Ok(Some(b)) = block {
        if let Ok(shown) = (node.proof_at)(b.header.hash) {
            assert(names_no_code(shown.code_hash) == shown.is_without_code());
        }
    }
}

/// The steps of a reading: the proof is asked for at the block's hash and checked against its
/// state root; what is asked for ahead is handed on as it came; code is asked for once more only
/// where it was not asked for ahead, and is checked before it is used.
pub proof fn law_reading_goes_step_by_step(
    block: BlockView,
    with_code: bool,
    state_root: B256,
    shown: AccountProofView,
    speculative: Option<Result<Seq<u8>, ErrorView>>,
    code: Seq<u8>,
)
    ensures
        after_block(Ok(Some(block)), with_code) == (ReadStepView::AskProof {
            block_hash: block.header.hash,
            state_root: block.header.state_root,
            with_code,
        }),
        after_proof(state_root, Ok(shown), speculative) == (ReadStepView::CheckProof {
            proof: shown,
            state_root,
            speculative,
        }),
        with_code && !names_no_code(shown.code_hash) ==> match speculative {
            None => after_proof_check(with_code, shown, Ok(()), Ok(()), speculative)
                == (ReadStepView::AskCode { proof: shown }),
            Some(Ok(ahead)) => after_proof_check(with_code, shown, Ok(()), Ok(()), speculative)
                == (ReadStepView::CheckCode { proof: shown, code: ahead }),
            Some(Err(error)) => after_proof_check(with_code, shown, Ok(()), Ok(()), speculative)
                == ReadStepView::Done(Err(error)),
        },
        after_code(shown, Ok(code)) == (ReadStepView::CheckCode { proof: shown, code }),
        after_code_check(shown, code, Ok(())) is Ok,
        after_code_check(shown, code, Ok(()))->Ok_0.code == Some(code),
        after_code_check(shown, code, Ok(()))->Ok_0.account.balance == shown.balance,
{
    assert(names_no_code(shown.code_hash) == shown.is_without_code());
}

/// A recent block is the answer, and so is the failure to look for it. Older blocks are looked
/// up exactly where there is a source of them, no recent block was found, and the block is named
/// by its hash or its number.
pub proof fn law_older_blocks_are_asked_exactly(
    recent: Result<Option<BlockView>, ErrorView>,
    has_historical: bool,
    block_id: BlockId,
)
    ensures
        recent is Err || (recent is Ok && recent->Ok_0 is Some) || !has_historical ==> after_recent(
            recent,
            has_historical,
            block_id,
        ) == BlockStepView::Done(recent),
        recent is Ok && recent->Ok_0 is None && has_historical ==> match block_id {
            BlockId::Hash(_) => after_recent(recent, has_historical, block_id) is AskHistorical,
            BlockId::Number(BlockNumberOrTag::Number(_)) => after_recent(
                recent,
                has_historical,
                block_id,
            ) is AskHistorical,
            BlockId::Number(_) => after_recent(recent, has_historical, block_id)
                == BlockStepView::Done(recent),
        },
{
}

/// A transaction is looked for in the block that it says it is in, by its own hash; one that is
/// in none is an error, and one that is not there is none.
pub proof fn law_transaction_is_looked_for_in_its_block(tx: TransactionView, error: ErrorView)
    ensures
        after_transaction(Ok(None)) == TransactionStepView::Done(Ok(None)),
        after_transaction(Err(error)) == TransactionStepView::Done(Err(error)),
        match tx.block_hash {
            Some(hash) => after_transaction(Ok(Some(tx))) == (TransactionStepView::AskBlock {
                block_hash: hash,
                tx_hash: tx.hash,
            }),
            None => after_transaction(Ok(Some(tx))) == TransactionStepView::Done(
                Err(ErrorView::BlockNotFound),
            ),
        },
{
}

/// What is found is the first of its hash: where one of a block's transactions has the hash and
/// none before it has, it is that one.
pub proof fn law_first_transaction_is_found(txs: Seq<TransactionView>, hash: B256, at: int)
    requires
        0 <= at < txs.len(),
        txs[at].hash == hash,
        forall|i: int| 0 <= i < at ==> (#[trigger] txs[i]).hash != hash,
    ensures
        first_with_hash(txs, hash) == Some(txs[at]),
    decreases at,
{
    if at > 0 {
        let rest = txs.drop_first();
        assert(rest[at - 1] == txs[at]);
        assert(txs[0].hash != hash);
        assert forall|i: int| 0 <= i < at - 1 implies (#[trigger] rest[i]).hash != hash by {
            assert(rest[i] == txs[i + 1]);
        }
        law_first_transaction_is_found(rest, hash, at - 1);
    }
}

/// What is found is the first of its transaction: where one of a block's receipts is of it and
/// none before it is, it is that one.
pub proof fn law_first_receipt_is_found(receipts: Seq<ReceiptView>, hash: B256, at: int)
    requires
        0 <= at < receipts.len(),
        receipts[at].transaction_hash == hash,
        forall|i: int| 0 <= i < at ==> (#[trigger] receipts[i]).transaction_hash != hash,
    ensures
        first_receipt_of(receipts, hash) == Some(receipts[at]),
    decreases at,
{
    if at > 0 {
        let rest = receipts.drop_first();
        assert(rest[at - 1] == receipts[at]);
        assert(receipts[0].transaction_hash != hash);
        assert forall|i: int| 0 <= i < at - 1 implies (#[trigger] rest[i]).transaction_hash
            != hash by {
            assert(rest[i] == receipts[i + 1]);
        }
        law_first_receipt_is_found(rest, hash, at - 1);
    }
}

/// A number stands for itself, the latest and the finalized block for the number of the block
/// that is found for them, no name for the latest block, and any other tag for nothing.
pub proof fn law_block_numbers_are_resolved(
    number: u64,
    asked: Result<Option<BlockView>, ErrorView>,
    tag: BlockNumberOrTag,
)
    ensures
        resolved_number(Some(BlockNumberOrTag::Number(number)), asked) == Ok::<u64, ErrorView>(
            number,
        ),
        number_plan(Some(BlockNumberOrTag::Number(number))) == NumberPlan::Known(number),
        number_plan(None) == NumberPlan::Ask(BlockNumberOrTag::Latest),
        number_plan(Some(BlockNumberOrTag::Latest)) == NumberPlan::Ask(BlockNumberOrTag::Latest),
        number_plan(Some(BlockNumberOrTag::Finalized)) == NumberPlan::Ask(
            BlockNumberOrTag::Finalized,
        ),
        tag is Safe || tag is Earliest || tag is Pending ==> number_plan(Some(tag))
            is Refused && resolved_number(Some(tag), asked) == Err::<u64, ErrorView>(
            ErrorView::BlockNotFound,
        ),
        match asked {
            Ok(Some(block)) => {
                &&& resolved_number(None, asked) == Ok::<u64, ErrorView>(block.header.number)
                &&& resolved_number(Some(BlockNumberOrTag::Latest), asked) == Ok::<u64, ErrorView>(
                    block.header.number,
                )
                &&& resolved_number(Some(BlockNumberOrTag::Finalized), asked) == Ok::<
                    u64,
                    ErrorView,
                >(block.header.number)
            },
            Ok(None) => {
                &&& resolved_number(None, asked) == Err::<u64, ErrorView>(ErrorView::BlockNotFound)
                &&& resolved_number(Some(BlockNumberOrTag::Latest), asked) == Err::<
                    u64,
                    ErrorView,
                >(ErrorView::BlockNotFound)
                &&& resolved_number(Some(BlockNumberOrTag::Finalized), asked) == Err::<
                    u64,
                    ErrorView,
                >(ErrorView::BlockNotFound)
            },
            Err(error) => {
                &&& resolved_number(None, asked) == Err::<u64, ErrorView>(error)
                &&& resolved_number(Some(BlockNumberOrTag::Latest), asked) == Err::<
                    u64,
                    ErrorView,
                >(error)
                &&& resolved_number(Some(BlockNumberOrTag::Finalized), asked) == Err::<
                    u64,
                    ErrorView,
                >(error)
            },
        },
{
}

/// The ends of a range become their numbers, each in its place; a filter by hash stays as it is.
pub proof fn law_range_keeps_its_ends(
    from_block: Option<BlockNumberOrTag>,
    to_block: Option<BlockNumberOrTag>,
    hash: B256,
    from: u64,
    to: u64,
)
    ensures
        resolved_option(FilterBlockOption::Range { from_block, to_block }, from, to) == (
        FilterBlockOption::Range {
            from_block: Some(BlockNumberOrTag::Number(from)),
            to_block: Some(BlockNumberOrTag::Number(to)),
        }),
        resolved_option(FilterBlockOption::AtBlockHash(hash), from, to)
            == FilterBlockOption::AtBlockHash(hash),
{
}

/// What accounts, proofs and errors say are their fields, all of them.
pub proof fn law_account_views_hold_every_field(
    account: Account,
    shown: AccountProof,
    slot: StorageProof,
    bytes: Bytes,
)
    ensures
        bytes@ == bytes.data@,
        account@.account == account.account,
        account.code matches Some(code) ==> account@.code == Some(code.data@),
        account.code is None ==> account@.code is None,
        account@.account_proof.len() == account.account_proof@.len(),
        forall|i: int|
            0 <= i < account.account_proof@.len() ==> (#[trigger] account@.account_proof[i])
                == account.account_proof@[i].data@,
        account@.storage_proof.len() == account.storage_proof@.len(),
        forall|i: int|
            0 <= i < account.storage_proof@.len() ==> (#[trigger] account@.storage_proof[i])
                == account.storage_proof@[i]@,
        slot@.key == slot.key,
        slot@.value == slot.value,
        slot@.proof.len() == slot.proof@.len(),
        forall|i: int|
            0 <= i < slot.proof@.len() ==> (#[trigger] slot@.proof[i]) == slot.proof@[i].data@,
        shown@.nonce == shown.nonce,
        shown@.balance == shown.balance,
        shown@.storage_hash == shown.storage_hash,
        shown@.code_hash == shown.code_hash,
        shown@.account_proof.len() == shown.account_proof@.len(),
        forall|i: int|
            0 <= i < shown.account_proof@.len() ==> (#[trigger] shown@.account_proof[i])
                == shown.account_proof@[i].data@,
        shown@.storage_proof.len() == shown.storage_proof@.len(),
        forall|i: int|
            0 <= i < shown.storage_proof@.len() ==> (#[trigger] shown@.storage_proof[i])
                == shown.storage_proof@[i]@,
{
}

/// What errors say: each kind is itself, with what it carries.
pub proof fn law_errors_are_told_apart(error: ProviderError)
    ensures
        error is BlockNotFound <==> error@ is BlockNotFound,
        error is ReceiptNotFound <==> error@ is ReceiptNotFound,
        error is ReceiptFetchFailed <==> error@ is ReceiptFetchFailed,
        error is MissingLog <==> error@ is MissingLog,
        error is Reported <==> error@ is Reported,
        error is MissingLog ==> error->tx_hash == error@->tx_hash && error->log_index
            == error@->log_index,
        error matches ProviderError::Reported(text) ==> error@ == ErrorView::Reported(text@),
{
}

/// What a step of a reading says is the step, with what it carries.
pub proof fn law_read_steps_are_told_apart(step: ReadStep)
    ensures
        match step {
            ReadStep::AskProof { block_hash, state_root, with_code } => step@
                == (ReadStepView::AskProof { block_hash, state_root, with_code }),
            ReadStep::CheckProof { proof: shown, state_root, speculative } => match step@ {
                ReadStepView::CheckProof { proof: seen, state_root: root, speculative: ahead } => {
                    &&& seen == shown@
                    &&& root == state_root
                    &&& match speculative {
                        None => ahead is None,
                        Some(Ok(code)) => ahead == Some(Ok::<Seq<u8>, ErrorView>(code@)),
                        Some(Err(error)) => ahead == Some(Err::<Seq<u8>, ErrorView>(error@)),
                    }
                },
                _ => false,
            },
            ReadStep::AskCode { proof: shown } => step@ == (ReadStepView::AskCode { proof: shown@ }),
            ReadStep::CheckCode { proof: shown, code } => step@ == (ReadStepView::CheckCode {
                proof: shown@,
                code: code@,
            }),
            ReadStep::Done(Ok(account)) => step@ == ReadStepView::Done(Ok(account@)),
            ReadStep::Done(Err(error)) => step@ == ReadStepView::Done(Err(error@)),
        },
{
}

/// What the steps towards a block and a transaction say is the step, with what it carries.
pub proof fn law_search_steps_are_told_apart(block: BlockStep, tx: TransactionStep)
    ensures
        match block {
            BlockStep::AskHistorical => block@ is AskHistorical,
            BlockStep::Done(Ok(Some(b))) => block@ == BlockStepView::Done(Ok(Some(b@))),
            BlockStep::Done(Ok(None)) => block@ == BlockStepView::Done(Ok(None)),
            BlockStep::Done(Err(error)) => block@ == BlockStepView::Done(Err(error@)),
        },
        match tx {
            TransactionStep::AskBlock { block_hash, tx_hash } => tx@
                == (TransactionStepView::AskBlock { block_hash, tx_hash }),
            TransactionStep::Done(Ok(Some(t))) => tx@ == TransactionStepView::Done(Ok(Some(t@))),
            TransactionStep::Done(Ok(None)) => tx@ == TransactionStepView::Done(Ok(None)),
            TransactionStep::Done(Err(error)) => tx@ == TransactionStepView::Done(Err(error@)),
        },
{
}

/// What results say is their value or their error.
pub proof fn law_results_say_what_they_hold(
    viewed: Result<Account, ProviderError>,
    plain: Result<u64, ProviderError>,
)
    ensures
        viewed matches Ok(account) ==> result_view(viewed) == Ok::<AccountView, ErrorView>(account@),
        viewed matches Err(error) ==> result_view(viewed) == Err::<AccountView, ErrorView>(error@),
        plain matches Ok(number) ==> plain_result(plain) == Ok::<u64, ErrorView>(number),
        plain matches Err(error) ==> plain_result(plain) == Err::<u64, ErrorView>(error@),
{
}

} // verus!
