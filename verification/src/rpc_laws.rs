//! What holds of every reading from a node.
use crate::account::AccountView;
use crate::chain::{BlockView, TransactionView};
use crate::error::ErrorView;
use crate::logs::ReceiptView;
use crate::primitives::{BlockId, B256};
use crate::rpc_provider::{
    after_block, after_code, after_code_check, after_proof, after_proof_check, after_recent,
    first_receipt_of, first_with_hash, AccountProofView, ReadStepView,
};
use vstd::prelude::*;

verus! {

/// How a node answers for one account.
pub ghost struct Node {
    /// The proof at the block of a hash.
    pub proof_at: spec_fn(B256) -> Result<AccountProofView, ErrorView>,
    pub code: Result<Seq<u8>, ErrorView>,
}

/// The verdicts on what a node says.
pub ghost struct Verdicts {
    /// Whether a proof shows the account under a state root.
    pub account: spec_fn(AccountProofView, B256) -> Result<(), ErrorView>,
    /// Whether a proof shows its slots.
    pub storage: spec_fn(AccountProofView) -> Result<(), ErrorView>,
    /// Whether code is the code of the account.
    pub code: spec_fn(AccountProofView, Seq<u8>) -> Result<(), ErrorView>,
}

/// The end of a reading whose code is there to be checked.
pub open spec fn with_code_checked(step: ReadStepView, node: Node, verdicts: Verdicts) -> Result<
    AccountView,
    ErrorView,
> {
    match step {
        ReadStepView::Done(result) => result,
        ReadStepView::CheckCode { proof, code } => after_code_check(
            proof,
            code,
            (verdicts.code)(proof, code),
        ),
        ReadStepView::AskCode { proof } => match after_code(proof, node.code) {
            ReadStepView::CheckCode { proof, code } => after_code_check(
                proof,
                code,
                (verdicts.code)(proof, code),
            ),
            ReadStepView::Done(result) => result,
            _ => arbitrary(),
        },
        _ => arbitrary(),
    }
}

/// A reading from its block to its end, with the code asked for ahead or only when it is known
/// to be needed.
pub open spec fn read_from_node(
    block: Result<Option<BlockView>, ErrorView>,
    with_code: bool,
    node: Node,
    verdicts: Verdicts,
    ahead: bool,
) -> Result<AccountView, ErrorView> {
    match after_block(block, with_code) {
        ReadStepView::Done(result) => result,
        ReadStepView::AskProof { block_hash, state_root, with_code } => {
            let speculative = if with_code && ahead {
                Some(node.code)
            } else {
                None
            };
            match after_proof(state_root, (node.proof_at)(block_hash), speculative) {
                ReadStepView::Done(result) => result,
                ReadStepView::CheckProof { proof, state_root, speculative } => with_code_checked(
                    after_proof_check(
                        with_code,
                        proof,
                        (verdicts.account)(proof, state_root),
                        (verdicts.storage)(proof),
                        speculative,
                    ),
                    node,
                    verdicts,
                ),
                _ => arbitrary(),
            }
        },
        _ => arbitrary(),
    }
}

/// Nothing unchecked comes out: an account is answered only where its proof and those of its
/// slots passed the check against the block, and its code is what the node gave and passed the
/// check against the proof, or is empty where the proof says that there is none.
pub proof fn law_answers_are_checked(
    block: Result<Option<BlockView>, ErrorView>,
    with_code: bool,
    node: Node,
    verdicts: Verdicts,
    ahead: bool,
)
    requires
        read_from_node(block, with_code, node, verdicts, ahead) is Ok,
    ensures
        block is Ok && block->Ok_0 is Some,
        ({
            let account = read_from_node(block, with_code, node, verdicts, ahead)->Ok_0;
            let header = block->Ok_0->0.header;
            let answer = (node.proof_at)(header.hash);
            let shown = answer->Ok_0;
            &&& answer is Ok
            &&& (verdicts.account)(shown, header.state_root) is Ok
            &&& (verdicts.storage)(shown) is Ok
            &&& account == shown.account(account.code)
            &&& account.code is Some <==> with_code
            &&& account.code matches Some(code) ==> if shown.is_without_code() {
                code == Seq::<u8>::empty()
            } else {
                (verdicts.code)(shown, code) is Ok && node.code == Ok::<Seq<u8>, ErrorView>(code)
            }
        }),
{
}

/// To ask for the code ahead changes no answer.
pub proof fn law_asking_ahead_changes_nothing(
    block: Result<Option<BlockView>, ErrorView>,
    with_code: bool,
    node: Node,
    verdicts: Verdicts,
)
    ensures
        read_from_node(block, with_code, node, verdicts, true) == read_from_node(
            block,
            with_code,
            node,
            verdicts,
            false,
        ),
{
}

/// What the node answers for the code of an account that has none does not matter, nor whether
/// that answer is an error.
pub proof fn law_code_of_no_code_does_not_matter(
    block: BlockView,
    with_code: bool,
    node: Node,
    other_code: Result<Seq<u8>, ErrorView>,
    verdicts: Verdicts,
    ahead: bool,
)
    requires
        (node.proof_at)(block.header.hash) matches Ok(shown) ==> shown.is_without_code(),
    ensures
        read_from_node(Ok(Some(block)), with_code, node, verdicts, ahead) == read_from_node(
            Ok(Some(block)),
            with_code,
            Node { code: other_code, ..node },
            verdicts,
            ahead,
        ),
{
}

/// A block named by a tag is never looked up among the older blocks, and a block that is among
/// the recent ones is never looked up elsewhere.
pub proof fn law_older_blocks_are_the_last_resort(
    recent: Result<Option<BlockView>, ErrorView>,
    has_historical: bool,
    block_id: BlockId,
)
    ensures
        after_recent(recent, has_historical, block_id) is AskHistorical ==> {
            &&& has_historical
            &&& recent == Ok::<Option<BlockView>, ErrorView>(None)
            &&& block_id matches BlockId::Number(tag) ==> tag is Number
        },
{
}

/// The transaction that is found in a block is one of the block and has the hash; none is found
/// only where none has it.
pub proof fn law_found_transaction_is_of_the_block(txs: Seq<TransactionView>, hash: B256)
    ensures
        match first_with_hash(txs, hash) {
            Some(tx) => tx.hash == hash && txs.contains(tx),
            None => forall|i: int| 0 <= i < txs.len() ==> (#[trigger] txs[i]).hash != hash,
        },
    decreases txs.len(),
{
    if txs.len() > 0 {
        if txs[0].hash == hash {
            assert(txs.contains(txs[0]));
        } else {
            let rest = txs.drop_first();
            law_found_transaction_is_of_the_block(rest, hash);
            match first_with_hash(rest, hash) {
                Some(tx) => {
                    let i = choose|i: int| 0 <= i < rest.len() && rest[i] == tx;
                    assert(txs[i + 1] == tx);
                },
                None => {
                    assert forall|i: int| 0 <= i < txs.len() implies (#[trigger] txs[i]).hash
                        != hash by {
                        if i > 0 {
                            assert(rest[i - 1] == txs[i]);
                        }
                    }
                },
            }
        }
    }
}

/// The receipt that is found among those of a block is one of them and is of the transaction;
/// none is found only where none is of it.
pub proof fn law_found_receipt_is_of_the_block(receipts: Seq<ReceiptView>, hash: B256)
    ensures
        match first_receipt_of(receipts, hash) {
            Some(receipt) => receipt.transaction_hash == hash && receipts.contains(receipt),
            None => forall|i: int|
                0 <= i < receipts.len() ==> (#[trigger] receipts[i]).transaction_hash != hash,
        },
    decreases receipts.len(),
{
    if receipts.len() > 0 {
        if receipts[0].transaction_hash == hash {
            assert(receipts.contains(receipts[0]));
        } else {
            let rest = receipts.drop_first();
            law_found_receipt_is_of_the_block(rest, hash);
            match first_receipt_of(rest, hash) {
                Some(receipt) => {
                    let i = choose|i: int| 0 <= i < rest.len() && rest[i] == receipt;
                    assert(receipts[i + 1] == receipt);
                },
                None => {
                    assert forall|i: int| 0 <= i < receipts.len() implies (
                    #[trigger] receipts[i]).transaction_hash != hash by {
                        if i > 0 {
                            assert(rest[i - 1] == receipts[i]);
                        }
                    }
                },
            }
        }
    }
}

} // verus!
