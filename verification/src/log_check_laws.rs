//! When logs can be checked and how the check comes out, case by case.
use crate::error::ErrorView;
use crate::logs::{
    checkable, encodings, flattened, index_of, named_blocks, outcome, rlp_of_log, Log, LogView,
    Receipt, ReceiptView,
};
use vstd::prelude::*;

verus! {

/// The index has the log, encoded, among those of its transaction.
pub open spec fn is_known(
    log: LogView,
    bytes: Seq<u8>,
    index: Map<(u128, u128), Seq<Seq<u8>>>,
) -> bool {
    match log.transaction_hash {
        Some(hash) => index.contains_key((hash.hi, hash.lo)) && index[(
            hash.hi,
            hash.lo,
        )].contains(bytes),
        None => false,
    }
}

/// Logs that are all known can be checked, and pass.
pub proof fn law_known_logs_pass(
    logs: Seq<LogView>,
    encoded: Seq<Seq<u8>>,
    index: Map<(u128, u128), Seq<Seq<u8>>>,
)
    requires
        encoded.len() == logs.len(),
        forall|i: int| 0 <= i < logs.len() ==> is_known(#[trigger] logs[i], encoded[i], index),
    ensures
        checkable(logs, encoded, index),
        outcome(logs, encoded, index) is Ok,
    decreases logs.len(),
{
    if logs.len() > 0 {
        assert(is_known(logs[0], encoded[0], index));
        let rest = logs.drop_first();
        let bytes = encoded.drop_first();
        assert forall|i: int| 0 <= i < rest.len() implies is_known(
            #[trigger] rest[i],
            bytes[i],
            index,
        ) by {
            assert(rest[i] == logs[i + 1]);
            assert(bytes[i] == encoded[i + 1]);
        }
        law_known_logs_pass(rest, bytes, index);
    }
}

/// The first log that is not known, of a transaction that is, is reported with its transaction
/// and its place.
pub proof fn law_first_unknown_log_is_reported(
    logs: Seq<LogView>,
    encoded: Seq<Seq<u8>>,
    index: Map<(u128, u128), Seq<Seq<u8>>>,
    at: int,
)
    requires
        encoded.len() == logs.len(),
        0 <= at < logs.len(),
        forall|i: int| 0 <= i < at ==> is_known(#[trigger] logs[i], encoded[i], index),
        logs[at].transaction_hash is Some,
        index.contains_key(
            (logs[at].transaction_hash->0.hi, logs[at].transaction_hash->0.lo),
        ),
        !is_known(logs[at], encoded[at], index),
        logs[at].log_index is Some,
    ensures
        checkable(logs, encoded, index),
        match outcome(logs, encoded, index) {
            Err(ErrorView::MissingLog { tx_hash, log_index }) => {
                &&& Some(tx_hash) == logs[at].transaction_hash
                &&& log_index.value() == logs[at].log_index->0
            },
            _ => false,
        },
    decreases at,
{
    if at > 0 {
        assert(is_known(logs[0], encoded[0], index));
        let rest = logs.drop_first();
        let bytes = encoded.drop_first();
        assert(rest[at - 1] == logs[at]);
        assert(bytes[at - 1] == encoded[at]);
        assert forall|i: int| 0 <= i < at - 1 implies is_known(
            #[trigger] rest[i],
            bytes[i],
            index,
        ) by {
            assert(rest[i] == logs[i + 1]);
            assert(bytes[i] == encoded[i + 1]);
        }
        law_first_unknown_log_is_reported(rest, bytes, index, at - 1);
    }
}

/// A first log that is not known cannot be judged where it names no transaction, or one that is
/// not in the index, or does not say where it stands.
pub proof fn law_log_that_says_too_little_is_not_judged(
    logs: Seq<LogView>,
    encoded: Seq<Seq<u8>>,
    index: Map<(u128, u128), Seq<Seq<u8>>>,
    at: int,
)
    requires
        encoded.len() == logs.len(),
        0 <= at < logs.len(),
        forall|i: int| 0 <= i < at ==> is_known(#[trigger] logs[i], encoded[i], index),
        !is_known(logs[at], encoded[at], index),
        logs[at].transaction_hash is None || logs[at].log_index is None || !index.contains_key(
            (logs[at].transaction_hash->0.hi, logs[at].transaction_hash->0.lo),
        ),
    ensures
        !checkable(logs, encoded, index),
    decreases at,
{
    if at > 0 {
        assert(is_known(logs[0], encoded[0], index));
        let rest = logs.drop_first();
        let bytes = encoded.drop_first();
        assert(rest[at - 1] == logs[at]);
        assert(bytes[at - 1] == encoded[at]);
        assert forall|i: int| 0 <= i < at - 1 implies is_known(
            #[trigger] rest[i],
            bytes[i],
            index,
        ) by {
            assert(rest[i] == logs[i + 1]);
            assert(bytes[i] == encoded[i + 1]);
        }
        law_log_that_says_too_little_is_not_judged(rest, bytes, index, at - 1);
    }
}

/// A log is encoded by its address, its topics and its data, and logs one by one.
pub proof fn law_logs_are_encoded_one_by_one(logs: Seq<LogView>, i: int)
    requires
        0 <= i < logs.len(),
    ensures
        encodings(logs).len() == logs.len(),
        encodings(logs)[i] == rlp_of_log(
            logs[i].address.hi,
            logs[i].address.lo,
            logs[i].topics,
            logs[i].data,
        ),
{
}

/// Of the receipts of one transaction that have logs the last one counts, with all its logs: the
/// transaction is the one that its first log names.
pub proof fn law_last_receipt_of_a_transaction_counts(receipts: Seq<ReceiptView>, at: int)
    requires
        0 <= at < receipts.len(),
        receipts[at].logs.len() > 0,
        forall|j: int|
            at < j < receipts.len() && (#[trigger] receipts[j]).logs.len() > 0
                ==> receipts[j].logs[0].transaction_hash->0
                != receipts[at].logs[0].transaction_hash->0,
    ensures
        ({
            let hash = receipts[at].logs[0].transaction_hash->0;
            let index = index_of(receipts);
            &&& index.contains_key((hash.hi, hash.lo))
            &&& index[(hash.hi, hash.lo)].len() == receipts[at].logs.len()
            &&& forall|k: int|
                0 <= k < receipts[at].logs.len() ==> (#[trigger] index[(hash.hi, hash.lo)][k])
                    == rlp_of_log(
                    receipts[at].logs[k].address.hi,
                    receipts[at].logs[k].address.lo,
                    receipts[at].logs[k].topics,
                    receipts[at].logs[k].data,
                )
        }),
    decreases receipts.len(),
{
    let front = receipts.drop_last();
    if at < receipts.len() - 1 {
        assert(front[at] == receipts[at]);
        assert forall|j: int|
            at < j < front.len() && (#[trigger] front[j]).logs.len()
                > 0 implies front[j].logs[0].transaction_hash->0
            != front[at].logs[0].transaction_hash->0 by {
            assert(front[j] == receipts[j]);
        }
        law_last_receipt_of_a_transaction_counts(front, at);
        assert(receipts[receipts.len() - 1] == receipts.last());
    }
}

/// The blocks whose receipts are needed are those that a log names, up to the latest one.
pub proof fn law_blocks_of_logs_are_those_they_name(logs: Seq<LogView>, latest: u64, number: u64)
    ensures
        named_blocks(logs, latest).contains(number) <==> number <= latest && exists|i: int|
            0 <= i < logs.len() && (#[trigger] logs[i]).block_number == Some(number),
{
}

/// The receipts of the blocks come one block after the other, each block's in their order; a
/// block without receipts adds none.
pub proof fn law_receipts_come_block_by_block(
    blocks: Seq<Option<Seq<ReceiptView>>>,
    receipts: Seq<ReceiptView>,
)
    ensures
        flattened(Seq::empty()) == Seq::<ReceiptView>::empty(),
        flattened(blocks.push(Some(receipts))) == flattened(blocks) + receipts,
        flattened(blocks.push(None)) == flattened(blocks),
{
    assert(blocks.push(Some(receipts)).drop_last() =~= blocks);
    assert(blocks.push(None).drop_last() =~= blocks);
}

/// What logs and receipts say are their fields, all of them.
pub proof fn law_log_views_hold_every_field(log: Log, receipt: Receipt)
    ensures
        log@.address == log.address,
        log@.topics == log.topics@,
        log@.data == log.data.data@,
        log@.block_number == log.block_number,
        log@.transaction_hash == log.transaction_hash,
        log@.log_index == log.log_index,
        log@.rest == log.rest.data@,
        receipt@.transaction_hash == receipt.transaction_hash,
        receipt@.block_hash == receipt.block_hash,
        receipt@.logs.len() == receipt.logs@.len(),
        forall|i: int|
            0 <= i < receipt.logs@.len() ==> (#[trigger] receipt@.logs[i]) == receipt.logs@[i]@,
        receipt@.rest == receipt.rest.data@,
{
}

} // verus!
