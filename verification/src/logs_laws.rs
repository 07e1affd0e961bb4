//! What a check of logs against receipts shows.
use crate::error::ErrorView;
use crate::logs::{
    checkable, encodings, index_of, indexable, outcome, LogView, ReceiptView,
};
use crate::primitives::U256;
use vstd::prelude::*;

verus! {

/// The transaction that a receipt with logs is of, as its first log says.
pub open spec fn transaction_of(receipt: ReceiptView) -> (u128, u128) {
    receipt.logs[0].transaction_hash->0.pair()
}

/// Each entry of an index comes from a receipt of that transaction.
pub proof fn law_index_holds_receipts(receipts: Seq<ReceiptView>, key: (u128, u128))
    requires
        index_of(receipts).contains_key(key),
    ensures
        exists|i: int|
            {
                &&& 0 <= i < receipts.len()
                &&& (#[trigger] receipts[i]).logs.len() > 0
                &&& transaction_of(receipts[i]) == key
                &&& index_of(receipts)[key] == encodings(receipts[i].logs)
            },
    decreases receipts.len(),
{
    let front = receipts.drop_last();
    let last = receipts.last();
    assert(receipts[receipts.len() - 1] == last);
    if last.logs.len() == 0 || transaction_of(last) != key {
        law_index_holds_receipts(front, key);
        let i = choose|i: int|
            {
                &&& 0 <= i < front.len()
                &&& (#[trigger] front[i]).logs.len() > 0
                &&& transaction_of(front[i]) == key
                &&& index_of(front)[key] == encodings(front[i].logs)
            };
        assert(receipts[i] == front[i]);
    }
}

/// Each receipt with logs has an entry in the index.
pub proof fn law_receipts_are_indexed(receipts: Seq<ReceiptView>, i: int)
    requires
        0 <= i < receipts.len(),
        receipts[i].logs.len() > 0,
    ensures
        index_of(receipts).contains_key(transaction_of(receipts[i])),
    decreases receipts.len(),
{
    if i < receipts.len() - 1 {
        assert(receipts.drop_last()[i] == receipts[i]);
        law_receipts_are_indexed(receipts.drop_last(), i);
    }
}

/// No two receipts with logs are of one transaction.
pub open spec fn one_receipt_each(receipts: Seq<ReceiptView>) -> bool {
    forall|i: int, j: int|
        #![trigger receipts[i], receipts[j]]
        0 <= i < receipts.len() && 0 <= j < receipts.len() && receipts[i].logs.len() > 0
            && receipts[j].logs.len() > 0 && transaction_of(receipts[i]) == transaction_of(
            receipts[j],
        ) ==> receipts[i] == receipts[j]
}

/// In which order the blocks' receipts come in does not matter where each transaction has one
/// receipt: two lists of the same receipts have the same index.
pub proof fn law_order_of_receipts_does_not_matter(
    receipts: Seq<ReceiptView>,
    others: Seq<ReceiptView>,
)
    requires
        one_receipt_each(receipts),
        forall|r: ReceiptView| #[trigger] receipts.contains(r) <==> others.contains(r),
    ensures
        index_of(receipts) == index_of(others),
{
    let one = index_of(receipts);
    let two = index_of(others);
    assert forall|key: (u128, u128)| #[trigger] one.contains_key(key) implies two.contains_key(
        key,
    ) by {
        law_index_holds_receipts(receipts, key);
        let i = choose|i: int|
            0 <= i < receipts.len() && (#[trigger] receipts[i]).logs.len() > 0 && transaction_of(
                receipts[i],
            ) == key && one[key] == encodings(receipts[i].logs);
        assert(receipts.contains(receipts[i]));
        assert(others.contains(receipts[i]));
        let j = choose|j: int| 0 <= j < others.len() && others[j] == receipts[i];
        law_receipts_are_indexed(others, j);
    }
    assert forall|key: (u128, u128)| #[trigger] two.contains_key(key) implies one.contains_key(key)
        && one[key] == two[key] by {
        law_index_holds_receipts(others, key);
        let j = choose|j: int|
            0 <= j < others.len() && (#[trigger] others[j]).logs.len() > 0 && transaction_of(
                others[j],
            ) == key && two[key] == encodings(others[j].logs);
        assert(others.contains(others[j]));
        assert(receipts.contains(others[j]));
        let k = choose|k: int| 0 <= k < receipts.len() && receipts[k] == others[j];
        law_receipts_are_indexed(receipts, k);
        law_index_holds_receipts(receipts, key);
        let i = choose|i: int|
            0 <= i < receipts.len() && (#[trigger] receipts[i]).logs.len() > 0 && transaction_of(
                receipts[i],
            ) == key && one[key] == encodings(receipts[i].logs);
        assert(receipts[i] == receipts[k]);
    }
    assert(one =~= two);
}

/// The check passes exactly where each log, encoded, is among the logs of its transaction.
pub proof fn law_check_passes_for_known_logs(
    logs: Seq<LogView>,
    encoded: Seq<Seq<u8>>,
    index: Map<(u128, u128), Seq<Seq<u8>>>,
)
    requires
        encoded.len() == logs.len(),
        checkable(logs, encoded, index),
    ensures
        outcome(logs, encoded, index) is Ok <==> forall|i: int|
            0 <= i < logs.len() ==> index[(
            #[trigger] logs[i]).transaction_hash->0.pair()].contains(encoded[i]),
    decreases logs.len(),
{
    if logs.len() > 0 {
        let rest = logs.drop_first();
        let bytes = encoded.drop_first();
        if index[logs[0].transaction_hash->0.pair()].contains(encoded[0]) {
            law_check_passes_for_known_logs(rest, bytes, index);
            if outcome(rest, bytes, index) is Ok {
                assert forall|i: int| 0 <= i < logs.len() implies index[(
                #[trigger] logs[i]).transaction_hash->0.pair()].contains(encoded[i]) by {
                    if i > 0 {
                        assert(rest[i - 1] == logs[i]);
                        assert(bytes[i - 1] == encoded[i]);
                    }
                }
            } else {
                let k = choose|k: int|
                    0 <= k < rest.len() && !index[(
                    #[trigger] rest[k]).transaction_hash->0.pair()].contains(bytes[k]);
                assert(rest[k] == logs[k + 1]);
                assert(bytes[k] == encoded[k + 1]);
            }
        } else {
            assert(!index[(logs[0]).transaction_hash->0.pair()].contains(encoded[0]));
        }
    }
}

proof fn lemma_checked_logs_have_entries(
    logs: Seq<LogView>,
    encoded: Seq<Seq<u8>>,
    index: Map<(u128, u128), Seq<Seq<u8>>>,
    at: int,
)
    requires
        encoded.len() == logs.len(),
        checkable(logs, encoded, index),
        outcome(logs, encoded, index) is Ok,
        0 <= at < logs.len(),
    ensures
        logs[at].transaction_hash is Some,
        index.contains_key(logs[at].transaction_hash->0.pair()),
    decreases logs.len(),
{
    if at > 0 {
        assert(logs.drop_first()[at - 1] == logs[at]);
        lemma_checked_logs_have_entries(
            logs.drop_first(),
            encoded.drop_first(),
            index,
            at - 1,
        );
    }
}

/// A log that passed the check against receipts stands, encoded the same, in a receipt of the
/// transaction that it names.
pub proof fn law_verified_logs_stand_in_receipts(
    logs: Seq<LogView>,
    receipts: Seq<ReceiptView>,
    at: int,
)
    requires
        indexable(receipts),
        checkable(logs, encodings(logs), index_of(receipts)),
        outcome(logs, encodings(logs), index_of(receipts)) is Ok,
        0 <= at < logs.len(),
    ensures
        exists|i: int, j: int|
            {
                &&& 0 <= i < receipts.len()
                &&& 0 <= j < receipts[i].logs.len()
                &&& receipts[i].logs[0].transaction_hash == logs[at].transaction_hash
                &&& (#[trigger] receipts[i].logs[j]).encoding() == logs[at].encoding()
            },
{
    let index = index_of(receipts);
    let bytes = encodings(logs);
    let hash = logs[at].transaction_hash->0;
    law_check_passes_for_known_logs(logs, bytes, index);
    lemma_checked_logs_have_entries(logs, bytes, index, at);
    law_index_holds_receipts(receipts, hash.pair());
    let i = choose|i: int|
        0 <= i < receipts.len() && (#[trigger] receipts[i]).logs.len() > 0 && transaction_of(
            receipts[i],
        ) == hash.pair() && index[hash.pair()] == encodings(receipts[i].logs);
    assert(index[hash.pair()].contains(bytes[at]));
    let j = choose|j: int|
        0 <= j < index[hash.pair()].len() && index[hash.pair()][j] == bytes[at];
    assert(encodings(receipts[i].logs)[j] == receipts[i].logs[j].encoding());
    assert(receipts[i].logs[j].encoding() == logs[at].encoding());
}

/// A log that is reported missing is one of the logs, and is not among those of its
/// transaction; all logs before it are.
pub proof fn law_reported_log_is_missing(
    logs: Seq<LogView>,
    encoded: Seq<Seq<u8>>,
    index: Map<(u128, u128), Seq<Seq<u8>>>,
)
    requires
        encoded.len() == logs.len(),
        checkable(logs, encoded, index),
        outcome(logs, encoded, index) is Err,
    ensures
        exists|at: int|
            {
                &&& 0 <= at < logs.len()
                &&& logs[at].transaction_hash is Some
                &&& logs[at].log_index is Some
                &&& !index[(#[trigger] logs[at]).transaction_hash->0.pair()].contains(encoded[at])
                &&& forall|k: int|
                    0 <= k < at ==> index[(
                    #[trigger] logs[k]).transaction_hash->0.pair()].contains(encoded[k])
                &&& outcome(logs, encoded, index)->Err_0 == (ErrorView::MissingLog {
                    tx_hash: logs[at].transaction_hash->0,
                    log_index: U256 { hi: 0, lo: logs[at].log_index->0 as u128 },
                })
            },
    decreases logs.len(),
{
    if index[logs[0].transaction_hash->0.pair()].contains(encoded[0]) {
        let rest = logs.drop_first();
        let bytes = encoded.drop_first();
        law_reported_log_is_missing(rest, bytes, index);
        let at = choose|at: int|
            {
                &&& 0 <= at < rest.len()
                &&& rest[at].transaction_hash is Some
                &&& rest[at].log_index is Some
                &&& !index[(#[trigger] rest[at]).transaction_hash->0.pair()].contains(bytes[at])
                &&& forall|k: int|
                    0 <= k < at ==> index[(
                    #[trigger] rest[k]).transaction_hash->0.pair()].contains(bytes[k])
                &&& outcome(rest, bytes, index)->Err_0 == (ErrorView::MissingLog {
                    tx_hash: rest[at].transaction_hash->0,
                    log_index: U256 { hi: 0, lo: rest[at].log_index->0 as u128 },
                })
            };
        assert(rest[at] == logs[at + 1]);
        assert(bytes[at] == encoded[at + 1]);
        assert forall|k: int| 0 <= k < at + 1 implies index[(
        #[trigger] logs[k]).transaction_hash->0.pair()].contains(encoded[k]) by {
            if k > 0 {
                assert(rest[k - 1] == logs[k]);
                assert(bytes[k - 1] == encoded[k]);
            }
        }
        assert(!index[logs[at + 1].transaction_hash->0.pair()].contains(encoded[at + 1]));
    } else {
        assert(!index[logs[0].transaction_hash->0.pair()].contains(encoded[0]));
    }
}

} // verus!
