//! Receipts, and whether logs are among those that the receipts prove.
use crate::error::{plain_result, ErrorView, ProviderError};
use crate::primitives::{views, Address, Bytes, B256, U256};
use std::collections::BTreeMap;
use vstd::prelude::*;

verus! {

broadcast use {vstd::laws_cmp::group_laws_cmp, vstd::std_specs::btree::group_btree_axioms};

/// A log: what was emitted, where it stands, and the rest of it encoded.
#[derive(Debug)]
pub struct Log {
    pub address: Address,
    pub topics: Vec<B256>,
    pub data: Bytes,
    pub block_number: Option<u64>,
    pub transaction_hash: Option<B256>,
    pub log_index: Option<u64>,
    pub rest: Bytes,
}

/// What a log says.
pub ghost struct LogView {
    pub address: Address,
    pub topics: Seq<B256>,
    pub data: Seq<u8>,
    pub block_number: Option<u64>,
    pub transaction_hash: Option<B256>,
    pub log_index: Option<u64>,
    pub rest: Seq<u8>,
}

impl View for Log {
    type V = LogView;

    open spec fn view(&self) -> LogView {
        LogView {
            address: self.address,
            topics: self.topics@,
            data: self.data@,
            block_number: self.block_number,
            transaction_hash: self.transaction_hash,
            log_index: self.log_index,
            rest: self.rest@,
        }
    }
}

impl Clone for Log {
    fn clone(&self) -> (r: Self)
        ensures
            r@ == self@,
    {
        let topics = self.topics.clone();
        assert(topics@ =~= self.topics@);
        Log {
            address: self.address,
            topics,
            data: self.data.clone(),
            block_number: self.block_number,
            transaction_hash: self.transaction_hash,
            log_index: self.log_index,
            rest: self.rest.clone(),
        }
    }
}

/// The receipt of a transaction: its logs, and the rest of it encoded.
#[derive(Debug)]
pub struct Receipt {
    pub transaction_hash: B256,
    pub block_hash: Option<B256>,
    pub logs: Vec<Log>,
    pub rest: Bytes,
}

/// What a receipt says.
pub ghost struct ReceiptView {
    pub transaction_hash: B256,
    pub block_hash: Option<B256>,
    pub logs: Seq<LogView>,
    pub rest: Seq<u8>,
}

impl View for Receipt {
    type V = ReceiptView;

    open spec fn view(&self) -> ReceiptView {
        ReceiptView {
            transaction_hash: self.transaction_hash,
            block_hash: self.block_hash,
            logs: views(self.logs@),
            rest: self.rest@,
        }
    }
}

impl Clone for Receipt {
    fn clone(&self) -> (r: Self)
        ensures
            r@ == self@,
    {
        let logs = self.logs.clone();
        assert(views(logs@) =~= views(self.logs@));
        Receipt {
            transaction_hash: self.transaction_hash,
            block_hash: self.block_hash,
            logs,
            rest: self.rest.clone(),
        }
    }
}

/// The bytes that `alloy::rlp::encode` makes of a log with this address, in two parts, these
/// topics and this data.
pub uninterp spec fn rlp_of_log(
    address_hi: u32,
    address_lo: u128,
    topics: Seq<B256>,
    data: Seq<u8>,
) -> Seq<u8>;

/// `alloy::rlp::encode` on an `alloy::primitives::Log`: the address, the topics and the data
/// decide the bytes, which the name stands for.
#[verifier::external_body]
pub(crate) fn encode_log(log: &Log) -> (bytes: Vec<u8>)
    ensures
        bytes@ == rlp_of_log(log@.address.hi, log@.address.lo, log@.topics, log@.data),
{
    let mut address = log.address.hi.to_be_bytes().to_vec();
    address.extend_from_slice(&log.address.lo.to_be_bytes());
    let word = |t: &B256| [t.hi.to_be_bytes(), t.lo.to_be_bytes()].concat();
    let topics = log.topics.iter().map(|t| alloy::primitives::B256::from_slice(&word(t)));
    let inner = alloy::primitives::Log::new_unchecked(
        alloy::primitives::Address::from_slice(&address),
        topics.collect(),
        log.data.data.clone().into(),
    );
    alloy::rlp::encode(&inner)
}

impl LogView {
    /// The log as it is encoded: its address, topics and data.
    pub open spec fn encoding(self) -> Seq<u8> {
        rlp_of_log(self.address.hi, self.address.lo, self.topics, self.data)
    }
}

/// Logs as they are encoded.
pub open spec fn encodings(logs: Seq<LogView>) -> Seq<Seq<u8>> {
    logs.map_values(|l: LogView| l.encoding())
}

/// The encodings of logs, in their order.
pub fn encode_logs(logs: &Vec<Log>) -> (r: Vec<Bytes>)
    ensures
        views(r@) == encodings(views(logs@)),
{
    let mut r: Vec<Bytes> = Vec::new();
    let mut i: usize = 0;
    while i < logs.len()
        invariant
            i <= logs@.len(),
            r@.len() == i,
            forall|k: int| 0 <= k < i ==> (#[trigger] r@[k])@ == logs@[k]@.encoding(),
        decreases logs@.len() - i,
    {
        r.push(Bytes { data: encode_log(&logs[i]) });
        i = i + 1;
    }
    assert(views(r@) =~= encodings(views(logs@)));
    r
}

/// The blocks that logs say they are in, up to the latest one.
pub open spec fn named_blocks(logs: Seq<LogView>, latest: u64) -> Set<u64> {
    Set::new(
        |n: u64|
            n <= latest && exists|i: int|
                0 <= i < logs.len() && (#[trigger] logs[i]).block_number == Some(n),
    )
}

fn holds_number(numbers: &Vec<u64>, number: u64) -> (r: bool)
    ensures
        r == numbers@.contains(number),
{
    let mut i: usize = 0;
    while i < numbers.len()
        invariant
            i <= numbers@.len(),
            forall|k: int| 0 <= k < i ==> numbers@[k] != number,
        decreases numbers@.len() - i,
    {
        if numbers[i] == number {
            assert(numbers@[i as int] == number);
            return true;
        }
        i = i + 1;
    }
    false
}

/// The blocks whose receipts are needed to check logs, each once.
pub fn blocks_of_logs(logs: &Vec<Log>, latest: u64) -> (r: Vec<u64>)
    ensures
        r@.no_duplicates(),
        r@.to_set() == named_blocks(views(logs@), latest),
{
    let mut r: Vec<u64> = Vec::new();
    let mut i: usize = 0;
    let ghost all = views(logs@);
    while i < logs.len()
        invariant
            i <= logs@.len(),
            all == views(logs@),
            r@.no_duplicates(),
            forall|n: u64|
                #![trigger r@.contains(n)]
                r@.contains(n) ==> n <= latest && exists|k: int|
                    0 <= k < i && (#[trigger] all[k]).block_number == Some(n),
            forall|k: int|
                0 <= k < i ==> ((#[trigger] all[k]).block_number matches Some(n) ==> n <= latest
                    ==> r@.contains(n)),
        decreases logs@.len() - i,
    {
        assert(all[i as int] == logs@[i as int]@);
        let ghost before = r@;
        if let Some(number) = logs[i].block_number {
            if number <= latest && !holds_number(&r, number) {
                r.push(number);
                assert(r@[before.len() as int] == number);
                assert forall|n: u64| #[trigger] before.contains(n) implies r@.contains(n) by {
                    let k = choose|k: int| 0 <= k < before.len() && before[k] == n;
                    assert(r@[k] == n);
                }
                assert forall|n: u64| #[trigger] r@.contains(n) implies before.contains(n) || n
                    == number by {
                    let k = choose|k: int| 0 <= k < r@.len() && r@[k] == n;
                    if k < before.len() {
                        assert(before[k] == n);
                    }
                }
            }
        }
        i = i + 1;
    }
    assert(r@.to_set() =~= named_blocks(all, latest));
    r
}

/// The receipts of those blocks that have any, one after the other.
pub open spec fn flattened(blocks: Seq<Option<Seq<ReceiptView>>>) -> Seq<ReceiptView>
    decreases blocks.len(),
{
    if blocks.len() == 0 {
        Seq::empty()
    } else {
        let before = flattened(blocks.drop_last());
        match blocks.last() {
            Some(receipts) => before + receipts,
            None => before,
        }
    }
}

/// What the receipts of a block, if it has any, say.
pub open spec fn receipts_view(receipts: Option<Vec<Receipt>>) -> Option<Seq<ReceiptView>> {
    match receipts {
        Some(receipts) => Some(views(receipts@)),
        None => None,
    }
}

/// The receipts of all blocks in one list.
pub fn flatten_receipts(blocks: Vec<Option<Vec<Receipt>>>) -> (r: Vec<Receipt>)
    ensures
        views(r@) == flattened(
            blocks@.map_values(|b: Option<Vec<Receipt>>| receipts_view(b)),
        ),
{
    let ghost all = blocks@.map_values(|b: Option<Vec<Receipt>>| receipts_view(b));
    let mut r: Vec<Receipt> = Vec::new();
    assert(views(r@) =~= Seq::empty());
    assert(all.take(0) =~= Seq::empty());
    for block in it: blocks
        invariant
            all == it.seq().map_values(|b: Option<Vec<Receipt>>| receipts_view(b)),
            views(r@) == flattened(all.take(it.index() as int)),
    {
        let ghost at = it.index() as int;
        let ghost before = r@;
        assert(all.take(at + 1).drop_last() =~= all.take(at));
        assert(all.take(at + 1).last() == receipts_view(block));
        if let Some(receipts) = block {
            let mut receipts = receipts;
            let ghost added = receipts@;
            r.append(&mut receipts);
            assert(views(r@) =~= views(before) + views(added));
        }
    }
    assert(all.take(all.len() as int) =~= all);
    r
}

/// Each receipt with logs says by its first log which transaction it is of.
pub open spec fn indexable(receipts: Seq<ReceiptView>) -> bool {
    forall|i: int|
        0 <= i < receipts.len() && (#[trigger] receipts[i]).logs.len() > 0
            ==> receipts[i].logs[0].transaction_hash is Some
}

/// The encoded logs of receipts by transaction. Of two receipts of one transaction the later
/// one counts; one without logs does not count.
pub open spec fn index_of(receipts: Seq<ReceiptView>) -> Map<(u128, u128), Seq<Seq<u8>>>
    decreases receipts.len(),
{
    if receipts.len() == 0 {
        Map::empty()
    } else {
        let before = index_of(receipts.drop_last());
        let logs = receipts.last().logs;
        if logs.len() == 0 {
            before
        } else {
            before.insert(logs[0].transaction_hash->0.pair(), encodings(logs))
        }
    }
}

/// Encoded logs by transaction.
pub type LogIndex = BTreeMap<(u128, u128), Vec<Bytes>>;

/// What an index of logs says.
pub open spec fn index_view(index: LogIndex) -> Map<(u128, u128), Seq<Seq<u8>>> {
    index@.map_values(|logs: Vec<Bytes>| views(logs@))
}

/// Indexes the encoded logs of receipts by transaction.
pub fn index_receipts(receipts: &Vec<Receipt>) -> (r: LogIndex)
    requires
        indexable(views(receipts@)),
    ensures
        index_view(r) == index_of(views(receipts@)),
{
    let ghost all = views(receipts@);
    let mut r: LogIndex = BTreeMap::new();
    let mut i: usize = 0;
    assert(index_view(r) =~= Map::empty());
    assert(all.take(0) =~= Seq::empty());
    while i < receipts.len()
        invariant
            i <= receipts@.len(),
            all == views(receipts@),
            indexable(all),
            index_view(r) == index_of(all.take(i as int)),
        decreases receipts@.len() - i,
    {
        let ghost before = index_view(r);
        assert(all.take(i + 1).drop_last() =~= all.take(i as int));
        assert(all.take(i + 1).last() == all[i as int]);
        assert(all[i as int] == receipts@[i as int]@);
        let receipt = &receipts[i];
        assert(receipt@.logs.len() == receipt.logs@.len());
        if receipt.logs.len() > 0 {
            assert(receipt@.logs[0] == receipt.logs@[0]@);
            if let Some(tx_hash) = receipt.logs[0].transaction_hash {
                let encoded = encode_logs(&receipt.logs);
                let ghost added = views(encoded@);
                r.insert(tx_hash.key(), encoded);
                assert(index_view(r) =~= before.insert(tx_hash.pair(), added));
            }
        }
        i = i + 1;
    }
    assert(all.take(i as int) =~= all);
    r
}

/// Whether the logs can be checked against the index: each log up to the first that is missing
/// names a transaction that the index has, and the missing one says where it stands.
pub open spec fn checkable(
    logs: Seq<LogView>,
    encoded: Seq<Seq<u8>>,
    index: Map<(u128, u128), Seq<Seq<u8>>>,
) -> bool
    decreases logs.len(),
{
    logs.len() == 0 || {
        &&& logs[0].transaction_hash matches Some(tx_hash) && index.contains_key(tx_hash.pair())
        &&& if index[logs[0].transaction_hash->0.pair()].contains(encoded[0]) {
            checkable(logs.drop_first(), encoded.drop_first(), index)
        } else {
            logs[0].log_index is Some
        }
    }
}

/// The outcome of the check: the first log that is not among the logs of its transaction is
/// reported.
pub open spec fn outcome(
    logs: Seq<LogView>,
    encoded: Seq<Seq<u8>>,
    index: Map<(u128, u128), Seq<Seq<u8>>>,
) -> Result<(), ErrorView>
    decreases logs.len(),
{
    if logs.len() == 0 {
        Ok(())
    } else {
        let tx_hash = logs[0].transaction_hash->0;
        if index[tx_hash.pair()].contains(encoded[0]) {
            outcome(logs.drop_first(), encoded.drop_first(), index)
        } else {
            Err(
                ErrorView::MissingLog {
                    tx_hash,
                    log_index: U256 { hi: 0, lo: logs[0].log_index->0 as u128 },
                },
            )
        }
    }
}

fn holds_bytes(list: &Vec<Bytes>, bytes: &Bytes) -> (r: bool)
    ensures
        r == views(list@).contains(bytes@),
{
    let mut i: usize = 0;
    while i < list.len()
        invariant
            i <= list@.len(),
            forall|k: int| 0 <= k < i ==> (#[trigger] list@[k])@ != bytes@,
        decreases list@.len() - i,
    {
        if list[i].same(bytes) {
            assert(views(list@)[i as int] == bytes@);
            return true;
        }
        i = i + 1;
    }
    assert forall|k: int| 0 <= k < views(list@).len() implies views(list@)[k] != bytes@ by {
        assert(views(list@)[k] == list@[k]@);
    }
    false
}

/// Whether the logs can be checked against the index.
pub fn is_checkable(logs: &Vec<Log>, encoded: &Vec<Bytes>, index: &LogIndex) -> (r: bool)
    requires
        encoded@.len() == logs@.len(),
    ensures
        r == checkable(views(logs@), views(encoded@), index_view(*index)),
{
    let ghost all = views(logs@);
    let ghost bytes = views(encoded@);
    let ghost known = index_view(*index);
    let mut i: usize = 0;
    assert(all.skip(0) =~= all);
    assert(bytes.skip(0) =~= bytes);
    while i < logs.len()
        invariant
            i <= logs@.len(),
            encoded@.len() == logs@.len(),
            all == views(logs@),
            bytes == views(encoded@),
            known == index_view(*index),
            checkable(all, bytes, known) == checkable(
                all.skip(i as int),
                bytes.skip(i as int),
                known,
            ),
        decreases logs@.len() - i,
    {
        assert(all.skip(i as int)[0] == logs@[i as int]@);
        assert(bytes.skip(i as int)[0] == encoded@[i as int]@);
        assert(all.skip(i as int).drop_first() =~= all.skip(i + 1));
        assert(bytes.skip(i as int).drop_first() =~= bytes.skip(i + 1));
        let tx_hash = match logs[i].transaction_hash {
            Some(tx_hash) => tx_hash,
            None => {
                return false;
            },
        };
        match index.get(&tx_hash.key()) {
            None => {
                return false;
            },
            Some(known_logs) => {
                if !holds_bytes(known_logs, &encoded[i]) {
                    return logs[i].log_index.is_some();
                }
            },
        }
        i = i + 1;
    }
    true
}

/// Checks that each log, encoded beside it, is among the logs of its transaction.
pub fn check_logs(logs: &Vec<Log>, encoded: &Vec<Bytes>, index: &LogIndex) -> (r: Result<
    (),
    ProviderError,
>)
    requires
        encoded@.len() == logs@.len(),
        checkable(views(logs@), views(encoded@), index_view(*index)),
    ensures
        plain_result(r) == outcome(views(logs@), views(encoded@), index_view(*index)),
{
    let ghost all = views(logs@);
    let ghost bytes = views(encoded@);
    let ghost known = index_view(*index);
    let mut i: usize = 0;
    assert(all.skip(0) =~= all);
    assert(bytes.skip(0) =~= bytes);
    while i < logs.len()
        invariant
            i <= logs@.len(),
            encoded@.len() == logs@.len(),
            all == views(logs@),
            bytes == views(encoded@),
            known == index_view(*index),
            checkable(all.skip(i as int), bytes.skip(i as int), known),
            outcome(all, bytes, known) == outcome(all.skip(i as int), bytes.skip(i as int), known),
        decreases logs@.len() - i,
    {
        assert(all.skip(i as int)[0] == logs@[i as int]@);
        assert(bytes.skip(i as int)[0] == encoded@[i as int]@);
        assert(all.skip(i as int).drop_first() =~= all.skip(i + 1));
        assert(bytes.skip(i as int).drop_first() =~= bytes.skip(i + 1));
        if let Some(tx_hash) = logs[i].transaction_hash {
            if let Some(known_logs) = index.get(&tx_hash.key()) {
                if !holds_bytes(known_logs, &encoded[i]) {
                    if let Some(log_index) = logs[i].log_index {
                        return Err(
                            ProviderError::MissingLog {
                                tx_hash,
                                log_index: U256::from_u64(log_index),
                            },
                        );
                    }
                }
            }
        }
        i = i + 1;
    }
    Ok(())
}

/// Checks that each log is among the logs that the proven receipts have for its transaction.
pub fn verify_logs(logs: &Vec<Log>, receipts: &Vec<Receipt>) -> (r: Result<(), ProviderError>)
    requires
        indexable(views(receipts@)),
        checkable(
            views(logs@),
            encodings(views(logs@)),
            index_of(views(receipts@)),
        ),
    ensures
        plain_result(r) == outcome(
            views(logs@),
            encodings(views(logs@)),
            index_of(views(receipts@)),
        ),
{
    let index = index_receipts(receipts);
    let encoded = encode_logs(logs);
    assert(encoded@.len() == views(encoded@).len());
    check_logs(logs, &encoded, &index)
}

/// Whether each receipt with logs says by its first log which transaction it is of.
pub fn is_indexable(receipts: &Vec<Receipt>) -> (r: bool)
    ensures
        r == indexable(views(receipts@)),
{
    let ghost all = views(receipts@);
    let mut i: usize = 0;
    while i < receipts.len()
        invariant
            i <= receipts@.len(),
            all == views(receipts@),
            forall|k: int|
                0 <= k < i && (#[trigger] all[k]).logs.len() > 0
                    ==> all[k].logs[0].transaction_hash is Some,
        decreases receipts@.len() - i,
    {
        assert(all[i as int] == receipts@[i as int]@);
        if receipts[i].logs.len() > 0 {
            assert(all[i as int].logs[0] == receipts@[i as int].logs@[0]@);
            if receipts[i].logs[0].transaction_hash.is_none() {
                return false;
            }
        }
        i = i + 1;
    }
    true
}

/// Checks logs where they can be checked: `None` where a log or a receipt does not say enough
/// of itself, or where no receipt of a log's transaction is there.
pub fn try_verify_logs(logs: &Vec<Log>, receipts: &Vec<Receipt>) -> (r: Option<
    Result<(), ProviderError>,
>)
    ensures
        r is Some <==> indexable(views(receipts@)) && checkable(
            views(logs@),
            encodings(views(logs@)),
            index_of(views(receipts@)),
        ),
        r matches Some(verdict) ==> plain_result(verdict) == outcome(
            views(logs@),
            encodings(views(logs@)),
            index_of(views(receipts@)),
        ),
{
    if !is_indexable(receipts) {
        return None;
    }
    let index = index_receipts(receipts);
    let encoded = encode_logs(logs);
    assert(encoded@.len() == views(encoded@).len());
    if is_checkable(logs, &encoded, &index) {
        Some(verify_logs(logs, receipts))
    } else {
        None
    }
}

} // verus!
