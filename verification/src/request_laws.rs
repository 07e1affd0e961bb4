//! What a request says, pair by pair.
use crate::api_client::{
    account_pairs, account_path, block_path, block_receipts_path, block_text, body_to_parse,
    built, filter_pairs, is_success, location_path, received, receipt_path, reported,
    transaction_path, ApiRequest, Body, BodyView, Method, QueryPair, QueryValue,
};
use crate::primitives::{
    checksum_text, Address, BlockId, BlockNumberOrTag, RpcBlockHash, B256, U256,
};
use crate::rpc_provider::FilterBlockOption;
use crate::text::digits;
use vstd::prelude::*;

verus! {

/// The values of the pairs of a name, in their order.
pub open spec fn named(pairs: Seq<(Seq<char>, QueryValue)>, name: Seq<char>) -> Seq<QueryValue>
    decreases pairs.len(),
{
    if pairs.len() == 0 {
        Seq::empty()
    } else {
        let before = named(pairs.drop_last(), name);
        if pairs.last().0 == name {
            before.push(pairs.last().1)
        } else {
            before
        }
    }
}

proof fn lemma_named_in_two_parts(
    one: Seq<(Seq<char>, QueryValue)>,
    two: Seq<(Seq<char>, QueryValue)>,
    name: Seq<char>,
)
    ensures
        named(one + two, name) == named(one, name) + named(two, name),
    decreases two.len(),
{
    if two.len() == 0 {
        assert(one + two =~= one);
        assert(named(one, name) + named(two, name) =~= named(one, name));
    } else {
        assert((one + two).drop_last() =~= one + two.drop_last());
        lemma_named_in_two_parts(one, two.drop_last(), name);
        assert(named(one + two, name) =~= named(one, name) + named(two, name));
    }
}

/// Pairs that all have one name.
proof fn lemma_named_of_one_name(
    pairs: Seq<(Seq<char>, QueryValue)>,
    own: Seq<char>,
    values: Seq<QueryValue>,
    name: Seq<char>,
)
    requires
        pairs.len() == values.len(),
        forall|i: int| 0 <= i < pairs.len() ==> (#[trigger] pairs[i]) == (own, values[i]),
    ensures
        own == name ==> named(pairs, name) == values,
        own != name ==> named(pairs, name) == Seq::<QueryValue>::empty(),
    decreases pairs.len(),
{
    if pairs.len() > 0 {
        let front = pairs.drop_last();
        assert(forall|i: int| 0 <= i < front.len() ==> (#[trigger] front[i]) == pairs[i]);
        lemma_named_of_one_name(front, own, values.drop_last(), name);
        assert(pairs.last() == (own, values.last()));
        if own == name {
            assert(named(pairs, name) =~= values);
        }
    } else {
        assert(values =~= Seq::empty());
    }
}

/// A number as a query carries it.
pub open spec fn is_number(value: QueryValue, n: u64) -> bool {
    value matches QueryValue::Number(number) && number.hi == 0 && number.lo == n
}

/// A name has one value, which is this number, where there is one; else it has none.
pub open spec fn has_number(values: Seq<QueryValue>, block: Option<BlockNumberOrTag>) -> bool {
    match block {
        Some(BlockNumberOrTag::Number(n)) => values.len() == 1 && is_number(values[0], n),
        _ => values.len() == 0,
    }
}

/// A name has these hashes, one by one.
pub open spec fn has_hashes(values: Seq<QueryValue>, hashes: Seq<B256>) -> bool {
    values.len() == hashes.len() && forall|i: int|
        0 <= i < hashes.len() ==> (#[trigger] values[i]) == QueryValue::Hash(hashes[i])
}

/// A name has these addresses, one by one.
pub open spec fn has_addresses(values: Seq<QueryValue>, addresses: Seq<Address>) -> bool {
    values.len() == addresses.len() && forall|i: int|
        0 <= i < addresses.len() ==> (#[trigger] values[i]) == QueryValue::Address(addresses[i])
}

/// A query says what a filter asks for: both ends of a range that are numbers, or the hash of
/// the block; each address; each topic under the name of its place; and nothing else.
pub open spec fn asks_for_logs(
    pairs: Seq<(Seq<char>, QueryValue)>,
    option: FilterBlockOption,
    addresses: Seq<Address>,
    topics: Seq<Vec<B256>>,
) -> bool {
    &&& match option {
        FilterBlockOption::Range { from_block, to_block } => {
            &&& has_number(named(pairs, "fromBlock"@), from_block)
            &&& has_number(named(pairs, "toBlock"@), to_block)
            &&& named(pairs, "blockHash"@).len() == 0
        },
        FilterBlockOption::AtBlockHash(hash) => {
            &&& named(pairs, "fromBlock"@).len() == 0
            &&& named(pairs, "toBlock"@).len() == 0
            &&& has_hashes(named(pairs, "blockHash"@), seq![hash])
        },
    }
    &&& has_addresses(named(pairs, "address"@), addresses)
    &&& has_hashes(named(pairs, "topic0"@), topics[0]@)
    &&& has_hashes(named(pairs, "topic1"@), topics[1]@)
    &&& has_hashes(named(pairs, "topic2"@), topics[2]@)
    &&& has_hashes(named(pairs, "topic3"@), topics[3]@)
    &&& forall|name: Seq<char>|
        name != "fromBlock"@ && name != "toBlock"@ && name != "blockHash"@ && name != "address"@
            && name != "topic0"@ && name != "topic1"@ && name != "topic2"@ && name != "topic3"@
            ==> (#[trigger] named(pairs, name)).len() == 0
}

/// The names of the pairs of a filter differ from each other.
proof fn lemma_filter_names()
    ensures
        "fromBlock"@ != "toBlock"@,
        "fromBlock"@ != "blockHash"@,
        "fromBlock"@ != "address"@,
        "fromBlock"@ != "topic0"@,
        "fromBlock"@ != "topic1"@,
        "fromBlock"@ != "topic2"@,
        "fromBlock"@ != "topic3"@,
        "toBlock"@ != "blockHash"@,
        "toBlock"@ != "address"@,
        "toBlock"@ != "topic0"@,
        "toBlock"@ != "topic1"@,
        "toBlock"@ != "topic2"@,
        "toBlock"@ != "topic3"@,
        "blockHash"@ != "address"@,
        "blockHash"@ != "topic0"@,
        "blockHash"@ != "topic1"@,
        "blockHash"@ != "topic2"@,
        "blockHash"@ != "topic3"@,
        "address"@ != "topic0"@,
        "address"@ != "topic1"@,
        "address"@ != "topic2"@,
        "address"@ != "topic3"@,
        "topic0"@ != "topic1"@,
        "topic0"@ != "topic2"@,
        "topic0"@ != "topic3"@,
        "topic1"@ != "topic2"@,
        "topic1"@ != "topic3"@,
        "topic2"@ != "topic3"@,
{
    reveal_strlit("fromBlock");
    reveal_strlit("toBlock");
    reveal_strlit("blockHash");
    reveal_strlit("address");
    reveal_strlit("topic0");
    reveal_strlit("topic1");
    reveal_strlit("topic2");
    reveal_strlit("topic3");
    assert("fromBlock"@[0] != "blockHash"@[0]);
    assert("toBlock"@[0] != "address"@[0]);
    assert("topic0"@[5] == '0' && "topic1"@[5] == '1' && "topic2"@[5] == '2' && "topic3"@[5] == '3');
}

/// The query of a filter says what the filter asks for, and nothing else.
pub proof fn law_query_asks_for_the_filter(
    option: FilterBlockOption,
    addresses: Seq<Address>,
    topics: Seq<Vec<B256>>,
)
    ensures
        asks_for_logs(filter_pairs(option, addresses, topics), option, addresses, topics),
{
    lemma_filter_names();
    let pairs = filter_pairs(option, addresses, topics);
    let from_pairs = crate::api_client::block_pairs(option);
    let address_pairs = crate::api_client::address_pairs(addresses);
    let t0 = crate::api_client::topic_pairs("topic0"@, topics[0]@);
    let t1 = crate::api_client::topic_pairs("topic1"@, topics[1]@);
    let t2 = crate::api_client::topic_pairs("topic2"@, topics[2]@);
    let t3 = crate::api_client::topic_pairs("topic3"@, topics[3]@);
    let addressed = addresses.map_values(|a: Address| QueryValue::Address(a));
    let h0 = topics[0]@.map_values(|t: B256| QueryValue::Hash(t));
    let h1 = topics[1]@.map_values(|t: B256| QueryValue::Hash(t));
    let h2 = topics[2]@.map_values(|t: B256| QueryValue::Hash(t));
    let h3 = topics[3]@.map_values(|t: B256| QueryValue::Hash(t));
    assert forall|name: Seq<char>| #[trigger] named(pairs, name) == named(from_pairs, name)
        + named(address_pairs, name) + named(t0, name) + named(t1, name) + named(t2, name)
        + named(t3, name) by {
        lemma_named_in_two_parts(from_pairs, address_pairs, name);
        lemma_named_in_two_parts(from_pairs + address_pairs, t0, name);
        lemma_named_in_two_parts(from_pairs + address_pairs + t0, t1, name);
        lemma_named_in_two_parts(from_pairs + address_pairs + t0 + t1, t2, name);
        lemma_named_in_two_parts(from_pairs + address_pairs + t0 + t1 + t2, t3, name);
    }
    assert forall|name: Seq<char>|
        #![trigger named(address_pairs, name)]
        ("address"@ == name ==> named(address_pairs, name) == addressed) && ("address"@ != name
            ==> named(address_pairs, name) == Seq::<QueryValue>::empty()) by {
        lemma_named_of_one_name(address_pairs, "address"@, addressed, name);
    }
    assert forall|name: Seq<char>|
        #![trigger named(t0, name)]
        ("topic0"@ == name ==> named(t0, name) == h0) && ("topic0"@ != name ==> named(t0, name)
            == Seq::<QueryValue>::empty()) by {
        lemma_named_of_one_name(t0, "topic0"@, h0, name);
    }
    assert forall|name: Seq<char>|
        #![trigger named(t1, name)]
        ("topic1"@ == name ==> named(t1, name) == h1) && ("topic1"@ != name ==> named(t1, name)
            == Seq::<QueryValue>::empty()) by {
        lemma_named_of_one_name(t1, "topic1"@, h1, name);
    }
    assert forall|name: Seq<char>|
        #![trigger named(t2, name)]
        ("topic2"@ == name ==> named(t2, name) == h2) && ("topic2"@ != name ==> named(t2, name)
            == Seq::<QueryValue>::empty()) by {
        lemma_named_of_one_name(t2, "topic2"@, h2, name);
    }
    assert forall|name: Seq<char>|
        #![trigger named(t3, name)]
        ("topic3"@ == name ==> named(t3, name) == h3) && ("topic3"@ != name ==> named(t3, name)
            == Seq::<QueryValue>::empty()) by {
        lemma_named_of_one_name(t3, "topic3"@, h3, name);
    }
    lemma_block_pairs(option);
    assert(named(pairs, "fromBlock"@) =~= named(from_pairs, "fromBlock"@));
    assert(named(pairs, "toBlock"@) =~= named(from_pairs, "toBlock"@));
    assert(named(pairs, "blockHash"@) =~= named(from_pairs, "blockHash"@));
    assert(named(pairs, "address"@) =~= addressed);
    assert(named(pairs, "topic0"@) =~= h0);
    assert(named(pairs, "topic1"@) =~= h1);
    assert(named(pairs, "topic2"@) =~= h2);
    assert(named(pairs, "topic3"@) =~= h3);
}

/// Both ends of a range of numbers are sent, each once and under its own name; an end that is not
/// a number is not sent; and no block hash is.
pub proof fn law_ends_of_a_range_are_sent(
    from_block: Option<BlockNumberOrTag>,
    to_block: Option<BlockNumberOrTag>,
    addresses: Seq<Address>,
    topics: Seq<Vec<B256>>,
)
    ensures
        ({
            let pairs = filter_pairs(
                FilterBlockOption::Range { from_block, to_block },
                addresses,
                topics,
            );
            &&& match from_block {
                Some(BlockNumberOrTag::Number(m)) => named(pairs, "fromBlock"@)
                    == seq![QueryValue::Number(U256 { hi: 0, lo: m as u128 })],
                _ => named(pairs, "fromBlock"@) == Seq::<QueryValue>::empty(),
            }
            &&& match to_block {
                Some(BlockNumberOrTag::Number(n)) => named(pairs, "toBlock"@)
                    == seq![QueryValue::Number(U256 { hi: 0, lo: n as u128 })],
                _ => named(pairs, "toBlock"@) == Seq::<QueryValue>::empty(),
            }
            &&& named(pairs, "blockHash"@) == Seq::<QueryValue>::empty()
        }),
{
    let option = FilterBlockOption::Range { from_block, to_block };
    let pairs = filter_pairs(option, addresses, topics);
    law_query_asks_for_the_filter(option, addresses, topics);
    if let Some(BlockNumberOrTag::Number(m)) = from_block {
        assert(named(pairs, "fromBlock"@) =~= seq![
            QueryValue::Number(U256 { hi: 0, lo: m as u128 }),
        ]);
    } else {
        assert(named(pairs, "fromBlock"@) =~= Seq::empty());
    }
    if let Some(BlockNumberOrTag::Number(n)) = to_block {
        assert(named(pairs, "toBlock"@) =~= seq![
            QueryValue::Number(U256 { hi: 0, lo: n as u128 }),
        ]);
    } else {
        assert(named(pairs, "toBlock"@) =~= Seq::empty());
    }
    assert(named(pairs, "blockHash"@) =~= Seq::empty());
}

/// The pairs that name the blocks of a filter.
proof fn lemma_block_pairs(option: FilterBlockOption)
    ensures
        ({
            let pairs = crate::api_client::block_pairs(option);
            &&& match option {
                FilterBlockOption::Range { from_block, to_block } => {
                    &&& has_number(named(pairs, "fromBlock"@), from_block)
                    &&& has_number(named(pairs, "toBlock"@), to_block)
                    &&& named(pairs, "blockHash"@).len() == 0
                },
                FilterBlockOption::AtBlockHash(hash) => {
                    &&& named(pairs, "fromBlock"@).len() == 0
                    &&& named(pairs, "toBlock"@).len() == 0
                    &&& has_hashes(named(pairs, "blockHash"@), seq![hash])
                },
            }
            &&& forall|name: Seq<char>|
                name != "fromBlock"@ && name != "toBlock"@ && name != "blockHash"@
                    ==> (#[trigger] named(pairs, name)) == Seq::<QueryValue>::empty()
        }),
{
    lemma_filter_names();
    let pairs = crate::api_client::block_pairs(option);
    match option {
        FilterBlockOption::Range { from_block, to_block } => {
            let one = crate::api_client::number_pair(
                "fromBlock"@,
                crate::api_client::as_number(from_block),
            );
            let two = crate::api_client::number_pair(
                "toBlock"@,
                crate::api_client::as_number(to_block),
            );
            let v1 = one.map_values(|p: (Seq<char>, QueryValue)| p.1);
            let v2 = two.map_values(|p: (Seq<char>, QueryValue)| p.1);
            assert forall|name: Seq<char>| #[trigger] named(pairs, name) == named(one, name)
                + named(two, name) && ("fromBlock"@ == name ==> named(one, name) == v1) && (
            "fromBlock"@ != name ==> named(one, name) == Seq::<QueryValue>::empty()) && ("toBlock"@
                == name ==> named(two, name) == v2) && ("toBlock"@ != name ==> named(two, name)
                == Seq::<QueryValue>::empty()) by {
                lemma_named_in_two_parts(one, two, name);
                lemma_named_of_one_name(one, "fromBlock"@, v1, name);
                lemma_named_of_one_name(two, "toBlock"@, v2, name);
            }
            assert(named(pairs, "fromBlock"@) =~= v1);
            assert(named(pairs, "toBlock"@) =~= v2);
            assert forall|name: Seq<char>|
                name != "fromBlock"@ && name != "toBlock"@ implies (#[trigger] named(pairs, name))
                == Seq::<QueryValue>::empty() by {
                assert(named(pairs, name) =~= Seq::<QueryValue>::empty());
            }
        },
        FilterBlockOption::AtBlockHash(hash) => {
            assert forall|name: Seq<char>|
                #![trigger named(pairs, name)]
                ("blockHash"@ == name ==> named(pairs, name) == seq![QueryValue::Hash(hash)]) && (
                "blockHash"@ != name ==> named(pairs, name) == Seq::<QueryValue>::empty()) by {
                lemma_named_of_one_name(pairs, "blockHash"@, seq![QueryValue::Hash(hash)], name);
            }
        },
    }
}

/// A query says what is wanted of an account: the block, if one is named; each slot; whether the
/// code is wanted; and nothing else.
pub open spec fn asks_for_account(
    pairs: Seq<(Seq<char>, QueryValue)>,
    block_id: Option<BlockId>,
    slots: Seq<U256>,
    include_code: bool,
) -> bool {
    &&& match block_id {
        Some(id) => named(pairs, "block"@) == seq![QueryValue::Block(id)],
        None => named(pairs, "block"@).len() == 0,
    }
    &&& named(pairs, "storageSlots"@).len() == slots.len()
    &&& forall|i: int|
        0 <= i < slots.len() ==> (#[trigger] named(pairs, "storageSlots"@)[i])
            == QueryValue::Number(slots[i])
    &&& named(pairs, "includeCode"@) == seq![QueryValue::Flag(include_code)]
    &&& forall|name: Seq<char>|
        name != "block"@ && name != "storageSlots"@ && name != "includeCode"@ ==> (#[trigger] named(
            pairs,
            name,
        )).len() == 0
}

/// The query for an account says what is wanted of it, and nothing else.
pub proof fn law_query_asks_for_the_account(
    block_id: Option<BlockId>,
    slots: Seq<U256>,
    include_code: bool,
)
    ensures
        asks_for_account(
            account_pairs(block_id, slots, include_code),
            block_id,
            slots,
            include_code,
        ),
{
    reveal_strlit("block");
    reveal_strlit("storageSlots");
    reveal_strlit("includeCode");
    assert("block"@.len() == 5 && "storageSlots"@.len() == 12 && "includeCode"@.len() == 11);
    assert("block"@ != "storageSlots"@ && "block"@ != "includeCode"@);
    assert("storageSlots"@ != "includeCode"@);
    let pairs = account_pairs(block_id, slots, include_code);
    let one = match block_id {
        Some(id) => seq![("block"@, QueryValue::Block(id))],
        None => Seq::empty(),
    };
    let two = slots.map_values(|s: U256| ("storageSlots"@, QueryValue::Number(s)));
    let three = seq![("includeCode"@, QueryValue::Flag(include_code))];
    let v1 = match block_id {
        Some(id) => seq![QueryValue::Block(id)],
        None => Seq::empty(),
    };
    let v2 = slots.map_values(|s: U256| QueryValue::Number(s));
    let v3 = seq![QueryValue::Flag(include_code)];
    assert(pairs =~= one + two + three);
    assert forall|name: Seq<char>| #[trigger] named(pairs, name) == named(one, name) + named(
        two,
        name,
    ) + named(three, name) && ("block"@ == name ==> named(one, name) == v1) && ("block"@ != name
        ==> named(one, name) == Seq::<QueryValue>::empty()) && ("storageSlots"@ == name ==> named(
        two,
        name,
    ) == v2) && ("storageSlots"@ != name ==> named(two, name) == Seq::<QueryValue>::empty()) && (
    "includeCode"@ == name ==> named(three, name) == v3) && ("includeCode"@ != name ==> named(
        three,
        name,
    ) == Seq::<QueryValue>::empty()) by {
        lemma_named_in_two_parts(one, two, name);
        lemma_named_in_two_parts(one + two, three, name);
        lemma_named_of_one_name(one, "block"@, v1, name);
        lemma_named_of_one_name(two, "storageSlots"@, v2, name);
        lemma_named_of_one_name(three, "includeCode"@, v3, name);
    }
    assert(named(pairs, "block"@) =~= v1);
    assert(named(pairs, "storageSlots"@) =~= v2);
    assert(named(pairs, "includeCode"@) =~= v3);
}

/// A request at a URL is made as it was asked for, with the query and the body that it was given;
/// without a URL it is an error, whose text names the request and ends with the cause.
pub proof fn law_request_is_what_it_was_built_from(
    url: Result<Seq<char>, Seq<char>>,
    what: Seq<char>,
    method: Method,
    query: Seq<(Seq<char>, QueryValue)>,
    body: BodyView,
)
    ensures
        match url {
            Ok(text) => match built(url, what, method, query, body) {
                Ok(request) => {
                    &&& request.url == text
                    &&& request.method == method
                    &&& request.query == query
                    &&& request.body == body
                },
                Err(_) => false,
            },
            Err(cause) => match built(url, what, method, query, body) {
                Ok(_) => false,
                Err(error) => error == "Failed to construct "@ + what + " URL: "@ + cause,
            },
        },
{
}

/// The paths of the requests, each with its argument at its place.
pub proof fn law_paths_carry_their_arguments(
    address: Address,
    tx_hash: B256,
    block_id: BlockId,
    index: u64,
)
    ensures
        account_path(address) == "eth/v1/proof/account/"@ + checksum_text(address.hi, address.lo),
        receipt_path(tx_hash) == "eth/v1/proof/receipt/"@ + tx_hash.text(),
        transaction_path(tx_hash) == "eth/v1/proof/transaction/"@ + tx_hash.text(),
        location_path(block_id, index) == "eth/v1/proof/transaction/"@ + block_text(block_id)
            + "/"@ + digits(index as nat, 10),
        block_path(block_id) == "eth/v1/block/"@ + block_text(block_id),
        block_receipts_path(block_id) == "eth/v1/block/"@ + block_text(block_id) + "/receipts"@,
{
}

/// A block in a path is its hash, whether or not it must be canonical; the name of its tag; or
/// its number in hexadecimal after `0x`.
pub proof fn law_block_text_names_the_block(hash: B256, canonical: Option<bool>, number: u64)
    ensures
        block_text(BlockId::Hash(RpcBlockHash { block_hash: hash, require_canonical: canonical }))
            == hash.text(),
        block_text(BlockId::Number(BlockNumberOrTag::Latest)) == "latest"@,
        block_text(BlockId::Number(BlockNumberOrTag::Finalized)) == "finalized"@,
        block_text(BlockId::Number(BlockNumberOrTag::Safe)) == "safe"@,
        block_text(BlockId::Number(BlockNumberOrTag::Earliest)) == "earliest"@,
        block_text(BlockId::Number(BlockNumberOrTag::Pending)) == "pending"@,
        block_text(BlockId::Number(BlockNumberOrTag::Number(number))) == "0x"@ + digits(
            number as nat,
            16,
        ),
{
}

/// A status of success is one from 200 to 299; only then is there a body to be parsed, and it
/// grows by each chunk.
pub proof fn law_success_is_the_second_hundred(status: u16, chunks: Seq<Seq<u8>>, chunk: Seq<u8>)
    ensures
        is_success(status) <==> 200 <= status && status <= 299,
        body_to_parse(status, chunks) is Some <==> 200 <= status && status <= 299,
        received(Seq::empty(), chunks.push(chunk)) == received(Seq::empty(), chunks) + chunk,
        received(Seq::empty(), Seq::empty()) == Seq::<u8>::empty(),
{
    assert(chunks.push(chunk).drop_last() =~= chunks);
}

/// Of the body of an error the first three hundred characters are reported, or all of it.
pub proof fn law_report_is_the_beginning(text: Seq<char>, i: int)
    ensures
        text.len() <= 300 ==> reported(text) == text,
        text.len() > 300 ==> reported(text).len() == 300,
        0 <= i < reported(text).len() ==> reported(text)[i] == text[i],
{
}

/// What requests say are their fields, all of them.
pub proof fn law_request_views_hold_every_field(
    pair: QueryPair,
    body: Body,
    request: ApiRequest,
    number: u64,
)
    ensures
        pair@ == (pair.name@, pair.value),
        match body {
            Body::Empty => body@ is Empty,
            Body::ExecutionHint { tx, validate_tx, block } => body@ == (BodyView::ExecutionHint {
                tx: tx.data@,
                validate_tx,
                block,
            }),
            Body::RawTransaction(bytes) => body@ == BodyView::RawTransaction(bytes.data@),
        },
        request@.method == request.method,
        request@.url == request.url@,
        request@.query.len() == request.query@.len(),
        forall|i: int|
            0 <= i < request.query@.len() ==> (#[trigger] request@.query[i]) == request.query@[i]@,
        request@.body == request.body@,
{
}

} // verus!
