//! The requests of the verifiable API and what is made of the answers.
use crate::primitives::{
    address_text, checksum_text, hash_text, views, Address, BlockId, BlockNumberOrTag, Bytes,
    B256, U256,
};
use crate::request_laws::{
    asks_for_account, asks_for_logs, law_query_asks_for_the_account, law_query_asks_for_the_filter,
};
use crate::rpc_provider::FilterBlockOption;
use crate::text::{decimal, digits, first_chars, join2, join3, lemma_trim_quoted, trim_char};
use crate::urls::{join_url, joined_url, text_result};
use vstd::prelude::*;
use vstd::string::*;

verus! {

/// How a request is made.
#[derive(Clone, Copy, Debug, PartialEq, Eq, Structural)]
pub enum Method {
    Get,
    Post,
}

/// A value in the query of a request.
#[derive(Clone, Copy, Debug, PartialEq, Eq, Structural)]
pub enum QueryValue {
    Block(BlockId),
    Number(U256),
    Hash(B256),
    Address(Address),
    Flag(bool),
}

/// A pair in the query of a request.
#[derive(Debug)]
pub struct QueryPair {
    pub name: String,
    pub value: QueryValue,
}

impl View for QueryPair {
    type V = (Seq<char>, QueryValue);

    open spec fn view(&self) -> (Seq<char>, QueryValue) {
        (self.name@, self.value)
    }
}

/// What a request carries besides its query.
#[derive(Debug)]
pub enum Body {
    Empty,
    /// The call, encoded, and with it whether it is to be validated, and at which block.
    ExecutionHint { tx: Bytes, validate_tx: bool, block: Option<BlockId> },
    RawTransaction(Bytes),
}

/// What a body says.
pub ghost enum BodyView {
    Empty,
    ExecutionHint { tx: Seq<u8>, validate_tx: bool, block: Option<BlockId> },
    RawTransaction(Seq<u8>),
}

impl View for Body {
    type V = BodyView;

    open spec fn view(&self) -> BodyView {
        match self {
            Body::Empty => BodyView::Empty,
            Body::ExecutionHint { tx, validate_tx, block } => BodyView::ExecutionHint {
                tx: tx@,
                validate_tx: *validate_tx,
                block: *block,
            },
            Body::RawTransaction(bytes) => BodyView::RawTransaction(bytes@),
        }
    }
}

/// A request, ready to be sent.
#[derive(Debug)]
pub struct ApiRequest {
    pub method: Method,
    pub url: String,
    pub query: Vec<QueryPair>,
    pub body: Body,
}

/// What a request says.
pub ghost struct ApiRequestView {
    pub method: Method,
    pub url: Seq<char>,
    pub query: Seq<(Seq<char>, QueryValue)>,
    pub body: BodyView,
}

impl View for ApiRequest {
    type V = ApiRequestView;

    open spec fn view(&self) -> ApiRequestView {
        ApiRequestView {
            method: self.method,
            url: self.url@,
            query: views(self.query@),
            body: self.body@,
        }
    }
}

/// What a request or an error says.
pub open spec fn request_view(r: Result<ApiRequest, String>) -> Result<ApiRequestView, Seq<char>> {
    match r {
        Ok(request) => Ok(request@),
        Err(error) => Err(error@),
    }
}

/// A request at a URL; where there is none, the error says what could not be built.
pub open spec fn built(
    url: Result<Seq<char>, Seq<char>>,
    what: Seq<char>,
    method: Method,
    query: Seq<(Seq<char>, QueryValue)>,
    body: BodyView,
) -> Result<ApiRequestView, Seq<char>> {
    match url {
        Ok(url) => Ok(ApiRequestView { method, url, query, body }),
        Err(error) => Err("Failed to construct "@ + what + " URL: "@ + error),
    }
}

/// A request at a URL; where there is none, the error says what could not be built.
pub fn build(
    url: Result<String, String>,
    what: &str,
    method: Method,
    query: Vec<QueryPair>,
    body: Body,
) -> (r: Result<ApiRequest, String>)
    ensures
        request_view(r) == built(text_result(url), what@, method, views(query@), body@),
{
    match url {
        Ok(url) => Ok(ApiRequest { method, url, query, body }),
        Err(error) => Err(
            join2(join3("Failed to construct ", what, " URL: ").as_str(), error.as_str()),
        ),
    }
}

/// A block number or tag in text: the tag's name, or the number in hexadecimal.
pub open spec fn number_text(number: BlockNumberOrTag) -> Seq<char> {
    match number {
        BlockNumberOrTag::Latest => "latest"@,
        BlockNumberOrTag::Finalized => "finalized"@,
        BlockNumberOrTag::Safe => "safe"@,
        BlockNumberOrTag::Earliest => "earliest"@,
        BlockNumberOrTag::Pending => "pending"@,
        BlockNumberOrTag::Number(n) => "0x"@ + digits(n as nat, 16),
    }
}

/// `serde_json::to_string` on an `alloy::eips::BlockNumberOrTag`: its text in double quotes,
/// which for a tag is its name and for a number `0x` and its hexadecimal digits in lower case
/// without leading zeros. It never fails.
#[verifier::external_body]
pub(crate) fn number_json(number: &BlockNumberOrTag) -> (json: String)
    ensures
        json@ == seq!['"'] + number_text(*number) + seq!['"'],
{
    let outside = match number {
        BlockNumberOrTag::Latest => alloy::eips::BlockNumberOrTag::Latest,
        BlockNumberOrTag::Finalized => alloy::eips::BlockNumberOrTag::Finalized,
        BlockNumberOrTag::Safe => alloy::eips::BlockNumberOrTag::Safe,
        BlockNumberOrTag::Earliest => alloy::eips::BlockNumberOrTag::Earliest,
        BlockNumberOrTag::Pending => alloy::eips::BlockNumberOrTag::Pending,
        BlockNumberOrTag::Number(n) => alloy::eips::BlockNumberOrTag::Number(*n),
    };
    serde_json::to_string(&outside).expect("Failed to serialize block number")
}

/// A block in a path: its hash, or its number or tag.
pub open spec fn block_text(block_id: BlockId) -> Seq<char> {
    match block_id {
        BlockId::Hash(hash) => hash.block_hash.text(),
        BlockId::Number(number) => number_text(number),
    }
}

proof fn lemma_number_text(number: BlockNumberOrTag)
    ensures
        number_text(number).len() > 0,
        number_text(number)[0] != '"',
        number_text(number).last() != '"',
{
    reveal_strlit("latest");
    reveal_strlit("finalized");
    reveal_strlit("safe");
    reveal_strlit("earliest");
    reveal_strlit("pending");
    reveal_strlit("0x");
    if let BlockNumberOrTag::Number(n) = number {
        let body = digits(n as nat, 16);
        assert(number_text(number)[0] == "0x"@[0]);
        assert(number_text(number).last() == body.last());
    }
}

/// A block in a path: its hash, or its number or tag without the quotes of JSON.
pub fn serialize_block_id(block_id: BlockId) -> (r: String)
    ensures
        r@ == block_text(block_id),
{
    match block_id {
        BlockId::Hash(hash) => hash_text(&hash.block_hash),
        BlockId::Number(number) => {
            proof {
                lemma_number_text(number);
                lemma_trim_quoted(number_text(number), '"');
            }
            trim_char(number_json(&number).as_str(), '"')
        },
    }
}

/// The logs that are asked for: in which blocks, of which accounts, with which topics. An empty
/// list leaves the place open.
#[derive(Debug)]
pub struct Filter {
    pub block_option: FilterBlockOption,
    pub address: Vec<Address>,
    pub topics: [Vec<B256>; 4],
}

/// The number of a block, where a number is given and not a tag.
pub open spec fn as_number(block: Option<BlockNumberOrTag>) -> Option<u64> {
    match block {
        Some(BlockNumberOrTag::Number(n)) => Some(n),
        _ => None,
    }
}

/// A pair with a number, where there is one.
pub open spec fn number_pair(name: Seq<char>, number: Option<u64>) -> Seq<(Seq<char>, QueryValue)> {
    match number {
        Some(n) => seq![(name, QueryValue::Number(U256 { hi: 0, lo: n as u128 }))],
        None => Seq::empty(),
    }
}

/// The pairs that name the blocks of a filter. A tag is not sent.
pub open spec fn block_pairs(option: FilterBlockOption) -> Seq<(Seq<char>, QueryValue)> {
    match option {
        FilterBlockOption::Range { from_block, to_block } => number_pair(
            "fromBlock"@,
            as_number(from_block),
        ) + number_pair("toBlock"@, as_number(to_block)),
        FilterBlockOption::AtBlockHash(hash) => seq![("blockHash"@, QueryValue::Hash(hash))],
    }
}

/// The pairs that name the accounts of a filter.
pub open spec fn address_pairs(addresses: Seq<Address>) -> Seq<(Seq<char>, QueryValue)> {
    addresses.map_values(|a: Address| ("address"@, QueryValue::Address(a)))
}

/// The pairs that name the topics of a filter in one place.
pub open spec fn topic_pairs(name: Seq<char>, topics: Seq<B256>) -> Seq<(Seq<char>, QueryValue)> {
    topics.map_values(|t: B256| (name, QueryValue::Hash(t)))
}

/// The pairs that a filter becomes.
pub open spec fn filter_pairs(
    option: FilterBlockOption,
    addresses: Seq<Address>,
    topics: Seq<Vec<B256>>,
) -> Seq<(Seq<char>, QueryValue)> {
    block_pairs(option) + address_pairs(addresses) + topic_pairs("topic0"@, topics[0]@)
        + topic_pairs("topic1"@, topics[1]@) + topic_pairs("topic2"@, topics[2]@) + topic_pairs(
        "topic3"@,
        topics[3]@,
    )
}

fn add_pair(query: &mut Vec<QueryPair>, name: &str, value: QueryValue)
    ensures
        views(final(query)@) == views(old(query)@).push((name@, value)),
{
    let ghost before = query@;
    query.push(QueryPair { name: name.to_owned(), value });
    assert(views(query@) =~= views(before).push((name@, value)));
}

fn add_number(query: &mut Vec<QueryPair>, name: &str, block: Option<BlockNumberOrTag>)
    ensures
        views(final(query)@) == views(old(query)@) + number_pair(name@, as_number(block)),
{
    if let Some(BlockNumberOrTag::Number(n)) = block {
        add_pair(query, name, QueryValue::Number(U256::from_u64(n)));
    }
    assert(views(query@) =~= views(old(query)@) + number_pair(name@, as_number(block)));
}

fn add_topics(query: &mut Vec<QueryPair>, name: &str, topics: &Vec<B256>)
    ensures
        views(final(query)@) == views(old(query)@) + topic_pairs(name@, topics@),
{
    let ghost before = views(query@);
    let mut i: usize = 0;
    assert(views(query@) =~= before + topic_pairs(name@, topics@).take(0));
    while i < topics.len()
        invariant
            i <= topics@.len(),
            views(query@) == before + topic_pairs(name@, topics@).take(i as int),
        decreases topics@.len() - i,
    {
        add_pair(query, name, QueryValue::Hash(topics[i]));
        assert(views(query@) =~= before + topic_pairs(name@, topics@).take(i + 1));
        i = i + 1;
    }
    assert(topic_pairs(name@, topics@).take(i as int) =~= topic_pairs(name@, topics@));
}

/// The pairs that a filter becomes.
pub fn filter_query(filter: &Filter) -> (r: Vec<QueryPair>)
    ensures
        views(r@) == filter_pairs(filter.block_option, filter.address@, filter.topics@),
        asks_for_logs(views(r@), filter.block_option, filter.address@, filter.topics@),
{
    proof {
        law_query_asks_for_the_filter(filter.block_option, filter.address@, filter.topics@);
    }
    let mut query: Vec<QueryPair> = Vec::new();
    assert(views(query@) =~= Seq::empty());
    match filter.block_option {
        FilterBlockOption::Range { from_block, to_block } => {
            add_number(&mut query, "fromBlock", from_block);
            add_number(&mut query, "toBlock", to_block);
        },
        FilterBlockOption::AtBlockHash(hash) => {
            add_pair(&mut query, "blockHash", QueryValue::Hash(hash));
        },
    }
    let ghost before = block_pairs(filter.block_option);
    assert(views(query@) =~= before);
    let ghost pairs = address_pairs(filter.address@);
    let mut i: usize = 0;
    assert(views(query@) =~= before + pairs.take(0));
    while i < filter.address.len()
        invariant
            i <= filter.address@.len(),
            pairs == address_pairs(filter.address@),
            views(query@) == before + pairs.take(i as int),
        decreases filter.address@.len() - i,
    {
        add_pair(&mut query, "address", QueryValue::Address(filter.address[i]));
        assert(views(query@) =~= before + pairs.take(i + 1));
        i = i + 1;
    }
    assert(pairs.take(i as int) =~= pairs);
    add_topics(&mut query, "topic0", &filter.topics[0]);
    add_topics(&mut query, "topic1", &filter.topics[1]);
    add_topics(&mut query, "topic2", &filter.topics[2]);
    add_topics(&mut query, "topic3", &filter.topics[3]);
    query
}

/// The pairs of a question for an account.
pub open spec fn account_pairs(
    block_id: Option<BlockId>,
    slots: Seq<U256>,
    include_code: bool,
) -> Seq<(Seq<char>, QueryValue)> {
    let block = match block_id {
        Some(id) => seq![("block"@, QueryValue::Block(id))],
        None => Seq::empty(),
    };
    (block + slots.map_values(|s: U256| ("storageSlots"@, QueryValue::Number(s)))).push(
        ("includeCode"@, QueryValue::Flag(include_code)),
    )
}

/// The pairs of a question for an account: the block where one is named, each slot, and whether
/// the code is wanted.
pub fn account_query(block_id: Option<BlockId>, slots: &Vec<U256>, include_code: bool) -> (r: Vec<
    QueryPair,
>)
    ensures
        views(r@) == account_pairs(block_id, slots@, include_code),
        asks_for_account(views(r@), block_id, slots@, include_code),
{
    proof {
        law_query_asks_for_the_account(block_id, slots@, include_code);
    }
    let mut query: Vec<QueryPair> = Vec::new();
    assert(views(query@) =~= Seq::empty());
    if let Some(id) = block_id {
        add_pair(&mut query, "block", QueryValue::Block(id));
    }
    let ghost before = views(query@);
    let ghost pairs = slots@.map_values(|s: U256| ("storageSlots"@, QueryValue::Number(s)));
    assert(before =~= match block_id {
        Some(id) => seq![("block"@, QueryValue::Block(id))],
        None => Seq::empty(),
    });
    let mut i: usize = 0;
    assert(views(query@) =~= before + pairs.take(0));
    while i < slots.len()
        invariant
            i <= slots@.len(),
            pairs == slots@.map_values(|s: U256| ("storageSlots"@, QueryValue::Number(s))),
            views(query@) == before + pairs.take(i as int),
        decreases slots@.len() - i,
    {
        add_pair(&mut query, "storageSlots", QueryValue::Number(slots[i]));
        assert(views(query@) =~= before + pairs.take(i + 1));
        i = i + 1;
    }
    assert(pairs.take(i as int) =~= pairs);
    add_pair(&mut query, "includeCode", QueryValue::Flag(include_code));
    query
}

/// The path of an account.
pub open spec fn account_path(address: Address) -> Seq<char> {
    "eth/v1/proof/account/"@ + checksum_text(address.hi, address.lo)
}

/// The path of a receipt.
pub open spec fn receipt_path(tx_hash: B256) -> Seq<char> {
    "eth/v1/proof/receipt/"@ + tx_hash.text()
}

/// The path of a transaction.
pub open spec fn transaction_path(tx_hash: B256) -> Seq<char> {
    "eth/v1/proof/transaction/"@ + tx_hash.text()
}

/// The path of a transaction by its place in a block.
pub open spec fn location_path(block_id: BlockId, index: u64) -> Seq<char> {
    "eth/v1/proof/transaction/"@ + block_text(block_id) + "/"@ + digits(index as nat, 10)
}

/// The path of a block.
pub open spec fn block_path(block_id: BlockId) -> Seq<char> {
    "eth/v1/block/"@ + block_text(block_id)
}

/// The path of the receipts of a block.
pub open spec fn block_receipts_path(block_id: BlockId) -> Seq<char> {
    "eth/v1/block/"@ + block_text(block_id) + "/receipts"@
}

/// A client of the verifiable API below a base URL.
#[derive(Debug)]
pub struct HttpVerifiableApi {
    pub base_url: String,
}

impl HttpVerifiableApi {
    /// A client below this URL.
    pub fn new(base_url: &str) -> (r: Self)
        ensures
            r.base_url@ == base_url@,
    {
        HttpVerifiableApi { base_url: base_url.to_owned() }
    }

    /// Asks for an account with the proofs of its slots.
    pub fn get_account(
        &self,
        address: Address,
        storage_slots: &Vec<U256>,
        block_id: Option<BlockId>,
        include_code: bool,
    ) -> (r: Result<ApiRequest, String>)
        ensures
            request_view(r) == built(
                joined_url(self.base_url@, account_path(address)),
                "account"@,
                Method::Get,
                account_pairs(block_id, storage_slots@, include_code),
                BodyView::Empty,
            ),
            r matches Ok(request) ==> asks_for_account(
                views(request.query@),
                block_id,
                storage_slots@,
                include_code,
            ),
    {
        let path = join2("eth/v1/proof/account/", address_text(&address).as_str());
        let url = join_url(self.base_url.as_str(), path.as_str());
        let query = account_query(block_id, storage_slots, include_code);
        build(url, "account", Method::Get, query, Body::Empty)
    }

    /// Asks for a receipt.
    pub fn get_transaction_receipt(&self, tx_hash: B256) -> (r: Result<ApiRequest, String>)
        ensures
            request_view(r) == built(
                joined_url(self.base_url@, receipt_path(tx_hash)),
                "receipt"@,
                Method::Get,
                Seq::empty(),
                BodyView::Empty,
            ),
    {
        let path = join2("eth/v1/proof/receipt/", hash_text(&tx_hash).as_str());
        let url = join_url(self.base_url.as_str(), path.as_str());
        let query: Vec<QueryPair> = Vec::new();
        assert(views(query@) =~= Seq::empty());
        build(url, "receipt", Method::Get, query, Body::Empty)
    }

    /// Asks for a transaction.
    pub fn get_transaction(&self, tx_hash: B256) -> (r: Result<ApiRequest, String>)
        ensures
            request_view(r) == built(
                joined_url(self.base_url@, transaction_path(tx_hash)),
                "transaction"@,
                Method::Get,
                Seq::empty(),
                BodyView::Empty,
            ),
    {
        let path = join2("eth/v1/proof/transaction/", hash_text(&tx_hash).as_str());
        let url = join_url(self.base_url.as_str(), path.as_str());
        let query: Vec<QueryPair> = Vec::new();
        assert(views(query@) =~= Seq::empty());
        build(url, "transaction", Method::Get, query, Body::Empty)
    }

    /// Asks for a transaction by its place in a block.
    pub fn get_transaction_by_location(&self, block_id: BlockId, index: u64) -> (r: Result<
        ApiRequest,
        String,
    >)
        ensures
            request_view(r) == built(
                joined_url(self.base_url@, location_path(block_id, index)),
                "transaction by location"@,
                Method::Get,
                Seq::empty(),
                BodyView::Empty,
            ),
    {
        let block = serialize_block_id(block_id);
        let path = join2(
            join3("eth/v1/proof/transaction/", block.as_str(), "/").as_str(),
            decimal(index).as_str(),
        );
        let url = join_url(self.base_url.as_str(), path.as_str());
        let query: Vec<QueryPair> = Vec::new();
        assert(views(query@) =~= Seq::empty());
        build(url, "transaction by location", Method::Get, query, Body::Empty)
    }

    /// Asks for logs.
    pub fn get_logs(&self, filter: &Filter) -> (r: Result<ApiRequest, String>)
        ensures
            request_view(r) == built(
                joined_url(self.base_url@, "eth/v1/proof/logs"@),
                "logs"@,
                Method::Get,
                filter_pairs(filter.block_option, filter.address@, filter.topics@),
                BodyView::Empty,
            ),
            r matches Ok(request) ==> asks_for_logs(
                views(request.query@),
                filter.block_option,
                filter.address@,
                filter.topics@,
            ),
    {
        let url = join_url(self.base_url.as_str(), "eth/v1/proof/logs");
        build(url, "logs", Method::Get, filter_query(filter), Body::Empty)
    }

    /// Asks for the state that a call, which comes encoded, needs.
    pub fn get_execution_hint(
        &self,
        tx: Bytes,
        validate_tx: bool,
        block_id: Option<BlockId>,
    ) -> (r: Result<ApiRequest, String>)
        ensures
            request_view(r) == built(
                joined_url(self.base_url@, "eth/v1/proof/getExecutionHint"@),
                "execution hint"@,
                Method::Post,
                Seq::empty(),
                BodyView::ExecutionHint { tx: tx@, validate_tx, block: block_id },
            ),
    {
        let url = join_url(self.base_url.as_str(), "eth/v1/proof/getExecutionHint");
        let query: Vec<QueryPair> = Vec::new();
        assert(views(query@) =~= Seq::empty());
        build(
            url,
            "execution hint",
            Method::Post,
            query,
            Body::ExecutionHint { tx, validate_tx, block: block_id },
        )
    }

    /// Asks for the chain id.
    pub fn chain_id(&self) -> (r: Result<ApiRequest, String>)
        ensures
            request_view(r) == built(
                joined_url(self.base_url@, "eth/v1/chainId"@),
                "chain ID"@,
                Method::Get,
                Seq::empty(),
                BodyView::Empty,
            ),
    {
        let url = join_url(self.base_url.as_str(), "eth/v1/chainId");
        let query: Vec<QueryPair> = Vec::new();
        assert(views(query@) =~= Seq::empty());
        build(url, "chain ID", Method::Get, query, Body::Empty)
    }

    /// Asks for a block, with its transactions in full or by hash.
    pub fn get_block(&self, block_id: BlockId, full_tx: bool) -> (r: Result<ApiRequest, String>)
        ensures
            request_view(r) == built(
                joined_url(self.base_url@, block_path(block_id)),
                "block"@,
                Method::Get,
                seq![("transactionDetailFlag"@, QueryValue::Flag(full_tx))],
                BodyView::Empty,
            ),
    {
        let path = join2("eth/v1/block/", serialize_block_id(block_id).as_str());
        let url = join_url(self.base_url.as_str(), path.as_str());
        let mut query: Vec<QueryPair> = Vec::new();
        add_pair(&mut query, "transactionDetailFlag", QueryValue::Flag(full_tx));
        assert(views(query@) =~= seq![("transactionDetailFlag"@, QueryValue::Flag(full_tx))]);
        build(url, "block", Method::Get, query, Body::Empty)
    }

    /// Asks for the receipts of a block.
    pub fn get_block_receipts(&self, block_id: BlockId) -> (r: Result<ApiRequest, String>)
        ensures
            request_view(r) == built(
                joined_url(self.base_url@, block_receipts_path(block_id)),
                "block receipts"@,
                Method::Get,
                Seq::empty(),
                BodyView::Empty,
            ),
    {
        let block = serialize_block_id(block_id);
        let path = join3("eth/v1/block/", block.as_str(), "/receipts");
        let url = join_url(self.base_url.as_str(), path.as_str());
        let query: Vec<QueryPair> = Vec::new();
        assert(views(query@) =~= Seq::empty());
        build(url, "block receipts", Method::Get, query, Body::Empty)
    }

    /// Hands in a signed transaction.
    pub fn send_raw_transaction(&self, bytes: &Vec<u8>) -> (r: Result<ApiRequest, String>)
        ensures
            request_view(r) == built(
                joined_url(self.base_url@, "eth/v1/sendRawTransaction"@),
                "send transaction"@,
                Method::Post,
                Seq::empty(),
                BodyView::RawTransaction(bytes@),
            ),
    {
        let url = join_url(self.base_url.as_str(), "eth/v1/sendRawTransaction");
        let query: Vec<QueryPair> = Vec::new();
        assert(views(query@) =~= Seq::empty());
        let data = bytes.clone();
        assert(data@ =~= bytes@);
        build(url, "send transaction", Method::Post, query, Body::RawTransaction(Bytes { data }))
    }
}

/// A status that says that a request succeeded.
pub open spec fn is_success(status: u16) -> bool {
    200 <= status < 300
}

/// A response whose body comes in chunk by chunk.
#[derive(Debug)]
pub struct ResponseRead {
    pub status: u16,
    pub body: Vec<u8>,
    pub chunks: u32,
}

/// How a response is to be read.
#[derive(Debug)]
pub enum ResponsePlan {
    /// Chunk by chunk; the whole of it is then the answer, to be parsed.
    Chunks(ResponseRead),
    /// As text, which says what went wrong.
    ErrorText,
}

/// How a response of this status is to be read.
pub fn start_response(status: u16) -> (r: ResponsePlan)
    ensures
        match r {
            ResponsePlan::Chunks(read) => {
                &&& is_success(status)
                &&& read.status == status
                &&& read.body@ == Seq::<u8>::empty()
                &&& read.chunks == 0
            },
            ResponsePlan::ErrorText => !is_success(status),
        },
{
    if 200 <= status && status < 300 {
        ResponsePlan::Chunks(ResponseRead { status, body: Vec::new(), chunks: 0 })
    } else {
        ResponsePlan::ErrorText
    }
}

impl ResponseRead {
    /// Takes in the next chunk of the body.
    pub fn chunk(&mut self, chunk: &Vec<u8>)
        requires
            old(self).chunks < u32::MAX,
        ensures
            final(self).status == old(self).status,
            final(self).body@ == received(old(self).body@, seq![chunk@]),
            final(self).chunks == old(self).chunks + 1,
    {
        let mut copy = chunk.clone();
        assert(copy@ =~= chunk@);
        let ghost before = self.body@;
        self.body.append(&mut copy);
        self.chunks = self.chunks + 1;
        assert(seq![chunk@].drop_last() =~= Seq::empty());
        assert(received(before, seq![chunk@].drop_last()) == before);
        assert(self.body@ == received(before, seq![chunk@]));
    }
}

/// A body as its chunks make it, one after the other.
pub open spec fn received(body: Seq<u8>, chunks: Seq<Seq<u8>>) -> Seq<u8>
    decreases chunks.len(),
{
    if chunks.len() == 0 {
        body
    } else {
        received(body, chunks.drop_last()) + chunks.last()
    }
}

/// The body of a response is its chunks, joined.
pub proof fn law_body_is_the_chunks_joined(body: Seq<u8>, chunks: Seq<Seq<u8>>)
    ensures
        received(body, chunks) == body + chunks.flatten(),
    decreases chunks.len(),
{
    if chunks.len() == 0 {
        assert(chunks.flatten() =~= Seq::empty());
        assert(body + chunks.flatten() =~= body);
    } else {
        law_body_is_the_chunks_joined(body, chunks.drop_last());
        chunks.lemma_flatten_and_flatten_alt_are_equivalent();
        chunks.drop_last().lemma_flatten_and_flatten_alt_are_equivalent();
        assert(received(body, chunks) =~= body + chunks.flatten());
    }
}

/// What there is to be parsed of a response, where it is one of success.
pub open spec fn body_to_parse(status: u16, chunks: Seq<Seq<u8>>) -> Option<Seq<u8>> {
    if is_success(status) {
        Some(received(Seq::empty(), chunks))
    } else {
        None
    }
}

/// What there is to be parsed of a success is the bytes that came, however they were cut into
/// chunks and whatever the status of success.
pub proof fn law_chunking_does_not_matter(
    status: u16,
    chunks: Seq<Seq<u8>>,
    other_status: u16,
    others: Seq<Seq<u8>>,
)
    requires
        is_success(status),
        is_success(other_status),
        chunks.flatten() == others.flatten(),
    ensures
        body_to_parse(status, chunks) == Some(chunks.flatten()),
        body_to_parse(other_status, others) == body_to_parse(status, chunks),
{
    law_body_is_the_chunks_joined(Seq::empty(), chunks);
    law_body_is_the_chunks_joined(Seq::empty(), others);
    assert(Seq::<u8>::empty() + chunks.flatten() =~= chunks.flatten());
}

/// As much of the body of an error as is reported.
pub open spec fn reported(text: Seq<char>) -> Seq<char> {
    if text.len() <= 300 {
        text
    } else {
        text.take(300)
    }
}

/// The beginning of the body of an error, for the log and for the report.
pub fn error_detail(text: &str) -> (r: String)
    ensures
        r@ == reported(text@),
{
    let detail = first_chars(text, 300);
    assert(detail@ =~= reported(text@));
    detail
}

/// What a request failed with: the error that the server names, where its answer has the shape
/// of one, and otherwise the status and the beginning of the body.
pub fn response_failure(status: u16, text: &str, named_error: Option<String>) -> (r: String)
    ensures
        r@ == match named_error {
            Some(error) => error@,
            None => "vapi "@ + digits(status as nat, 10) + ": "@ + reported(text@),
        },
{
    match named_error {
        Some(error) => error,
        None => join2(
            join3("vapi ", decimal(status as u64).as_str(), ": ").as_str(),
            error_detail(text).as_str(),
        ),
    }
}

} // verus!
