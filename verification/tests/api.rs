use helios_execution::api_client::{
    account_query, build, error_detail, response_failure, serialize_block_id, start_response,
    ApiRequest, Body, Filter, HttpVerifiableApi, Method, QueryValue, ResponsePlan,
};
use helios_execution::client_settings::{
    api_client_layers, api_client_settings, rpc_client_settings, rpc_retry_backoff, ClientLayer,
};
use helios_execution::primitives::{
    Address, BlockId, BlockNumberOrTag, Bytes, RpcBlockHash, B256, U256,
};
use helios_execution::rpc_provider::FilterBlockOption;

fn api() -> HttpVerifiableApi {
    HttpVerifiableApi::new("https://api.example.org/")
}

fn hash() -> B256 {
    B256 { hi: 0xab, lo: 1 }
}

const HASH: &str = "0x000000000000000000000000000000ab00000000000000000000000000000001";

fn checksummed() -> Address {
    // 0x5aAeb6053F3E94C9b9A09f33669435E7Ef1BeAed
    Address { hi: 0x5aaeb605, lo: 0x3f3e94c9b9a09f33669435e7ef1beaed }
}

fn number(n: u64) -> BlockId {
    BlockId::Number(BlockNumberOrTag::Number(n))
}

fn names(request: &ApiRequest) -> Vec<String> {
    request.query.iter().map(|p| p.name.clone()).collect()
}

#[test]
fn blocks_in_paths() {
    let tag = |t| serialize_block_id(BlockId::Number(t));
    assert_eq!(tag(BlockNumberOrTag::Latest), "latest");
    assert_eq!(tag(BlockNumberOrTag::Finalized), "finalized");
    assert_eq!(tag(BlockNumberOrTag::Safe), "safe");
    assert_eq!(tag(BlockNumberOrTag::Earliest), "earliest");
    assert_eq!(tag(BlockNumberOrTag::Pending), "pending");
    assert_eq!(serialize_block_id(number(0)), "0x0");
    assert_eq!(serialize_block_id(number(255)), "0xff");
    assert_eq!(serialize_block_id(number(4096)), "0x1000");
    assert_eq!(serialize_block_id(number(u64::MAX)), "0xffffffffffffffff");
    let by_hash = BlockId::Hash(RpcBlockHash { block_hash: hash(), require_canonical: Some(true) });
    assert_eq!(serialize_block_id(by_hash), HASH);
}

#[test]
fn account_request() {
    let slots = vec![U256 { hi: 0, lo: 5 }, U256 { hi: 1, lo: 0 }];
    let request = api().get_account(checksummed(), &slots, Some(number(7)), true).unwrap();
    assert_eq!(request.method, Method::Get);
    assert_eq!(
        request.url,
        "https://api.example.org/eth/v1/proof/account/0x5aAeb6053F3E94C9b9A09f33669435E7Ef1BeAed"
    );
    assert_eq!(names(&request), vec!["block", "storageSlots", "storageSlots", "includeCode"]);
    assert_eq!(request.query[0].value, QueryValue::Block(number(7)));
    assert_eq!(request.query[1].value, QueryValue::Number(slots[0]));
    assert_eq!(request.query[2].value, QueryValue::Number(slots[1]));
    assert_eq!(request.query[3].value, QueryValue::Flag(true));
    assert!(matches!(request.body, Body::Empty));
    let bare = account_query(None, &vec![], false);
    assert_eq!(bare.len(), 1);
    assert_eq!(bare[0].value, QueryValue::Flag(false));
}

#[test]
fn transaction_requests() {
    let root = "https://api.example.org/eth/v1/proof/";
    let request = api().get_transaction_receipt(hash()).unwrap();
    assert_eq!(request.url, format!("{root}receipt/{HASH}"));
    let request = api().get_transaction(hash()).unwrap();
    assert_eq!(request.url, format!("{root}transaction/{HASH}"));
    let request = api().get_transaction_by_location(number(16), 120).unwrap();
    assert_eq!(request.url, format!("{root}transaction/0x10/120"));
    assert!(request.query.is_empty());
    let request = api().send_raw_transaction(&vec![1, 2]).unwrap();
    assert_eq!(request.url, "https://api.example.org/eth/v1/sendRawTransaction");
    assert_eq!(request.method, Method::Post);
    match request.body {
        Body::RawTransaction(bytes) => assert_eq!(bytes.data, vec![1, 2]),
        other => panic!("{other:?}"),
    }
}

#[test]
fn block_requests() {
    let request = api().get_block(BlockId::Number(BlockNumberOrTag::Latest), true).unwrap();
    assert_eq!(request.url, "https://api.example.org/eth/v1/block/latest");
    assert_eq!(names(&request), vec!["transactionDetailFlag"]);
    assert_eq!(request.query[0].value, QueryValue::Flag(true));
    let request = api().get_block_receipts(number(3)).unwrap();
    assert_eq!(request.url, "https://api.example.org/eth/v1/block/0x3/receipts");
    let request = api().chain_id().unwrap();
    assert_eq!(request.url, "https://api.example.org/eth/v1/chainId");
}

#[test]
fn hint_request() {
    let tx = Bytes { data: vec![b'{', b'}'] };
    let request = api().get_execution_hint(tx, true, Some(number(3))).unwrap();
    assert_eq!(request.url, "https://api.example.org/eth/v1/proof/getExecutionHint");
    assert_eq!(request.method, Method::Post);
    match request.body {
        Body::ExecutionHint { tx, validate_tx, block } => {
            assert_eq!(tx.data, vec![b'{', b'}']);
            assert!(validate_tx);
            assert_eq!(block, Some(number(3)));
        }
        other => panic!("{other:?}"),
    }
}

#[test]
fn logs_request() {
    let filter = Filter {
        block_option: FilterBlockOption::Range {
            from_block: Some(BlockNumberOrTag::Number(4)),
            to_block: Some(BlockNumberOrTag::Latest),
        },
        address: vec![checksummed()],
        topics: [vec![hash()], vec![], vec![hash(), B256 { hi: 0, lo: 2 }], vec![]],
    };
    let request = api().get_logs(&filter).unwrap();
    assert_eq!(request.url, "https://api.example.org/eth/v1/proof/logs");
    assert_eq!(names(&request), vec!["fromBlock", "address", "topic0", "topic2", "topic2"]);
    assert_eq!(request.query[0].value, QueryValue::Number(U256 { hi: 0, lo: 4 }));
    assert_eq!(request.query[1].value, QueryValue::Address(checksummed()));
    assert_eq!(request.query[4].value, QueryValue::Hash(B256 { hi: 0, lo: 2 }));
    let at = Filter {
        block_option: FilterBlockOption::AtBlockHash(hash()),
        address: vec![],
        topics: [vec![], vec![], vec![], vec![hash()]],
    };
    assert_eq!(names(&api().get_logs(&at).unwrap()), vec!["blockHash", "topic3"]);
}

#[test]
fn request_without_a_url_says_what_failed() {
    let broken = HttpVerifiableApi::new("mailto:someone@example.org");
    let expected = url::Url::parse("mailto:someone@example.org")
        .unwrap()
        .join("eth/v1/chainId")
        .unwrap_err()
        .to_string();
    assert_eq!(
        broken.chain_id().unwrap_err(),
        format!("Failed to construct chain ID URL: {expected}")
    );
    assert!(broken
        .get_transaction_by_location(number(1), 2)
        .unwrap_err()
        .starts_with("Failed to construct transaction by location URL: "));
    let built = build(Err("why".to_string()), "thing", Method::Get, vec![], Body::Empty);
    assert_eq!(built.unwrap_err(), "Failed to construct thing URL: why");
}

#[test]
fn successful_response_is_put_together() {
    let mut read = match start_response(200) {
        ResponsePlan::Chunks(read) => read,
        ResponsePlan::ErrorText => panic!("a success"),
    };
    read.chunk(&vec![1, 2]);
    read.chunk(&vec![]);
    read.chunk(&vec![3]);
    assert_eq!(read.body, vec![1, 2, 3]);
    assert_eq!(read.chunks, 3);
    assert!(matches!(start_response(299), ResponsePlan::Chunks(_)));
    assert!(matches!(start_response(300), ResponsePlan::ErrorText));
    assert!(matches!(start_response(199), ResponsePlan::ErrorText));
    for status in 100..600u16 {
        let success = http::StatusCode::from_u16(status).unwrap().is_success();
        assert_eq!(matches!(start_response(status), ResponsePlan::Chunks(_)), success);
    }
}

#[test]
fn cut_of_the_chunks_does_not_matter() {
    let bytes: Vec<u8> = (0..20).collect();
    for size in [1, 3, 7, 20] {
        for status in [200, 206, 299] {
            let mut read = match start_response(status) {
                ResponsePlan::Chunks(read) => read,
                ResponsePlan::ErrorText => panic!("a success"),
            };
            for chunk in bytes.chunks(size) {
                read.chunk(&chunk.to_vec());
            }
            assert_eq!(read.body, bytes);
        }
    }
}

#[test]
fn failed_response_is_reported() {
    let named = Some("no such block".to_string());
    assert_eq!(response_failure(404, "{}", named), "no such block");
    assert_eq!(response_failure(502, "bad gateway", None), "vapi 502: bad gateway");
    let long = "\u{e9}".repeat(400);
    let cut = "\u{e9}".repeat(300);
    assert_eq!(error_detail(&long), cut);
    assert_eq!(response_failure(500, &long, None), format!("vapi 500: {cut}"));
}

#[test]
fn connection_settings() {
    assert!(!api_client_settings(None).http1_only);
    assert!(!api_client_settings(Some("")).http1_only);
    let forced = api_client_settings(Some("1"));
    assert!(forced.http1_only);
    assert_eq!(forced.pool_max_idle_per_host, 30);
    assert_eq!(forced.http2_stream_window, Some(8 * 1024 * 1024));
    assert_eq!(forced.http2_connection_window, Some(32 * 1024 * 1024));
    let rpc = rpc_client_settings();
    assert_eq!(rpc, api_client_settings(None));
    assert_eq!(rpc.pool_max_idle_per_host, 30);
    assert_eq!(rpc.pool_idle_timeout, None);
    assert_eq!((rpc.tcp_keepalive, rpc.tcp_nodelay), (30, true));
    assert_eq!((rpc.http2_keep_alive_interval, rpc.http2_keep_alive_timeout), (30, 30));
    assert!(rpc.http2_keep_alive_while_idle && rpc.hickory_dns && !rpc.http1_only);
    let backoff = rpc_retry_backoff();
    assert_eq!(
        (backoff.max_rate_limit_retries, backoff.initial_backoff),
        (100, 50)
    );
    assert_eq!(backoff.compute_units_per_second, 300);
    assert_eq!(
        api_client_layers(),
        vec![ClientLayer::Retry(3), ClientLayer::AttemptSpan, ClientLayer::TraceInject]
    );
}
