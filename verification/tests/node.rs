use helios_execution::account::StorageProof;
use helios_execution::chain::{Block, BlockTransactions, Header, Transaction};
use helios_execution::error::ProviderError;
use helios_execution::logs::{
    blocks_of_logs, check_logs, encode_logs, flatten_receipts, index_receipts, is_checkable,
    try_verify_logs, verify_logs, Log, Receipt,
};
use helios_execution::primitives::{
    Address, BlockId, BlockNumberOrTag, Bytes, RpcBlockHash, B256, U256,
};
use helios_execution::rpc_provider::{
    code_answered, code_checked, get_block_receipts, get_logs, get_receipt, get_transaction,
    get_transaction_by_location, plan_block_number, proof_answered, proof_checked, receipt_block,
    required, resolve_block_number, resolve_filter, should_use_historical_provider,
    start_account, start_block_receipts, transaction_in_block, AccountProof, BlockStep,
    FilterBlockOption, NumberPlan, ReadStep, ReceiptsStep, RpcExecutionProvider, TransactionStep,
};

fn word(n: u128) -> B256 {
    B256 { hi: 0, lo: n }
}

fn block(number: u64, transactions: BlockTransactions) -> Block {
    Block {
        header: Header {
            hash: word(100 + number as u128),
            parent_hash: word(0),
            number,
            timestamp: 0,
            state_root: word(77),
            beneficiary: Address { hi: 0, lo: 0 },
            gas_limit: 0,
            base_fee_per_gas: None,
            difficulty: U256 { hi: 0, lo: 0 },
            mix_hash: None,
        },
        transactions,
        rest: Bytes { data: Vec::new() },
    }
}

fn transaction(hash: u128, block_hash: Option<u128>, byte: u8) -> Transaction {
    Transaction {
        hash: word(hash),
        block_hash: block_hash.map(word),
        rest: Bytes { data: vec![byte] },
    }
}

fn account_proof(code_hash: B256) -> AccountProof {
    AccountProof {
        nonce: 3,
        balance: U256 { hi: 0, lo: 4 },
        storage_hash: word(5),
        code_hash,
        account_proof: vec![Bytes { data: vec![6] }],
        storage_proof: vec![StorageProof {
            key: word(7),
            value: U256 { hi: 0, lo: 8 },
            proof: vec![],
        }],
    }
}

fn keccak_of(bytes: &[u8]) -> B256 {
    let hash = alloy::primitives::keccak256(bytes);
    B256 {
        hi: u128::from_be_bytes(hash.0[..16].try_into().unwrap()),
        lo: u128::from_be_bytes(hash.0[16..].try_into().unwrap()),
    }
}

fn reported(text: &str) -> ProviderError {
    ProviderError::Reported(text.to_string())
}

fn bytes(data: &[u8]) -> Bytes {
    Bytes { data: data.to_vec() }
}

#[test]
fn reading_starts_at_the_block() {
    match start_account(Ok(Some(block(5, BlockTransactions::Uncle))), true) {
        ReadStep::AskProof { block_hash, state_root, with_code } => {
            assert_eq!(block_hash, word(105));
            assert_eq!(state_root, word(77));
            assert!(with_code);
        }
        other => panic!("{other:?}"),
    }
    assert!(matches!(
        start_account(Ok(None), true),
        ReadStep::Done(Err(ProviderError::BlockNotFound))
    ));
    assert!(matches!(
        start_account(Err(reported("x")), true),
        ReadStep::Done(Err(ProviderError::Reported(_)))
    ));
}

#[test]
fn failed_proof_ends_the_reading() {
    let step = proof_answered(word(77), Err(reported("no proof")), None);
    assert!(matches!(step, ReadStep::Done(Err(ProviderError::Reported(_)))));
    let step = proof_answered(word(77), Ok(account_proof(word(1))), Some(Ok(bytes(&[1]))));
    match step {
        ReadStep::CheckProof { state_root, speculative, .. } => {
            assert_eq!(state_root, word(77));
            assert_eq!(speculative.unwrap().unwrap().data, vec![1]);
        }
        other => panic!("{other:?}"),
    }
}

#[test]
fn account_without_code_ignores_the_code_that_was_fetched() {
    for hash in [keccak_of(&[]), word(0)] {
        assert!(account_proof(hash).is_without_code());
        for ahead in [Some(Err(reported("late"))), Some(Ok(bytes(&[1, 2]))), None] {
            match proof_checked(true, account_proof(hash), Ok(()), Ok(()), ahead) {
                ReadStep::Done(Ok(account)) => {
                    assert_eq!(account.code.unwrap().data, Vec::<u8>::new());
                    assert_eq!(account.account.nonce, 3);
                    assert_eq!(account.account.balance.lo, 4);
                    assert_eq!(account.account.storage_root, word(5));
                    assert_eq!(account.account.code_hash, hash);
                    assert_eq!(account.account_proof[0].data, vec![6]);
                    assert_eq!(account.storage_proof[0].value.lo, 8);
                }
                other => panic!("{other:?}"),
            }
        }
    }
    assert!(!account_proof(keccak_of(&[1])).is_without_code());
}

#[test]
fn code_is_checked_before_it_is_used() {
    let hash = keccak_of(&[1, 2]);
    let ahead = Some(Ok(bytes(&[1, 2])));
    let (shown, code) = match proof_checked(true, account_proof(hash), Ok(()), Ok(()), ahead) {
        ReadStep::CheckCode { proof: shown, code } => (shown, code),
        other => panic!("{other:?}"),
    };
    assert_eq!(code.data, vec![1, 2]);
    let account = code_checked(shown, code, Ok(())).unwrap();
    assert_eq!(account.code.unwrap().data, vec![1, 2]);
    let refused = code_checked(account_proof(hash), bytes(&[3]), Err(reported("code")));
    assert!(matches!(refused, Err(ProviderError::Reported(_))));
}

#[test]
fn code_that_could_not_be_fetched_fails_the_reading() {
    let hash = keccak_of(&[1, 2]);
    let ahead = Some(Err(reported("late")));
    assert!(matches!(
        proof_checked(true, account_proof(hash), Ok(()), Ok(()), ahead),
        ReadStep::Done(Err(ProviderError::Reported(_)))
    ));
    assert!(matches!(
        proof_checked(true, account_proof(hash), Ok(()), Ok(()), None),
        ReadStep::AskCode { .. }
    ));
    assert!(matches!(
        code_answered(account_proof(hash), Ok(bytes(&[1]))),
        ReadStep::CheckCode { .. }
    ));
    assert!(matches!(
        code_answered(account_proof(hash), Err(reported("x"))),
        ReadStep::Done(Err(_))
    ));
}

#[test]
fn refused_proof_fails_the_reading() {
    let first = proof_checked(
        false,
        account_proof(word(1)),
        Err(reported("account")),
        Err(reported("storage")),
        None,
    );
    match first {
        ReadStep::Done(Err(ProviderError::Reported(text))) => assert_eq!(text, "account"),
        other => panic!("{other:?}"),
    }
    let second =
        proof_checked(false, account_proof(word(1)), Ok(()), Err(reported("storage")), None);
    match second {
        ReadStep::Done(Err(ProviderError::Reported(text))) => assert_eq!(text, "storage"),
        other => panic!("{other:?}"),
    }
    match proof_checked(false, account_proof(word(1)), Ok(()), Ok(()), None) {
        ReadStep::Done(Ok(account)) => assert!(account.code.is_none()),
        other => panic!("{other:?}"),
    }
}

#[test]
fn older_blocks_are_looked_up_last() {
    let plain = RpcExecutionProvider::new("http://localhost:8545", ());
    let both = RpcExecutionProvider::with_historical_provider("http://localhost:8545", (), ());
    let number = BlockId::Number(BlockNumberOrTag::Number(5));
    let hash = BlockId::Hash(RpcBlockHash { block_hash: word(1), require_canonical: None });
    let tag = BlockId::Number(BlockNumberOrTag::Latest);
    assert!(should_use_historical_provider(&number));
    assert!(should_use_historical_provider(&hash));
    assert!(!should_use_historical_provider(&tag));
    assert!(matches!(both.get_block(Ok(None), &number), BlockStep::AskHistorical));
    assert!(matches!(both.get_block(Ok(None), &hash), BlockStep::AskHistorical));
    assert!(matches!(both.get_block(Ok(None), &tag), BlockStep::Done(Ok(None))));
    assert!(matches!(plain.get_block(Ok(None), &number), BlockStep::Done(Ok(None))));
    let found = both.get_block(Ok(Some(block(5, BlockTransactions::Uncle))), &number);
    assert!(matches!(found, BlockStep::Done(Ok(Some(_)))));
    assert!(matches!(both.get_block(Err(reported("x")), &number), BlockStep::Done(Err(_))));
    assert_eq!(plain.rpc_url, "http://localhost:8545");
}

#[test]
fn transaction_comes_from_its_block() {
    match get_transaction(Ok(Some(transaction(1, Some(105), 0)))) {
        TransactionStep::AskBlock { block_hash, tx_hash } => {
            assert_eq!(block_hash, word(105));
            assert_eq!(tx_hash, word(1));
        }
        other => panic!("{other:?}"),
    }
    assert!(matches!(
        get_transaction(Ok(Some(transaction(1, None, 0)))),
        TransactionStep::Done(Err(ProviderError::BlockNotFound))
    ));
    assert!(matches!(get_transaction(Ok(None)), TransactionStep::Done(Ok(None))));
    let full = BlockTransactions::Full(vec![
        transaction(4, None, 40),
        transaction(1, None, 10),
        transaction(1, None, 11),
    ]);
    let found = transaction_in_block(Ok(Some(block(5, full.clone()))), word(1)).unwrap().unwrap();
    assert_eq!(found.rest.data, vec![10]);
    assert!(transaction_in_block(Ok(Some(block(5, full.clone()))), word(2)).unwrap().is_none());
    assert!(matches!(
        transaction_in_block(Ok(None), word(1)),
        Err(ProviderError::BlockNotFound)
    ));
    let by_hash = block(5, BlockTransactions::Hashes(vec![word(1)]));
    assert!(transaction_in_block(Ok(Some(by_hash)), word(1)).unwrap().is_none());
    let second = get_transaction_by_location(Ok(Some(block(5, full.clone()))), 1);
    assert_eq!(second.unwrap().unwrap().rest.data, vec![10]);
    assert!(get_transaction_by_location(Ok(Some(block(5, full))), 3).unwrap().is_none());
    assert!(matches!(
        get_transaction_by_location(Ok(None), 0),
        Err(ProviderError::BlockNotFound)
    ));
}

fn receipt(tx: u128, block_hash: Option<u128>, logs: Vec<Log>) -> Receipt {
    Receipt {
        transaction_hash: word(tx),
        block_hash: block_hash.map(word),
        logs,
        rest: Bytes { data: vec![tx as u8] },
    }
}

fn log(tx: Option<u128>, data: &[u8], number: Option<u64>, index: Option<u64>) -> Log {
    Log {
        address: Address { hi: 1, lo: 2 },
        topics: vec![word(3)],
        data: Bytes { data: data.to_vec() },
        block_number: number,
        transaction_hash: tx.map(word),
        log_index: index,
        rest: Bytes { data: Vec::new() },
    }
}

#[test]
fn receipt_comes_from_its_block() {
    assert_eq!(receipt_block(Ok(Some(receipt(1, Some(9), vec![])))).unwrap(), word(9));
    assert!(matches!(receipt_block(Ok(None)), Err(ProviderError::ReceiptNotFound)));
    assert!(matches!(
        receipt_block(Ok(Some(receipt(1, None, vec![])))),
        Err(ProviderError::BlockNotFound)
    ));
    let all = vec![receipt(4, Some(9), vec![]), receipt(1, Some(9), vec![])];
    let found = get_receipt(all.clone(), Ok(()), word(1)).unwrap().unwrap();
    assert_eq!(found.rest.data, vec![1]);
    assert!(get_receipt(all.clone(), Ok(()), word(2)).unwrap().is_none());
    assert!(get_receipt(all.clone(), Err(reported("root")), word(1)).is_err());
    assert_eq!(get_block_receipts(all.clone(), Ok(())).unwrap().unwrap().len(), 2);
    assert!(get_block_receipts(all, Err(reported("root"))).is_err());
}

#[test]
fn receipts_of_a_missing_block_are_none() {
    assert!(matches!(start_block_receipts(Ok(None)), ReceiptsStep::Done(Ok(None))));
    assert!(matches!(start_block_receipts(Err(reported("x"))), ReceiptsStep::Done(Err(_))));
    match start_block_receipts(Ok(Some(block(5, BlockTransactions::Uncle)))) {
        ReceiptsStep::AskReceipts { block_hash, .. } => assert_eq!(block_hash, word(105)),
        other => panic!("{other:?}"),
    }
    let none: Result<Option<Vec<Receipt>>, ProviderError> = Ok(None);
    assert!(matches!(
        required(none, ProviderError::ReceiptFetchFailed),
        Err(ProviderError::ReceiptFetchFailed)
    ));
}

#[test]
fn block_numbers_are_resolved() {
    let latest = NumberPlan::Ask(BlockNumberOrTag::Latest);
    assert_eq!(plan_block_number(None), latest);
    assert_eq!(plan_block_number(Some(BlockNumberOrTag::Latest)), latest);
    assert_eq!(
        plan_block_number(Some(BlockNumberOrTag::Finalized)),
        NumberPlan::Ask(BlockNumberOrTag::Finalized)
    );
    assert_eq!(plan_block_number(Some(BlockNumberOrTag::Number(3))), NumberPlan::Known(3));
    for tag in [BlockNumberOrTag::Safe, BlockNumberOrTag::Earliest, BlockNumberOrTag::Pending] {
        assert_eq!(plan_block_number(Some(tag)), NumberPlan::Refused);
        assert!(matches!(
            resolve_block_number(Some(tag), Ok(None)),
            Err(ProviderError::BlockNotFound)
        ));
    }
    let head = || Ok(Some(block(12, BlockTransactions::Uncle)));
    assert_eq!(resolve_block_number(None, head()).unwrap(), 12);
    assert_eq!(resolve_block_number(Some(BlockNumberOrTag::Number(3)), head()).unwrap(), 3);
    assert!(matches!(
        resolve_block_number(None, Ok(None)),
        Err(ProviderError::BlockNotFound)
    ));
}

#[test]
fn filter_ends_become_numbers() {
    let range = FilterBlockOption::Range {
        from_block: None,
        to_block: Some(BlockNumberOrTag::Finalized),
    };
    assert_eq!(
        resolve_filter(range, Ok(1), Ok(2)).unwrap(),
        FilterBlockOption::Range {
            from_block: Some(BlockNumberOrTag::Number(1)),
            to_block: Some(BlockNumberOrTag::Number(2)),
        }
    );
    match resolve_filter(range, Err(reported("a")), Err(reported("b"))) {
        Err(ProviderError::Reported(text)) => assert_eq!(text, "a"),
        other => panic!("{other:?}"),
    }
    assert!(resolve_filter(range, Ok(1), Err(reported("b"))).is_err());
    let at = FilterBlockOption::AtBlockHash(word(4));
    assert_eq!(resolve_filter(at, Err(reported("a")), Ok(2)).unwrap(), at);
}

#[test]
fn logs_are_encoded_as_rlp() {
    let encoded = encode_logs(&vec![log(Some(1), &[0xaa, 0xbb], None, None)]);
    // A list of 58 bytes: the address, a list of one topic, the data.
    let mut expected = vec![0xf8, 0x3a, 0x94, 0, 0, 0, 1];
    expected.extend([0u8; 15]);
    expected.push(2);
    expected.extend([0xe1, 0xa0]);
    expected.extend([0u8; 31]);
    expected.push(3);
    expected.extend([0x82, 0xaa, 0xbb]);
    assert_eq!(encoded[0].data, expected);
}

#[test]
fn receipts_are_fetched_for_each_block_once() {
    let logs = vec![
        log(Some(1), &[], Some(5), None),
        log(Some(1), &[], Some(9), None),
        log(Some(1), &[], Some(5), None),
        log(Some(1), &[], None, None),
        log(Some(1), &[], Some(4), None),
    ];
    assert_eq!(blocks_of_logs(&logs, 8), vec![5, 4]);
    let all = flatten_receipts(vec![
        Some(vec![receipt(1, None, vec![])]),
        None,
        Some(vec![receipt(2, None, vec![]), receipt(3, None, vec![])]),
    ]);
    assert_eq!(all.iter().map(|r| r.transaction_hash.lo).collect::<Vec<_>>(), vec![1, 2, 3]);
}

#[test]
fn proven_logs_pass() {
    let receipts = vec![
        receipt(1, None, vec![log(Some(1), &[1], None, None), log(Some(1), &[2], None, None)]),
        receipt(2, None, vec![]),
        receipt(3, None, vec![log(Some(3), &[3], None, None)]),
    ];
    let logs = vec![
        log(Some(3), &[3], Some(5), Some(0)),
        log(Some(1), &[2], Some(5), Some(7)),
    ];
    assert!(verify_logs(&logs, &receipts).is_ok());
    assert!(matches!(try_verify_logs(&logs, &receipts), Some(Ok(()))));
    let swapped = vec![receipts[2].clone(), receipts[0].clone()];
    assert!(verify_logs(&logs, &swapped).is_ok());
}

#[test]
fn first_log_that_is_not_proven_is_reported() {
    let receipts = vec![receipt(1, None, vec![log(Some(1), &[1], None, None)])];
    let logs = vec![
        log(Some(1), &[1], Some(5), Some(0)),
        log(Some(1), &[9], Some(5), Some(4)),
        log(Some(1), &[8], Some(5), Some(6)),
    ];
    match verify_logs(&logs, &receipts) {
        Err(ProviderError::MissingLog { tx_hash, log_index }) => {
            assert_eq!(tx_hash, word(1));
            assert_eq!(log_index, U256 { hi: 0, lo: 4 });
        }
        other => panic!("{other:?}"),
    }
}

#[test]
fn logs_that_say_too_little_are_not_judged() {
    let receipts = vec![receipt(1, None, vec![log(Some(1), &[1], None, None)])];
    let nameless = vec![log(None, &[1], None, Some(0))];
    assert!(try_verify_logs(&nameless, &receipts).is_none());
    let unknown = vec![log(Some(2), &[1], None, Some(0))];
    assert!(try_verify_logs(&unknown, &receipts).is_none());
    let placeless = vec![log(Some(1), &[9], None, None)];
    assert!(try_verify_logs(&placeless, &receipts).is_none());
    let odd = vec![receipt(1, None, vec![log(None, &[1], None, None)])];
    assert!(try_verify_logs(&vec![], &odd).is_none());
}

#[test]
fn check_goes_by_the_encodings_it_is_given() {
    let receipts = vec![receipt(1, None, vec![log(Some(1), &[1], None, None)])];
    let index = index_receipts(&receipts);
    let logs = vec![log(Some(1), &[1], None, Some(2))];
    let right = encode_logs(&logs);
    let wrong = vec![Bytes { data: vec![0] }];
    assert!(is_checkable(&logs, &right, &index));
    assert!(check_logs(&logs, &right, &index).is_ok());
    assert!(is_checkable(&logs, &wrong, &index));
    assert!(check_logs(&logs, &wrong, &index).is_err());
}

#[test]
fn logs_come_out_once_they_passed_both_checks() {
    let logs = vec![log(Some(1), &[1], None, Some(2))];
    assert_eq!(get_logs(logs.clone(), Ok(()), Ok(())).unwrap().len(), 1);
    match get_logs(logs.clone(), Err(reported("a")), Err(reported("b"))) {
        Err(ProviderError::Reported(text)) => assert_eq!(text, "a"),
        other => panic!("{other:?}"),
    }
    assert!(get_logs(logs, Ok(()), Err(reported("b"))).is_err());
}
