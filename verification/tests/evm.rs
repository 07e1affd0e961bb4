use helios_execution::access_list::AccessListItem;
use helios_execution::chain::{Block, BlockTransactions, Header};
use helios_execution::error::ProviderError;
use helios_execution::evm::{
    block_env, get_spec_id_for_block_timestamp, replay_failure, tx_env, EvmError, ForkSchedule,
    OpSpecId, OpStackEvm, TransactRun, TransactStep, TransactionRequest, TxKind,
};
use helios_execution::primitives::{
    Address, BlockId, BlockNumberOrTag, Bytes, B256, U256,
};

fn schedule() -> ForkSchedule {
    ForkSchedule {
        bedrock_timestamp: 10,
        regolith_timestamp: 20,
        canyon_timestamp: 30,
        ecotone_timestamp: 40,
        fjord_timestamp: 50,
        granite_timestamp: 60,
        holocene_timestamp: 70,
        isthmus_timestamp: 80,
    }
}

fn block(timestamp: u64) -> Block {
    Block {
        header: Header {
            hash: B256 { hi: 1, lo: 2 },
            parent_hash: B256 { hi: 0, lo: 0 },
            number: 44,
            timestamp,
            state_root: B256 { hi: 0, lo: 0 },
            beneficiary: Address { hi: 5, lo: 6 },
            gas_limit: 30_000_000,
            base_fee_per_gas: Some(17),
            difficulty: U256 { hi: 0, lo: 3 },
            mix_hash: Some(B256 { hi: 8, lo: 9 }),
        },
        transactions: BlockTransactions::Uncle,
        rest: Bytes { data: Vec::new() },
    }
}

fn empty_request(tx_type: u8) -> TransactionRequest {
    TransactionRequest {
        tx_type,
        from: None,
        kind: None,
        gas_limit: None,
        gas_price: None,
        max_priority_fee_per_gas: None,
        value: None,
        input: None,
        nonce: None,
        chain_id: None,
        access_list: None,
        blob_versioned_hashes: None,
    }
}

#[test]
fn rules_follow_the_schedule() {
    let cases = [
        (9, OpSpecId::ISTHMUS),
        (10, OpSpecId::BEDROCK),
        (19, OpSpecId::BEDROCK),
        (20, OpSpecId::REGOLITH),
        (30, OpSpecId::CANYON),
        (40, OpSpecId::ECOTONE),
        (50, OpSpecId::FJORD),
        (60, OpSpecId::GRANITE),
        (70, OpSpecId::HOLOCENE),
        (79, OpSpecId::HOLOCENE),
        (80, OpSpecId::ISTHMUS),
        (u64::MAX, OpSpecId::ISTHMUS),
    ];
    for (timestamp, rules) in cases {
        assert_eq!(get_spec_id_for_block_timestamp(timestamp, &schedule()), rules);
    }
}

#[test]
fn open_fields_get_their_defaults() {
    let env = tx_env(&empty_request(2));
    assert_eq!(env.tx_type, 2);
    assert_eq!(env.caller, Address { hi: 0, lo: 0 });
    assert_eq!(env.gas_limit, u64::MAX);
    assert_eq!(env.gas_price, 0);
    assert_eq!(env.kind, TxKind::Create);
    assert_eq!(env.value, U256 { hi: 0, lo: 0 });
    assert!(env.data.data.is_empty());
    assert_eq!(env.nonce, 0);
    assert_eq!(env.chain_id, None);
    assert!(env.access_list.is_empty());
    assert_eq!(env.gas_priority_fee, None);
    assert_eq!(env.max_fee_per_blob_gas, 0);
    assert!(env.blob_hashes.is_empty());
}

#[test]
fn given_fields_are_kept() {
    let request = TransactionRequest {
        tx_type: 1,
        from: Some(Address { hi: 1, lo: 1 }),
        kind: Some(TxKind::Call(Address { hi: 2, lo: 2 })),
        gas_limit: Some(21000),
        gas_price: Some(5),
        max_priority_fee_per_gas: Some(6),
        value: Some(U256 { hi: 0, lo: 7 }),
        input: Some(Bytes { data: vec![8] }),
        nonce: Some(9),
        chain_id: Some(10),
        access_list: Some(vec![AccessListItem {
            address: Address { hi: 3, lo: 3 },
            storage_keys: vec![B256 { hi: 4, lo: 4 }],
        }]),
        blob_versioned_hashes: Some(vec![B256 { hi: 5, lo: 5 }]),
    };
    let env = tx_env(&request);
    assert_eq!(env.caller, Address { hi: 1, lo: 1 });
    assert_eq!(env.kind, TxKind::Call(Address { hi: 2, lo: 2 }));
    assert_eq!(env.gas_limit, 21000);
    assert_eq!(env.gas_price, 5);
    assert_eq!(env.gas_priority_fee, Some(6));
    assert_eq!(env.value.lo, 7);
    assert_eq!(env.data.data, vec![8]);
    assert_eq!(env.nonce, 9);
    assert_eq!(env.chain_id, Some(10));
    assert_eq!(env.access_list[0].storage_keys, vec![B256 { hi: 4, lo: 4 }]);
    assert_eq!(env.blob_hashes, vec![B256 { hi: 5, lo: 5 }]);
}

#[test]
fn block_environment_follows_the_header() {
    let env = block_env(&block(99), 3338477);
    assert_eq!(env.number, U256 { hi: 0, lo: 44 });
    assert_eq!(env.beneficiary, Address { hi: 5, lo: 6 });
    assert_eq!(env.timestamp, U256 { hi: 0, lo: 99 });
    assert_eq!(env.gas_limit, 30_000_000);
    assert_eq!(env.basefee, 17);
    assert_eq!(env.difficulty, U256 { hi: 0, lo: 3 });
    assert_eq!(env.prevrandao, Some(B256 { hi: 8, lo: 9 }));
    let blob = env.blob_excess_gas_and_price.unwrap();
    assert_eq!(blob.excess_blob_gas, 0);
    assert_eq!(blob.blob_gasprice, 1);
    let mut old = block(99);
    old.header.base_fee_per_gas = None;
    assert_eq!(block_env(&old, u64::MAX).basefee, 0);
    assert_eq!(block_env(&old, 1).blob_excess_gas_and_price.unwrap().blob_gasprice, 1);
}

#[test]
fn context_of_a_call() {
    let id = BlockId::Number(BlockNumberOrTag::Latest);
    let evm = OpStackEvm::new((), 8453, schedule(), id);
    assert_eq!(evm.block_id, id);
    let context = evm.get_context(&empty_request(2), &block(45), false, 5);
    assert_eq!(context.tx.chain_id, Some(8453));
    assert!(context.enveloped_tx.unwrap().data.is_empty());
    assert_eq!(context.cfg.spec, OpSpecId::ECOTONE);
    assert_eq!(context.cfg.chain_id, 8453);
    assert!(context.cfg.disable_block_gas_limit);
    assert!(context.cfg.disable_eip3607);
    assert!(context.cfg.disable_base_fee);
    assert!(context.cfg.disable_nonce_check);
    let legacy = evm.get_context(&empty_request(0), &block(45), true, 5);
    assert_eq!(legacy.tx.chain_id, None);
    assert!(!legacy.cfg.disable_block_gas_limit);
    assert!(!legacy.cfg.disable_eip3607);
    assert!(!legacy.cfg.disable_base_fee);
    assert!(!legacy.cfg.disable_nonce_check);
}

#[test]
fn run_is_pinned_to_the_block_it_found() {
    let id = BlockId::Number(BlockNumberOrTag::Number(44));
    let evm = OpStackEvm::new((), 10, schedule(), id);
    let pinned = evm.pin_block(Ok(Some(block(1)))).unwrap();
    assert_eq!(pinned.block_hash, B256 { hi: 1, lo: 2 });
    assert_eq!(pinned.require_canonical, None);
    match evm.pin_block(Ok(None)) {
        Err(EvmError::BlockNotFound(missing)) => assert_eq!(missing, id),
        other => panic!("{other:?}"),
    }
    match evm.pin_block(Err(ProviderError::Reported("x".to_string()))) {
        Err(EvmError::Provider(ProviderError::Reported(text))) => assert_eq!(text, "x"),
        other => panic!("{other:?}"),
    }
}

/// A machine that reads three things in turn, run until it has them all.
fn run_with(known: &[u8]) -> (Vec<u8>, u32) {
    let reads = [4u8, 7, 9];
    let mut state: Vec<u8> = known.to_vec();
    let prefetched = if known.is_empty() {
        Err(ProviderError::Reported("prefetch".to_string()))
    } else {
        Ok(())
    };
    let (mut run, mut step) = TransactRun::begin(&prefetched, false);
    loop {
        let lacking = reads.iter().find(|r| !state.contains(r)).copied();
        step = match step {
            TransactStep::Replay => run.replayed(lacking.is_none(), lacking.is_some()),
            TransactStep::Fetch => {
                state.push(lacking.unwrap());
                run.fetched(Ok(()))
            }
            TransactStep::Finish => break,
            TransactStep::Fail(error) => panic!("{error:?}"),
        };
    }
    state.sort();
    (state, run.fetches)
}

#[test]
fn failed_prefetch_changes_no_outcome() {
    assert_eq!(run_with(&[]), (vec![4, 7, 9], 3));
    assert_eq!(run_with(&[7]), (vec![4, 7, 9], 2));
    assert_eq!(run_with(&[4, 7, 9]), (vec![4, 7, 9], 0));
}

#[test]
fn rules_never_go_back_on_an_unordered_schedule() {
    let odd = ForkSchedule { fjord_timestamp: 15, bedrock_timestamp: 35, ..schedule() };
    let order = [
        OpSpecId::BEDROCK,
        OpSpecId::REGOLITH,
        OpSpecId::CANYON,
        OpSpecId::ECOTONE,
        OpSpecId::FJORD,
        OpSpecId::GRANITE,
        OpSpecId::HOLOCENE,
        OpSpecId::ISTHMUS,
    ];
    let rank = |t| {
        let rules = get_spec_id_for_block_timestamp(t, &odd);
        order.iter().position(|r| *r == rules).unwrap()
    };
    for t in 15..90 {
        assert!(rank(t) <= rank(t + 1));
    }
    assert_eq!(get_spec_id_for_block_timestamp(16, &odd), OpSpecId::FJORD);
}

#[test]
fn run_fetches_until_nothing_is_lacking() {
    let prefetched = Err(ProviderError::Reported("prefetch".to_string()));
    let (mut run, step) = TransactRun::begin(&prefetched, false);
    assert!(matches!(step, TransactStep::Replay));
    assert!(matches!(run.replayed(false, true), TransactStep::Fetch));
    assert!(matches!(run.fetched(Ok(())), TransactStep::Replay));
    assert!(matches!(run.replayed(false, true), TransactStep::Fetch));
    assert!(matches!(run.fetched(Ok(())), TransactStep::Replay));
    assert!(matches!(run.replayed(true, true), TransactStep::Finish));
    assert_eq!(run.iterations, 3);
    assert_eq!(run.fetches, 2);
}

#[test]
fn run_ends_with_a_failure_of_its_own() {
    let (mut run, step) = TransactRun::begin(&Ok(()), true);
    assert!(matches!(step, TransactStep::Fetch));
    assert!(matches!(run.fetched(Ok(())), TransactStep::Replay));
    assert!(matches!(run.replayed(false, false), TransactStep::Finish));
    assert_eq!(replay_failure("out of gas"), "generic: out of gas");
}

#[test]
fn failed_fetch_fails_the_run() {
    let (mut run, _) = TransactRun::begin(&Ok(()), true);
    let step = run.fetched(Err(ProviderError::Reported("down".to_string())));
    match step {
        TransactStep::Fail(ProviderError::Reported(text)) => assert_eq!(text, "down"),
        other => panic!("{other:?}"),
    }
}
