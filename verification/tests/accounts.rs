use helios_execution::access_list::{
    plan_hint, resolve_execution_access_list, AccessListItem, HintPlan,
};
use helios_execution::account::{Account, StorageProof, TrieAccount};
use helios_execution::caching_provider::{AccountStep, CachingProvider, Pending};
use helios_execution::chain::{Block, BlockTransactions, Header};
use helios_execution::error::ProviderError;
use helios_execution::primitives::{
    Address, BlockId, BlockNumberOrTag, Bytes, RpcBlockHash, B256, U256,
};

fn word(n: u128) -> B256 {
    B256 { hi: 0, lo: n }
}

fn address(n: u128) -> Address {
    Address { hi: 0, lo: n }
}

fn slot_proof(key: u128, value: u128) -> StorageProof {
    StorageProof {
        key: word(key),
        value: U256 { hi: 0, lo: value },
        proof: vec![Bytes { data: vec![key as u8] }],
    }
}

fn account(code_hash: u128, code: Option<Vec<u8>>, slots: &[u128]) -> Account {
    Account {
        account: TrieAccount {
            nonce: 5,
            balance: U256 { hi: 0, lo: 77 },
            storage_root: word(1000),
            code_hash: word(code_hash),
        },
        code: code.map(|data| Bytes { data }),
        account_proof: vec![Bytes { data: vec![1, 2] }],
        storage_proof: slots.iter().map(|s| slot_proof(*s, s * 10)).collect(),
    }
}

fn block(hash: u128, beneficiary: u128) -> Block {
    Block {
        header: Header {
            hash: word(hash),
            parent_hash: word(0),
            number: 9,
            timestamp: 0,
            state_root: word(0),
            beneficiary: address(beneficiary),
            gas_limit: 0,
            base_fee_per_gas: None,
            difficulty: U256 { hi: 0, lo: 0 },
            mix_hash: None,
        },
        transactions: BlockTransactions::Uncle,
        rest: Bytes { data: Vec::new() },
    }
}

fn by_hash(hash: u128) -> BlockId {
    BlockId::Hash(RpcBlockHash { block_hash: word(hash), require_canonical: None })
}

fn asked(step: AccountStep) -> (Vec<u128>, bool, u128, Pending) {
    match step {
        AccountStep::AskAccount { slots, with_code, block_hash, pending } => {
            (slots.iter().map(|s| s.lo).collect(), with_code, block_hash.lo, pending)
        }
        other => panic!("{other:?}"),
    }
}

fn done(step: AccountStep) -> Account {
    match step {
        AccountStep::Done(Ok(account)) => account,
        other => panic!("{other:?}"),
    }
}

fn keys(account: &Account) -> Vec<u128> {
    account.storage_proof.iter().map(|p| p.key.lo).collect()
}

#[test]
fn unknown_account_is_asked_for_whole() {
    let provider = CachingProvider::new(());
    let (slots, with_code, hash, pending) =
        asked(provider.start(address(1), &vec![word(3), word(4)], true, by_hash(8)));
    assert_eq!(slots, vec![3, 4]);
    assert!(with_code);
    assert_eq!(hash, 8);
    assert!(matches!(pending, Pending::Whole));
}

#[test]
fn block_by_number_is_asked_for_first() {
    let provider = CachingProvider::new(());
    let id = BlockId::Number(BlockNumberOrTag::Number(9));
    assert!(matches!(provider.start(address(1), &vec![], false, id), AccountStep::AskBlock));
    let step = provider.block_answered(address(1), &vec![], false, Ok(Some(block(8, 0))));
    assert_eq!(asked(step).2, 8);
    let step = provider.block_answered(address(1), &vec![], false, Ok(None));
    assert!(matches!(step, AccountStep::Done(Err(ProviderError::BlockNotFound))));
    let failed = Err(ProviderError::Reported("no".to_string()));
    match provider.block_answered(address(1), &vec![], false, failed) {
        AccountStep::Done(Err(ProviderError::Reported(text))) => assert_eq!(text, "no"),
        other => panic!("{other:?}"),
    }
}

#[test]
fn second_read_at_the_same_block_asks_for_nothing() {
    let mut provider = CachingProvider::new(());
    let slots = vec![word(3), word(4)];
    let (_, _, _, pending) = asked(provider.start(address(1), &slots, true, by_hash(8)));
    let fetched = account(50, Some(vec![9, 9]), &[3, 4]);
    let first =
        done(provider.account_answered(address(1), &slots, true, word(8), pending, Ok(fetched)));
    assert_eq!(keys(&first), vec![3, 4]);
    let again = done(provider.start(address(1), &slots, true, by_hash(8)));
    assert_eq!(again.code.unwrap().data, first.code.as_ref().unwrap().data);
    assert_eq!(first.code.as_ref().unwrap().data, vec![9, 9]);
    assert_eq!(again.account, first.account);
    assert_eq!(again.account_proof[0].data, vec![1, 2]);
    assert_eq!(
        again.storage_proof.iter().map(|p| p.value.lo).collect::<Vec<_>>(),
        vec![30, 40]
    );
    let some = done(provider.start(address(1), &vec![word(4)], false, by_hash(8)));
    assert_eq!(keys(&some), vec![4]);
    // Another block is another account.
    assert_eq!(asked(provider.start(address(1), &slots, false, by_hash(9))).0, vec![3, 4]);
}

#[test]
fn only_missing_slots_are_asked_for() {
    let mut provider = CachingProvider::new(());
    let slots = vec![word(3)];
    let fetched = account(50, None, &[3]);
    done(provider.account_answered(
        address(1),
        &slots,
        false,
        word(8),
        Pending::Whole,
        Ok(fetched),
    ));
    let wanted = vec![word(5), word(3), word(6)];
    let (slots, with_code, _, pending) =
        asked(provider.start(address(1), &wanted, true, by_hash(8)));
    assert_eq!(slots, vec![5, 6]);
    assert!(with_code);
    let rest = account(50, Some(vec![1]), &[5, 6]);
    let whole =
        done(provider.account_answered(address(1), &wanted, true, word(8), pending, Ok(rest)));
    assert_eq!(keys(&whole), vec![3, 5, 6]);
    assert_eq!(whole.code.unwrap().data, vec![1]);
    let again = done(provider.start(address(1), &wanted, true, by_hash(8)));
    assert_eq!(keys(&again), vec![5, 3, 6]);
}

#[test]
fn known_code_is_used_where_its_hash_is_still_right() {
    let mut provider = CachingProvider::new(());
    let none = vec![];
    let fetched = account(50, Some(vec![7]), &[]);
    done(provider.account_answered(address(1), &none, true, word(8), Pending::Whole, Ok(fetched)));

    let (_, with_code, _, pending) = asked(provider.start(address(1), &none, true, by_hash(9)));
    assert!(!with_code);
    let bare = account(50, None, &[]);
    let full = done(provider.account_answered(address(1), &none, true, word(9), pending, Ok(bare)));
    assert_eq!(full.code.unwrap().data, vec![7]);

    let (_, _, _, pending) = asked(provider.start(address(1), &none, true, by_hash(10)));
    let changed = account(51, None, &[]);
    let step = provider.account_answered(address(1), &none, true, word(10), pending, Ok(changed));
    let (_, with_code, hash, pending) = asked(step);
    assert!(with_code);
    assert_eq!(hash, 10);
    let new = account(51, Some(vec![8]), &[]);
    let full = done(provider.account_answered(address(1), &none, true, word(10), pending, Ok(new)));
    assert_eq!(full.code.unwrap().data, vec![8]);
}

#[test]
fn failed_fetch_leaves_the_cache_alone() {
    let mut provider = CachingProvider::new(());
    let none = vec![];
    let failed = Err(ProviderError::Reported("down".to_string()));
    let step =
        provider.account_answered(address(1), &none, false, word(8), Pending::Whole, failed);
    assert!(matches!(step, AccountStep::Done(Err(ProviderError::Reported(_)))));
    assert!(matches!(
        provider.start(address(1), &none, false, by_hash(8)),
        AccountStep::AskAccount { .. }
    ));
}

#[test]
fn other_accounts_are_not_touched() {
    let mut provider = CachingProvider::new(());
    let none = vec![];
    let one = account(50, Some(vec![7]), &[]);
    let two = account(60, Some(vec![8]), &[]);
    done(provider.account_answered(address(1), &none, true, word(8), Pending::Whole, Ok(one)));
    done(provider.account_answered(address(2), &none, true, word(8), Pending::Whole, Ok(two)));
    let first = done(provider.start(address(1), &none, true, by_hash(8)));
    assert_eq!(first.code.unwrap().data, vec![7]);
}

fn item(n: u128, slots: &[u128]) -> AccessListItem {
    AccessListItem {
        address: address(n),
        storage_keys: slots.iter().map(|s| word(*s)).collect(),
    }
}

fn addresses(list: &[AccessListItem]) -> Vec<u128> {
    list.iter().map(|i| i.address.lo).collect()
}

#[test]
fn always_touched_accounts_join_the_list() {
    let list = vec![item(5, &[1]), item(6, &[])];
    let full = resolve_execution_access_list(
        &block(1, 30),
        Ok(list),
        Some(address(10)),
        Some(address(20)),
    );
    let full = full.unwrap().unwrap();
    assert_eq!(addresses(&full), vec![5, 6, 10, 20, 30]);
    assert_eq!(full[0].storage_keys, vec![word(1)]);
    assert!(full[4].storage_keys.is_empty());
}

#[test]
fn listed_accounts_are_not_listed_again() {
    let full = resolve_execution_access_list(
        &block(1, 5),
        Ok(vec![item(5, &[1])]),
        Some(address(6)),
        Some(address(6)),
    );
    assert_eq!(addresses(&full.unwrap().unwrap()), vec![5, 6]);
    // Without sender and recipient both are the zero address.
    let full = resolve_execution_access_list(&block(1, 5), Ok(vec![]), None, None);
    assert_eq!(addresses(&full.unwrap().unwrap()), vec![0, 5]);
    let failed = resolve_execution_access_list(
        &block(1, 5),
        Err(ProviderError::ReceiptNotFound),
        None,
        None,
    );
    assert!(matches!(failed, Err(ProviderError::ReceiptNotFound)));
}

#[test]
fn hint_is_gathered_in_batches() {
    let list = vec![item(1, &[]), item(2, &[4]), item(3, &[]), item(1, &[])];
    let mut run = match plan_hint(Some(list), 3) {
        HintPlan::Gather(run) => run,
        HintPlan::Delegate => panic!("a list is there"),
    };
    assert_eq!(addresses(&run.asked()), vec![1, 2, 3]);
    run.answered(vec![
        Ok(account(1, None, &[])),
        Ok(account(2, None, &[4])),
        Ok(account(3, None, &[])),
    ])
    .unwrap();
    assert_eq!(addresses(&run.asked()), vec![1]);
    run.answered(vec![Ok(account(9, None, &[]))]).unwrap();
    assert!(run.asked().is_empty());
    assert_eq!(run.accounts.len(), 3);
    // Of two entries of one account the later one counts.
    assert_eq!(run.accounts[&(0, 1)].account.code_hash, word(9));
    assert_eq!(keys(&run.accounts[&(0, 2)]), vec![4]);
}

#[test]
fn size_of_the_batches_does_not_matter() {
    let mut found = Vec::new();
    for batch in 1..6 {
        let list = vec![item(1, &[]), item(2, &[4]), item(3, &[]), item(1, &[])];
        let mut run = match plan_hint(Some(list), batch) {
            HintPlan::Gather(run) => run,
            HintPlan::Delegate => panic!("a list is there"),
        };
        let mut code = 0;
        loop {
            let asked = run.asked();
            if asked.is_empty() {
                break;
            }
            assert!(asked.len() <= batch);
            let answers = asked.iter().map(|_| {
                code += 1;
                Ok(account(code, None, &[]))
            });
            run.answered(answers.collect()).unwrap();
        }
        let all: Vec<_> =
            run.accounts.iter().map(|(key, a)| (*key, a.account.code_hash.lo)).collect();
        found.push(all);
    }
    assert_eq!(found[0], vec![((0, 1), 4), ((0, 2), 2), ((0, 3), 3)]);
    for other in &found {
        assert_eq!(*other, found[0]);
    }
}

#[test]
fn first_failed_account_fails_the_hint() {
    let list = vec![item(1, &[]), item(2, &[])];
    let mut run = match plan_hint(Some(list), 8) {
        HintPlan::Gather(run) => run,
        HintPlan::Delegate => panic!("a list is there"),
    };
    let failed = run.answered(vec![
        Err(ProviderError::Reported("one".to_string())),
        Err(ProviderError::Reported("two".to_string())),
    ]);
    match failed {
        Err(ProviderError::Reported(text)) => assert_eq!(text, "one"),
        other => panic!("{other:?}"),
    }
}

#[test]
fn provider_without_a_list_gathers_itself() {
    assert!(matches!(plan_hint(None, 8), HintPlan::Delegate));
}

#[test]
fn errors_have_their_words() {
    assert_eq!(ProviderError::BlockNotFound.words(), Some("block not found"));
    assert_eq!(ProviderError::ReceiptNotFound.words(), Some("receipt not found"));
    assert_eq!(ProviderError::ReceiptFetchFailed.words(), Some("receipt fetch failed"));
    assert_eq!(ProviderError::Reported("x".to_string()).words(), None);
}
