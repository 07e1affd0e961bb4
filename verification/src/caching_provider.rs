//! An account provider that asks the provider behind it only for what it does not know yet.
use crate::account::{Account, AccountView};
use crate::cache::{Cache, CacheView};
use crate::chain::{block_answer_view, Block, BlockView};
use crate::error::{result_view, ErrorView, ProviderError};
use crate::primitives::{clone_words, views, Address, BlockId, Bytes, B256};
use vstd::prelude::*;

verus! {

/// A provider with a cache of accounts before it.
pub struct CachingProvider<P> {
    pub inner: P,
    pub cache: Cache,
}

/// What becomes of the account that the inner provider was asked for.
#[derive(Debug)]
pub enum Pending {
    /// It was asked for without its code: this may be its code, if its code hash is this one.
    KnownCode { code_hash: B256, code: Bytes },
    /// It is the answer.
    Whole,
    /// It brings what this account still lacks.
    Rest(Account),
}

/// What a pending account says.
pub ghost enum PendingView {
    KnownCode { code_hash: B256, code: Seq<u8> },
    Whole,
    Rest(AccountView),
}

impl View for Pending {
    type V = PendingView;

    open spec fn view(&self) -> PendingView {
        match self {
            Pending::KnownCode { code_hash, code } => PendingView::KnownCode {
                code_hash: *code_hash,
                code: code@,
            },
            Pending::Whole => PendingView::Whole,
            Pending::Rest(account) => PendingView::Rest(account@),
        }
    }
}

/// What comes next in the reading of an account.
#[derive(Debug)]
pub enum AccountStep {
    /// The inner provider is to be asked for the block, for its hash.
    AskBlock,
    /// The inner provider is to be asked for the account at the block of this hash.
    AskAccount { slots: Vec<B256>, with_code: bool, block_hash: B256, pending: Pending },
    Done(Result<Account, ProviderError>),
}

/// What a step says.
pub ghost enum StepView {
    AskBlock,
    AskAccount { slots: Seq<B256>, with_code: bool, block_hash: B256, pending: PendingView },
    Done(Result<AccountView, ErrorView>),
}

impl View for AccountStep {
    type V = StepView;

    open spec fn view(&self) -> StepView {
        match self {
            AccountStep::AskBlock => StepView::AskBlock,
            AccountStep::AskAccount { slots, with_code, block_hash, pending } =>
                StepView::AskAccount {
                slots: slots@,
                with_code: *with_code,
                block_hash: *block_hash,
                pending: pending@,
            },
            AccountStep::Done(result) => StepView::Done(result_view(*result)),
        }
    }
}

/// The account that an inner answer makes of an account that lacked something.
pub open spec fn completed(known: AccountView, fetched: AccountView) -> AccountView {
    AccountView {
        account: fetched.account,
        code: if fetched.code is Some {
            fetched.code
        } else {
            known.code
        },
        account_proof: fetched.account_proof,
        storage_proof: known.storage_proof + fetched.storage_proof,
    }
}

impl CacheView {
    /// The first step once the block's hash is known: an account of which all is known is the
    /// answer; of one that is partly known the rest is asked for; one that is not known is
    /// asked for whole, but for its code where code is known at its address.
    pub open spec fn looked_up(
        self,
        address: Address,
        slots: Seq<B256>,
        with_code: bool,
        block_hash: B256,
    ) -> StepView {
        match self.account_at(address, slots, block_hash) {
            Some((account, missing)) => {
                let need_code = with_code && account.code is None;
                if missing.len() > 0 || need_code {
                    StepView::AskAccount {
                        slots: missing,
                        with_code: need_code,
                        block_hash,
                        pending: PendingView::Rest(account),
                    }
                } else {
                    StepView::Done(Ok(account))
                }
            },
            None => match self.code_at(address) {
                Some((code_hash, code)) if with_code => StepView::AskAccount {
                    slots,
                    with_code: false,
                    block_hash,
                    pending: PendingView::KnownCode { code_hash, code },
                },
                _ => StepView::AskAccount {
                    slots,
                    with_code,
                    block_hash,
                    pending: PendingView::Whole,
                },
            },
        }
    }

    /// The first step of a reading.
    pub open spec fn started(
        self,
        address: Address,
        slots: Seq<B256>,
        with_code: bool,
        block_id: BlockId,
    ) -> StepView {
        match block_id {
            BlockId::Hash(hash) => self.looked_up(address, slots, with_code, hash.block_hash),
            BlockId::Number(_) => StepView::AskBlock,
        }
    }

    /// The step after the inner provider answered for the block.
    pub open spec fn with_block_answer(
        self,
        address: Address,
        slots: Seq<B256>,
        with_code: bool,
        answer: Result<Option<BlockView>, ErrorView>,
    ) -> StepView {
        match answer {
            Err(error) => StepView::Done(Err(error)),
            Ok(None) => StepView::Done(Err(ErrorView::BlockNotFound)),
            Ok(Some(block)) => self.looked_up(address, slots, with_code, block.header.hash),
        }
    }

    /// The step after the inner provider answered for the account, and the cache from then on.
    pub open spec fn with_account_answer(
        self,
        address: Address,
        slots: Seq<B256>,
        with_code: bool,
        block_hash: B256,
        pending: PendingView,
        answer: Result<AccountView, ErrorView>,
    ) -> (StepView, CacheView) {
        match answer {
            Err(error) => (StepView::Done(Err(error)), self),
            Ok(fetched) => match pending {
                PendingView::KnownCode { code_hash, code } => {
                    if fetched.account.code_hash == code_hash {
                        let account = AccountView { code: Some(code), ..fetched };
                        (
                            StepView::Done(Ok(account)),
                            self.with_account(address, account, block_hash),
                        )
                    } else {
                        (
                            StepView::AskAccount {
                                slots,
                                with_code,
                                block_hash,
                                pending: PendingView::Whole,
                            },
                            self,
                        )
                    }
                },
                PendingView::Whole => (
                    StepView::Done(Ok(fetched)),
                    self.with_account(address, fetched, block_hash),
                ),
                PendingView::Rest(known) => (
                    StepView::Done(Ok(completed(known, fetched))),
                    self.with_account(address, fetched, block_hash),
                ),
            },
        }
    }
}

impl<P> CachingProvider<P> {
    /// A provider with an empty cache before the inner one.
    pub fn new(inner: P) -> (r: Self)
        ensures
            r.inner == inner,
            r.cache@.accounts.dom() == Set::<crate::cache::AccountKey>::empty(),
            r.cache@.codes.dom() == Set::<(u32, u128)>::empty(),
    {
        CachingProvider { inner, cache: Cache::new() }
    }

    /// Begins to read an account at a block: the cache goes by block hash, so the inner provider
    /// is asked for the block where only its number or tag is given.
    pub fn start(
        &self,
        address: Address,
        slots: &Vec<B256>,
        with_code: bool,
        block_id: BlockId,
    ) -> (r: AccountStep)
        ensures
            r@ == self.cache@.started(address, slots@, with_code, block_id),
    {
        match block_id {
            BlockId::Hash(hash) => self.look_up(address, slots, with_code, hash.block_hash),
            BlockId::Number(_) => AccountStep::AskBlock,
        }
    }

    /// Goes on once the inner provider has answered for the block.
    pub fn block_answered(
        &self,
        address: Address,
        slots: &Vec<B256>,
        with_code: bool,
        answer: Result<Option<Block>, ProviderError>,
    ) -> (r: AccountStep)
        ensures
            r@ == self.cache@.with_block_answer(
                address,
                slots@,
                with_code,
                block_answer_view(answer),
            ),
    {
        match answer {
            Err(error) => AccountStep::Done(Err(error)),
            Ok(None) => AccountStep::Done(Err(ProviderError::BlockNotFound)),
            Ok(Some(block)) => self.look_up(address, slots, with_code, block.header.hash),
        }
    }

    /// What the cache knows of an account at a block, and what is still to be asked for.
    pub fn look_up(
        &self,
        address: Address,
        slots: &Vec<B256>,
        with_code: bool,
        block_hash: B256,
    ) -> (r: AccountStep)
        ensures
            r@ == self.cache@.looked_up(address, slots@, with_code, block_hash),
    {
        match self.cache.get_account(address, slots, block_hash) {
            None => {
                if with_code {
                    if let Some((code_hash, code)) = self.cache.get_code_optimistically(address) {
                        return AccountStep::AskAccount {
                            slots: clone_words(slots),
                            with_code: false,
                            block_hash,
                            pending: Pending::KnownCode { code_hash, code },
                        };
                    }
                }
                AccountStep::AskAccount {
                    slots: clone_words(slots),
                    with_code,
                    block_hash,
                    pending: Pending::Whole,
                }
            },
            Some((account, missing_slots)) => {
                let need_code = with_code && account.code.is_none();
                if missing_slots.len() > 0 || need_code {
                    AccountStep::AskAccount {
                        slots: missing_slots,
                        with_code: need_code,
                        block_hash,
                        pending: Pending::Rest(account),
                    }
                } else {
                    AccountStep::Done(Ok(account))
                }
            },
        }
    }

    /// Goes on once the inner provider has answered for the account.
    pub fn account_answered(
        &mut self,
        address: Address,
        slots: &Vec<B256>,
        with_code: bool,
        block_hash: B256,
        pending: Pending,
        answer: Result<Account, ProviderError>,
    ) -> (r: AccountStep)
        ensures
            (r@, final(self).cache@) == old(self).cache@.with_account_answer(
                address,
                slots@,
                with_code,
                block_hash,
                pending@,
                result_view(answer),
            ),
            final(self).inner == old(self).inner,
    {
        let fetched = match answer {
            Ok(fetched) => fetched,
            Err(error) => {
                return AccountStep::Done(Err(error));
            },
        };
        match pending {
            Pending::KnownCode { code_hash, code } => {
                if fetched.account.code_hash == code_hash {
                    let mut account = fetched;
                    account.code = Some(code);
                    self.cache.insert_account(address, &account, block_hash);
                    AccountStep::Done(Ok(account))
                } else {
                    AccountStep::AskAccount {
                        slots: clone_words(slots),
                        with_code,
                        block_hash,
                        pending: Pending::Whole,
                    }
                }
            },
            Pending::Whole => {
                self.cache.insert_account(address, &fetched, block_hash);
                AccountStep::Done(Ok(fetched))
            },
            Pending::Rest(known) => {
                self.cache.insert_account(address, &fetched, block_hash);
                let mut account = known;
                let ghost before = account.storage_proof@;
                let mut fetched = fetched;
                let ghost added = fetched.storage_proof@;
                account.account = fetched.account;
                account.account_proof = fetched.account_proof;
                account.storage_proof.append(&mut fetched.storage_proof);
                assert(views(account.storage_proof@) =~= views(before) + views(added));
                if let Some(code) = fetched.code {
                    account.code = Some(code);
                }
                AccountStep::Done(Ok(account))
            },
        }
    }
}

} // verus!
