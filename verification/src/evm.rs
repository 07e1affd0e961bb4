//! The environment that a call on an OP Stack chain runs in, and the loop that runs it.
use crate::access_list::{AccessListItem, ItemView};
use crate::account::bytes_view;
use crate::chain::{block_answer_view, Block, Header};
use crate::error::{ErrorView, ProviderError};
use crate::primitives::{
    clone_words, views, Address, BlockId, Bytes, RpcBlockHash, B256, U256,
};
use crate::text::join2;
use vstd::prelude::*;
use vstd::string::*;

verus! {

/// When each upgrade of the chain becomes active.
#[derive(Clone, Copy, Debug, PartialEq, Eq, Structural)]
pub struct ForkSchedule {
    pub bedrock_timestamp: u64,
    pub regolith_timestamp: u64,
    pub canyon_timestamp: u64,
    pub ecotone_timestamp: u64,
    pub fjord_timestamp: u64,
    pub granite_timestamp: u64,
    pub holocene_timestamp: u64,
    pub isthmus_timestamp: u64,
}

/// The rules that a block is executed by.
#[allow(non_camel_case_types)]
#[derive(Clone, Copy, Debug, PartialEq, Eq, Structural)]
pub enum OpSpecId {
    BEDROCK,
    REGOLITH,
    CANYON,
    ECOTONE,
    FJORD,
    GRANITE,
    HOLOCENE,
    ISTHMUS,
    INTEROP,
    OSAKA,
}

impl OpSpecId {
    /// The place of the rules in the order in which they came.
    pub open spec fn rank(self) -> int {
        match self {
            OpSpecId::BEDROCK => 0,
            OpSpecId::REGOLITH => 1,
            OpSpecId::CANYON => 2,
            OpSpecId::ECOTONE => 3,
            OpSpecId::FJORD => 4,
            OpSpecId::GRANITE => 5,
            OpSpecId::HOLOCENE => 6,
            OpSpecId::ISTHMUS => 7,
            OpSpecId::INTEROP => 8,
            OpSpecId::OSAKA => 9,
        }
    }
}

/// `Default` of `op_revm::OpSpecId`: the variant that is marked as the default there, which is
/// Isthmus.
#[verifier::external_body]
pub(crate) fn default_spec_id() -> (r: OpSpecId)
    ensures
        r == OpSpecId::ISTHMUS,
{
    match op_revm::OpSpecId::default() {
        op_revm::OpSpecId::BEDROCK => OpSpecId::BEDROCK,
        op_revm::OpSpecId::REGOLITH => OpSpecId::REGOLITH,
        op_revm::OpSpecId::CANYON => OpSpecId::CANYON,
        op_revm::OpSpecId::ECOTONE => OpSpecId::ECOTONE,
        op_revm::OpSpecId::FJORD => OpSpecId::FJORD,
        op_revm::OpSpecId::GRANITE => OpSpecId::GRANITE,
        op_revm::OpSpecId::HOLOCENE => OpSpecId::HOLOCENE,
        op_revm::OpSpecId::ISTHMUS => OpSpecId::ISTHMUS,
        op_revm::OpSpecId::INTEROP => OpSpecId::INTEROP,
        op_revm::OpSpecId::OSAKA => OpSpecId::OSAKA,
    }
}

impl ForkSchedule {
    /// The upgrades with their times, the newest first.
    pub open spec fn forks(self) -> Seq<(u64, OpSpecId)> {
        seq![
            (self.isthmus_timestamp, OpSpecId::ISTHMUS),
            (self.holocene_timestamp, OpSpecId::HOLOCENE),
            (self.granite_timestamp, OpSpecId::GRANITE),
            (self.fjord_timestamp, OpSpecId::FJORD),
            (self.ecotone_timestamp, OpSpecId::ECOTONE),
            (self.canyon_timestamp, OpSpecId::CANYON),
            (self.regolith_timestamp, OpSpecId::REGOLITH),
            (self.bedrock_timestamp, OpSpecId::BEDROCK),
        ]
    }

    /// Each upgrade comes no earlier than the one before it.
    pub open spec fn is_ordered(self) -> bool {
        self.bedrock_timestamp <= self.regolith_timestamp <= self.canyon_timestamp
            <= self.ecotone_timestamp <= self.fjord_timestamp <= self.granite_timestamp
            <= self.holocene_timestamp <= self.isthmus_timestamp
    }
}

/// The rules of the first upgrade in the list whose time has come, and the default rules where
/// no time has.
pub open spec fn active_rules(forks: Seq<(u64, OpSpecId)>, timestamp: u64) -> OpSpecId
    decreases forks.len(),
{
    if forks.len() == 0 {
        OpSpecId::ISTHMUS
    } else if timestamp >= forks[0].0 {
        forks[0].1
    } else {
        active_rules(forks.drop_first(), timestamp)
    }
}

/// The rules of a schedule, written out.
pub proof fn lemma_active_rules(schedule: ForkSchedule, timestamp: u64)
    ensures
        active_rules(schedule.forks(), timestamp) == (if timestamp >= schedule.isthmus_timestamp {
            OpSpecId::ISTHMUS
        } else if timestamp >= schedule.holocene_timestamp {
            OpSpecId::HOLOCENE
        } else if timestamp >= schedule.granite_timestamp {
            OpSpecId::GRANITE
        } else if timestamp >= schedule.fjord_timestamp {
            OpSpecId::FJORD
        } else if timestamp >= schedule.ecotone_timestamp {
            OpSpecId::ECOTONE
        } else if timestamp >= schedule.canyon_timestamp {
            OpSpecId::CANYON
        } else if timestamp >= schedule.regolith_timestamp {
            OpSpecId::REGOLITH
        } else if timestamp >= schedule.bedrock_timestamp {
            OpSpecId::BEDROCK
        } else {
            OpSpecId::ISTHMUS
        }),
{
    reveal_with_fuel(active_rules, 10);
}

/// The rules that a block with this timestamp is executed by.
pub fn get_spec_id_for_block_timestamp(timestamp: u64, fork_schedule: &ForkSchedule) -> (r:
    OpSpecId)
    ensures
        r == active_rules(fork_schedule.forks(), timestamp),
{
    proof {
        lemma_active_rules(*fork_schedule, timestamp);
    }
    if timestamp >= fork_schedule.isthmus_timestamp {
        OpSpecId::ISTHMUS
    } else if timestamp >= fork_schedule.holocene_timestamp {
        OpSpecId::HOLOCENE
    } else if timestamp >= fork_schedule.granite_timestamp {
        OpSpecId::GRANITE
    } else if timestamp >= fork_schedule.fjord_timestamp {
        OpSpecId::FJORD
    } else if timestamp >= fork_schedule.ecotone_timestamp {
        OpSpecId::ECOTONE
    } else if timestamp >= fork_schedule.canyon_timestamp {
        OpSpecId::CANYON
    } else if timestamp >= fork_schedule.regolith_timestamp {
        OpSpecId::REGOLITH
    } else if timestamp >= fork_schedule.bedrock_timestamp {
        OpSpecId::BEDROCK
    } else {
        default_spec_id()
    }
}

/// Later blocks go by the same or by newer rules, once any upgrade has started.
pub proof fn law_rules_never_go_back(schedule: ForkSchedule, started: int, earlier: u64, later: u64)
    requires
        0 <= started < 8,
        schedule.forks()[started].0 <= earlier <= later,
    ensures
        active_rules(schedule.forks(), earlier).rank() <= active_rules(
            schedule.forks(),
            later,
        ).rank(),
{
    lemma_active_rules(schedule, earlier);
    lemma_active_rules(schedule, later);
}

/// An upgrade is in force from its own time up to the time of the next one.
pub proof fn law_upgrade_starts_on_time(schedule: ForkSchedule, at: int, timestamp: u64)
    requires
        schedule.is_ordered(),
        0 <= at < 8,
        schedule.forks()[at].0 <= timestamp,
        at > 0 ==> timestamp < schedule.forks()[at - 1].0,
    ensures
        active_rules(schedule.forks(), timestamp) == schedule.forks()[at].1,
{
    lemma_active_rules(schedule, timestamp);
}

/// What a transaction calls.
#[derive(Clone, Copy, Debug, PartialEq, Eq, Structural)]
pub enum TxKind {
    Create,
    Call(Address),
}

/// A call as it was asked for; `tx_type` is the type of the transaction that it would make.
#[derive(Debug)]
pub struct TransactionRequest {
    pub tx_type: u8,
    pub from: Option<Address>,
    pub kind: Option<TxKind>,
    pub gas_limit: Option<u64>,
    pub gas_price: Option<u128>,
    pub max_priority_fee_per_gas: Option<u128>,
    pub value: Option<U256>,
    pub input: Option<Bytes>,
    pub nonce: Option<u64>,
    pub chain_id: Option<u64>,
    pub access_list: Option<Vec<AccessListItem>>,
    pub blob_versioned_hashes: Option<Vec<B256>>,
}

/// What a request says.
pub ghost struct RequestView {
    pub tx_type: u8,
    pub from: Option<Address>,
    pub kind: Option<TxKind>,
    pub gas_limit: Option<u64>,
    pub gas_price: Option<u128>,
    pub max_priority_fee_per_gas: Option<u128>,
    pub value: Option<U256>,
    pub input: Option<Seq<u8>>,
    pub nonce: Option<u64>,
    pub chain_id: Option<u64>,
    pub access_list: Option<Seq<ItemView>>,
    pub blob_versioned_hashes: Option<Seq<B256>>,
}

/// What a list of words, if there is one, says.
pub open spec fn words_view(words: Option<Vec<B256>>) -> Option<Seq<B256>> {
    match words {
        Some(words) => Some(words@),
        None => None,
    }
}

impl View for TransactionRequest {
    type V = RequestView;

    open spec fn view(&self) -> RequestView {
        RequestView {
            tx_type: self.tx_type,
            from: self.from,
            kind: self.kind,
            gas_limit: self.gas_limit,
            gas_price: self.gas_price,
            max_priority_fee_per_gas: self.max_priority_fee_per_gas,
            value: self.value,
            input: bytes_view(self.input),
            nonce: self.nonce,
            chain_id: self.chain_id,
            access_list: crate::access_list::list_view(self.access_list),
            blob_versioned_hashes: words_view(self.blob_versioned_hashes),
        }
    }
}

/// The transaction that the machine runs.
#[derive(Debug)]
pub struct TxEnv {
    pub tx_type: u8,
    pub caller: Address,
    pub gas_limit: u64,
    pub gas_price: u128,
    pub kind: TxKind,
    pub value: U256,
    pub data: Bytes,
    pub nonce: u64,
    pub chain_id: Option<u64>,
    pub access_list: Vec<AccessListItem>,
    pub gas_priority_fee: Option<u128>,
    pub max_fee_per_blob_gas: u128,
    pub blob_hashes: Vec<B256>,
}

/// What the machine's transaction says. It never carries authorizations.
#[verifier::ext_equal]
pub ghost struct TxEnvView {
    pub tx_type: u8,
    pub caller: Address,
    pub gas_limit: u64,
    pub gas_price: u128,
    pub kind: TxKind,
    pub value: U256,
    pub data: Seq<u8>,
    pub nonce: u64,
    pub chain_id: Option<u64>,
    pub access_list: Seq<ItemView>,
    pub gas_priority_fee: Option<u128>,
    pub max_fee_per_blob_gas: u128,
    pub blob_hashes: Seq<B256>,
}

impl View for TxEnv {
    type V = TxEnvView;

    open spec fn view(&self) -> TxEnvView {
        TxEnvView {
            tx_type: self.tx_type,
            caller: self.caller,
            gas_limit: self.gas_limit,
            gas_price: self.gas_price,
            kind: self.kind,
            value: self.value,
            data: self.data@,
            nonce: self.nonce,
            chain_id: self.chain_id,
            access_list: views(self.access_list@),
            gas_priority_fee: self.gas_priority_fee,
            max_fee_per_blob_gas: self.max_fee_per_blob_gas,
            blob_hashes: self.blob_hashes@,
        }
    }
}

/// The value, or another where there is none.
pub open spec fn or_else<T>(value: Option<T>, other: T) -> T {
    match value {
        Some(value) => value,
        None => other,
    }
}

/// The transaction that a request stands for: what it leaves open is zero, empty or a creation,
/// but for the gas, of which there is no limit.
pub open spec fn requested(tx: RequestView) -> TxEnvView {
    TxEnvView {
        tx_type: tx.tx_type,
        caller: or_else(tx.from, Address { hi: 0, lo: 0 }),
        gas_limit: or_else(tx.gas_limit, u64::MAX),
        gas_price: or_else(tx.gas_price, 0),
        kind: or_else(tx.kind, TxKind::Create),
        value: or_else(tx.value, U256 { hi: 0, lo: 0 }),
        data: or_else(tx.input, Seq::empty()),
        nonce: or_else(tx.nonce, 0),
        chain_id: tx.chain_id,
        access_list: or_else(tx.access_list, Seq::empty()),
        gas_priority_fee: tx.max_priority_fee_per_gas,
        max_fee_per_blob_gas: 0,
        blob_hashes: or_else(tx.blob_versioned_hashes, Seq::empty()),
    }
}

/// The transaction that a request stands for.
pub fn tx_env(tx: &TransactionRequest) -> (r: TxEnv)
    ensures
        r@ == requested(tx@),
        r.tx_type == tx.tx_type,
        tx.from matches Some(from) ==> r.caller == from,
        tx.kind matches Some(kind) ==> r.kind == kind,
        tx.gas_limit matches Some(limit) ==> r.gas_limit == limit,
        tx.gas_price matches Some(price) ==> r.gas_price == price,
        tx.value matches Some(value) ==> r.value == value,
        tx.input matches Some(input) ==> r.data.data@ == input.data@,
        tx.nonce matches Some(nonce) ==> r.nonce == nonce,
        tx.access_list matches Some(list) ==> r.access_list@.len() == list@.len() && forall|i: int|
            0 <= i < list@.len() ==> (#[trigger] r.access_list@[i]).address == list@[i].address
                && r.access_list@[i].storage_keys@ == list@[i].storage_keys@,
        r.gas_priority_fee == tx.max_priority_fee_per_gas,
        tx.blob_versioned_hashes matches Some(hashes) ==> r.blob_hashes@ == hashes@,
        r.chain_id == tx.chain_id,
{
    let access_list: Vec<AccessListItem> = match &tx.access_list {
        Some(list) => {
            let copy = list.clone();
            assert(views(copy@) =~= views(list@));
            copy
        },
        None => Vec::new(),
    };
    let blob_hashes: Vec<B256> = match &tx.blob_versioned_hashes {
        Some(hashes) => clone_words(hashes),
        None => Vec::new(),
    };
    let r = TxEnv {
        tx_type: tx.tx_type,
        caller: match tx.from {
            Some(from) => from,
            None => Address::zero(),
        },
        gas_limit: match tx.gas_limit {
            Some(limit) => limit,
            None => u64::MAX,
        },
        gas_price: match tx.gas_price {
            Some(price) => price,
            None => 0,
        },
        kind: match tx.kind {
            Some(kind) => kind,
            None => TxKind::Create,
        },
        value: match tx.value {
            Some(value) => value,
            None => U256 { hi: 0, lo: 0 },
        },
        data: match &tx.input {
            Some(input) => input.clone(),
            None => Bytes::empty(),
        },
        nonce: match tx.nonce {
            Some(nonce) => nonce,
            None => 0,
        },
        chain_id: tx.chain_id,
        access_list,
        gas_priority_fee: tx.max_priority_fee_per_gas,
        max_fee_per_blob_gas: 0,
        blob_hashes,
    };
    assert(r@ =~= requested(tx@));
    proof {
        if let Some(list) = &tx.access_list {
            assert forall|i: int| 0 <= i < list@.len() implies (
            #[trigger] r.access_list@[i]).address == list@[i].address
                && r.access_list@[i].storage_keys@ == list@[i].storage_keys@ by {
                assert(views(r.access_list@)[i] == r.access_list@[i]@);
                assert(views(list@)[i] == list@[i]@);
            }
            assert(views(r.access_list@).len() == r.access_list@.len());
            assert(views(list@).len() == list@.len());
        }
    }
    r
}

/// The excess of blob gas in a block, and the price of blob gas that follows from it.
#[derive(Clone, Copy, Debug, PartialEq, Eq, Structural)]
pub struct BlobExcessGasAndPrice {
    pub excess_blob_gas: u64,
    pub blob_gasprice: u128,
}

/// `revm::context_interface::block::BlobExcessGasAndPrice::new` where there is no excess: the
/// price is then the least one, 1, whatever the update fraction. The call panics where the
/// fraction is zero.
#[verifier::external_body]
pub(crate) fn blob_price(excess_blob_gas: u64, update_fraction: u64) -> (r: BlobExcessGasAndPrice)
    requires
        excess_blob_gas == 0,
        update_fraction != 0,
    ensures
        r.excess_blob_gas == excess_blob_gas,
        r.blob_gasprice == 1,
{
    let price = revm::context_interface::block::BlobExcessGasAndPrice::new(
        excess_blob_gas,
        update_fraction,
    );
    BlobExcessGasAndPrice {
        excess_blob_gas: price.excess_blob_gas,
        blob_gasprice: price.blob_gasprice,
    }
}

/// The block that a call runs in.
#[derive(Clone, Copy, Debug, PartialEq, Eq, Structural)]
pub struct BlockEnv {
    pub number: U256,
    pub beneficiary: Address,
    pub timestamp: U256,
    pub gas_limit: u64,
    pub basefee: u64,
    pub difficulty: U256,
    pub prevrandao: Option<B256>,
    pub blob_excess_gas_and_price: Option<BlobExcessGasAndPrice>,
}

/// The environment that a header makes: without excess of blob gas, at the least price.
pub open spec fn environment(header: Header) -> BlockEnv {
    BlockEnv {
        number: U256 { hi: 0, lo: header.number as u128 },
        beneficiary: header.beneficiary,
        timestamp: U256 { hi: 0, lo: header.timestamp as u128 },
        gas_limit: header.gas_limit,
        basefee: or_else(header.base_fee_per_gas, 0),
        difficulty: header.difficulty,
        prevrandao: header.mix_hash,
        blob_excess_gas_and_price: Some(
            BlobExcessGasAndPrice { excess_blob_gas: 0, blob_gasprice: 1 },
        ),
    }
}

/// The block that a call runs in; `update_fraction` is the chain's update fraction of the blob
/// base fee at that block's time.
pub fn block_env(block: &Block, update_fraction: u64) -> (r: BlockEnv)
    requires
        update_fraction != 0,
    ensures
        r == environment(block@.header),
{
    BlockEnv {
        number: U256::from_u64(block.header.number),
        beneficiary: block.header.beneficiary,
        timestamp: U256::from_u64(block.header.timestamp),
        gas_limit: block.header.gas_limit,
        basefee: match block.header.base_fee_per_gas {
            Some(fee) => fee,
            None => 0,
        },
        difficulty: block.header.difficulty,
        prevrandao: block.header.mix_hash,
        blob_excess_gas_and_price: Some(blob_price(0, update_fraction)),
    }
}

/// How strict the machine is, and by which rules it goes.
#[derive(Clone, Copy, Debug, PartialEq, Eq, Structural)]
pub struct CfgEnv {
    pub spec: OpSpecId,
    pub chain_id: u64,
    pub disable_block_gas_limit: bool,
    pub disable_eip3607: bool,
    pub disable_base_fee: bool,
    pub disable_nonce_check: bool,
}

/// All that the machine is given but the state. The envelope of the transaction is there and
/// empty.
#[derive(Debug)]
pub struct OpContext {
    pub tx: TxEnv,
    pub enveloped_tx: Option<Bytes>,
    pub block: BlockEnv,
    pub cfg: CfgEnv,
}

/// A machine for calls on an OP Stack chain.
pub struct OpStackEvm<E> {
    pub execution: E,
    pub chain_id: u64,
    pub block_id: BlockId,
    pub fork_schedule: ForkSchedule,
}

impl<E> OpStackEvm<E> {
    /// A machine that runs calls at a block.
    pub fn new(execution: E, chain_id: u64, fork_schedule: ForkSchedule, block_id: BlockId) -> (r:
        Self)
        ensures
            r == (OpStackEvm { execution, chain_id, block_id, fork_schedule }),
    {
        OpStackEvm { execution, chain_id, block_id, fork_schedule }
    }

    /// All that the machine is given for a call at a block. A call that is not to be validated
    /// is spared the checks that only a real transaction has to pass; a legacy transaction
    /// carries no chain id.
    pub fn get_context(
        &self,
        tx: &TransactionRequest,
        block: &Block,
        validate_tx: bool,
        update_fraction: u64,
    ) -> (r: OpContext)
        requires
            update_fraction != 0,
        ensures
            r.tx@ == (TxEnvView {
                chain_id: if tx@.tx_type == 0 {
                    None
                } else {
                    Some(self.chain_id)
                },
                ..requested(tx@)
            }),
            r.tx.tx_type == tx.tx_type,
            tx.from matches Some(from) ==> r.tx.caller == from,
            tx.kind matches Some(kind) ==> r.tx.kind == kind,
            tx.gas_limit matches Some(limit) ==> r.tx.gas_limit == limit,
            tx.gas_price matches Some(price) ==> r.tx.gas_price == price,
            tx.value matches Some(value) ==> r.tx.value == value,
            tx.input matches Some(input) ==> r.tx.data.data@ == input.data@,
            tx.nonce matches Some(nonce) ==> r.tx.nonce == nonce,
            tx.access_list matches Some(list) ==> r.tx.access_list@.len() == list@.len() && forall|i: int|
                0 <= i < list@.len() ==> (#[trigger] r.tx.access_list@[i]).address == list@[i].address
                    && r.tx.access_list@[i].storage_keys@ == list@[i].storage_keys@,
            r.tx.gas_priority_fee == tx.max_priority_fee_per_gas,
            tx.blob_versioned_hashes matches Some(hashes) ==> r.tx.blob_hashes@ == hashes@,
            tx.tx_type == 0 ==> r.tx.chain_id is None,
            tx.tx_type != 0 ==> r.tx.chain_id == Some(self.chain_id),
            bytes_view(r.enveloped_tx) == Some(Seq::<u8>::empty()),
            r.block == environment(block@.header),
            r.cfg == (CfgEnv {
                spec: active_rules(self.fork_schedule.forks(), block@.header.timestamp),
                chain_id: self.chain_id,
                disable_block_gas_limit: !validate_tx,
                disable_eip3607: !validate_tx,
                disable_base_fee: !validate_tx,
                disable_nonce_check: !validate_tx,
            }),
    {
        let mut env = tx_env(tx);
        if tx.tx_type == 0 {
            env.chain_id = None;
        } else {
            env.chain_id = Some(self.chain_id);
        }
        let cfg = CfgEnv {
            spec: get_spec_id_for_block_timestamp(block.header.timestamp, &self.fork_schedule),
            chain_id: self.chain_id,
            disable_block_gas_limit: !validate_tx,
            disable_eip3607: !validate_tx,
            disable_base_fee: !validate_tx,
            disable_nonce_check: !validate_tx,
        };
        OpContext {
            tx: env,
            enveloped_tx: Some(Bytes::empty()),
            block: block_env(block, update_fraction),
            cfg,
        }
    }
}

/// Why a call could not be run.
#[derive(Debug)]
pub enum EvmError {
    /// The block to run at is not there.
    BlockNotFound(BlockId),
    /// What another party or a check reported.
    Provider(ProviderError),
}

/// What such an error says.
pub ghost enum EvmErrorView {
    BlockNotFound(BlockId),
    Provider(ErrorView),
}

impl View for EvmError {
    type V = EvmErrorView;

    open spec fn view(&self) -> EvmErrorView {
        match self {
            EvmError::BlockNotFound(block_id) => EvmErrorView::BlockNotFound(*block_id),
            EvmError::Provider(error) => EvmErrorView::Provider(error@),
        }
    }
}

impl<E> OpStackEvm<E> {
    /// The block that a whole run goes by: the one that was found for the machine's block, by
    /// its hash, so that the run sees one state however the chain moves on. Where none was
    /// found, the error names the block that was asked for.
    pub fn pin_block(&self, block: Result<Option<Block>, ProviderError>) -> (r: Result<
        RpcBlockHash,
        EvmError,
    >)
        ensures
            match block_answer_view(block) {
                Err(error) => r is Err && r->Err_0@ == EvmErrorView::Provider(error),
                Ok(None) => r is Err && r->Err_0@ == EvmErrorView::BlockNotFound(self.block_id),
                Ok(Some(found)) => r is Ok && r->Ok_0 == (RpcBlockHash {
                    block_hash: found.header.hash,
                    require_canonical: None,
                }),
            },
    {
        match block {
            Ok(Some(block)) => Ok(
                RpcBlockHash { block_hash: block.header.hash, require_canonical: None },
            ),
            Ok(None) => Err(EvmError::BlockNotFound(self.block_id)),
            Err(error) => Err(EvmError::Provider(error)),
        }
    }
}

/// What a run of a call does next.
#[derive(Debug)]
pub enum TransactStep {
    /// Fetch the state that the machine lacked.
    Fetch,
    /// Run the machine on the state at hand.
    Replay,
    /// What the last run of the machine gave is the outcome.
    Finish,
    Fail(ProviderError),
}

/// Where a run of a call stands.
pub ghost enum Phase {
    Fetch,
    Replay,
    Finish,
    Fail,
}

impl TransactStep {
    /// Where the run stands before this step.
    pub open spec fn phase(self) -> Phase {
        match self {
            TransactStep::Fetch => Phase::Fetch,
            TransactStep::Replay => Phase::Replay,
            TransactStep::Finish => Phase::Finish,
            TransactStep::Fail(_) => Phase::Fail,
        }
    }
}

/// How far a run has come: how often it has gone round, and how often state was fetched.
#[derive(Clone, Copy, Debug, PartialEq, Eq, Structural)]
pub struct TransactRun {
    pub iterations: u32,
    pub fetches: u32,
}

impl TransactRun {
    /// Each round but the first fetches before it runs the machine; the first one may.
    pub open spec fn wf(self, phase: Phase) -> bool {
        match phase {
            Phase::Fetch => self.iterations >= 1 && self.iterations - 2 <= self.fetches
                && self.fetches < self.iterations,
            Phase::Replay => self.iterations >= 1 && self.iterations - 1 <= self.fetches
                && self.fetches <= self.iterations,
            _ => true,
        }
    }

    /// The first round: state is fetched first where it is known to be lacking. Whether the
    /// prefetch succeeded plays no part.
    pub open spec fn begun(prefetched: bool, needs_update: bool) -> (TransactRun, Phase) {
        (
            TransactRun { iterations: 1, fetches: 0 },
            if needs_update {
                Phase::Fetch
            } else {
                Phase::Replay
            },
        )
    }

    /// After a fetch the machine runs; a fetch that failed fails the run.
    pub open spec fn after_fetch(self, succeeded: bool) -> (TransactRun, Phase) {
        (
            TransactRun { fetches: (self.fetches + 1) as u32, ..self },
            if succeeded {
                Phase::Replay
            } else {
                Phase::Fail
            },
        )
    }

    /// A replay that went through is the outcome, and so is one that failed for another reason
    /// than want of state; after any other, another round begins.
    pub open spec fn after_replay(self, went_through: bool, needs_update: bool) -> (
        TransactRun,
        Phase,
    ) {
        if went_through || !needs_update {
            (self, Phase::Finish)
        } else {
            (TransactRun { iterations: (self.iterations + 1) as u32, ..self }, Phase::Fetch)
        }
    }

    /// Begins the first round. A prefetch that failed does not fail the run: it only leaves more
    /// to be fetched.
    pub fn begin(prefetched: &Result<(), ProviderError>, needs_update: bool) -> (r: (
        Self,
        TransactStep,
    ))
        ensures
            (r.0, r.1.phase()) == TransactRun::begun(prefetched is Ok, needs_update),
            r.0.wf(r.1.phase()),
    {
        let run = TransactRun { iterations: 1, fetches: 0 };
        if needs_update {
            (run, TransactStep::Fetch)
        } else {
            (run, TransactStep::Replay)
        }
    }

    /// Goes on once state was fetched.
    pub fn fetched(&mut self, result: Result<(), ProviderError>) -> (r: TransactStep)
        requires
            old(self).wf(Phase::Fetch),
        ensures
            (*final(self), r.phase()) == old(self).after_fetch(result is Ok),
            result matches Err(error) ==> r == TransactStep::Fail(error),
            final(self).wf(r.phase()),
    {
        self.fetches = self.fetches + 1;
        match result {
            Ok(()) => TransactStep::Replay,
            Err(error) => TransactStep::Fail(error),
        }
    }

    /// Goes on once the machine ran.
    pub fn replayed(&mut self, went_through: bool, needs_update: bool) -> (r: TransactStep)
        requires
            old(self).wf(Phase::Replay),
            old(self).iterations < u32::MAX,
        ensures
            (*final(self), r.phase()) == old(self).after_replay(went_through, needs_update),
            final(self).wf(r.phase()),
    {
        if went_through || !needs_update {
            TransactStep::Finish
        } else {
            self.iterations = self.iterations + 1;
            TransactStep::Fetch
        }
    }
}

/// The words for a run of the machine that failed.
pub fn replay_failure(error: &str) -> (r: String)
    ensures
        r@ == "generic: "@ + error@,
{
    join2("generic: ", error)
}

} // verus!
