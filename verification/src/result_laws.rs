//! What the operations give back, said of their arguments and results alone.
use crate::access_list::{resolve_execution_access_list, AccessListItem};
use crate::account::Account;
use crate::api_client::{
    error_detail, response_failure, serialize_block_id, start_response, ApiRequest, Filter,
    HttpVerifiableApi, Method, QueryValue, ResponsePlan,
};
use crate::block_cache::BlockCache;
use crate::caching_provider::{AccountStep, CachingProvider, Pending};
use crate::chain::{Block, BlockTransactions, Transaction};
use crate::client_settings::{
    api_client_layers, api_client_settings, rpc_client_settings, rpc_retry_backoff, ClientLayer,
    ClientSettings, RetryBackoff,
};
use crate::error::ProviderError;
use crate::evm::{
    block_env, get_spec_id_for_block_timestamp, replay_failure, tx_env, BlockEnv, EvmError,
    ForkSchedule, OpContext, OpSpecId, OpStackEvm, TransactionRequest, TxEnv,
};
use crate::logs::{blocks_of_logs, Log, Receipt};
use crate::metrics::{observations, route_label, status_label, Observation};
use crate::node_laws::names_no_code;
use crate::poller::{
    accept_commitment, chain_id_endpoint, latest_endpoint, pause_after_poll,
};
use crate::primitives::{
    checksum_text, views, Address, BlockId, BlockNumberOrTag, Bytes, RpcBlockHash, B256, U256,
};
use crate::request_laws::named;
use crate::rpc_provider::{
    code_checked, get_block_receipts, get_logs, get_receipt, get_transaction,
    get_transaction_by_location, proof_checked, receipt_block, resolve_block_number,
    resolve_filter, should_use_historical_provider, start_account, start_block_receipts,
    transaction_in_block, AccountProof, BlockStep, FilterBlockOption, ReadStep, ReceiptsStep,
    RpcExecutionProvider, Speculative, TransactionStep,
};
use crate::server::{
    latest_gave_up, latest_handler, LatestStep, SequencerCommitment, ServerState,
};
use crate::telemetry::{plan_telemetry, RequestSpan, TelemetryPlan};
use crate::text::digits;
use crate::trace::{AttemptRecord, AttemptResponse, AttemptSpanMiddleware};
use crate::urls::{joined_url, joined_url_with_pair};
use vstd::prelude::*;

verus! {

/// A poll that failed or brought nothing is followed by a pause, one that brought something by
/// none.
pub proof fn law_pause_follows_a_vain_poll(
    failed: bool,
    before: Option<u64>,
    now: Option<u64>,
    r: Option<u64>,
)
    requires
        call_ensures(pause_after_poll, (failed, before, now), r),
    ensures
        r is Some <==> failed || now == before,
        r is Some ==> r->0 == 200,
{
}

/// A commitment is passed on as it is, exactly where it was verified.
pub proof fn law_verified_commitment_is_passed_on(
    commitment: SequencerCommitment,
    verified: bool,
    r: Option<SequencerCommitment>,
)
    requires
        call_ensures(accept_commitment, (commitment, verified), r),
    ensures
        r is Some <==> verified,
        r is Some ==> r->0 == commitment,
{
}

/// The endpoints of a replica: below its URL, and the poll with the head that is there.
pub proof fn law_endpoints_are_below_the_base(
    base: &str,
    number: u64,
    plain: Result<String, String>,
    after: Result<String, String>,
    chain: Result<String, String>,
)
    requires
        call_ensures(latest_endpoint, (base, None), plain),
        call_ensures(latest_endpoint, (base, Some(number)), after),
        call_ensures(chain_id_endpoint, (base,), chain),
    ensures
        plain matches Ok(url) ==> joined_url(base@, "latest"@) == Ok::<Seq<char>, Seq<char>>(url@),
        plain matches Err(e) ==> joined_url(base@, "latest"@) == Err::<Seq<char>, Seq<char>>(e@),
        after matches Ok(url) ==> joined_url_with_pair(
            base@,
            "latest"@,
            "after"@,
            digits(number as nat, 10),
        ) == Ok::<Seq<char>, Seq<char>>(url@),
        after matches Err(e) ==> joined_url_with_pair(
            base@,
            "latest"@,
            "after"@,
            digits(number as nat, 10),
        ) == Err::<Seq<char>, Seq<char>>(e@),
        chain matches Ok(url) ==> joined_url(base@, "chain_id"@) == Ok::<Seq<char>, Seq<char>>(
            url@,
        ),
        chain matches Err(e) ==> joined_url(base@, "chain_id"@) == Err::<Seq<char>, Seq<char>>(e@),
{
}

/// The transaction that is run has what the request gives, and defaults where it gives nothing.
pub proof fn law_transaction_has_what_the_request_gives(tx: TransactionRequest, r: TxEnv)
    requires
        call_ensures(tx_env, (&tx,), r),
    ensures
        r.tx_type == tx.tx_type,
        match tx.from {
            Some(from) => r.caller == from,
            None => r.caller.hi == 0 && r.caller.lo == 0,
        },
        match tx.kind {
            Some(kind) => r.kind == kind,
            None => r.kind is Create,
        },
        match tx.gas_limit {
            Some(limit) => r.gas_limit == limit,
            None => r.gas_limit == u64::MAX,
        },
        match tx.gas_price {
            Some(price) => r.gas_price == price,
            None => r.gas_price == 0,
        },
        match tx.value {
            Some(value) => r.value == value,
            None => r.value.hi == 0 && r.value.lo == 0,
        },
        match tx.input {
            Some(input) => r.data.data@ == input.data@,
            None => r.data.data@.len() == 0,
        },
        match tx.nonce {
            Some(nonce) => r.nonce == nonce,
            None => r.nonce == 0,
        },
        r.chain_id == tx.chain_id,
        match tx.access_list {
            Some(list) => r.access_list@.len() == list@.len() && forall|i: int|
                0 <= i < list@.len() ==> (#[trigger] r.access_list@[i]).address == list@[i].address
                    && r.access_list@[i].storage_keys@ == list@[i].storage_keys@,
            None => r.access_list@.len() == 0,
        },
        r.gas_priority_fee == tx.max_priority_fee_per_gas,
        r.max_fee_per_blob_gas == 0,
        match tx.blob_versioned_hashes {
            Some(hashes) => r.blob_hashes@ == hashes@,
            None => r.blob_hashes@.len() == 0,
        },
{
    if tx.access_list is None {
        assert(views(r.access_list@).len() == r.access_list@.len());
    }
}

/// A call runs with the request's data, in the block that was found, by the rules of its time,
/// on the machine's chain; a legacy transaction names no chain; and the checks that only a real
/// transaction has to pass are off exactly where it is not to be validated.
pub proof fn law_call_runs_as_it_was_asked_for<E>(
    evm: OpStackEvm<E>,
    tx: TransactionRequest,
    block: Block,
    validate_tx: bool,
    update_fraction: u64,
    r: OpContext,
)
    requires
        call_ensures(
            OpStackEvm::<E>::get_context,
            (&evm, &tx, &block, validate_tx, update_fraction),
            r,
        ),
    ensures
        r.tx.tx_type == tx.tx_type,
        tx.tx_type == 0 ==> r.tx.chain_id is None,
        tx.tx_type != 0 ==> r.tx.chain_id == Some(evm.chain_id),
        tx.input matches Some(input) ==> r.tx.data.data@ == input.data@,
        tx.input is None ==> r.tx.data.data@.len() == 0,
        tx.from matches Some(from) ==> r.tx.caller == from,
        tx.kind matches Some(kind) ==> r.tx.kind == kind,
        tx.gas_limit matches Some(limit) ==> r.tx.gas_limit == limit,
        tx.gas_limit is None ==> r.tx.gas_limit == u64::MAX,
        tx.gas_price matches Some(price) ==> r.tx.gas_price == price,
        tx.value matches Some(value) ==> r.tx.value == value,
        tx.nonce matches Some(nonce) ==> r.tx.nonce == nonce,
        r.tx.gas_priority_fee == tx.max_priority_fee_per_gas,
        tx.blob_versioned_hashes matches Some(hashes) ==> r.tx.blob_hashes@ == hashes@,
        r.enveloped_tx matches Some(bytes) && bytes.data@.len() == 0,
        r.block.number.value() == block.header.number,
        r.block.timestamp.value() == block.header.timestamp,
        r.block.beneficiary == block.header.beneficiary,
        r.block.gas_limit == block.header.gas_limit,
        block.header.base_fee_per_gas matches Some(fee) ==> r.block.basefee == fee,
        block.header.base_fee_per_gas is None ==> r.block.basefee == 0,
        r.block.difficulty == block.header.difficulty,
        r.block.prevrandao == block.header.mix_hash,
        r.cfg.chain_id == evm.chain_id,
        r.cfg.disable_block_gas_limit == !validate_tx,
        r.cfg.disable_eip3607 == !validate_tx,
        r.cfg.disable_base_fee == !validate_tx,
        r.cfg.disable_nonce_check == !validate_tx,
        evm.fork_schedule.isthmus_timestamp <= block.header.timestamp ==> r.cfg.spec
            == OpSpecId::ISTHMUS,
        evm.fork_schedule.holocene_timestamp <= block.header.timestamp
            < evm.fork_schedule.isthmus_timestamp ==> r.cfg.spec == OpSpecId::HOLOCENE,
{
    crate::evm::lemma_active_rules(evm.fork_schedule, block.header.timestamp);
}

/// A run is pinned to the block that was found, by its hash; where none was found the error
/// names the block that was asked for.
pub proof fn law_run_is_pinned_to_what_was_found<E>(
    evm: OpStackEvm<E>,
    block: Result<Option<Block>, ProviderError>,
    r: Result<RpcBlockHash, EvmError>,
)
    requires
        call_ensures(OpStackEvm::<E>::pin_block, (&evm, block), r),
    ensures
        match block {
            Ok(Some(found)) => r is Ok && r->Ok_0.block_hash == found.header.hash
                && r->Ok_0.require_canonical is None,
            Ok(None) => r matches Err(EvmError::BlockNotFound(id)) && id == evm.block_id,
            Err(error) => r is Err && r->Err_0@ == crate::evm::EvmErrorView::Provider(error@),
        },
{
    assert(r is Err ==> r->Err_0@ is BlockNotFound == (r->Err_0 is BlockNotFound));
}

/// The words for a failed run name what failed.
pub proof fn law_failure_is_named(error: &str, r: String)
    requires
        call_ensures(replay_failure, (error,), r),
    ensures
        r@ == "generic: "@ + error@,
{
}

/// An account that is read without code has the fields of the proof that passed both checks.
pub proof fn law_account_without_code_has_the_proofs_fields(
    shown: AccountProof,
    speculative: Speculative,
    r: ReadStep,
)
    requires
        call_ensures(proof_checked, (false, shown, Ok(()), Ok(()), speculative), r),
    ensures
        r matches ReadStep::Done(Ok(account)) && {
            &&& account.account.nonce == shown.nonce
            &&& account.account.balance == shown.balance
            &&& account.account.storage_root == shown.storage_hash
            &&& account.account.code_hash == shown.code_hash
            &&& account.code is None
            &&& account@.account_proof == views(shown.account_proof@)
            &&& account@.storage_proof == views(shown.storage_proof@)
        },
{
    lemma_done(r);
}

/// An account whose code hash says that it has no code is read with no code, whatever was
/// fetched for it.
pub proof fn law_account_of_no_code_is_read_so(
    shown: AccountProof,
    speculative: Speculative,
    r: ReadStep,
)
    requires
        names_no_code(shown.code_hash),
        call_ensures(proof_checked, (true, shown, Ok(()), Ok(()), speculative), r),
    ensures
        r matches ReadStep::Done(Ok(account)) && {
            &&& account.account.nonce == shown.nonce
            &&& account.account.balance == shown.balance
            &&& account.account.storage_root == shown.storage_hash
            &&& account.account.code_hash == shown.code_hash
            &&& account@.code == Some(Seq::<u8>::empty())
            &&& account@.account_proof == views(shown.account_proof@)
            &&& account@.storage_proof == views(shown.storage_proof@)
        },
{
    lemma_done(r);
    assert(shown@.is_without_code());
}

proof fn lemma_done(r: ReadStep)
    ensures
        match r {
            ReadStep::Done(Ok(account)) => r@ == crate::rpc_provider::ReadStepView::Done(
                Ok(account@),
            ),
            ReadStep::Done(Err(error)) => r@ == crate::rpc_provider::ReadStepView::Done(
                Err(error@),
            ),
            _ => !(r@ is Done),
        },
{
}

/// A proof that fails a check is no answer: the first check that failed is the error.
pub proof fn law_unchecked_proof_is_no_answer(
    with_code: bool,
    shown: AccountProof,
    account: Result<(), ProviderError>,
    storage: Result<(), ProviderError>,
    speculative: Speculative,
    r: ReadStep,
)
    requires
        account is Err || storage is Err,
        call_ensures(proof_checked, (with_code, shown, account, storage, speculative), r),
    ensures
        r matches ReadStep::Done(Err(error)) && error@ == (if account is Err {
            account->Err_0@
        } else {
            storage->Err_0@
        }),
{
    lemma_done(r);
}

/// Code is used exactly where it passed its check, and then as it came, with the fields of the
/// proof.
pub proof fn law_checked_code_is_used(
    shown: AccountProof,
    code: Bytes,
    verdict: Result<(), ProviderError>,
    r: Result<Account, ProviderError>,
)
    requires
        call_ensures(code_checked, (shown, code, verdict), r),
    ensures
        match verdict {
            Ok(()) => r matches Ok(account) && {
                &&& account@.code == Some(code.data@)
                &&& account.account.nonce == shown.nonce
                &&& account.account.balance == shown.balance
                &&& account.account.storage_root == shown.storage_hash
                &&& account.account.code_hash == shown.code_hash
                &&& account@.account_proof == views(shown.account_proof@)
                &&& account@.storage_proof == views(shown.storage_proof@)
            },
            Err(error) => r matches Err(e) && e@ == error@,
        },
{
}

/// A reading asks for the proof at the hash of the block, and checks it against its state root.
pub proof fn law_reading_starts_at_the_block(
    block: Result<Option<Block>, ProviderError>,
    with_code: bool,
    r: ReadStep,
)
    requires
        call_ensures(start_account, (block, with_code), r),
    ensures
        match block {
            Ok(Some(b)) => r matches ReadStep::AskProof { block_hash, state_root, with_code: code }
                && block_hash == b.header.hash && state_root == b.header.state_root && code
                == with_code,
            Ok(None) => r matches ReadStep::Done(Err(error)) && error is BlockNotFound,
            Err(error) => r matches ReadStep::Done(Err(e)) && e@ == error@,
        },
{
    lemma_done(r);
    crate::node_laws::law_read_steps_are_told_apart(r);
    if let ReadStep::Done(Err(error)) = &r {
        crate::node_laws::law_errors_are_told_apart(*error);
    }
}

/// Older blocks are looked up for a hash and for a number, and for no tag.
pub proof fn law_tags_are_not_historical(id: BlockId, r: bool)
    requires
        call_ensures(should_use_historical_provider, (&id,), r),
    ensures
        match id {
            BlockId::Hash(_) => r,
            BlockId::Number(BlockNumberOrTag::Number(_)) => r,
            BlockId::Number(_) => !r,
        },
{
}

/// A transaction at a place is that of the block's list, where the list is there in full.
pub proof fn law_place_leads_to_its_transaction(
    block: Block,
    index: u64,
    r: Result<Option<Transaction>, ProviderError>,
)
    requires
        call_ensures(get_transaction_by_location, (Ok(Some(block)), index), r),
    ensures
        r is Ok,
        block.transactions matches BlockTransactions::Full(txs) ==> {
            &&& (index as usize) < txs@.len() ==> r->Ok_0 is Some && r->Ok_0->0@ == txs@[
            (index as usize) as int]@
            &&& (index as usize) >= txs@.len() ==> r->Ok_0 is None
        },
        !(block.transactions is Full) ==> r->Ok_0 is None,
{
}

/// A receipt leads to the block that it says it is in.
pub proof fn law_receipt_leads_to_its_block(
    answer: Result<Option<Receipt>, ProviderError>,
    r: Result<B256, ProviderError>,
)
    requires
        call_ensures(receipt_block, (answer,), r),
    ensures
        match answer {
            Ok(Some(receipt)) => match receipt.block_hash {
                Some(hash) => r matches Ok(found) && found == hash,
                None => r matches Err(error) && error@ is BlockNotFound,
            },
            Ok(None) => r matches Err(error) && error@ is ReceiptNotFound,
            Err(e) => r matches Err(error) && error@ == e@,
        },
{
}

/// Receipts come out as they are exactly where they passed the check.
pub proof fn law_checked_receipts_come_out(
    receipts: Vec<Receipt>,
    verdict: Result<(), ProviderError>,
    r: Result<Option<Vec<Receipt>>, ProviderError>,
)
    requires
        call_ensures(get_block_receipts, (receipts, verdict), r),
    ensures
        match verdict {
            Ok(()) => r matches Ok(Some(out)) && views(out@) == views(receipts@),
            Err(e) => r matches Err(error) && error@ == e@,
        },
{
}

/// The receipts of a block are asked for by its hash; a block that is not there has none.
pub proof fn law_receipts_are_asked_for_by_hash(
    block: Result<Option<Block>, ProviderError>,
    r: ReceiptsStep,
)
    requires
        call_ensures(start_block_receipts, (block,), r),
    ensures
        match block {
            Ok(Some(b)) => r matches ReceiptsStep::AskReceipts { block_hash, block: held }
                && block_hash == b.header.hash && held@ == b@,
            Ok(None) => r matches ReceiptsStep::Done(Ok(None)),
            Err(e) => r matches ReceiptsStep::Done(Err(error)) && error@ == e@,
        },
{
}

/// The ends of a range are put in their places; a filter by hash is left alone.
pub proof fn law_filter_is_resolved(
    from_block: Option<BlockNumberOrTag>,
    to_block: Option<BlockNumberOrTag>,
    hash: B256,
    from: u64,
    to: u64,
    range: Result<FilterBlockOption, ProviderError>,
    at: Result<FilterBlockOption, ProviderError>,
)
    requires
        call_ensures(
            resolve_filter,
            (FilterBlockOption::Range { from_block, to_block }, Ok(from), Ok(to)),
            range,
        ),
        call_ensures(
            resolve_filter,
            (FilterBlockOption::AtBlockHash(hash), Ok(from), Ok(to)),
            at,
        ),
    ensures
        range matches Ok(option) && option == (FilterBlockOption::Range {
            from_block: Some(BlockNumberOrTag::Number(from)),
            to_block: Some(BlockNumberOrTag::Number(to)),
        }),
        at matches Ok(option) && option == FilterBlockOption::AtBlockHash(hash),
{
}

/// Logs come out as they are exactly where they passed both checks; else the first check that
/// failed is the error.
pub proof fn law_checked_logs_come_out(
    logs: Vec<Log>,
    verified: Result<(), ProviderError>,
    matching: Result<(), ProviderError>,
    r: Result<Vec<Log>, ProviderError>,
)
    requires
        call_ensures(get_logs, (logs, verified, matching), r),
    ensures
        r is Ok <==> verified is Ok && matching is Ok,
        r is Ok ==> r->Ok_0 == logs,
        verified is Err ==> r->Err_0@ == verified->Err_0@,
        verified is Ok && matching is Err ==> r->Err_0@ == matching->Err_0@,
{
}

/// The settings of the client of a node are those of the API client that negotiates the
/// protocol, and the API client forces HTTP/1.1 exactly where it is told to.
pub proof fn law_clients_are_set_up_alike(
    forced: Option<&str>,
    api: ClientSettings,
    free: ClientSettings,
    rpc: ClientSettings,
    backoff: RetryBackoff,
    layers: Vec<ClientLayer>,
)
    requires
        call_ensures(api_client_settings, (forced,), api),
        call_ensures(api_client_settings, (None,), free),
        call_ensures(rpc_client_settings, (), rpc),
        call_ensures(rpc_retry_backoff, (), backoff),
        call_ensures(api_client_layers, (), layers),
    ensures
        rpc == free,
        !rpc.http1_only,
        api.http1_only <==> forced is Some && forced->0@.len() > 0,
        api == (ClientSettings { http1_only: api.http1_only, ..rpc }),
        api.pool_max_idle_per_host == 30 && api.pool_idle_timeout is None,
        backoff.max_rate_limit_retries == 100,
        backoff.initial_backoff == 50,
        backoff.compute_units_per_second == 300,
        layers@.len() == 3,
        layers@[0] == ClientLayer::Retry(3),
        layers@[1] == ClientLayer::AttemptSpan,
        layers@[2] == ClientLayer::TraceInject,
{
}

/// A success is read chunk by chunk, from nothing; all else is read as an error.
pub proof fn law_success_is_read_in_chunks(status: u16, r: ResponsePlan)
    requires
        call_ensures(start_response, (status,), r),
    ensures
        r is Chunks <==> 200 <= status && status <= 299,
        r matches ResponsePlan::Chunks(read) ==> read.body@.len() == 0 && read.chunks == 0
            && read.status == status,
{
}

/// A failure is the error that the server names; else it is the status and the first three
/// hundred characters of the body.
pub proof fn law_failure_says_why(
    status: u16,
    text: &str,
    named_error: Option<String>,
    r: String,
    detail: String,
)
    requires
        call_ensures(response_failure, (status, text, named_error), r),
        call_ensures(error_detail, (text,), detail),
    ensures
        named_error matches Some(error) ==> r@ == error@,
        named_error is None ==> r@ == "vapi "@ + digits(status as nat, 10) + ": "@ + detail@,
        detail@ == (if text@.len() <= 300 {
            text@
        } else {
            text@.subrange(0, 300)
        }),
{
    if text@.len() > 300 {
        assert(text@.take(300) =~= text@.subrange(0, 300));
    }
}

/// A request of the client is made below its base, in its own way, with its own body; where the
/// URL cannot be built there is no request.
pub open spec fn is_made(
    r: Result<ApiRequest, String>,
    url: Result<Seq<char>, Seq<char>>,
    method: Method,
) -> bool {
    match url {
        Ok(text) => r is Ok && r->Ok_0.url@ == text && r->Ok_0.method == method,
        Err(_) => r is Err,
    }
}

/// The requests that carry nothing but their path.
pub proof fn law_plain_requests_are_made(
    api: HttpVerifiableApi,
    tx_hash: B256,
    receipt: Result<ApiRequest, String>,
    transaction: Result<ApiRequest, String>,
    chain: Result<ApiRequest, String>,
)
    requires
        call_ensures(HttpVerifiableApi::get_transaction_receipt, (&api, tx_hash), receipt),
        call_ensures(HttpVerifiableApi::get_transaction, (&api, tx_hash), transaction),
        call_ensures(HttpVerifiableApi::chain_id, (&api,), chain),
    ensures
        is_made(
            receipt,
            joined_url(api.base_url@, "eth/v1/proof/receipt/"@ + tx_hash.text()),
            Method::Get,
        ),
        is_made(
            transaction,
            joined_url(api.base_url@, "eth/v1/proof/transaction/"@ + tx_hash.text()),
            Method::Get,
        ),
        is_made(chain, joined_url(api.base_url@, "eth/v1/chainId"@), Method::Get),
        receipt is Ok ==> views(receipt->Ok_0.query@).len() == 0 && receipt->Ok_0.body@ is Empty,
        transaction is Ok ==> views(transaction->Ok_0.query@).len() == 0
            && transaction->Ok_0.body@ is Empty,
        chain is Ok ==> views(chain->Ok_0.query@).len() == 0 && chain->Ok_0.body@ is Empty,
{
}

/// The requests that post something carry it as it came.
pub proof fn law_posts_carry_what_came(
    api: HttpVerifiableApi,
    tx: Bytes,
    validate_tx: bool,
    block_id: Option<BlockId>,
    bytes: Vec<u8>,
    hint: Result<ApiRequest, String>,
    raw: Result<ApiRequest, String>,
)
    requires
        call_ensures(
            HttpVerifiableApi::get_execution_hint,
            (&api, tx, validate_tx, block_id),
            hint,
        ),
        call_ensures(HttpVerifiableApi::send_raw_transaction, (&api, &bytes), raw),
    ensures
        is_made(
            hint,
            joined_url(api.base_url@, "eth/v1/proof/getExecutionHint"@),
            Method::Post,
        ),
        is_made(raw, joined_url(api.base_url@, "eth/v1/sendRawTransaction"@), Method::Post),
        hint is Ok ==> (hint->Ok_0.body@ == crate::api_client::BodyView::ExecutionHint {
            tx: tx.data@,
            validate_tx,
            block: block_id,
        }),
        raw is Ok ==> raw->Ok_0.body@ == crate::api_client::BodyView::RawTransaction(bytes@),
{
}

/// The requests for blocks and logs say which and how.
pub proof fn law_queries_say_what_is_wanted(
    api: HttpVerifiableApi,
    block_id: BlockId,
    full_tx: bool,
    filter: Filter,
    from: u64,
    to: u64,
    block: Result<ApiRequest, String>,
    logs: Result<ApiRequest, String>,
)
    requires
        filter.block_option == (FilterBlockOption::Range {
            from_block: Some(BlockNumberOrTag::Number(from)),
            to_block: Some(BlockNumberOrTag::Number(to)),
        }),
        call_ensures(HttpVerifiableApi::get_block, (&api, block_id, full_tx), block),
        call_ensures(HttpVerifiableApi::get_logs, (&api, &filter), logs),
    ensures
        is_made(logs, joined_url(api.base_url@, "eth/v1/proof/logs"@), Method::Get),
        block is Ok ==> views(block->Ok_0.query@) == seq![
            ("transactionDetailFlag"@, QueryValue::Flag(full_tx)),
        ],
        logs is Ok ==> {
            let pairs = views(logs->Ok_0.query@);
            &&& named(pairs, "fromBlock"@) == seq![
                QueryValue::Number(U256 { hi: 0, lo: from as u128 }),
            ]
            &&& named(pairs, "toBlock"@) == seq![
                QueryValue::Number(U256 { hi: 0, lo: to as u128 }),
            ]
            &&& named(pairs, "address"@).len() == filter.address@.len()
            &&& forall|i: int|
                0 <= i < filter.address@.len() ==> (#[trigger] named(pairs, "address"@)[i])
                    == QueryValue::Address(filter.address@[i])
        },
{
    crate::request_laws::law_ends_of_a_range_are_sent(
        Some(BlockNumberOrTag::Number(from)),
        Some(BlockNumberOrTag::Number(to)),
        filter.address@,
        filter.topics@,
    );
    crate::request_laws::law_query_asks_for_the_filter(
        filter.block_option,
        filter.address@,
        filter.topics@,
    );
}

/// An attempt that came back is recorded with its status and its peer; one that failed with why.
pub proof fn law_attempt_is_recorded(
    span: AttemptSpanMiddleware,
    result: Result<AttemptResponse, String>,
    r: AttemptRecord,
)
    requires
        call_ensures(AttemptSpanMiddleware::record, (&span, result), r),
    ensures
        match result {
            Ok(response) => r.status == Some(response.status) && r.peer == response.peer
                && r.outcome@ == "response"@,
            Err(error) => r.status is None && r.peer is None && r.outcome@ == "error: "@ + error@,
        },
{
}

/// A request's span names the request, and its trace exactly where the trace is valid.
pub proof fn law_span_names_the_request(
    method: &str,
    path: &str,
    is_valid: bool,
    trace_id: &str,
    r: RequestSpan,
)
    requires
        call_ensures(RequestSpan::begin, (method, path, is_valid, trace_id), r),
    ensures
        r.method@ == method@,
        r.path@ == path@,
        r.trace_id is Some <==> is_valid,
        r.trace_id is Some ==> r.trace_id->0@ == trace_id@,
        r.status is None,
{
}

/// A request for the newest commitment gets it at once or waits for a newer one; one that gave
/// up gets what there is.
pub proof fn law_latest_is_answered(
    head: Option<(SequencerCommitment, u64)>,
    after: Option<u64>,
    step: LatestStep,
    last: Option<SequencerCommitment>,
)
    requires
        call_ensures(latest_handler, (&head, after), step),
        call_ensures(latest_gave_up, (&head,), last),
    ensures
        match head {
            Some((commitment, number)) => {
                &&& last matches Some(c) && c@ == commitment@
                &&& if after is None || number > after->0 {
                    step matches LatestStep::Answer(Some(c)) && c@ == commitment@
                } else {
                    step is Wait
                }
            },
            None => {
                &&& last is None
                &&& after is None ==> (step matches LatestStep::Answer(None))
                &&& after is Some ==> step is Wait
            },
        },
{
    crate::service_laws::law_server_views_hold_every_field(
        arbitrary(),
        arbitrary(),
        step,
    );
}

/// A commitment is the latest exactly where its block is above the head's.
pub proof fn law_latest_commitment_is_above(state: ServerState, number: u64, r: bool)
    requires
        call_ensures(ServerState::is_latest_commitment, (&state, number), r),
    ensures
        match state.latest_commitment {
            Some((_, head)) => r == (number > head),
            None => r,
        },
{
}

/// The access list of a call begins as it came and ends with those that are always touched; a
/// failure to get it is handed on.
pub proof fn law_access_list_is_completed(
    block: Block,
    list: Result<Vec<AccessListItem>, ProviderError>,
    from: Option<Address>,
    to: Option<Address>,
    r: Result<Option<Vec<AccessListItem>>, ProviderError>,
)
    requires
        call_ensures(resolve_execution_access_list, (&block, list, from, to), r),
    ensures
        match list {
            Err(error) => r matches Err(e) && e@ == error@,
            Ok(items) => r is Ok && r->Ok_0 is Some && {
                let full = views(r->Ok_0->0@);
                &&& full.len() >= items@.len()
                &&& full.take(items@.len() as int) == views(items@)
                &&& crate::hint_laws::lists(full, block.header.beneficiary)
                &&& from matches Some(a) ==> crate::hint_laws::lists(full, a)
                &&& to matches Some(a) ==> crate::hint_laws::lists(full, a)
            },
        },
{
    if let Ok(items) = list {
        crate::hint_laws::law_always_touched_accounts_come_last(
            views(items@),
            from,
            to,
            block.header.beneficiary,
        );
    }
}

/// The blocks of logs are those they name up to the latest, each once.
pub proof fn law_blocks_of_logs_are_found(logs: Vec<Log>, latest: u64, r: Vec<u64>, number: u64)
    requires
        call_ensures(blocks_of_logs, (&logs, latest), r),
    ensures
        r@.contains(number) <==> number <= latest && exists|i: int|
            0 <= i < logs@.len() && (#[trigger] logs@[i]).block_number == Some(number),
        r@.no_duplicates(),
{
    let all = views(logs@);
    assert(r@.to_set().contains(number) == r@.contains(number));
    if exists|i: int| 0 <= i < all.len() && (#[trigger] all[i]).block_number == Some(number) {
        let i = choose|i: int| 0 <= i < all.len() && (#[trigger] all[i]).block_number == Some(number);
        assert(logs@[i].block_number == Some(number));
    }
    if exists|i: int| 0 <= i < logs@.len() && (#[trigger] logs@[i]).block_number == Some(number) {
        let i = choose|i: int|
            0 <= i < logs@.len() && (#[trigger] logs@[i]).block_number == Some(number);
        assert(all[i].block_number == Some(number));
    }
}

/// A response is observed under its route and class.
pub proof fn law_response_is_observed(
    path: &str,
    status: u16,
    bytes: usize,
    label: &'static str,
    class: &'static str,
    whole: Vec<Observation>,
    broken: Vec<Observation>,
)
    requires
        call_ensures(route_label, (path,), label),
        call_ensures(status_label, (status,), class),
        call_ensures(observations, (path, status, Some(bytes)), whole),
        call_ensures(observations, (path, status, None), broken),
    ensures
        status / 100 == 2 ==> class == "2xx",
        status / 100 == 3 ==> class == "3xx",
        status / 100 == 4 ==> class == "4xx",
        status / 100 == 5 ==> class == "5xx",
        whole@ == seq![
            Observation::RequestDuration { path: label, status: class },
            Observation::EncodeDuration { path: label },
            Observation::ResponseBytes { path: label, bytes },
            Observation::RequestsTotal { path: label, status: class },
        ],
        broken@ == seq![Observation::RequestsTotal { path: label, status: "5xx" }],
{
}

/// The rules of a block are those of the newest upgrade whose time has come.
pub proof fn law_rules_of_a_block(timestamp: u64, schedule: ForkSchedule, r: OpSpecId)
    requires
        call_ensures(get_spec_id_for_block_timestamp, (timestamp, &schedule), r),
    ensures
        schedule.isthmus_timestamp <= timestamp ==> r == OpSpecId::ISTHMUS,
        schedule.is_ordered() ==> {
            &&& schedule.bedrock_timestamp <= timestamp < schedule.regolith_timestamp ==> r
                == OpSpecId::BEDROCK
            &&& schedule.regolith_timestamp <= timestamp < schedule.canyon_timestamp ==> r
                == OpSpecId::REGOLITH
            &&& schedule.canyon_timestamp <= timestamp < schedule.ecotone_timestamp ==> r
                == OpSpecId::CANYON
            &&& schedule.ecotone_timestamp <= timestamp < schedule.fjord_timestamp ==> r
                == OpSpecId::ECOTONE
            &&& schedule.fjord_timestamp <= timestamp < schedule.granite_timestamp ==> r
                == OpSpecId::FJORD
            &&& schedule.granite_timestamp <= timestamp < schedule.holocene_timestamp ==> r
                == OpSpecId::GRANITE
            &&& schedule.holocene_timestamp <= timestamp < schedule.isthmus_timestamp ==> r
                == OpSpecId::HOLOCENE
            &&& timestamp < schedule.bedrock_timestamp ==> r == OpSpecId::ISTHMUS
        },
{
    crate::evm::lemma_active_rules(schedule, timestamp);
}

/// A call runs in the block of the header.
pub proof fn law_block_of_a_call(block: Block, update_fraction: u64, r: BlockEnv)
    requires
        call_ensures(block_env, (&block, update_fraction), r),
    ensures
        r.number.value() == block.header.number,
        r.timestamp.value() == block.header.timestamp,
        r.beneficiary == block.header.beneficiary,
        r.gas_limit == block.header.gas_limit,
        block.header.base_fee_per_gas matches Some(fee) ==> r.basefee == fee,
        block.header.base_fee_per_gas is None ==> r.basefee == 0,
        r.difficulty == block.header.difficulty,
        r.prevrandao == block.header.mix_hash,
{
}

/// A block is handed out under its number, and by its tag, with its header and the rest.
pub proof fn law_block_is_handed_out(
    cache: BlockCache,
    number: u64,
    full_tx: bool,
    by_number: Option<Block>,
    latest: Option<Block>,
    finalized: Option<Block>,
    pending: Option<Block>,
)
    requires
        call_ensures(
            BlockCache::get_block,
            (&cache, BlockId::Number(BlockNumberOrTag::Number(number)), full_tx),
            by_number,
        ),
        call_ensures(
            BlockCache::get_block,
            (&cache, BlockId::Number(BlockNumberOrTag::Latest), full_tx),
            latest,
        ),
        call_ensures(
            BlockCache::get_block,
            (&cache, BlockId::Number(BlockNumberOrTag::Finalized), full_tx),
            finalized,
        ),
        call_ensures(
            BlockCache::get_block,
            (&cache, BlockId::Number(BlockNumberOrTag::Pending), full_tx),
            pending,
        ),
    ensures
        by_number is Some <==> cache.blocks@.contains_key(number),
        by_number is Some ==> by_number->0@.header == cache.blocks@[number].header
            && by_number->0@.rest == cache.blocks@[number].rest.data@,
        by_number is Some && full_tx ==> by_number->0@ == cache.blocks@[number]@,
        latest is Some <==> cache.latest is Some,
        latest is Some ==> latest->0@.header == cache.latest->0.header,
        finalized is Some <==> cache.finalized is Some,
        finalized is Some ==> finalized->0@.header == cache.finalized->0.header,
        pending is None,
{
}

/// A transaction of a block is found by its hash, and is one of the block's.
pub proof fn law_transaction_of_a_block_is_found(
    block: Block,
    hash: B256,
    r: Result<Option<Transaction>, ProviderError>,
)
    requires
        call_ensures(transaction_in_block, (Ok(Some(block)), hash), r),
    ensures
        r is Ok,
        r->Ok_0 matches Some(tx) ==> tx@.hash == hash && (block@.transactions matches
            crate::chain::BlockTransactionsView::Full(txs) && txs.contains(tx@)),
        r->Ok_0 is None ==> (block@.transactions matches
            crate::chain::BlockTransactionsView::Full(txs) ==> forall|i: int|
            0 <= i < txs.len() ==> (#[trigger] txs[i]).hash != hash),
{
    crate::rpc_laws::law_found_transaction_is_of_the_block(block@.transactions.full(), hash);
}

/// A receipt of checked receipts is found by its transaction, and is one of them.
pub proof fn law_receipt_of_a_block_is_found(
    receipts: Vec<Receipt>,
    verdict: Result<(), ProviderError>,
    hash: B256,
    r: Result<Option<Receipt>, ProviderError>,
)
    requires
        call_ensures(get_receipt, (receipts, verdict, hash), r),
    ensures
        verdict matches Err(error) ==> r is Err && r->Err_0@ == error@,
        verdict is Ok ==> r is Ok,
        r is Ok && r->Ok_0 is Some ==> r->Ok_0->0@.transaction_hash == hash && views(
            receipts@,
        ).contains(r->Ok_0->0@),
        r is Ok && r->Ok_0 is None ==> forall|i: int|
            0 <= i < receipts@.len() ==> (#[trigger] views(receipts@)[i]).transaction_hash != hash,
{
    crate::rpc_laws::law_found_receipt_is_of_the_block(views(receipts@), hash);
}

/// The number of a block is the number that is named, or that of the block that was found.
pub proof fn law_number_of_a_block(
    number: u64,
    asked: Result<Option<Block>, ProviderError>,
    known: Result<u64, ProviderError>,
    latest: Result<u64, ProviderError>,
    safe: Result<u64, ProviderError>,
)
    requires
        call_ensures(
            resolve_block_number,
            (Some(BlockNumberOrTag::Number(number)), asked),
            known,
        ),
        call_ensures(resolve_block_number, (None, asked), latest),
        call_ensures(resolve_block_number, (Some(BlockNumberOrTag::Safe), asked), safe),
    ensures
        known is Ok && known->Ok_0 == number,
        match asked {
            Ok(Some(block)) => latest is Ok && latest->Ok_0 == block.header.number,
            Ok(None) => latest is Err && latest->Err_0@ is BlockNotFound,
            Err(error) => latest is Err && latest->Err_0@ == error@,
        },
        safe is Err && safe->Err_0@ is BlockNotFound,
{
}

/// A transaction is looked for in the block that it names.
pub proof fn law_transaction_names_its_block(tx: Transaction, hash: B256, r: TransactionStep)
    requires
        tx.block_hash == Some(hash),
        call_ensures(get_transaction, (Ok(Some(tx)),), r),
    ensures
        r matches TransactionStep::AskBlock { block_hash, tx_hash } && block_hash == hash && tx_hash
            == tx.hash,
{
    crate::node_laws::law_search_steps_are_told_apart(BlockStep::AskHistorical, r);
}

/// A recent block is the answer; older ones are asked for only where there are any.
pub proof fn law_recent_block_is_the_answer<B, H>(
    provider: RpcExecutionProvider<B, H>,
    recent: Result<Option<Block>, ProviderError>,
    number: u64,
    r: BlockStep,
)
    requires
        call_ensures(
            RpcExecutionProvider::<B, H>::get_block,
            (&provider, recent, &BlockId::Number(BlockNumberOrTag::Number(number))),
            r,
        ),
    ensures
        match recent {
            Ok(Some(block)) => r matches BlockStep::Done(Ok(Some(found))) && found@ == block@,
            Ok(None) => r is AskHistorical <==> provider.historical_provider is Some,
            Err(error) => r matches BlockStep::Done(Err(e)) && e@ == error@,
        },
{
    crate::node_laws::law_search_steps_are_told_apart(r, TransactionStep::Done(Ok(None)));
}

/// A block in a path is its hash or its number.
pub proof fn law_block_in_a_path(hash: B256, number: u64, by_hash: String, by_number: String)
    requires
        call_ensures(
            serialize_block_id,
            (BlockId::Hash(RpcBlockHash { block_hash: hash, require_canonical: None }),),
            by_hash,
        ),
        call_ensures(
            serialize_block_id,
            (BlockId::Number(BlockNumberOrTag::Number(number)),),
            by_number,
        ),
    ensures
        by_hash@ == hash.text(),
        by_number@ == "0x"@ + digits(number as nat, 16),
{
}

/// The request for an account names it in its path, and its slots, block and code in its query.
pub proof fn law_account_request_says_what_is_wanted(
    api: HttpVerifiableApi,
    address: Address,
    slots: Vec<U256>,
    block_id: BlockId,
    include_code: bool,
    r: Result<ApiRequest, String>,
)
    requires
        call_ensures(
            HttpVerifiableApi::get_account,
            (&api, address, &slots, Some(block_id), include_code),
            r,
        ),
    ensures
        is_made(
            r,
            joined_url(
                api.base_url@,
                "eth/v1/proof/account/"@ + checksum_text(address.hi, address.lo),
            ),
            Method::Get,
        ),
        r is Ok ==> {
            let pairs = views(r->Ok_0.query@);
            &&& named(pairs, "block"@) == seq![QueryValue::Block(block_id)]
            &&& named(pairs, "includeCode"@) == seq![QueryValue::Flag(include_code)]
            &&& named(pairs, "storageSlots"@).len() == slots@.len()
            &&& forall|i: int|
                0 <= i < slots@.len() ==> (#[trigger] named(pairs, "storageSlots"@)[i])
                    == QueryValue::Number(slots@[i])
        },
{
    crate::request_laws::law_query_asks_for_the_account(Some(block_id), slots@, include_code);
}

/// Traces are exported exactly where an endpoint is set, to it, under the service's name.
pub proof fn law_export_is_planned(
    service_name: &str,
    endpoint: Option<String>,
    environment: Option<String>,
    r: TelemetryPlan,
)
    requires
        call_ensures(plan_telemetry, (service_name, endpoint, environment), r),
    ensures
        endpoint is None ==> r@ is LogOnly,
        endpoint matches Some(to) ==> (r@ matches crate::telemetry::TelemetryPlanView::Export {
            endpoint: at,
            attributes,
        } && at == to@ && attributes.len() >= 1 && attributes[0] == ("service.name"@, service_name@)
            && (environment matches Some(name) ==> attributes.len() == 2 && attributes[1] == (
            "deployment.environment"@,
            name@,
        )) && (environment is None ==> attributes.len() == 1)),
{
}

/// An account of which nothing is known is asked for whole, at the block it is wanted at.
pub proof fn law_unknown_account_is_asked_for<P>(
    provider: CachingProvider<P>,
    address: Address,
    slots: Vec<B256>,
    block_hash: B256,
    r: AccountStep,
)
    requires
        !provider.cache.accounts@.contains_key(
            ((address.hi, address.lo), (block_hash.hi, block_hash.lo)),
        ),
        call_ensures(CachingProvider::<P>::look_up, (&provider, address, &slots, false, block_hash), r),
    ensures
        r matches AccountStep::AskAccount { slots: asked, with_code, block_hash: at, pending }
            && asked@ == slots@ && !with_code && at == block_hash && pending is Whole,
{
    crate::cache_laws::law_cache_views_hold_every_field(
        provider.cache,
        Pending::Whole,
        r,
    );
    if let AccountStep::AskAccount { slots: asked, with_code, block_hash: at, pending } = &r {
        crate::cache_laws::law_cache_views_hold_every_field(provider.cache, *pending, r);
    }
}

} // verus!
