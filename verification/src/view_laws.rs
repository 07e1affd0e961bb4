//! What answers, options and lists say: what they hold, and nothing else.
use crate::access_list::{list_view, map_view, AccessListItem, AccountMap};
use crate::account::bytes_view;
use crate::api_client::{request_view, ApiRequest, ApiRequestView};
use crate::chain::{block_answer_view, block_view, Block, BlockView, Transaction};
use crate::error::{ErrorView, ProviderError};
use crate::evm::{words_view, EvmError, EvmErrorView};
use crate::logs::{index_view, receipts_view, LogIndex, Receipt};
use crate::poller::chain_id_of;
use crate::primitives::{views, Bytes, B256};
use crate::router::Route;
use crate::rpc_provider::{
    receipt_answer_view, receipts_answer_view, speculative_view, transaction_answer_view,
    Speculative,
};
use crate::server::{commitment_view, head_view, SequencerCommitment};
use crate::telemetry::option_text;
use crate::urls::text_result;
use vstd::prelude::*;

verus! {

/// A list says what each of its members says, in its place.
pub proof fn law_list_says_what_its_members_say<T: View>(list: Seq<T>, i: int)
    ensures
        views(list).len() == list.len(),
        0 <= i < list.len() ==> views(list)[i] == list[i]@,
{
}

/// An option says what is there, or that nothing is.
pub proof fn law_options_say_what_is_there(
    block: Option<Block>,
    bytes: Option<Bytes>,
    words: Option<Vec<B256>>,
    text: Option<String>,
    list: Option<Vec<AccessListItem>>,
    receipts: Option<Vec<Receipt>>,
    commitment: Option<SequencerCommitment>,
    head: Option<(SequencerCommitment, u64)>,
)
    ensures
        match block {
            Some(b) => block_view(block) == Some(b@),
            None => block_view(block) is None,
        },
        match bytes {
            Some(b) => bytes_view(bytes) == Some(b.data@),
            None => bytes_view(bytes) is None,
        },
        match words {
            Some(w) => words_view(words) == Some(w@),
            None => words_view(words) is None,
        },
        match text {
            Some(t) => option_text(text) == Some(t@),
            None => option_text(text) is None,
        },
        match list {
            Some(l) => list_view(list) == Some(views(l@)),
            None => list_view(list) is None,
        },
        match receipts {
            Some(r) => receipts_view(receipts) == Some(views(r@)),
            None => receipts_view(receipts) is None,
        },
        match commitment {
            Some(c) => commitment_view(commitment) == Some(c@),
            None => commitment_view(commitment) is None,
        },
        match head {
            Some((c, n)) => head_view(head) == Some((c@, n)),
            None => head_view(head) is None,
        },
{
}

/// An answer says what was found, that nothing was, or what went wrong.
pub proof fn law_answers_say_what_came(
    block: Result<Option<Block>, ProviderError>,
    tx: Result<Option<Transaction>, ProviderError>,
    receipt: Result<Option<Receipt>, ProviderError>,
    receipts: Result<Option<Vec<Receipt>>, ProviderError>,
    speculative: Speculative,
    chain_id: Result<u64, ProviderError>,
    text: Result<String, String>,
    request: Result<ApiRequest, String>,
    error: EvmError,
)
    ensures
        match block {
            Ok(Some(b)) => block_answer_view(block) == Ok::<Option<BlockView>, ErrorView>(Some(b@)),
            Ok(None) => block_answer_view(block) == Ok::<Option<BlockView>, ErrorView>(None),
            Err(e) => block_answer_view(block) == Err::<Option<BlockView>, ErrorView>(e@),
        },
        match tx {
            Ok(Some(t)) => transaction_answer_view(tx) is Ok && transaction_answer_view(tx)->Ok_0
                == Some(t@),
            Ok(None) => transaction_answer_view(tx) is Ok && transaction_answer_view(tx)->Ok_0
                is None,
            Err(e) => transaction_answer_view(tx) is Err && transaction_answer_view(tx)->Err_0 == e@,
        },
        match receipt {
            Ok(Some(r)) => receipt_answer_view(receipt) is Ok && receipt_answer_view(receipt)->Ok_0
                == Some(r@),
            Ok(None) => receipt_answer_view(receipt) is Ok && receipt_answer_view(receipt)->Ok_0
                is None,
            Err(e) => receipt_answer_view(receipt) is Err && receipt_answer_view(receipt)->Err_0
                == e@,
        },
        match receipts {
            Ok(Some(r)) => receipts_answer_view(receipts) is Ok && receipts_answer_view(
                receipts,
            )->Ok_0 == Some(views(r@)),
            Ok(None) => receipts_answer_view(receipts) is Ok && receipts_answer_view(receipts)->Ok_0
                is None,
            Err(e) => receipts_answer_view(receipts) is Err && receipts_answer_view(receipts)->Err_0
                == e@,
        },
        match speculative {
            Some(Ok(code)) => speculative_view(speculative) == Some(
                Ok::<Seq<u8>, ErrorView>(code.data@),
            ),
            Some(Err(e)) => speculative_view(speculative) == Some(Err::<Seq<u8>, ErrorView>(e@)),
            None => speculative_view(speculative) is None,
        },
        match chain_id {
            Ok(id) => chain_id_of(chain_id) == Some(id),
            Err(_) => chain_id_of(chain_id) is None,
        },
        match text {
            Ok(t) => text_result(text) == Ok::<Seq<char>, Seq<char>>(t@),
            Err(e) => text_result(text) == Err::<Seq<char>, Seq<char>>(e@),
        },
        match request {
            Ok(r) => request_view(request) == Ok::<ApiRequestView, Seq<char>>(r@),
            Err(e) => request_view(request) == Err::<ApiRequestView, Seq<char>>(e@),
        },
        match error {
            EvmError::BlockNotFound(id) => error@ == EvmErrorView::BlockNotFound(id),
            EvmError::Provider(e) => error@ == EvmErrorView::Provider(e@),
        },
{
}

/// A map says what stands under each of its keys.
pub proof fn law_maps_say_what_stands_under_their_keys(accounts: AccountMap, index: LogIndex)
    ensures
        forall|key: (u32, u128)| #[trigger]
            map_view(accounts).contains_key(key) <==> accounts@.contains_key(key),
        forall|key: (u32, u128)| #[trigger]
            map_view(accounts).contains_key(key) ==> map_view(accounts)[key] == accounts@[key]@,
        forall|key: (u128, u128)| #[trigger]
            index_view(index).contains_key(key) <==> index@.contains_key(key),
        forall|key: (u128, u128)| #[trigger]
            index_view(index).contains_key(key) ==> index_view(index)[key] == views(index@[key]@),
{
}

/// A route says how it is asked for, its parts and who answers.
pub proof fn law_route_view_holds_every_field(route: Route)
    ensures
        route@.method == route.method,
        route@.parts == route.parts@,
        route@.handler == route.handler,
{
}

} // verus!
