//! What a call is run with, field by field.
use crate::chain::Header;
use crate::evm::{
    active_rules, environment, requested, ForkSchedule, OpSpecId, RequestView, TransactRun,
    TransactStep, TransactionRequest, TxEnv, TxKind,
};
use crate::primitives::Address;
use vstd::prelude::*;

verus! {

/// Whatever a request gives comes out as it was given, whatever the type of the request.
pub proof fn law_given_fields_come_out_as_given(tx: RequestView)
    ensures
        requested(tx).tx_type == tx.tx_type,
        tx.from matches Some(from) ==> requested(tx).caller == from,
        tx.kind matches Some(kind) ==> requested(tx).kind == kind,
        tx.gas_limit matches Some(limit) ==> requested(tx).gas_limit == limit,
        tx.gas_price matches Some(price) ==> requested(tx).gas_price == price,
        tx.value matches Some(value) ==> requested(tx).value == value,
        tx.input matches Some(input) ==> requested(tx).data == input,
        tx.nonce matches Some(nonce) ==> requested(tx).nonce == nonce,
        requested(tx).chain_id == tx.chain_id,
        tx.access_list matches Some(list) ==> requested(tx).access_list == list,
        requested(tx).gas_priority_fee == tx.max_priority_fee_per_gas,
        tx.blob_versioned_hashes matches Some(hashes) ==> requested(tx).blob_hashes == hashes,
{
}

/// What a request leaves open is zero or empty, the recipient is a creation, and the gas has no
/// limit; no blob gas is paid for.
pub proof fn law_open_fields_have_their_defaults(tx: RequestView)
    ensures
        tx.from is None ==> requested(tx).caller == (Address { hi: 0, lo: 0 }),
        tx.kind is None ==> requested(tx).kind == TxKind::Create,
        tx.gas_limit is None ==> requested(tx).gas_limit == u64::MAX,
        tx.gas_price is None ==> requested(tx).gas_price == 0,
        tx.value is None ==> requested(tx).value.value() == 0,
        tx.input is None ==> requested(tx).data.len() == 0,
        tx.nonce is None ==> requested(tx).nonce == 0,
        tx.access_list is None ==> requested(tx).access_list.len() == 0,
        tx.blob_versioned_hashes is None ==> requested(tx).blob_hashes.len() == 0,
        requested(tx).max_fee_per_blob_gas == 0,
{
}

/// Two requests that differ in a field that both give make two transactions.
pub proof fn law_no_given_field_is_lost(one: RequestView, two: RequestView)
    requires
        requested(one) == requested(two),
    ensures
        one.tx_type == two.tx_type,
        one.from is Some && two.from is Some ==> one.from == two.from,
        one.kind is Some && two.kind is Some ==> one.kind == two.kind,
        one.gas_limit is Some && two.gas_limit is Some ==> one.gas_limit == two.gas_limit,
        one.gas_price is Some && two.gas_price is Some ==> one.gas_price == two.gas_price,
        one.max_priority_fee_per_gas == two.max_priority_fee_per_gas,
        one.value is Some && two.value is Some ==> one.value == two.value,
        one.input is Some && two.input is Some ==> one.input == two.input,
        one.nonce is Some && two.nonce is Some ==> one.nonce == two.nonce,
        one.chain_id == two.chain_id,
        one.access_list is Some && two.access_list is Some ==> one.access_list == two.access_list,
        one.blob_versioned_hashes is Some && two.blob_versioned_hashes is Some
            ==> one.blob_versioned_hashes == two.blob_versioned_hashes,
{
}

/// What a request and a transaction say are their fields, all of them.
pub proof fn law_views_hold_every_field(request: TransactionRequest, env: TxEnv)
    ensures
        request@.tx_type == request.tx_type,
        request@.from == request.from,
        request@.kind == request.kind,
        request@.gas_limit == request.gas_limit,
        request@.gas_price == request.gas_price,
        request@.max_priority_fee_per_gas == request.max_priority_fee_per_gas,
        request@.value == request.value,
        request.input matches Some(input) ==> request@.input == Some(input.data@),
        request.input is None ==> request@.input is None,
        request@.nonce == request.nonce,
        request@.chain_id == request.chain_id,
        request.access_list matches Some(list) ==> request@.access_list matches Some(seen) && (
        seen.len() == list@.len() && forall|i: int|
            0 <= i < list@.len() ==> (#[trigger] seen[i]).address == list@[i].address
                && seen[i].storage_keys == list@[i].storage_keys@),
        request.access_list is None ==> request@.access_list is None,
        request.blob_versioned_hashes matches Some(hashes) ==> request@.blob_versioned_hashes
            == Some(hashes@),
        request.blob_versioned_hashes is None ==> request@.blob_versioned_hashes is None,
        env@.tx_type == env.tx_type,
        env@.caller == env.caller,
        env@.gas_limit == env.gas_limit,
        env@.gas_price == env.gas_price,
        env@.kind == env.kind,
        env@.value == env.value,
        env@.data == env.data.data@,
        env@.nonce == env.nonce,
        env@.chain_id == env.chain_id,
        env@.access_list.len() == env.access_list@.len(),
        forall|i: int|
            0 <= i < env.access_list@.len() ==> (#[trigger] env@.access_list[i]).address
                == env.access_list@[i].address && env@.access_list[i].storage_keys
                == env.access_list@[i].storage_keys@,
        env@.gas_priority_fee == env.gas_priority_fee,
        env@.max_fee_per_blob_gas == env.max_fee_per_blob_gas,
        env@.blob_hashes == env.blob_hashes@,
{
}

/// The block that a call runs in is that of the header: its number, its time, its beneficiary,
/// its gas limit, its base fee or none, its difficulty and its randomness, and no blob gas is in
/// excess.
pub proof fn law_call_runs_in_the_block_of_the_header(header: Header)
    ensures
        environment(header).number.value() == header.number,
        environment(header).timestamp.value() == header.timestamp,
        environment(header).beneficiary == header.beneficiary,
        environment(header).gas_limit == header.gas_limit,
        header.base_fee_per_gas matches Some(fee) ==> environment(header).basefee == fee,
        header.base_fee_per_gas is None ==> environment(header).basefee == 0,
        environment(header).difficulty == header.difficulty,
        environment(header).prevrandao == header.mix_hash,
        environment(header).blob_excess_gas_and_price matches Some(blob) && blob.excess_blob_gas
            == 0 && blob.blob_gasprice == 1,
{
}

/// The rules are those of the newest upgrade whose time has come, by the name of its time; where
/// none has come they are those of Isthmus.
pub proof fn law_rules_are_of_the_newest_upgrade(s: ForkSchedule, t: u64)
    ensures
        s.isthmus_timestamp <= t ==> active_rules(s.forks(), t) == OpSpecId::ISTHMUS,
        s.holocene_timestamp <= t < s.isthmus_timestamp ==> active_rules(s.forks(), t)
            == OpSpecId::HOLOCENE,
        s.granite_timestamp <= t && t < s.holocene_timestamp && t < s.isthmus_timestamp
            ==> active_rules(s.forks(), t) == OpSpecId::GRANITE,
        s.fjord_timestamp <= t && t < s.granite_timestamp && t < s.holocene_timestamp && t
            < s.isthmus_timestamp ==> active_rules(s.forks(), t) == OpSpecId::FJORD,
        s.ecotone_timestamp <= t && t < s.fjord_timestamp && t < s.granite_timestamp && t
            < s.holocene_timestamp && t < s.isthmus_timestamp ==> active_rules(s.forks(), t)
            == OpSpecId::ECOTONE,
        s.canyon_timestamp <= t && t < s.ecotone_timestamp && t < s.fjord_timestamp && t
            < s.granite_timestamp && t < s.holocene_timestamp && t < s.isthmus_timestamp
            ==> active_rules(s.forks(), t) == OpSpecId::CANYON,
        s.regolith_timestamp <= t && t < s.canyon_timestamp && t < s.ecotone_timestamp && t
            < s.fjord_timestamp && t < s.granite_timestamp && t < s.holocene_timestamp && t
            < s.isthmus_timestamp ==> active_rules(s.forks(), t) == OpSpecId::REGOLITH,
        s.bedrock_timestamp <= t && t < s.regolith_timestamp && t < s.canyon_timestamp && t
            < s.ecotone_timestamp && t < s.fjord_timestamp && t < s.granite_timestamp && t
            < s.holocene_timestamp && t < s.isthmus_timestamp ==> active_rules(s.forks(), t)
            == OpSpecId::BEDROCK,
        t < s.bedrock_timestamp && t < s.regolith_timestamp && t < s.canyon_timestamp && t
            < s.ecotone_timestamp && t < s.fjord_timestamp && t < s.granite_timestamp && t
            < s.holocene_timestamp && t < s.isthmus_timestamp ==> active_rules(s.forks(), t)
            == OpSpecId::ISTHMUS,
{
    crate::evm::lemma_active_rules(s, t);
}

/// The rules rank in the order in which the upgrades came.
pub proof fn law_rules_rank_in_their_order()
    ensures
        OpSpecId::BEDROCK.rank() < OpSpecId::REGOLITH.rank() < OpSpecId::CANYON.rank()
            < OpSpecId::ECOTONE.rank() < OpSpecId::FJORD.rank() < OpSpecId::GRANITE.rank()
            < OpSpecId::HOLOCENE.rank() < OpSpecId::ISTHMUS.rank() < OpSpecId::INTEROP.rank()
            < OpSpecId::OSAKA.rank(),
{
}

/// A run begins with a fetch exactly where state is known to be lacking. After a fetch the
/// machine runs, unless the fetch failed. After a replay the run is over exactly where the replay
/// went through or lacked nothing, and else fetches. Rounds and fetches are counted one by one.
pub proof fn law_run_goes_step_by_step(
    run: TransactRun,
    prefetched: bool,
    succeeded: bool,
    went_through: bool,
    needs_update: bool,
)
    ensures
        TransactRun::begun(prefetched, needs_update).0.iterations == 1,
        TransactRun::begun(prefetched, needs_update).0.fetches == 0,
        TransactRun::begun(prefetched, true).1 is Fetch,
        TransactRun::begun(prefetched, false).1 is Replay,
        run.after_fetch(true).1 is Replay,
        run.after_fetch(false).1 is Fail,
        run.fetches < u32::MAX ==> run.after_fetch(succeeded).0.fetches == run.fetches + 1,
        run.after_fetch(succeeded).0.iterations == run.iterations,
        run.after_replay(went_through, needs_update).1 is Finish <==> went_through || !needs_update,
        run.after_replay(went_through, needs_update).1 is Fetch <==> !went_through && needs_update,
        run.after_replay(went_through, needs_update).0.fetches == run.fetches,
        went_through || !needs_update ==> run.after_replay(
            went_through,
            needs_update,
        ).0.iterations == run.iterations,
        !went_through && needs_update && run.iterations < u32::MAX ==> run.after_replay(
            went_through,
            needs_update,
        ).0.iterations == run.iterations + 1,
{
}

/// Each step stands for its own phase.
pub proof fn law_steps_are_told_apart(step: TransactStep)
    ensures
        step.phase() is Fetch <==> step is Fetch,
        step.phase() is Replay <==> step is Replay,
        step.phase() is Finish <==> step is Finish,
        step.phase() is Fail <==> step is Fail,
{
}

} // verus!
