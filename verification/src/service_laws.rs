//! What the servers and clients do with what comes in, case by case.
use crate::client_settings::{api_settings, CONNECTION_WINDOW, KEEP_WARM_GAP_SECS, STREAM_WINDOW};
use crate::metrics::{class_of, label_of, observed, Observation};
use crate::poller::{
    latest_url, takes_after, Probe, ProbeStep, ProbeView, NO_PROGRESS_BACKOFF_MILLIS,
    POLL_TIMEOUT_SECS, PROBE_ATTEMPTS, PROBE_GAP_SECS, PROBE_TIMEOUT_SECS,
};
use crate::server::{
    applied, is_newer, latest_step, CommitmentView, LatestStep, LatestStepView,
    SequencerCommitment, ServerState, HOLD_MAX_SECS,
};
use crate::telemetry::{telemetry_plan, TelemetryPlan, TelemetryPlanView};
use crate::text::digits;
use crate::trace::{attempt_kind, header_text, is_name, is_value, lower, with_fields, Field};
use crate::urls::{joined_url, joined_url_with_pair};
use vstd::prelude::*;
use vstd::utf8::encode_utf8;

verus! {

/// Where a text stands at the end of a path.
pub open spec fn is_at_the_end(path: Seq<char>, part: Seq<char>) -> bool {
    exists|before: Seq<char>| path == #[trigger] (before + part)
}

/// Where a text stands in a path.
pub open spec fn is_within(path: Seq<char>, part: Seq<char>) -> bool {
    exists|before: Seq<char>, after: Seq<char>| path == #[trigger] (before + part + after)
}

proof fn lemma_parts(path: Seq<char>, part: Seq<char>)
    ensures
        crate::text::ends_with(path, part) == is_at_the_end(path, part),
        crate::text::contains(path, part) == is_within(path, part),
{
    if crate::text::ends_with(path, part) {
        let before = path.take(path.len() - part.len());
        assert(path =~= before + part);
    }
    if is_at_the_end(path, part) {
        let before = choose|before: Seq<char>| path == #[trigger] (before + part);
        assert(path.subrange(path.len() - part.len(), path.len() as int) =~= part);
    }
    if crate::text::contains(path, part) {
        let at = choose|at: int| crate::text::stands_at(path, part, at);
        let before = path.take(at);
        let after = path.skip(at + part.len());
        assert(path =~= before + part + after);
    }
    if is_within(path, part) {
        let (before, after) = choose|before: Seq<char>, after: Seq<char>|
            path == #[trigger] (before + part + after);
        assert(path.subrange(before.len() as int, (before.len() + part.len()) as int) =~= part);
        assert(crate::text::stands_at(path, part, before.len() as int));
    }
}

/// A path is counted under the first of these that it shows: the end of a hint, an account, a
/// receipt, a transaction or logs among the proofs, a block, the end of a chain id, of a
/// transaction handed in or of a ping; and else under the rest.
pub proof fn law_path_is_counted_under_what_it_shows(path: Seq<char>)
    ensures
        ({
            let label = label_of(path);
            if is_at_the_end(path, "/getExecutionHint"@) {
                label == "getExecutionHint"
            } else if is_within(path, "/proof/account/"@) {
                label == "proof/account"
            } else if is_within(path, "/proof/receipt/"@) {
                label == "proof/receipt"
            } else if is_within(path, "/proof/transaction/"@) {
                label == "proof/transaction"
            } else if is_within(path, "/proof/logs"@) {
                label == "proof/logs"
            } else if is_within(path, "/block/"@) {
                label == "block"
            } else if is_at_the_end(path, "/chainId"@) {
                label == "chainId"
            } else if is_at_the_end(path, "/sendRawTransaction"@) {
                label == "sendRawTransaction"
            } else if is_at_the_end(path, "/ping"@) {
                label == "ping"
            } else {
                label == "other"
            }
        }),
{
    lemma_parts(path, "/getExecutionHint"@);
    lemma_parts(path, "/proof/account/"@);
    lemma_parts(path, "/proof/receipt/"@);
    lemma_parts(path, "/proof/transaction/"@);
    lemma_parts(path, "/proof/logs"@);
    lemma_parts(path, "/block/"@);
    lemma_parts(path, "/chainId"@);
    lemma_parts(path, "/sendRawTransaction"@);
    lemma_parts(path, "/ping"@);
}

/// An attempt is of the kind that its method and path show.
pub proof fn law_attempt_is_of_the_kind_it_shows(method: Seq<char>, path: Seq<char>)
    ensures
        method == "HEAD"@ ==> attempt_kind(method, path) == "keepalive",
        method != "HEAD"@ && is_at_the_end(path, "/getExecutionHint"@) ==> attempt_kind(
            method,
            path,
        ) == "hint",
        method != "HEAD"@ && !is_at_the_end(path, "/getExecutionHint"@) && is_within(
            path,
            "/proof/"@,
        ) ==> attempt_kind(method, path) == "proof",
        method != "HEAD"@ && !is_at_the_end(path, "/getExecutionHint"@) && !is_within(
            path,
            "/proof/"@,
        ) ==> attempt_kind(method, path) == "other",
{
    lemma_parts(path, "/getExecutionHint"@);
    lemma_parts(path, "/proof/"@);
}

/// The class of a status is its hundred, from the second to the fourth; all else is a failure of
/// the server.
pub proof fn law_status_is_of_its_hundred(status: u16)
    ensures
        status / 100 == 2 ==> class_of(status) == "2xx",
        status / 100 == 3 ==> class_of(status) == "3xx",
        status / 100 == 4 ==> class_of(status) == "4xx",
        status / 100 != 2 && status / 100 != 3 && status / 100 != 4 ==> class_of(status) == "5xx",
{
}

/// A response with a body adds its duration and itself under its route and class, and the cost
/// and the size of its body under its route; one without adds only itself, as a failure.
pub proof fn law_response_adds_what_it_was(path: Seq<char>, status: u16, bytes: usize)
    ensures
        ({
            let all = observed(path, status, Some(bytes));
            &&& all.len() == 4
            &&& all[0] == (Observation::RequestDuration {
                path: label_of(path),
                status: class_of(status),
            })
            &&& all[1] == (Observation::EncodeDuration { path: label_of(path) })
            &&& all[2] == (Observation::ResponseBytes { path: label_of(path), bytes })
            &&& all[3] == (Observation::RequestsTotal {
                path: label_of(path),
                status: class_of(status),
            })
        }),
        ({
            let all = observed(path, status, None);
            &&& all.len() == 1
            &&& all[0] == (Observation::RequestsTotal { path: label_of(path), status: "5xx" })
        }),
{
}

/// A commitment becomes the head exactly where its block can be read and is newer than the
/// head's, or there is no head.
pub proof fn law_newer_commitment_becomes_the_head(
    head: Option<(CommitmentView, u64)>,
    commitment: CommitmentView,
    block_number: Option<u64>,
)
    ensures
        block_number is None ==> applied(head, commitment, block_number) == head,
        block_number matches Some(n) ==> match head {
            None => applied(head, commitment, block_number) == Some((commitment, n)) && is_newer(
                head,
                n,
            ),
            Some(h) => if n > h.1 {
                applied(head, commitment, block_number) == Some((commitment, n)) && is_newer(
                    head,
                    n,
                )
            } else {
                applied(head, commitment, block_number) == head && !is_newer(head, n)
            },
        },
{
}

/// A request without a block is answered at once with the head's commitment, if there is one. A
/// request with a block is answered with it only where its block is newer, and waits else.
pub proof fn law_request_is_answered_or_waits(
    commitment: CommitmentView,
    number: u64,
    after: u64,
)
    ensures
        latest_step(None, None) == LatestStepView::Answer(None),
        latest_step(Some((commitment, number)), None) == LatestStepView::Answer(Some(commitment)),
        latest_step(None, Some(after)) is Wait,
        number > after ==> latest_step(Some((commitment, number)), Some(after))
            == LatestStepView::Answer(Some(commitment)),
        number <= after ==> latest_step(Some((commitment, number)), Some(after)) is Wait,
{
}

/// What commitments and the server's steps say are their fields, all of them.
pub proof fn law_server_views_hold_every_field(
    commitment: SequencerCommitment,
    state: ServerState,
    step: LatestStep,
)
    ensures
        commitment@.data == commitment.data.data@,
        commitment@.signature == commitment.signature.data@,
        match state.latest_commitment {
            Some((c, n)) => state@ == Some((c@, n)),
            None => state@ is None,
        },
        match step {
            LatestStep::Wait => step@ is Wait,
            LatestStep::Answer(Some(c)) => step@ == LatestStepView::Answer(Some(c@)),
            LatestStep::Answer(None) => step@ == LatestStepView::Answer(None),
        },
{
}

/// The next step of a probing: the first replica from where it stands that is not admitted;
/// where none is left in the round, the end, if all are admitted or this was the last round, or
/// else a pause and the next round from its beginning.
pub proof fn law_probing_goes_step_by_step(probe: ProbeView)
    requires
        probe.wf(),
    ensures
        ({
            let (after, step) = probe.stepped();
            &&& after.urls == probe.urls && after.chain_id == probe.chain_id && after.admitted
                == probe.admitted
            &&& match step {
                ProbeStep::Ask(at) => {
                    &&& after.next < probe.urls.len()
                    &&& probe.urls.len() <= usize::MAX ==> at == after.next
                    &&& after.attempt == probe.attempt
                    &&& probe.next <= after.next
                    &&& !probe.admitted.contains(probe.urls[after.next as int])
                    &&& forall|i: int|
                        probe.next <= i < after.next ==> probe.admitted.contains(
                            #[trigger] probe.urls[i],
                        )
                },
                ProbeStep::Pause => {
                    &&& after.next == 0
                    &&& after.attempt == probe.attempt + 1
                    &&& probe.attempt < 10
                    &&& probe.admitted.len() != probe.urls.len()
                    &&& forall|i: int|
                        probe.next <= i < probe.urls.len() ==> probe.admitted.contains(
                            #[trigger] probe.urls[i],
                        )
                },
                ProbeStep::Done => {
                    &&& probe.admitted.len() == probe.urls.len() || probe.attempt >= 10
                    &&& forall|i: int|
                        probe.next <= i < probe.urls.len() ==> probe.admitted.contains(
                            #[trigger] probe.urls[i],
                        )
                },
            }
        }),
{
    crate::poller_laws::lemma_next_open(probe);
}

/// A replica is admitted exactly where it answers with the chain id; either way the next one is
/// up.
pub proof fn law_right_answer_admits(probe: ProbeView, answer: Option<u64>)
    ensures
        answer == Some(probe.chain_id) ==> probe.answered(answer).admitted == probe.admitted.push(
            probe.urls[probe.next as int],
        ),
        answer != Some(probe.chain_id) ==> probe.answered(answer).admitted == probe.admitted,
        probe.answered(answer).next == probe.next + 1,
        probe.answered(answer).attempt == probe.attempt,
        probe.answered(answer).urls == probe.urls,
        probe.answered(answer).chain_id == probe.chain_id,
{
}

/// What a probing says are its fields, all of them.
pub proof fn law_probe_view_holds_every_field(probe: Probe)
    ensures
        probe@.urls.len() == probe.urls@.len(),
        forall|i: int| 0 <= i < probe.urls@.len() ==> (#[trigger] probe@.urls[i]) == probe.urls@[i]@,
        probe@.admitted.len() == probe.admitted@.len(),
        forall|i: int|
            0 <= i < probe.admitted@.len() ==> (#[trigger] probe@.admitted[i])
                == probe.admitted@[i]@,
        probe@.chain_id == probe.chain_id,
        probe@.attempt == probe.attempt,
        probe@.next == probe.next,
{
}

/// The newest commitment of a replica is asked for below its URL, with the number of the block
/// that is there already, in decimal, where there is one; only then must the URL leave room for
/// a query.
pub proof fn law_poll_names_the_head(base: Seq<char>, number: u64)
    ensures
        latest_url(base, None) == joined_url(base, "latest"@),
        latest_url(base, Some(number)) == joined_url_with_pair(
            base,
            "latest"@,
            "after"@,
            digits(number as nat, 10),
        ),
        takes_after(base, None),
        takes_after(base, Some(number)) <==> (joined_url(base, "latest"@) matches Ok(url)
            ==> encode_utf8(url).len() <= 0xffff_ffff),
{
}

/// The times and counts that the services go by.
pub proof fn law_services_keep_their_times()
    ensures
        HOLD_MAX_SECS == 60,
        POLL_TIMEOUT_SECS == 65,
        PROBE_TIMEOUT_SECS == 5,
        PROBE_ATTEMPTS == 10,
        PROBE_GAP_SECS == 3,
        NO_PROGRESS_BACKOFF_MILLIS == 200,
        KEEP_WARM_GAP_SECS == 10,
        STREAM_WINDOW == 8 * 1024 * 1024,
        CONNECTION_WINDOW == 32 * 1024 * 1024,
{
}

/// The connections of a client, one setting after the other.
pub proof fn law_connections_are_kept_warm(http1_only: bool)
    ensures
        ({
            let settings = api_settings(http1_only);
            &&& settings.pool_max_idle_per_host == 30
            &&& settings.pool_idle_timeout is None
            &&& settings.tcp_keepalive == 30
            &&& settings.tcp_nodelay
            &&& settings.http2_keep_alive_interval == 30
            &&& settings.http2_keep_alive_timeout == 30
            &&& settings.http2_keep_alive_while_idle
            &&& settings.http2_stream_window == Some(8388608u32)
            &&& settings.http2_connection_window == Some(33554432u32)
            &&& settings.http1_only == http1_only
            &&& settings.brotli
            &&& settings.hickory_dns
        }),
{
}

/// Traces go to the endpoint, where one is set, under the name of the service and, where one is
/// set, of the environment.
pub proof fn law_traces_go_to_the_endpoint(
    service_name: Seq<char>,
    endpoint: Seq<char>,
    environment: Seq<char>,
)
    ensures
        telemetry_plan(service_name, None, None) is LogOnly,
        telemetry_plan(service_name, None, Some(environment)) is LogOnly,
        match telemetry_plan(service_name, Some(endpoint), None) {
            TelemetryPlanView::Export { endpoint: to, attributes } => {
                &&& to == endpoint
                &&& attributes.len() == 1
                &&& attributes[0] == ("service.name"@, service_name)
            },
            TelemetryPlanView::LogOnly => false,
        },
        match telemetry_plan(service_name, Some(endpoint), Some(environment)) {
            TelemetryPlanView::Export { endpoint: to, attributes } => {
                &&& to == endpoint
                &&& attributes.len() == 2
                &&& attributes[0] == ("service.name"@, service_name)
                &&& attributes[1] == ("deployment.environment"@, environment)
            },
            TelemetryPlanView::LogOnly => false,
        },
{
}

/// What a plan says is its endpoint and its attributes.
pub proof fn law_plan_view_holds_every_field(plan: TelemetryPlan)
    ensures
        match plan {
            TelemetryPlan::LogOnly => plan@ is LogOnly,
            TelemetryPlan::Export { endpoint, attributes } => match plan@ {
                TelemetryPlanView::Export { endpoint: to, attributes: under } => {
                    &&& to == endpoint@
                    &&& under.len() == attributes@.len()
                    &&& forall|i: int|
                        0 <= i < attributes@.len() ==> (#[trigger] under[i]).0 == attributes@[i].0@
                            && under[i].1 == attributes@[i].1@
                },
                TelemetryPlanView::LogOnly => false,
            },
        },
{
}

/// The last field of a trace context stands in the headers under its name in lower case, with
/// its value alone, where both can stand in a header; where they cannot it is passed over.
pub proof fn law_last_field_stands(
    headers: Map<Seq<char>, Seq<Seq<u8>>>,
    fields: Seq<Field>,
    field: Field,
)
    ensures
        with_fields(headers, Seq::empty()) == headers,
        is_name(field.0@) && is_value(field.1@) ==> with_fields(headers, fields.push(field))
            == with_fields(headers, fields).insert(lower(field.0@), seq![encode_utf8(field.1@)]),
        !is_name(field.0@) || !is_value(field.1@) ==> with_fields(headers, fields.push(field))
            == with_fields(headers, fields),
{
    assert(fields.push(field).drop_last() =~= fields);
}

/// A header is read as the first of its values, in whatever case it is asked for, where that is
/// visible text.
pub proof fn law_first_value_is_read(headers: Map<Seq<char>, Seq<Seq<u8>>>, key: Seq<char>)
    ensures
        header_text(headers, key) matches Some(text) ==> headers.contains_key(lower(key)) && text
            == headers[lower(key)][0],
        is_name(key) && headers.contains_key(lower(key)) && (forall|i: int|
            0 <= i < headers[lower(key)][0].len() ==> 32 <= #[trigger] headers[lower(key)][0][i]
                < 127) ==> header_text(headers, key) is Some,
        !headers.contains_key(lower(key)) ==> header_text(headers, key) is None,
{
}

} // verus!
