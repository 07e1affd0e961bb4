use helios_execution::api_client::Method;
use helios_execution::error::ProviderError;
use helios_execution::metrics::{observations, route_label, status_label, Observation};
use helios_execution::poller::{
    accept_commitment, chain_id_endpoint, latest_endpoint, pause_after_poll, try_latest_endpoint,
    Probe, ProbeStep, POLL_TIMEOUT_SECS,
};
use helios_execution::primitives::Bytes;
use helios_execution::router::{build_router, server_layers, Handler, ServerLayer};
use helios_execution::server::{
    latest_gave_up, latest_handler, LatestStep, SequencerCommitment, ServerState, HOLD_MAX_SECS,
};
use helios_execution::telemetry::{plan_telemetry, RequestSpan, TelemetryPlan};

fn commitment(byte: u8) -> SequencerCommitment {
    SequencerCommitment {
        data: Bytes { data: vec![byte] },
        signature: Bytes { data: vec![byte, byte] },
    }
}

#[test]
fn head_only_advances() {
    let mut state = ServerState::new();
    let (stored, number) = state.apply(commitment(1), Some(5)).unwrap();
    assert_eq!((stored.data.data, number), (vec![1], 5));
    assert!(state.apply(commitment(2), Some(5)).is_none());
    assert!(state.apply(commitment(3), Some(4)).is_none());
    assert!(state.apply(commitment(4), None).is_none());
    assert_eq!(state.latest_commitment.as_ref().unwrap().0.data.data, vec![1]);
    assert!(!state.is_latest_commitment(5));
    assert!(state.is_latest_commitment(6));
    assert!(state.apply(commitment(6), Some(6)).is_some());
    assert_eq!(state.latest_commitment.as_ref().unwrap().1, 6);
}

#[test]
fn first_commitment_may_be_to_block_zero() {
    let mut state = ServerState::new();
    assert!(state.is_latest_commitment(0));
    assert!(state.apply(commitment(1), Some(0)).is_some());
}

#[test]
fn request_without_a_block_is_answered_at_once() {
    assert!(matches!(latest_handler(&None, None), LatestStep::Answer(None)));
    match latest_handler(&Some((commitment(1), 5)), None) {
        LatestStep::Answer(Some(c)) => assert_eq!(c.signature.data, vec![1, 1]),
        other => panic!("{other:?}"),
    }
}

#[test]
fn request_with_a_block_waits_for_a_newer_one() {
    assert!(matches!(latest_handler(&None, Some(0)), LatestStep::Wait));
    assert!(matches!(latest_handler(&Some((commitment(1), 5)), Some(5)), LatestStep::Wait));
    match latest_handler(&Some((commitment(1), 6)), Some(5)) {
        LatestStep::Answer(Some(c)) => assert_eq!(c.data.data, vec![1]),
        other => panic!("{other:?}"),
    }
    assert!(latest_gave_up(&None).is_none());
    assert_eq!(latest_gave_up(&Some((commitment(7), 1))).unwrap().data.data, vec![7]);
}

#[test]
fn poll_outlasts_hold() {
    assert_eq!(HOLD_MAX_SECS, 60);
    assert_eq!(POLL_TIMEOUT_SECS, 65);
}

fn urls(list: &[&str]) -> Vec<String> {
    list.iter().map(|u| u.to_string()).collect()
}

#[test]
fn replicas_on_the_chain_are_admitted() {
    let mut probe = Probe::new(urls(&["a", "b"]), 10);
    assert_eq!(probe.step(), ProbeStep::Ask(0));
    probe.answered(&Ok(10));
    assert_eq!(probe.step(), ProbeStep::Ask(1));
    probe.answered(&Ok(10));
    assert_eq!(probe.step(), ProbeStep::Done);
    assert_eq!(probe.admitted, urls(&["a", "b"]));
}

#[test]
fn late_replica_is_admitted_and_wrong_chain_is_not() {
    let mut probe = Probe::new(urls(&["a", "b"]), 10);
    let mut pauses = 0;
    let mut asked = Vec::new();
    loop {
        match probe.step() {
            ProbeStep::Ask(0) => {
                asked.push((probe.attempt, 0));
                if probe.attempt == 3 {
                    probe.answered(&Ok(10));
                } else {
                    probe.answered(&Err(ProviderError::Reported("down".to_string())));
                }
            }
            ProbeStep::Ask(_) => {
                asked.push((probe.attempt, 1));
                probe.answered(&Ok(11));
            }
            ProbeStep::Pause => pauses += 1,
            ProbeStep::Done => break,
        }
    }
    assert_eq!(probe.admitted, urls(&["a"]));
    assert_eq!(pauses, 9);
    assert_eq!(asked.iter().filter(|(_, at)| *at == 0).count(), 3);
    assert_eq!(asked.iter().filter(|(_, at)| *at == 1).count(), 10);
}

#[test]
fn no_replicas_need_no_probe() {
    assert_eq!(Probe::new(vec![], 10).step(), ProbeStep::Done);
}

#[test]
fn poll_without_progress_pauses() {
    assert_eq!(pause_after_poll(true, Some(1), Some(2)), Some(200));
    assert_eq!(pause_after_poll(false, Some(1), Some(1)), Some(200));
    assert_eq!(pause_after_poll(false, None, None), Some(200));
    assert_eq!(pause_after_poll(false, None, Some(1)), None);
    assert_eq!(pause_after_poll(false, Some(1), Some(2)), None);
}

#[test]
fn only_verified_commitments_pass() {
    assert!(accept_commitment(commitment(1), false).is_none());
    assert_eq!(accept_commitment(commitment(1), true).unwrap().data.data, vec![1]);
}

#[test]
fn replica_endpoints() {
    let base = "http://replica.example.org:8000/op/";
    assert_eq!(
        latest_endpoint(base, None).unwrap(),
        "http://replica.example.org:8000/op/latest"
    );
    assert_eq!(
        latest_endpoint(base, Some(120)).unwrap(),
        "http://replica.example.org:8000/op/latest?after=120"
    );
    assert_eq!(
        try_latest_endpoint(base, Some(u64::MAX)).unwrap().unwrap(),
        "http://replica.example.org:8000/op/latest?after=18446744073709551615"
    );
    assert_eq!(
        latest_endpoint("http://h/a?b=c#d", Some(0)).unwrap(),
        "http://h/latest?after=0"
    );
    // However long a URL is, it takes the block.
    let long = format!("http://h/{}/", "a".repeat(1_000_000));
    assert_eq!(
        try_latest_endpoint(&long, Some(7)).unwrap().unwrap(),
        format!("{long}latest?after=7")
    );
    assert_eq!(
        chain_id_endpoint(base).unwrap(),
        "http://replica.example.org:8000/op/chain_id"
    );
    assert!(chain_id_endpoint("not a url").is_err());
    assert!(latest_endpoint("not a url", None).is_err());
    assert!(latest_endpoint("not a url", Some(1)).is_err());
    assert!(try_latest_endpoint("not a url", Some(1)).unwrap().is_err());
    assert!(latest_endpoint("mailto:someone@example.org", Some(1)).is_err());
}

#[test]
fn paths_have_labels() {
    let cases = [
        ("/eth/v1/proof/getExecutionHint", "getExecutionHint"),
        ("/eth/v1/proof/account/0xabc", "proof/account"),
        ("/eth/v1/proof/receipt/0xabc", "proof/receipt"),
        ("/eth/v1/proof/transaction/0xabc", "proof/transaction"),
        ("/eth/v1/proof/transaction/latest/4", "proof/transaction"),
        ("/eth/v1/proof/logs", "proof/logs"),
        ("/eth/v1/block/latest", "block"),
        ("/eth/v1/block/0x1/receipts", "block"),
        ("/eth/v1/chainId", "chainId"),
        ("/eth/v1/sendRawTransaction", "sendRawTransaction"),
        ("/eth/v1/block/proof/receipts", "block"),
        ("/eth/v1/proof/transaction/proof/account", "proof/transaction"),
        ("/eth/v1/proof/account/getExecutionHint", "getExecutionHint"),
        ("/ping", "ping"),
        ("/metrics", "other"),
        ("", "other"),
    ];
    for (path, label) in cases {
        assert_eq!(route_label(path), label);
    }
}

#[test]
fn statuses_have_classes() {
    let cases = [
        (200, "2xx"),
        (299, "2xx"),
        (300, "3xx"),
        (399, "3xx"),
        (400, "4xx"),
        (499, "4xx"),
        (500, "5xx"),
        (199, "5xx"),
        (0, "5xx"),
    ];
    for (status, class) in cases {
        assert_eq!(status_label(status), class);
    }
}

#[test]
fn response_is_observed() {
    let all = observations("/eth/v1/chainId", 404, Some(12));
    assert_eq!(all.len(), 4);
    assert!(matches!(
        all[0],
        Observation::RequestDuration { path: "chainId", status: "4xx" }
    ));
    assert!(matches!(all[1], Observation::EncodeDuration { path: "chainId" }));
    assert!(matches!(all[2], Observation::ResponseBytes { path: "chainId", bytes: 12 }));
    assert!(matches!(
        all[3],
        Observation::RequestsTotal { path: "chainId", status: "4xx" }
    ));
}

#[test]
fn response_that_could_not_be_encoded_only_counts() {
    let all = observations("/ping", 200, None);
    assert_eq!(all.len(), 1);
    assert!(matches!(all[0], Observation::RequestsTotal { path: "ping", status: "5xx" }));
}

#[test]
fn traces_are_exported_where_an_endpoint_is_set() {
    assert!(matches!(
        plan_telemetry("verifiable-api", None, Some("prod".to_string())),
        TelemetryPlan::LogOnly
    ));
    let endpoint = Some("http://collector:4317".to_string());
    match plan_telemetry("verifiable-api", endpoint.clone(), Some("prod".to_string())) {
        TelemetryPlan::Export { endpoint, attributes } => {
            assert_eq!(endpoint, "http://collector:4317");
            assert_eq!(
                attributes,
                vec![
                    ("service.name".to_string(), "verifiable-api".to_string()),
                    ("deployment.environment".to_string(), "prod".to_string()),
                ]
            );
        }
        other => panic!("{other:?}"),
    }
    match plan_telemetry("verifiable-api", endpoint, None) {
        TelemetryPlan::Export { attributes, .. } => assert_eq!(attributes.len(), 1),
        other => panic!("{other:?}"),
    }
}

#[test]
fn span_of_a_request() {
    let mut span = RequestSpan::begin("GET", "/ping", true, "4bf9");
    assert_eq!((span.method.as_str(), span.path.as_str()), ("GET", "/ping"));
    assert_eq!(span.trace_id.as_deref(), Some("4bf9"));
    span.end(503);
    assert_eq!(span.status, Some(503));
    assert_eq!(span.path, "/ping");
    assert_eq!(RequestSpan::begin("GET", "/ping", false, "0000").trace_id, None);
}

#[test]
fn routes_of_the_server() {
    let routes = build_router();
    let found: Vec<(Method, String)> = routes.iter().map(|r| (r.method, r.template())).collect();
    let expected = [
        (Method::Get, "/openapi.yaml"),
        (Method::Get, "/ping"),
        (Method::Get, "/metrics"),
        (Method::Get, "/eth/v1/proof/account/{address}"),
        (Method::Get, "/eth/v1/proof/transaction/{txHash}"),
        (Method::Get, "/eth/v1/proof/transaction/{blockId}/{index}"),
        (Method::Get, "/eth/v1/proof/receipt/{txHash}"),
        (Method::Get, "/eth/v1/proof/logs"),
        (Method::Post, "/eth/v1/proof/getExecutionHint"),
        (Method::Get, "/eth/v1/chainId"),
        (Method::Get, "/eth/v1/block/{blockId}"),
        (Method::Get, "/eth/v1/block/{blockId}/receipts"),
        (Method::Post, "/eth/v1/sendRawTransaction"),
    ];
    assert_eq!(found.len(), expected.len());
    for (one, two) in found.iter().zip(expected) {
        assert_eq!((one.0, one.1.as_str()), two);
    }
    assert_eq!(routes[8].handler, Handler::GetExecutionHint);
    assert_eq!(
        server_layers(),
        vec![
            ServerLayer::Compression,
            ServerLayer::ResponseTiming,
            ServerLayer::TraceContext,
            ServerLayer::RequestLog,
        ]
    );
}
