//! Labels of the server's metrics, and what one answer adds to them.
use crate::text::{chars_of, contains, ends_with, text_contains, text_ends_with};
use vstd::prelude::*;

verus! {

/// The label of a path: its route, so that addresses and hashes do not become labels.
pub open spec fn label_of(path: Seq<char>) -> &'static str {
    if ends_with(path, "/getExecutionHint"@) {
        "getExecutionHint"
    } else if contains(path, "/proof/account/"@) {
        "proof/account"
    } else if contains(path, "/proof/receipt/"@) {
        "proof/receipt"
    } else if contains(path, "/proof/transaction/"@) {
        "proof/transaction"
    } else if contains(path, "/proof/logs"@) {
        "proof/logs"
    } else if contains(path, "/block/"@) {
        "block"
    } else if ends_with(path, "/chainId"@) {
        "chainId"
    } else if ends_with(path, "/sendRawTransaction"@) {
        "sendRawTransaction"
    } else if ends_with(path, "/ping"@) {
        "ping"
    } else {
        "other"
    }
}

/// The label of a path: its route, so that addresses and hashes do not become labels.
pub fn route_label(path: &str) -> (label: &'static str)
    ensures
        label == label_of(path@),
{
    let chars = chars_of(path);
    if text_ends_with(&chars, "/getExecutionHint") {
        "getExecutionHint"
    } else if text_contains(&chars, "/proof/account/") {
        "proof/account"
    } else if text_contains(&chars, "/proof/receipt/") {
        "proof/receipt"
    } else if text_contains(&chars, "/proof/transaction/") {
        "proof/transaction"
    } else if text_contains(&chars, "/proof/logs") {
        "proof/logs"
    } else if text_contains(&chars, "/block/") {
        "block"
    } else if text_ends_with(&chars, "/chainId") {
        "chainId"
    } else if text_ends_with(&chars, "/sendRawTransaction") {
        "sendRawTransaction"
    } else if text_ends_with(&chars, "/ping") {
        "ping"
    } else {
        "other"
    }
}

/// The class of a status: all that is neither a success, a redirection nor a client error
/// counts as a server error.
pub open spec fn class_of(status: u16) -> &'static str {
    if 200 <= status <= 299 {
        "2xx"
    } else if 300 <= status <= 399 {
        "3xx"
    } else if 400 <= status <= 499 {
        "4xx"
    } else {
        "5xx"
    }
}

/// The class of a status.
pub fn status_label(status: u16) -> (label: &'static str)
    ensures
        label == class_of(status),
{
    if status >= 200 && status <= 299 {
        "2xx"
    } else if status >= 300 && status <= 399 {
        "3xx"
    } else if status >= 400 && status <= 499 {
        "4xx"
    } else {
        "5xx"
    }
}

/// What is added to the metrics. A route and a class of status are the labels.
#[derive(Clone, Copy, Debug)]
pub enum Observation {
    /// The time from the request to the end of the encoding.
    RequestDuration { path: &'static str, status: &'static str },
    /// The time that the encoding of the body took.
    EncodeDuration { path: &'static str },
    /// The size of the body as it is sent.
    ResponseBytes { path: &'static str, bytes: usize },
    /// One more request.
    RequestsTotal { path: &'static str, status: &'static str },
}

/// What a response adds to the metrics: `body` is the size of its encoded body, if it could be
/// encoded. One that could not counts as a failure of the server, whatever its status, and only
/// counts.
pub open spec fn observed(path: Seq<char>, status: u16, body: Option<usize>) -> Seq<Observation> {
    let route = label_of(path);
    match body {
        Some(bytes) => seq![
            Observation::RequestDuration { path: route, status: class_of(status) },
            Observation::EncodeDuration { path: route },
            Observation::ResponseBytes { path: route, bytes },
            Observation::RequestsTotal { path: route, status: class_of(status) },
        ],
        None => seq![Observation::RequestsTotal { path: route, status: "5xx" }],
    }
}

/// What a response adds to the metrics.
pub fn observations(path: &str, status: u16, body: Option<usize>) -> (r: Vec<Observation>)
    ensures
        r@ == observed(path@, status, body),
{
    let route = route_label(path);
    let r: Vec<Observation> = match body {
        Some(bytes) => {
            let class = status_label(status);
            vec![
                Observation::RequestDuration { path: route, status: class },
                Observation::EncodeDuration { path: route },
                Observation::ResponseBytes { path: route, bytes },
                Observation::RequestsTotal { path: route, status: class },
            ]
        },
        None => vec![Observation::RequestsTotal { path: route, status: "5xx" }],
    };
    assert(r@ =~= observed(path@, status, body));
    r
}

/// Every response is counted once: the last thing it adds is one more request, under its
/// route, and it adds no other.
pub proof fn law_every_response_is_counted_once(path: Seq<char>, status: u16, body: Option<usize>)
    ensures
        ({
            let all = observed(path, status, body);
            &&& all.len() > 0
            &&& all.last() is RequestsTotal
            &&& all.last()->RequestsTotal_path == label_of(path)
            &&& forall|i: int| 0 <= i < all.len() - 1 ==> !((#[trigger] all[i]) is RequestsTotal)
        }),
{
}

} // verus!
