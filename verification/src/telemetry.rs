//! Whether and where traces are exported, and what the span of a request says.
use vstd::prelude::*;
use vstd::string::*;

verus! {

/// How the server reports on itself.
#[derive(Debug)]
pub enum TelemetryPlan {
    /// By its log only.
    LogOnly,
    /// By its log, and by traces that go to a collector under these attributes.
    Export { endpoint: String, attributes: Vec<(String, String)> },
}

/// What a plan says.
pub ghost enum TelemetryPlanView {
    LogOnly,
    Export { endpoint: Seq<char>, attributes: Seq<(Seq<char>, Seq<char>)> },
}

/// What a list of attributes says.
pub open spec fn attributes_view(attributes: Seq<(String, String)>) -> Seq<(Seq<char>, Seq<char>)> {
    attributes.map_values(|a: (String, String)| (a.0@, a.1@))
}

impl View for TelemetryPlan {
    type V = TelemetryPlanView;

    open spec fn view(&self) -> TelemetryPlanView {
        match self {
            TelemetryPlan::LogOnly => TelemetryPlanView::LogOnly,
            TelemetryPlan::Export { endpoint, attributes } => TelemetryPlanView::Export {
                endpoint: endpoint@,
                attributes: attributes_view(attributes@),
            },
        }
    }
}

/// What a text, if there is one, says.
pub open spec fn option_text(text: Option<String>) -> Option<Seq<char>> {
    match text {
        Some(text) => Some(text@),
        None => None,
    }
}

/// Traces are exported where an endpoint is set; they name the service and, where it is set,
/// the environment that it is deployed in.
pub open spec fn telemetry_plan(
    service_name: Seq<char>,
    endpoint: Option<Seq<char>>,
    environment: Option<Seq<char>>,
) -> TelemetryPlanView {
    match endpoint {
        None => TelemetryPlanView::LogOnly,
        Some(endpoint) => TelemetryPlanView::Export {
            endpoint,
            attributes: match environment {
                Some(environment) => seq![
                    ("service.name"@, service_name),
                    ("deployment.environment"@, environment),
                ],
                None => seq![("service.name"@, service_name)],
            },
        },
    }
}

/// How the server reports on itself.
pub fn plan_telemetry(
    service_name: &str,
    endpoint: Option<String>,
    environment: Option<String>,
) -> (r: TelemetryPlan)
    ensures
        r@ == telemetry_plan(service_name@, option_text(endpoint), option_text(environment)),
{
    let endpoint = match endpoint {
        Some(endpoint) => endpoint,
        None => {
            return TelemetryPlan::LogOnly;
        },
    };
    let mut attributes: Vec<(String, String)> = Vec::new();
    attributes.push(("service.name".to_owned(), service_name.to_owned()));
    if let Some(environment) = environment {
        attributes.push(("deployment.environment".to_owned(), environment));
        assert(attributes_view(attributes@) =~= seq![
            ("service.name"@, service_name@),
            ("deployment.environment"@, environment@),
        ]);
    } else {
        assert(attributes_view(attributes@) =~= seq![("service.name"@, service_name@)]);
    }
    TelemetryPlan::Export { endpoint, attributes }
}

/// The span of a request: what was asked for, the trace that it belongs to, so that log lines
/// can be joined to it, and the status of the answer once there is one.
#[derive(Debug)]
pub struct RequestSpan {
    pub method: String,
    pub path: String,
    pub trace_id: Option<String>,
    pub status: Option<u16>,
}

impl RequestSpan {
    /// The span of a request as it comes in. The id of its trace is recorded only where the
    /// context is valid: one that is not has the id zero, which is the id of no trace.
    pub fn begin(method: &str, path: &str, is_valid: bool, trace_id: &str) -> (r: Self)
        ensures
            r.method@ == method@,
            r.path@ == path@,
            option_text(r.trace_id) == (if is_valid {
                Some(trace_id@)
            } else {
                None
            }),
            r.status is None,
    {
        RequestSpan {
            method: method.to_owned(),
            path: path.to_owned(),
            trace_id: if is_valid {
                Some(trace_id.to_owned())
            } else {
                None
            },
            status: None,
        }
    }

    /// Records the status of the answer.
    pub fn end(&mut self, status: u16)
        ensures
            *final(self) == (RequestSpan { status: Some(status), ..*old(self) }),
    {
        self.status = Some(status);
    }
}

} // verus!
