//! How the connections to the API server and to a node are kept.
use crate::text::chars_of;
use vstd::prelude::*;

verus! {

/// The settings of a client's connections. A time of `None` is no limit; times are in seconds,
/// sizes in bytes.
#[derive(Clone, Copy, Debug, PartialEq, Eq, Structural)]
pub struct ClientSettings {
    pub pool_max_idle_per_host: usize,
    pub pool_idle_timeout: Option<u64>,
    pub tcp_keepalive: u64,
    pub tcp_nodelay: bool,
    pub http2_keep_alive_interval: u64,
    pub http2_keep_alive_timeout: u64,
    pub http2_keep_alive_while_idle: bool,
    /// The flow-control windows of a stream and of a connection, where they are not left at
    /// their defaults.
    pub http2_stream_window: Option<u32>,
    pub http2_connection_window: Option<u32>,
    /// Only HTTP/1.1 is spoken; otherwise the protocol is negotiated.
    pub http1_only: bool,
    pub brotli: bool,
    /// Names are resolved in the process.
    pub hickory_dns: bool,
}

/// A layer that the requests of the API client pass, the outermost first.
#[derive(Clone, Copy, Debug, PartialEq, Eq, Structural)]
pub enum ClientLayer {
    /// Tries again after a failure that may pass, this often.
    Retry(u32),
    /// Gives each attempt a span.
    AttemptSpan,
    /// Puts the trace of the active span on the request.
    TraceInject,
}

/// How often and how patiently requests to a node are repeated: the most retries, the first
/// pause in milliseconds, and the compute units per second.
#[derive(Clone, Copy, Debug, PartialEq, Eq, Structural)]
pub struct RetryBackoff {
    pub max_rate_limit_retries: u32,
    pub initial_backoff: u64,
    pub compute_units_per_second: u64,
}

/// Seconds between two requests that only keep a connection to the API server open.
pub const KEEP_WARM_GAP_SECS: u64 = 10;

/// Bytes of a proof response of the size that was measured, with room for growth.
pub const STREAM_WINDOW: u32 = 8388608;

/// Bytes in flight on one connection.
pub const CONNECTION_WINDOW: u32 = 33554432;

/// The settings of the API client, which speaks only HTTP/1.1 or negotiates the protocol.
pub open spec fn api_settings(http1_only: bool) -> ClientSettings {
    ClientSettings {
        pool_max_idle_per_host: 30,
        pool_idle_timeout: None,
        tcp_keepalive: 30,
        tcp_nodelay: true,
        http2_keep_alive_interval: 30,
        http2_keep_alive_timeout: 30,
        http2_keep_alive_while_idle: true,
        http2_stream_window: Some(STREAM_WINDOW),
        http2_connection_window: Some(CONNECTION_WINDOW),
        http1_only,
        brotli: true,
        hickory_dns: true,
    }
}

/// The settings of the API client. `force_http1` is the value of the variable that forces
/// HTTP/1.1, which counts where it is set to anything but the empty text.
pub fn api_client_settings(force_http1: Option<&str>) -> (r: ClientSettings)
    ensures
        r == api_settings(force_http1 is Some && force_http1->0@.len() > 0),
{
    let http1_only = match force_http1 {
        Some(value) => chars_of(value).len() > 0,
        None => false,
    };
    ClientSettings {
        pool_max_idle_per_host: 30,
        pool_idle_timeout: None,
        tcp_keepalive: 30,
        tcp_nodelay: true,
        http2_keep_alive_interval: 30,
        http2_keep_alive_timeout: 30,
        http2_keep_alive_while_idle: true,
        http2_stream_window: Some(STREAM_WINDOW),
        http2_connection_window: Some(CONNECTION_WINDOW),
        http1_only,
        brotli: true,
        hickory_dns: true,
    }
}

/// The settings of the client that talks to a node: those of the API client, but for the one
/// difference that the protocol is always negotiated, since a node may speak plain HTTP/1.1.
pub fn rpc_client_settings() -> (r: ClientSettings)
    ensures
        r == api_settings(false),
{
    api_client_settings(None)
}

/// How requests to a node are repeated.
pub fn rpc_retry_backoff() -> (r: RetryBackoff)
    ensures
        r == (RetryBackoff {
            max_rate_limit_retries: 100,
            initial_backoff: 50,
            compute_units_per_second: 300,
        }),
{
    RetryBackoff {
        max_rate_limit_retries: 100,
        initial_backoff: 50,
        compute_units_per_second: 300,
    }
}

/// The layers of the API client, the outermost first. The retries wrap the attempts, so that the
/// pauses between them fall outside the spans of the attempts, and the trace is put on inside
/// an attempt's span, so that the server's spans become its children.
pub fn api_client_layers() -> (r: Vec<ClientLayer>)
    ensures
        r@ == seq![ClientLayer::Retry(3), ClientLayer::AttemptSpan, ClientLayer::TraceInject],
{
    let r = vec![ClientLayer::Retry(3), ClientLayer::AttemptSpan, ClientLayer::TraceInject];
    assert(r@ =~= seq![ClientLayer::Retry(3), ClientLayer::AttemptSpan, ClientLayer::TraceInject]);
    r
}

} // verus!
