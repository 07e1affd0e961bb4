//! The decisions of a light client's execution layer: which state, blocks, receipts and logs it
//! asks untrusted servers for, what it keeps of the answers, and what it takes them for.
//!
//! The modules hold no input or output. Where the work alternates with waiting for another
//! party, a module offers the steps: each takes what came in and says what is to be done next.

pub mod text;
pub mod text_laws;
pub mod primitives;
pub mod error;
pub mod chain;
pub mod account;
pub mod logs;
pub mod logs_laws;
pub mod log_check_laws;
pub mod block_cache;
pub mod block_cache_laws;
pub mod push_laws;
pub mod cache;
pub mod caching_provider;
pub mod caching_laws;
pub mod cache_laws;
pub mod access_list;
pub mod hint_laws;
pub mod rpc_provider;
pub mod rpc_laws;
pub mod node_laws;
pub mod evm;
pub mod evm_laws;
pub mod call_laws;
pub mod urls;
pub mod api_client;
pub mod request_laws;
pub mod client_settings;
pub mod trace;
pub mod server;
pub mod poller;
pub mod poller_laws;
pub mod metrics;
pub mod telemetry;
pub mod router;
pub mod label_laws;
pub mod service_laws;
pub mod view_laws;
pub mod result_laws;
