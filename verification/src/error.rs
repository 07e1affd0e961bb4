//! What can go wrong while the execution layer answers.
use crate::primitives::{B256, U256};
use vstd::prelude::*;

verus! {

/// Why an answer cannot be given.
#[derive(Debug)]
pub enum ProviderError {
    BlockNotFound,
    ReceiptNotFound,
    ReceiptFetchFailed,
    /// A log is not among those of the proven receipt of its transaction.
    MissingLog { tx_hash: B256, log_index: U256 },
    /// What another party or a check reported.
    Reported(String),
}

/// What an error says.
pub ghost enum ErrorView {
    BlockNotFound,
    ReceiptNotFound,
    ReceiptFetchFailed,
    MissingLog { tx_hash: B256, log_index: U256 },
    Reported(Seq<char>),
}

impl View for ProviderError {
    type V = ErrorView;

    open spec fn view(&self) -> ErrorView {
        match self {
            ProviderError::BlockNotFound => ErrorView::BlockNotFound,
            ProviderError::ReceiptNotFound => ErrorView::ReceiptNotFound,
            ProviderError::ReceiptFetchFailed => ErrorView::ReceiptFetchFailed,
            ProviderError::MissingLog { tx_hash, log_index } => ErrorView::MissingLog {
                tx_hash: *tx_hash,
                log_index: *log_index,
            },
            ProviderError::Reported(text) => ErrorView::Reported(text@),
        }
    }
}

impl ProviderError {
    /// The words for an error that has words of its own.
    pub fn words(&self) -> (r: Option<&'static str>)
        ensures
            r == match self@ {
                ErrorView::BlockNotFound => Some("block not found"),
                ErrorView::ReceiptNotFound => Some("receipt not found"),
                ErrorView::ReceiptFetchFailed => Some("receipt fetch failed"),
                _ => None,
            },
    {
        match self {
            ProviderError::BlockNotFound => Some("block not found"),
            ProviderError::ReceiptNotFound => Some("receipt not found"),
            ProviderError::ReceiptFetchFailed => Some("receipt fetch failed"),
            _ => None,
        }
    }
}

/// What a result says, where its value has a view.
pub open spec fn result_view<T: View>(r: Result<T, ProviderError>) -> Result<T::V, ErrorView> {
    match r {
        Ok(t) => Ok(t@),
        Err(e) => Err(e@),
    }
}

/// What a result says, where its value is plain.
pub open spec fn plain_result<T>(r: Result<T, ProviderError>) -> Result<T, ErrorView> {
    match r {
        Ok(t) => Ok(t),
        Err(e) => Err(e@),
    }
}

} // verus!
