use vstd::prelude::*;

verus! {

/// The kinds of failure that the wallet reports.
#[derive(Debug, Clone, Copy, PartialEq, Eq, Structural)]
pub enum ErrorKind {
    InvalidInput,
    NotFound,
    NetworkFailure,
    ProtocolError,
    StateError,
    DecryptionFailed,
    DuplicateProof,
    InsufficientBalance,
    InvoiceMissingAmount,
}

/// A failure: its kind and a human-readable detail.
#[derive(Debug, Clone)]
pub struct WalletError {
    pub kind: ErrorKind,
    pub detail: String,
}

impl WalletError {
    pub fn new(kind: ErrorKind, detail: &str) -> (r: WalletError)
        ensures
            r.kind == kind,
            r.detail@ == detail@,
    {
        WalletError { kind, detail: String::from_str(detail) }
    }
}

/// `r` is an error of kind `k`.
pub open spec fn fails_with<T>(r: Result<T, WalletError>, k: ErrorKind) -> bool {
    r is Err && r->Err_0.kind == k
}

} // verus!
