//! The cancellation token: a flag that any thread may set and that every
//! long-running operation polls.

use std::sync::atomic::{AtomicBool, Ordering};
use std::sync::Arc;
use vstd::prelude::*;

verus! {

/// A flag shared between the host and a session. Once set it stays set.
/// Clones share the flag.
#[derive(Clone, Debug)]
pub struct CancellationToken {
    flag: Arc<AtomicBool>,
}

impl CancellationToken {
    /// A token that is not set.
    pub fn new() -> (token: Self) {
        CancellationToken { flag: Arc::new(AtomicBool::new(false)) }
    }

    /// Sets the flag: asks the operation that polls this token to stop.
    pub fn cancel(&self) {
        self.flag.store(true, Ordering::Relaxed);
    }

    /// Whether the flag is set at this moment. Another thread may set it at
    /// any time, so nothing is known of the answer ahead.
    pub fn is_cancelled(&self) -> (cancelled: bool) {
        self.flag.load(Ordering::Relaxed)
    }
}

/// Whether the token, if there is one, is set at this moment. No token means
/// that nobody can cancel.
pub fn is_cancelled(token: &Option<CancellationToken>) -> (cancelled: bool)
    ensures
        token is None ==> !cancelled,
{
    match token {
        Some(token) => token.is_cancelled(),
        None => false,
    }
}

} // verus!
