//! The cancellation token of a run: a flag that the party who started the
//! run may raise at any time, and that the run polls once per entry.

use std::sync::atomic::AtomicBool;
use std::sync::atomic::Ordering;
use std::sync::Arc;
use vstd::prelude::*;

verus! {

/// A flag shared between a run and whoever may cancel it. Clones share the
/// flag.
#[derive(Debug, Clone)]
pub struct CancellationToken {
    flag: Arc<AtomicBool>,
}

impl CancellationToken {
    /// A token that has not been raised.
    pub fn new() -> (token: CancellationToken) {
        CancellationToken { flag: Arc::new(AtomicBool::new(false)) }
    }

    /// Raises the flag: the run stops before its next entry.
    pub fn cancel(&self) {
        self.flag.store(true, Ordering::SeqCst);
    }

    /// Whether the flag has been raised. The answer may change between two
    /// calls, so nothing is promised of it.
    pub fn is_cancelled(&self) -> (raised: bool) {
        self.flag.load(Ordering::SeqCst)
    }
}

} // verus!
