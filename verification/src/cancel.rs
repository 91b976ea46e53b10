//! The cancellation token of a run: set from any thread, checked by the run at
//! every step boundary.

use vstd::prelude::*;
use std::sync::atomic::AtomicBool;
use std::sync::Arc;
use crate::ports::{AutomationError, ErrorView};

verus! {

/// A cancellation flag shared between the run and whoever may cancel it.
#[derive(Debug, Clone)]
pub struct CancelToken {
    flag: Arc<AtomicBool>,
}

impl CancelToken {
    /// A token whose flag starts lowered. The flag is an atomic shared by
    /// every clone of the token, and any clone may raise it from another
    /// thread at any time, so what it holds is left out of the contracts.
    pub fn new() -> (t: CancelToken) {
        CancelToken { flag: Arc::new(AtomicBool::new(false)) }
    }

    /// Raises the flag; every clone of the token sees it.
    pub fn cancel(&self) {
        self.flag.store(true, std::sync::atomic::Ordering::SeqCst);
    }

    /// Whether the flag has been raised. Another thread may raise it at any
    /// time, so nothing is promised about the answer.
    pub fn is_cancelled(&self) -> (r: bool) {
        self.flag.load(std::sync::atomic::Ordering::SeqCst)
    }

    /// `Err(Cancelled)` once the flag is raised, `Ok` before. Which of the two
    /// comes back is decided by the flag's current value, of which nothing can
    /// be known (see [`CancelToken::is_cancelled`]); the contract states what
    /// holds of every outcome.
    pub fn check(&self) -> (r: Result<(), AutomationError>)
        ensures
            r is Ok || (r matches Err(e) && e@ == ErrorView::Cancelled),
    {
        if self.is_cancelled() {
            return Err(AutomationError::Cancelled);
        }
        Ok(())
    }
}

impl Default for CancelToken {
    fn default() -> (t: CancelToken) {
        CancelToken::new()
    }
}

} // verus!
