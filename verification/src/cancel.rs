//! Cooperative cancellation: one flag shared by every worker of a batch.

use std::sync::atomic::AtomicBool;
use std::sync::atomic::Ordering;
use crate::error::ConvertError;
use std::sync::Arc;
use vstd::prelude::*;

verus! {

/// One look at the token from inside a loop, as a step of that loop: the
/// loop goes on while the batch is not cancelled and ends in a cancellation
/// as soon as it is. `cancelled` is what the token said when it was polled.
pub fn checkpoint(cancelled: bool) -> (r: Result<(), ConvertError>)
    ensures
        cancelled ==> r == Err::<(), ConvertError>(ConvertError::Cancelled),
        !cancelled ==> r == Ok::<(), ConvertError>(()),
{
    if cancelled {
        Err(ConvertError::Cancelled)
    } else {
        Ok(())
    }
}

/// A handle on the cancellation flag of one batch.
///
/// Every clone shares the same flag. The flag starts cleared; `cancel` sets
/// it and nothing clears it again, so a worker that has once seen
/// `is_cancelled` return `true` will never see `false` afterwards. What a
/// given call returns depends on what other threads have done, and so no
/// contract can say it.
pub struct CancellationToken {
    flag: Arc<AtomicBool>,
}

impl CancellationToken {
    /// A fresh token, not cancelled.
    pub fn new() -> CancellationToken {
        CancellationToken { flag: Arc::new(AtomicBool::new(false)) }
    }

    /// Requests cancellation of the batch.
    pub fn cancel(&self) {
        self.flag.store(true, Ordering::SeqCst);
    }

    /// Whether cancellation has been requested.
    pub fn is_cancelled(&self) -> bool {
        self.flag.load(Ordering::SeqCst)
    }
}

impl Clone for CancellationToken {
    fn clone(&self) -> CancellationToken {
        CancellationToken { flag: self.flag.clone() }
    }
}

} // verus!
