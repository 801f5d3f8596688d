//! Cancellation token for long-running blocking operations: a cloneable
//! shared flag. The caller keeps one handle and passes clones into
//! blocking tasks, which poll it explicitly.

use vstd::prelude::*;

verus! {

/// A cloneable cancellation signal for blocking operations. All clones
/// share one flag.
///
/// The flag lives in shared memory that other threads write, so the
/// methods carry no contract: stating that a clone sees a cancel, and that
/// it stays set, would need tracked ghost state that follows the shared
/// flag.
#[derive(Clone, Debug)]
pub struct CancellationToken(std::sync::Arc<std::sync::atomic::AtomicBool>);

impl CancellationToken {
    /// A new, uncancelled token.
    pub fn new() -> Self {
        CancellationToken(std::sync::Arc::new(std::sync::atomic::AtomicBool::new(false)))
    }

    /// Signal cancellation; every clone observes it on its next check.
    pub fn cancel(&self) {
        self.0.store(true, std::sync::atomic::Ordering::Release);
    }

    /// `true` once `cancel` has been called on any clone. The flag is
    /// shared with other threads, so no value is promised.
    pub fn is_cancelled(&self) -> bool {
        self.0.load(std::sync::atomic::Ordering::Acquire)
    }
}

impl Default for CancellationToken {
    fn default() -> Self {
        CancellationToken::new()
    }
}

} // verus!
