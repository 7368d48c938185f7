//! The callback through which a pipeline tells its I/O layer that an outbound
//! message is waiting.

use vstd::prelude::*;

verus! {

/// A callback that a pipeline calls after each write, so that the I/O layer
/// wakes up and polls the pipeline.
///
/// It holds a shared closure, `Arc<dyn Fn() + Send + Sync>`; Verus does not
/// take a trait object with more than one trait, so the closure stays hidden
/// from it and only the two functions below touch it.
#[verifier::external_body]
pub struct NotifyCallback {
    callback: std::sync::Arc<dyn Fn() + Send + Sync>,
}

impl NotifyCallback {
    /// Wraps `callback` (std's `Arc::new`).  Nothing is stated: the value is
    /// opaque to Verus.
    #[verifier::external_body]
    pub fn new<F: Fn() + Send + Sync + 'static>(callback: F) -> Self {
        NotifyCallback { callback: std::sync::Arc::new(callback) }
    }

    /// Calls the wrapped closure.  Nothing is stated: what the closure does is
    /// up to the code that made it.
    #[verifier::external_body]
    pub fn notify(&self) {
        (self.callback)()
    }
}

} // verus!
