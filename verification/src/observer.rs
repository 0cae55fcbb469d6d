use vstd::prelude::*;

verus! {

/// The capability a subscriber implements to receive notifications.
///
/// An observer reacts to one message at a time while the caller holds
/// exclusive access to it; what mutation occurs is entirely up to the
/// implementation. Each implementation describes its own reaction as the
/// pure function [`Observer::notified`], and `notify` is its executable
/// counterpart.
pub trait Observer<T>: Sized {
    /// The observer's state after reacting to `event`.
    spec fn notified(self, event: T) -> Self;

    /// React to one message, mutating the observer's own state.
    fn notify(&mut self, event: &T)
        ensures
            *final(self) == old(self).notified(*event),
    ;
}

} // verus!
