//! A small publish/subscribe fan-out core.
//!
//! An [`Observable`] holds non-owning references to observers that live in a
//! [`Registry`]. Messages pushed into the observable are forwarded to every
//! registered observer that is still alive; observers that have been dropped
//! are skipped silently.

pub mod observable;
pub mod observer;
pub mod registry;

pub use observable::Observable;
pub use observer::Observer;
pub use registry::Handle;
pub use registry::Registry;
pub use registry::WeakRef;
