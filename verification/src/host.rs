//! Traits through which the embedding host hands callable code to this
//! library.
//!
//! The host runtime permits only one thread to execute host-visible logic at
//! a time; that requirement is modeled as the *host execution gate*.
//! Implementations of [`HostCallable`] and [`Listener`] must hold that token
//! for the duration of each call and release it on every exit path, including
//! failure. The token itself belongs to the host binding, so nothing here can
//! state it; the registries in this crate only promise to invoke the
//! callables, never to run two of them from one dispatch or tick at once.

use vstd::prelude::*;

verus! {

/// A zero-argument callable supplied by the embedding host: a task body or a
/// shutdown hook.
///
/// The return value reports whether the call completed (`true`) or raised in
/// the host (`false`). Errors are data at this boundary: the caller decides
/// whether to swallow them, and nothing can be promised about which value
/// comes back.
pub trait HostCallable {
    /// Runs the callable under the host execution gate.
    fn invoke(&self) -> bool;
}

/// A fixed-arity callable supplied by the embedding host and registered on an
/// event hub.
///
/// `Args` is the host's argument bundle, `Ret` the host-side return value and
/// `E` the host-side error: all three are opaque to this library, which
/// only routes them.
pub trait Listener<Args, Ret, E> {
    /// Invokes the listener with the dispatched arguments, under the host
    /// execution gate.
    fn invoke(&self, args: &Args) -> Result<Ret, E>;

    /// Invokes the listener as a global (all-events) listener: it receives
    /// the event name ahead of the dispatched arguments.
    fn invoke_all(&self, event: &String, args: &Args) -> Result<Ret, E>;
}

/// A cancellation signal supplied by the host: the scheduler loop polls it
/// before each task so that a host-side interrupt stops the loop without
/// waiting for an explicit stop request.
pub trait CancelSignal {
    /// Returns whether the host has requested cancellation. Successive calls
    /// may answer differently; nothing is promised about the value.
    fn is_cancelled(&self) -> bool;
}

} // verus!
