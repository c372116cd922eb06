//! Callback traits the client implements to hook into FreeRDP's lifecycle
//! and pointer (mouse cursor) events.
//!
//! Every method has a default that accepts the event: it reports success and
//! changes nothing.

use vstd::prelude::*;

verus! {

/// Client lifecycle hooks, called when FreeRDP starts and stops the client.
pub trait EntrypointCallbacks: Sized {
    /// The client has been started; returning `false` aborts the start.
    fn client_start(&mut self) -> (ok: bool)
        default_ensures
            ok,
            *final(self) == *old(self),
    {
        true
    }

    /// The client has been stopped; returning `false` reports a failed stop.
    fn client_stop(&mut self) -> (ok: bool)
        default_ensures
            ok,
            *final(self) == *old(self),
    {
        true
    }
}

/// Pointer (cursor) hooks. A pointer is identified by the address FreeRDP
/// gave it; the library never reads through it.
pub trait GraphicsCallbacks {
    /// A new pointer shape was created.
    fn on_pointer_new(&self, pointer: usize) -> (ok: bool)
        default_ensures
            ok,
    {
        true
    }

    /// A pointer shape is being freed.
    fn on_pointer_free(&self, pointer: usize) {
    }

    /// The pointer shape was selected as the current cursor.
    fn on_pointer_set(&self, pointer: usize) -> (ok: bool)
        default_ensures
            ok,
    {
        true
    }

    /// The cursor was hidden.
    fn on_pointer_set_null(&self) -> (ok: bool)
        default_ensures
            ok,
    {
        true
    }

    /// The system default cursor was selected.
    fn on_pointer_set_default(&self) -> (ok: bool)
        default_ensures
            ok,
    {
        true
    }

    /// The cursor moved to `(x, y)`.
    fn on_pointer_position(&self, x: u32, y: u32) -> (ok: bool)
        default_ensures
            ok,
    {
        true
    }
}

} // verus!
