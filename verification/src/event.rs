//! Owned snapshots of host-loop events.
//!
//! An [`EventRecord`] carries, as plain values, everything this core reads
//! of one host-loop event: its category (device-scoped, window-scoped, or a
//! lifecycle signal), the identifier of the device or window concerned, and
//! a payload. The host-facing shell converts the host loop's own event type
//! into this form at publish time, so a record can outlive the callback
//! invocation that delivered it and can be copied to every subscriber.

use vstd::prelude::*;

verus! {

/// Device-level payload of a device-scoped event.
#[derive(Clone, Copy, PartialEq, Eq, Structural, Debug)]
pub enum DevicePayload {
    /// The device was attached.
    Added,
    /// The device was detached.
    Removed,
    /// Relative motion along one axis, in device units.
    Motion { axis: u32, delta: i64 },
    /// A button changed state.
    Button { button: u32, pressed: bool },
    /// A key changed state.
    Key { code: u32, pressed: bool },
    /// Any other device-level payload.
    Other,
}

/// Window-level payload of a window-scoped event.
#[derive(Clone, Copy, PartialEq, Eq, Structural, Debug)]
pub enum WindowPayload {
    /// The window was resized to the given physical size.
    Resized { width: u32, height: u32 },
    /// The window was moved to the given physical position.
    Moved { x: i32, y: i32 },
    /// The user asked to close the window.
    CloseRequested,
    /// The window was destroyed.
    Destroyed,
    /// The window gained or lost focus.
    Focused { gained: bool },
    /// Any other window-level payload.
    Other,
}

/// A host-loop lifecycle signal: an event that is neither device- nor
/// window-scoped.
#[derive(Clone, Copy, PartialEq, Eq, Structural, Debug)]
pub enum LifecycleSignal {
    /// A new burst of host events is about to be delivered.
    Incoming,
    /// All pending host events of this burst have been delivered.
    Idle,
    /// The host asked for a redraw.
    RedrawRequested,
    /// The application was suspended.
    Suspended,
    /// The application was resumed.
    Resumed,
    /// Any other lifecycle signal.
    Other,
}

/// One immutable, owned snapshot of a host-loop event.
#[derive(Clone, Copy, PartialEq, Eq, Structural, Debug)]
pub enum EventRecord {
    /// A device-scoped event: which device, and what it did.
    Device { device_id: u64, payload: DevicePayload },
    /// A window-scoped event: which window, and what happened to it.
    Window { window_id: u64, payload: WindowPayload },
    /// A lifecycle signal, belonging to neither category.
    Lifecycle { signal: LifecycleSignal },
}

/// The device-scoped projection of an event: device identifier plus
/// device-level payload.
#[derive(Clone, Copy, PartialEq, Eq, Structural, Debug)]
pub struct DeviceEvent {
    pub device_id: u64,
    pub event: DevicePayload,
}

/// The window-scoped projection of an event: window identifier plus
/// window-level payload.
#[derive(Clone, Copy, PartialEq, Eq, Structural, Debug)]
pub struct WindowEvent {
    pub window_id: u64,
    pub event: WindowPayload,
}

/// Whether an event is device-scoped.
pub open spec fn is_device(e: EventRecord) -> bool {
    e matches EventRecord::Device { .. }
}

/// Whether an event is window-scoped.
pub open spec fn is_window(e: EventRecord) -> bool {
    e matches EventRecord::Window { .. }
}

/// The device projection of a device-scoped event, and a placeholder on
/// any other.
pub open spec fn device_view(e: EventRecord) -> DeviceEvent {
    match e {
        EventRecord::Device { device_id, payload } => DeviceEvent { device_id, event: payload },
        _ => DeviceEvent { device_id: 0, event: DevicePayload::Other },
    }
}

/// The window projection of a window-scoped event, and a placeholder on
/// any other.
pub open spec fn window_view(e: EventRecord) -> WindowEvent {
    match e {
        EventRecord::Window { window_id, payload } => WindowEvent { window_id, event: payload },
        _ => WindowEvent { window_id: 0, event: WindowPayload::Other },
    }
}

/// Every event is device-scoped, window-scoped, or neither — never both.
pub proof fn lemma_categories_exclusive(e: EventRecord)
    ensures
        !(is_device(e) && is_window(e)),
{
}

/// The device projection of an event, where it has one.
pub fn as_device(e: &EventRecord) -> (r: Option<DeviceEvent>)
    ensures
        is_device(*e) <==> r is Some,
        is_device(*e) ==> r == Some(device_view(*e)),
{
    match e {
        EventRecord::Device { device_id, payload } => Some(
            DeviceEvent { device_id: *device_id, event: *payload },
        ),
        _ => None,
    }
}

/// The window projection of an event, where it has one.
pub fn as_window(e: &EventRecord) -> (r: Option<WindowEvent>)
    ensures
        is_window(*e) <==> r is Some,
        is_window(*e) ==> r == Some(window_view(*e)),
{
    match e {
        EventRecord::Window { window_id, payload } => Some(
            WindowEvent { window_id: *window_id, event: *payload },
        ),
        _ => None,
    }
}

} // verus!
