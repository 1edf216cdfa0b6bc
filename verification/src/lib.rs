//! A verified core for bridging a callback-driven host event loop with a
//! single cooperative asynchronous task.
//!
//! The pieces are:
//! - an event model ([`event`]): owned snapshots of host-loop events,
//!   classified as device-scoped, window-scoped, or lifecycle signals;
//! - a broadcast channel ([`channel`]): an append-only event log with one
//!   independent read cursor per subscriber;
//! - stream adapters ([`producer`]): lazily pollable views of the channel,
//!   either unfiltered or projected to one event category;
//! - an executor core ([`executor`]): the per-tick decision logic that
//!   publishes an incoming event and turns the root task's poll outcome
//!   into a directive for the host loop;
//! - the broadcast laws ([`laws`]): proofs, over the channel's pure model,
//!   of what any run of channel transitions delivers to each subscriber.

pub mod channel;
pub mod event;
pub mod executor;
pub mod laws;
pub mod producer;

pub use channel::EventChannel;
pub use channel::StreamStep;
pub use event::DeviceEvent;
pub use event::EventRecord;
pub use event::WindowEvent;
pub use executor::ControlDirective;
pub use executor::ExecutorCore;
pub use executor::TaskPoll;
pub use producer::DeviceEventProducer;
pub use producer::EventProducer;
pub use producer::WindowEventProducer;
