//! Scenario tests for the broadcast channel and the stream adapters.

use loopcast::DeviceEvent;
use loopcast::DeviceEventProducer;
use loopcast::EventChannel;
use loopcast::EventProducer;
use loopcast::EventRecord;
use loopcast::StreamStep;
use loopcast::WindowEvent;
use loopcast::WindowEventProducer;
use loopcast::event::DevicePayload;
use loopcast::event::LifecycleSignal;
use loopcast::event::WindowPayload;

fn key(device_id: u64, code: u32) -> EventRecord {
    EventRecord::Device { device_id, payload: DevicePayload::Key { code, pressed: true } }
}

fn resize(window_id: u64, width: u32, height: u32) -> EventRecord {
    EventRecord::Window { window_id, payload: WindowPayload::Resized { width, height } }
}

fn idle() -> EventRecord {
    EventRecord::Lifecycle { signal: LifecycleSignal::Idle }
}

#[test]
fn ordering_preserved() {
    let mut ch = EventChannel::new();
    let p = EventProducer::new(&mut ch);
    let e1 = key(1, 10);
    let e2 = resize(7, 800, 600);
    let e3 = key(2, 20);
    ch.publish(e1);
    ch.publish(e2);
    ch.publish(e3);
    assert_eq!(p.poll_next(&mut ch), StreamStep::Item(e1));
    assert_eq!(p.poll_next(&mut ch), StreamStep::Item(e2));
    assert_eq!(p.poll_next(&mut ch), StreamStep::Item(e3));
    assert_eq!(p.poll_next(&mut ch), StreamStep::Pending);
}

#[test]
fn fanout_independent() {
    let mut ch = EventChannel::new();
    let a = EventProducer::new(&mut ch);
    let b = EventProducer::new(&mut ch);
    let e1 = key(1, 1);
    let e2 = key(2, 2);
    ch.publish(e1);
    ch.publish(e2);
    // Draining one adapter completely does not affect what the other sees.
    assert_eq!(a.poll_next(&mut ch), StreamStep::Item(e1));
    assert_eq!(a.poll_next(&mut ch), StreamStep::Item(e2));
    assert_eq!(a.poll_next(&mut ch), StreamStep::Pending);
    assert_eq!(b.poll_next(&mut ch), StreamStep::Item(e1));
    assert_eq!(b.poll_next(&mut ch), StreamStep::Item(e2));
    assert_eq!(b.poll_next(&mut ch), StreamStep::Pending);
}

#[test]
fn late_subscriber_misses_backlog() {
    let mut ch = EventChannel::new();
    let early = key(1, 1);
    ch.publish(early);
    ch.publish(resize(3, 10, 10));
    let late_sub = EventProducer::new(&mut ch);
    assert_eq!(late_sub.poll_next(&mut ch), StreamStep::Pending);
    let fresh = key(2, 2);
    ch.publish(fresh);
    assert_eq!(late_sub.poll_next(&mut ch), StreamStep::Item(fresh));
    assert_eq!(late_sub.poll_next(&mut ch), StreamStep::Pending);
}

#[test]
fn device_filter_in_order() {
    let mut ch = EventChannel::new();
    let d = DeviceEventProducer::new(&mut ch);
    ch.publish(resize(9, 1, 1));
    ch.publish(key(1, 11));
    ch.publish(idle());
    ch.publish(key(2, 22));
    ch.publish(resize(9, 2, 2));
    assert_eq!(
        d.poll_next(&mut ch),
        StreamStep::Item(DeviceEvent {
            device_id: 1,
            event: DevicePayload::Key { code: 11, pressed: true },
        })
    );
    assert_eq!(
        d.poll_next(&mut ch),
        StreamStep::Item(DeviceEvent {
            device_id: 2,
            event: DevicePayload::Key { code: 22, pressed: true },
        })
    );
    assert_eq!(d.poll_next(&mut ch), StreamStep::Pending);
}

#[test]
fn window_filter_in_order() {
    let mut ch = EventChannel::new();
    let w = WindowEventProducer::new(&mut ch);
    ch.publish(key(1, 11));
    ch.publish(resize(7, 800, 600));
    ch.publish(idle());
    ch.publish(resize(8, 640, 480));
    ch.publish(key(2, 22));
    assert_eq!(
        w.poll_next(&mut ch),
        StreamStep::Item(WindowEvent {
            window_id: 7,
            event: WindowPayload::Resized { width: 800, height: 600 },
        })
    );
    assert_eq!(
        w.poll_next(&mut ch),
        StreamStep::Item(WindowEvent {
            window_id: 8,
            event: WindowPayload::Resized { width: 640, height: 480 },
        })
    );
    assert_eq!(w.poll_next(&mut ch), StreamStep::Pending);
}

#[test]
fn both_projections_on_independent_subscriptions() {
    let mut ch = EventChannel::new();
    let d = DeviceEventProducer::new(&mut ch);
    let w = WindowEventProducer::new(&mut ch);
    ch.publish(key(1, 11));
    ch.publish(resize(7, 1, 2));
    // Each projection holds its own subscription, so neither starves the
    // other of the events it needs.
    assert_eq!(
        d.poll_next(&mut ch),
        StreamStep::Item(DeviceEvent {
            device_id: 1,
            event: DevicePayload::Key { code: 11, pressed: true },
        })
    );
    assert_eq!(
        w.poll_next(&mut ch),
        StreamStep::Item(WindowEvent {
            window_id: 7,
            event: WindowPayload::Resized { width: 1, height: 2 },
        })
    );
    assert_eq!(d.poll_next(&mut ch), StreamStep::Pending);
    assert_eq!(w.poll_next(&mut ch), StreamStep::Pending);
}

#[test]
fn lifecycle_matches_neither_category() {
    let mut ch = EventChannel::new();
    let all = EventProducer::new(&mut ch);
    let d = DeviceEventProducer::new(&mut ch);
    let w = WindowEventProducer::new(&mut ch);
    ch.publish(idle());
    assert_eq!(all.poll_next(&mut ch), StreamStep::Item(idle()));
    assert_eq!(d.poll_next(&mut ch), StreamStep::Pending);
    assert_eq!(w.poll_next(&mut ch), StreamStep::Pending);
}

#[test]
fn suspension_loses_nothing() {
    let mut ch = EventChannel::new();
    let p = EventProducer::new(&mut ch);
    // Nothing is available: the poll reports not-ready without blocking.
    assert_eq!(p.poll_next(&mut ch), StreamStep::Pending);
    // An event published after that suspension is still delivered.
    let e = key(5, 55);
    ch.publish(e);
    assert_eq!(p.poll_next(&mut ch), StreamStep::Item(e));
    assert_eq!(p.poll_next(&mut ch), StreamStep::Pending);
}

#[test]
fn end_of_stream_after_drain() {
    let mut ch = EventChannel::new();
    let p = EventProducer::new(&mut ch);
    let e1 = key(1, 1);
    let e2 = resize(2, 3, 4);
    ch.publish(e1);
    ch.publish(e2);
    ch.close_writer();
    // The backlog buffered before the writer went away is still drained...
    assert_eq!(p.poll_next(&mut ch), StreamStep::Item(e1));
    assert_eq!(p.poll_next(&mut ch), StreamStep::Item(e2));
    // ...and after that the sequence has ended, permanently.
    assert_eq!(p.poll_next(&mut ch), StreamStep::Ended);
    assert_eq!(p.poll_next(&mut ch), StreamStep::Ended);
}

#[test]
fn end_of_stream_for_filtered_adapters() {
    let mut ch = EventChannel::new();
    let d = DeviceEventProducer::new(&mut ch);
    let w = WindowEventProducer::new(&mut ch);
    ch.publish(key(1, 9));
    ch.publish(idle());
    ch.close_writer();
    assert_eq!(
        d.poll_next(&mut ch),
        StreamStep::Item(DeviceEvent {
            device_id: 1,
            event: DevicePayload::Key { code: 9, pressed: true },
        })
    );
    assert_eq!(d.poll_next(&mut ch), StreamStep::Ended);
    // The window projection finds no match in the backlog and ends.
    assert_eq!(w.poll_next(&mut ch), StreamStep::Ended);
}

#[test]
fn subscriber_after_close_ends_immediately() {
    let mut ch = EventChannel::new();
    ch.publish(key(1, 1));
    ch.close_writer();
    let p = EventProducer::new(&mut ch);
    assert_eq!(p.poll_next(&mut ch), StreamStep::Ended);
}

#[test]
fn empty_channel_polls() {
    let mut ch = EventChannel::new();
    let p = EventProducer::new(&mut ch);
    assert_eq!(p.poll_next(&mut ch), StreamStep::Pending);
    ch.close_writer();
    assert_eq!(p.poll_next(&mut ch), StreamStep::Ended);
}
