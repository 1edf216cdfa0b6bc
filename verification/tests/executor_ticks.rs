//! Scenario tests for the executor core's tick protocol.

use loopcast::ControlDirective;
use loopcast::EventChannel;
use loopcast::EventProducer;
use loopcast::EventRecord;
use loopcast::ExecutorCore;
use loopcast::StreamStep;
use loopcast::TaskPoll;
use loopcast::event::DevicePayload;
use loopcast::executor::ExecPhase;

fn button(device_id: u64, button: u32) -> EventRecord {
    EventRecord::Device { device_id, payload: DevicePayload::Button { button, pressed: true } }
}

#[test]
fn terminates_on_the_tick_the_task_completes() {
    let mut ch = EventChannel::new();
    let mut core = ExecutorCore::new();
    // The root task consumes one event per tick and completes after
    // consuming exactly three.
    let events = EventProducer::new(&mut ch);
    let goal: usize = 3;
    let mut consumed: usize = 0;
    let mut directives: Vec<ControlDirective> = Vec::new();
    for i in 0..goal {
        core.begin_tick(&mut ch, Some(button(i as u64, 1)));
        match events.poll_next(&mut ch) {
            StreamStep::Item(_) => consumed += 1,
            _ => {}
        }
        let poll = if consumed == goal { TaskPoll::Ready } else { TaskPoll::Pending };
        directives.push(core.finish_tick(poll));
    }
    assert_eq!(
        directives,
        vec![
            ControlDirective::ContinueWaiting,
            ControlDirective::ContinueWaiting,
            ControlDirective::Terminate,
        ]
    );
    assert_eq!(core.phase, ExecPhase::Terminated);
}

#[test]
fn unrepresentable_event_is_skipped() {
    let mut ch = EventChannel::new();
    let mut core = ExecutorCore::new();
    let events = EventProducer::new(&mut ch);
    // A raw event with no owned representation is skipped for publication:
    // the tick still proceeds, but nothing reaches the subscribers.
    core.begin_tick(&mut ch, None);
    assert_eq!(events.poll_next(&mut ch), StreamStep::Pending);
    assert_eq!(core.finish_tick(TaskPoll::Pending), ControlDirective::ContinueWaiting);
    assert_eq!(core.phase, ExecPhase::AwaitingEvent);
}

#[test]
fn in_progress_task_keeps_the_loop_waiting() {
    let mut ch = EventChannel::new();
    let mut core = ExecutorCore::new();
    core.begin_tick(&mut ch, Some(button(1, 2)));
    assert_eq!(core.phase, ExecPhase::AwaitingPoll);
    assert_eq!(core.finish_tick(TaskPoll::Pending), ControlDirective::ContinueWaiting);
    assert_eq!(core.phase, ExecPhase::AwaitingEvent);
}

#[test]
fn retiring_the_executor_closes_the_channel() {
    let mut ch = EventChannel::new();
    let core = ExecutorCore::new();
    let events = EventProducer::new(&mut ch);
    ch.publish(button(1, 1));
    core.retire(&mut ch);
    assert!(!ch.is_writer_alive());
    // The backlog survives the writer; then the stream ends for good.
    assert_eq!(events.poll_next(&mut ch), StreamStep::Item(button(1, 1)));
    assert_eq!(events.poll_next(&mut ch), StreamStep::Ended);
}

#[test]
fn published_event_reaches_task_within_the_tick() {
    let mut ch = EventChannel::new();
    let mut core = ExecutorCore::new();
    let events = EventProducer::new(&mut ch);
    let e = button(4, 7);
    core.begin_tick(&mut ch, Some(e));
    // The publish half of the tick runs before the task is polled, so the
    // task's poll in the same tick already sees the event.
    assert_eq!(events.poll_next(&mut ch), StreamStep::Item(e));
    core.finish_tick(TaskPoll::Pending);
}
