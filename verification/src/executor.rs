//! The per-tick decision logic of the loop executor.
//!
//! The host event loop is synchronous and callback-driven; the executor
//! owns exactly one root asynchronous task and drives it forward by one
//! poll step per host tick. The host-facing shell performs the outside
//! work — it receives the raw event and polls the actual task — while
//! [`ExecutorCore`] holds the verified decisions: a tick first publishes
//! the incoming event (if the event was representable) to the channel,
//! then maps the task's poll outcome to the directive handed back to the
//! host loop. A phase machine pins the protocol: the two halves of a tick
//! strictly alternate, and once the task has completed no further tick is
//! permitted.

use vstd::prelude::*;

use crate::channel::EventChannel;
use crate::channel::spec_close;
use crate::channel::spec_publish;
use crate::event::EventRecord;

verus! {

/// The outcome of polling the root task once: still in progress, or
/// complete.
#[derive(Clone, Copy, PartialEq, Eq, Structural, Debug)]
pub enum TaskPoll {
    /// The task suspended; it will only move again on a later tick.
    Pending,
    /// The task returned its result.
    Ready,
}

/// The two-valued signal handed back to the host loop after each tick.
#[derive(Clone, Copy, PartialEq, Eq, Structural, Debug)]
pub enum ControlDirective {
    /// Block until the next host event, then tick again.
    ContinueWaiting,
    /// Cease ticking and exit the host loop's run routine.
    Terminate,
}

/// Where the executor stands in its tick protocol.
#[derive(Clone, Copy, PartialEq, Eq, Structural, Debug)]
pub enum ExecPhase {
    /// Between ticks: the next step is publishing the next host event.
    AwaitingEvent,
    /// Mid-tick: the event is published; the next step is reporting how
    /// the root task's poll went.
    AwaitingPoll,
    /// The root task has completed; no further tick is permitted.
    Terminated,
}

/// The directive owed to the host loop for a given poll outcome: keep
/// waiting while the task is in progress, terminate the moment it
/// completes.
pub open spec fn directive_of(p: TaskPoll) -> ControlDirective {
    match p {
        TaskPoll::Pending => ControlDirective::ContinueWaiting,
        TaskPoll::Ready => ControlDirective::Terminate,
    }
}

/// The verified decision core of the loop executor: the tick protocol and
/// the publish / directive bookkeeping, with the outside work (receiving
/// host events, polling the actual task) left to the caller.
pub struct ExecutorCore {
    /// The protocol phase the executor is in.
    pub phase: ExecPhase,
}

impl ExecutorCore {
    /// A fresh executor, ready for its first tick.
    pub fn new() -> (x: Self)
        ensures
            x.phase == ExecPhase::AwaitingEvent,
    {
        ExecutorCore { phase: ExecPhase::AwaitingEvent }
    }

    /// The first half of a tick: publishes the incoming event to the
    /// channel, or nothing when the raw event carried no representable
    /// data (`ev` is `None`). The caller must poll the root task next and
    /// report the outcome through [`Self::finish_tick`].
    pub fn begin_tick(&mut self, ch: &mut EventChannel, ev: Option<EventRecord>)
        requires
            old(self).phase == ExecPhase::AwaitingEvent,
            old(ch)@.wf(),
            old(ch)@.writer_alive,
        ensures
            final(self).phase == ExecPhase::AwaitingPoll,
            final(ch)@.wf(),
            ev is Some ==> final(ch)@ == spec_publish(old(ch)@, ev->Some_0),
            ev is None ==> final(ch)@ == old(ch)@,
    {
        match ev {
            Some(e) => ch.publish(e),
            None => (),
        }
        self.phase = ExecPhase::AwaitingPoll;
    }

    /// The second half of a tick: maps the root task's poll outcome to the
    /// directive owed to the host loop. A completed task terminates the
    /// executor; an in-progress task leaves it awaiting the next tick.
    pub fn finish_tick(&mut self, poll: TaskPoll) -> (d: ControlDirective)
        requires
            old(self).phase == ExecPhase::AwaitingPoll,
        ensures
            d == directive_of(poll),
            d == ControlDirective::Terminate <==> poll == TaskPoll::Ready,
            final(self).phase == (if poll == TaskPoll::Ready {
                ExecPhase::Terminated
            } else {
                ExecPhase::AwaitingEvent
            }),
    {
        match poll {
            TaskPoll::Pending => {
                self.phase = ExecPhase::AwaitingEvent;
                ControlDirective::ContinueWaiting
            },
            TaskPoll::Ready => {
                self.phase = ExecPhase::Terminated;
                ControlDirective::Terminate
            },
        }
    }

    /// Retires the executor, taking the channel's sole writer with it: no
    /// event will ever be published again, and every subscriber reaches
    /// the end of its sequence once its backlog is drained.
    pub fn retire(self, ch: &mut EventChannel)
        requires
            old(ch)@.wf(),
        ensures
            final(ch)@ == spec_close(old(ch)@),
            final(ch)@.wf(),
    {
        ch.close_writer()
    }
}

/// For a run whose poll outcomes are in progress up to the tick at which
/// the task completes, the directives are continue-waiting on every tick
/// before that one and terminate on it — the host loop is never told to
/// stop early, and is told to stop the moment the task completes.
pub proof fn lemma_run_terminates_at_completion(polls: Seq<TaskPoll>, k: int)
    requires
        0 <= k < polls.len(),
        forall|i: int| 0 <= i < k ==> polls[i] == TaskPoll::Pending,
        polls[k] == TaskPoll::Ready,
    ensures
        forall|i: int|
            0 <= i < k ==> directive_of(#[trigger] polls[i]) == ControlDirective::ContinueWaiting,
        directive_of(polls[k]) == ControlDirective::Terminate,
{
}

} // verus!
