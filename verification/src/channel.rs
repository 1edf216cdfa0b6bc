//! The broadcast event channel.
//!
//! An [`EventChannel`] is a single, append-only log of published events with
//! one independent read cursor per subscriber. Every subscriber observes,
//! from the moment of its subscription forward, every event subsequently
//! published, exactly once and in publish order; events published before a
//! subscription are never visible to it. The log is unbounded and never
//! pruned, so memory grows with the number of published events whether or
//! not anyone consumes them — an accepted tradeoff for simplicity, not a
//! defect to paper over.
//!
//! The abstract state of a channel is a [`ChannelView`]; every operation's
//! contract says exactly which pure transition ([`spec_subscribe`],
//! [`spec_publish`], [`spec_advance`], [`spec_close`]) it performs, so the
//! broadcast laws can be stated and proved once over the pure model.

use vstd::prelude::*;

use crate::event::EventRecord;

verus! {

/// One step of a pollable sequence: an element, a suspension point, or the
/// permanent end of the sequence.
#[derive(Clone, Copy, PartialEq, Eq, Structural, Debug)]
pub enum StreamStep<T> {
    /// An element was immediately available.
    Item(T),
    /// Nothing is available now, but the writer is still alive: poll again
    /// later.
    Pending,
    /// The writer is gone and the backlog is drained: no element will ever
    /// be yielded again.
    Ended,
}

/// The abstract state of an [`EventChannel`].
#[verifier::ext_equal]
pub struct ChannelView {
    /// Every event ever published, in publish order.
    pub history: Seq<EventRecord>,
    /// For each subscriber, the length the history had when it subscribed.
    pub starts: Seq<nat>,
    /// For each subscriber, how far into the history it has read.
    pub cursors: Seq<nat>,
    /// Whether the writing side is still alive.
    pub writer_alive: bool,
}

impl ChannelView {
    /// Well-formedness: one start per cursor, and every cursor lies between
    /// its subscriber's start and the end of the history.
    pub open spec fn wf(self) -> bool {
        &&& self.starts.len() == self.cursors.len()
        &&& forall|i: int|
            0 <= i < self.cursors.len() ==> self.starts[i] <= #[trigger] self.cursors[i]
                <= self.history.len()
    }

    /// The number of subscribers.
    pub open spec fn sub_count(self) -> nat {
        self.cursors.len()
    }

    /// The events subscriber `i` has yet to observe, in publish order.
    pub open spec fn pending(self, i: int) -> Seq<EventRecord> {
        self.history.subrange(self.cursors[i] as int, self.history.len() as int)
    }

    /// The events subscriber `i` has already observed, in publish order.
    pub open spec fn observed(self, i: int) -> Seq<EventRecord> {
        self.history.subrange(self.starts[i] as int, self.cursors[i] as int)
    }
}

/// The state of a channel that has just been created: no history, no
/// subscribers, a live writer.
pub open spec fn empty_channel() -> ChannelView {
    ChannelView { history: Seq::empty(), starts: Seq::empty(), cursors: Seq::empty(), writer_alive: true }
}

/// Adding a subscriber: its start and cursor both sit at the current end of
/// the history, so it observes nothing published before it.
pub open spec fn spec_subscribe(v: ChannelView) -> ChannelView {
    ChannelView {
        starts: v.starts.push(v.history.len()),
        cursors: v.cursors.push(v.history.len()),
        ..v
    }
}

/// Publishing an event: it is appended to the history; no cursor moves.
pub open spec fn spec_publish(v: ChannelView, e: EventRecord) -> ChannelView {
    ChannelView { history: v.history.push(e), ..v }
}

/// Subscriber `i` consuming one pending event: its cursor advances by one;
/// nothing else changes.
pub open spec fn spec_advance(v: ChannelView, i: int) -> ChannelView {
    ChannelView { cursors: v.cursors.update(i, (v.cursors[i] + 1) as nat), ..v }
}

/// The writing side going away, permanently.
pub open spec fn spec_close(v: ChannelView) -> ChannelView {
    ChannelView { writer_alive: false, ..v }
}

/// The view of a vector of cursor positions.
pub open spec fn nat_seq(v: Seq<usize>) -> Seq<nat> {
    v.map_values(|c: usize| c as nat)
}

/// The broadcast event channel: an append-only event log with one
/// independent read cursor per subscriber.
pub struct EventChannel {
    history: Vec<EventRecord>,
    starts: Vec<usize>,
    cursors: Vec<usize>,
    writer_alive: bool,
}

impl View for EventChannel {
    type V = ChannelView;

    closed spec fn view(&self) -> ChannelView {
        ChannelView {
            history: self.history@,
            starts: nat_seq(self.starts@),
            cursors: nat_seq(self.cursors@),
            writer_alive: self.writer_alive,
        }
    }
}

impl EventChannel {
    /// Creates a fresh channel with no history, no subscribers, and a live
    /// writing side.
    pub fn new() -> (c: Self)
        ensures
            c@ == empty_channel(),
            c@.wf(),
    {
        let c = EventChannel {
            history: Vec::new(),
            starts: Vec::new(),
            cursors: Vec::new(),
            writer_alive: true,
        };
        proof {
            assert(c@ =~= empty_channel());
        }
        c
    }

    /// The number of subscribers so far; every identifier below it is valid.
    pub fn sub_count(&self) -> (n: usize)
        ensures
            n == self@.sub_count(),
    {
        self.cursors.len()
    }

    /// Whether the writing side is still alive.
    pub fn is_writer_alive(&self) -> (b: bool)
        ensures
            b == self@.writer_alive,
    {
        self.writer_alive
    }

    /// Adds a subscriber and returns its identifier. The new subscriber's
    /// cursor starts at the current end of the history: it will observe
    /// every event published from now on, and none published before.
    pub fn subscribe(&mut self) -> (id: usize)
        requires
            old(self)@.wf(),
        ensures
            final(self)@ == spec_subscribe(old(self)@),
            final(self)@.wf(),
            id == old(self)@.sub_count(),
            final(self)@.pending(id as int) == Seq::<EventRecord>::empty(),
    {
        let id = self.cursors.len();
        let here = self.history.len();
        self.starts.push(here);
        self.cursors.push(here);
        proof {
            assert(nat_seq(self.starts@) =~= nat_seq(old(self).starts@).push(
                old(self).history@.len(),
            ));
            assert(nat_seq(self.cursors@) =~= nat_seq(old(self).cursors@).push(
                old(self).history@.len(),
            ));
            assert(self@ =~= spec_subscribe(old(self)@));
            assert(self@.pending(id as int) =~= Seq::<EventRecord>::empty());
        }
        id
    }

    /// Appends one event to the history, making it pending for every
    /// current subscriber. Never blocks and never drops an event. The
    /// writing side must still be alive: publishing on a closed channel
    /// would be an internal-invariant violation, so it is ruled out by
    /// contract rather than handled.
    pub fn publish(&mut self, e: EventRecord)
        requires
            old(self)@.wf(),
            old(self)@.writer_alive,
        ensures
            final(self)@ == spec_publish(old(self)@, e),
            final(self)@.wf(),
    {
        self.history.push(e);
        proof {
            assert(self@ =~= spec_publish(old(self)@, e));
        }
    }

    /// Takes the writing side away, permanently: no further event will ever
    /// be published, and every subscriber will reach the end of its
    /// sequence once its backlog is drained.
    pub fn close_writer(&mut self)
        requires
            old(self)@.wf(),
        ensures
            final(self)@ == spec_close(old(self)@),
            final(self)@.wf(),
    {
        self.writer_alive = false;
        proof {
            assert(self@ =~= spec_close(old(self)@));
        }
    }

    /// One non-blocking read for subscriber `id`: the next pending event if
    /// one is available (advancing only this subscriber's cursor), else a
    /// suspension point while the writer is alive, else the permanent end
    /// of the sequence.
    pub fn poll_at(&mut self, id: usize) -> (step: StreamStep<EventRecord>)
        requires
            old(self)@.wf(),
            id < old(self)@.sub_count(),
        ensures
            final(self)@.wf(),
            old(self)@.pending(id as int).len() > 0 ==> step == StreamStep::Item(
                old(self)@.pending(id as int)[0],
            ) && final(self)@ == spec_advance(old(self)@, id as int),
            old(self)@.pending(id as int).len() == 0 && old(self)@.writer_alive ==> step
                == StreamStep::<EventRecord>::Pending && final(self)@ == old(self)@,
            old(self)@.pending(id as int).len() == 0 && !old(self)@.writer_alive ==> step
                == StreamStep::<EventRecord>::Ended && final(self)@ == old(self)@,
    {
        let c = self.cursors[id];
        if c < self.history.len() {
            let e = self.history[c];
            self.cursors[id] = c + 1;
            proof {
                assert(nat_seq(self.cursors@) =~= nat_seq(old(self).cursors@).update(
                    id as int,
                    (nat_seq(old(self).cursors@)[id as int] + 1) as nat,
                ));
                assert(self@ =~= spec_advance(old(self)@, id as int));
            }
            StreamStep::Item(e)
        } else if self.writer_alive {
            proof {
                assert(self@ =~= old(self)@);
            }
            StreamStep::Pending
        } else {
            proof {
                assert(self@ =~= old(self)@);
            }
            StreamStep::Ended
        }
    }
}

} // verus!
