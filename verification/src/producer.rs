//! Stream adapters over the event channel.
//!
//! An [`EventProducer`] is a lazily pollable view of one subscription into
//! an [`EventChannel`]: each poll is one non-blocking read. The two
//! specialized adapters, [`DeviceEventProducer`] and
//! [`WindowEventProducer`], project that sequence down to one event
//! category: per poll they pull from their subscription until a matching
//! event is found (yielding its projection), the channel has nothing more
//! for them (propagating the suspension point), or the writer is gone and
//! the backlog is drained (propagating the permanent end). Non-matching
//! events are silently discarded, never buffered for anyone else, so the
//! two projections need independent subscriptions to run concurrently.

use vstd::prelude::*;

use crate::channel::EventChannel;
use crate::channel::StreamStep;
use crate::channel::spec_advance;
use crate::channel::spec_subscribe;
use crate::event::DeviceEvent;
use crate::event::EventRecord;
use crate::event::WindowEvent;
use crate::event::device_view;
use crate::event::is_device;
use crate::event::is_window;
use crate::event::window_view;

verus! {

/// The index of the first device-scoped event of `s`, or `s.len()` if
/// there is none.
pub open spec fn first_device_index(s: Seq<EventRecord>) -> int
    decreases s.len(),
{
    if s.len() == 0 {
        0
    } else if is_device(s[0]) {
        0
    } else {
        1 + first_device_index(s.drop_first())
    }
}

/// The index of the first window-scoped event of `s`, or `s.len()` if
/// there is none.
pub open spec fn first_window_index(s: Seq<EventRecord>) -> int
    decreases s.len(),
{
    if s.len() == 0 {
        0
    } else if is_window(s[0]) {
        0
    } else {
        1 + first_window_index(s.drop_first())
    }
}

/// `first_device_index` is what its name says: everything before it is not
/// device-scoped, and it lands on a device-scoped event unless there is
/// none.
pub proof fn lemma_first_device_index(s: Seq<EventRecord>)
    ensures
        0 <= first_device_index(s) <= s.len(),
        forall|m: int| 0 <= m < first_device_index(s) ==> !is_device(#[trigger] s[m]),
        first_device_index(s) < s.len() ==> is_device(s[first_device_index(s)]),
    decreases s.len(),
{
    if s.len() == 0 {
    } else if is_device(s[0]) {
    } else {
        lemma_first_device_index(s.drop_first());
        assert forall|m: int| 0 <= m < first_device_index(s) implies !is_device(
            #[trigger] s[m],
        ) by {
            if m > 0 {
                assert(s.drop_first()[m - 1] == s[m]);
            }
        }
    }
}

/// Any index with no device-scoped event before it, and a device-scoped
/// event at it unless it is the length, is `first_device_index`.
pub proof fn lemma_first_device_index_is(s: Seq<EventRecord>, k: int)
    requires
        0 <= k <= s.len(),
        forall|m: int| 0 <= m < k ==> !is_device(#[trigger] s[m]),
        k < s.len() ==> is_device(s[k]),
    ensures
        first_device_index(s) == k,
    decreases s.len(),
{
    if s.len() == 0 {
    } else if is_device(s[0]) {
    } else {
        assert forall|m: int| 0 <= m < k - 1 implies !is_device(#[trigger] s.drop_first()[m]) by {
            assert(s.drop_first()[m] == s[m + 1]);
        }
        lemma_first_device_index_is(s.drop_first(), k - 1);
    }
}

/// `first_window_index` is what its name says: everything before it is not
/// window-scoped, and it lands on a window-scoped event unless there is
/// none.
pub proof fn lemma_first_window_index(s: Seq<EventRecord>)
    ensures
        0 <= first_window_index(s) <= s.len(),
        forall|m: int| 0 <= m < first_window_index(s) ==> !is_window(#[trigger] s[m]),
        first_window_index(s) < s.len() ==> is_window(s[first_window_index(s)]),
    decreases s.len(),
{
    if s.len() == 0 {
    } else if is_window(s[0]) {
    } else {
        lemma_first_window_index(s.drop_first());
        assert forall|m: int| 0 <= m < first_window_index(s) implies !is_window(
            #[trigger] s[m],
        ) by {
            if m > 0 {
                assert(s.drop_first()[m - 1] == s[m]);
            }
        }
    }
}

/// Any index with no window-scoped event before it, and a window-scoped
/// event at it unless it is the length, is `first_window_index`.
pub proof fn lemma_first_window_index_is(s: Seq<EventRecord>, k: int)
    requires
        0 <= k <= s.len(),
        forall|m: int| 0 <= m < k ==> !is_window(#[trigger] s[m]),
        k < s.len() ==> is_window(s[k]),
    ensures
        first_window_index(s) == k,
    decreases s.len(),
{
    if s.len() == 0 {
    } else if is_window(s[0]) {
    } else {
        assert forall|m: int| 0 <= m < k - 1 implies !is_window(#[trigger] s.drop_first()[m]) by {
            assert(s.drop_first()[m] == s[m + 1]);
        }
        lemma_first_window_index_is(s.drop_first(), k - 1);
    }
}

/// The device-tagged subsequence of `s`, projected, in original relative
/// order.
pub open spec fn device_projection(s: Seq<EventRecord>) -> Seq<DeviceEvent>
    decreases s.len(),
{
    if s.len() == 0 {
        Seq::empty()
    } else if is_device(s[0]) {
        seq![device_view(s[0])] + device_projection(s.drop_first())
    } else {
        device_projection(s.drop_first())
    }
}

/// The window-tagged subsequence of `s`, projected, in original relative
/// order.
pub open spec fn window_projection(s: Seq<EventRecord>) -> Seq<WindowEvent>
    decreases s.len(),
{
    if s.len() == 0 {
        Seq::empty()
    } else if is_window(s[0]) {
        seq![window_view(s[0])] + window_projection(s.drop_first())
    } else {
        window_projection(s.drop_first())
    }
}

/// A lazily pollable view of one subscription: yields every event
/// published after the subscription, in publish order.
pub struct EventProducer {
    /// The subscriber identifier this adapter reads through.
    pub sub: usize,
}

/// Creates an adapter over a fresh subscription into `ch`: it will yield
/// every event published to `ch` from now on, and none published before.
pub fn event_producer(ch: &mut EventChannel) -> (p: EventProducer)
    requires
        old(ch)@.wf(),
    ensures
        final(ch)@ == spec_subscribe(old(ch)@),
        final(ch)@.wf(),
        p.sub == old(ch)@.sub_count(),
        final(ch)@.pending(p.sub as int) == Seq::<EventRecord>::empty(),
{
    EventProducer::new(ch)
}

impl EventProducer {
    /// Subscribes to `ch` and wraps the subscription as an adapter.
    pub fn new(ch: &mut EventChannel) -> (p: Self)
        requires
            old(ch)@.wf(),
        ensures
            final(ch)@ == spec_subscribe(old(ch)@),
            final(ch)@.wf(),
            p.sub == old(ch)@.sub_count(),
            final(ch)@.pending(p.sub as int) == Seq::<EventRecord>::empty(),
    {
        let sub = ch.subscribe();
        EventProducer { sub }
    }

    /// One non-blocking poll: the next pending event if one is available,
    /// a suspension point if none is and the writer is alive, the
    /// permanent end of the sequence otherwise. Consuming through this
    /// adapter moves only its own cursor.
    pub fn poll_next(&self, ch: &mut EventChannel) -> (step: StreamStep<EventRecord>)
        requires
            old(ch)@.wf(),
            self.sub < old(ch)@.sub_count(),
        ensures
            final(ch)@.wf(),
            old(ch)@.pending(self.sub as int).len() > 0 ==> step == StreamStep::Item(
                old(ch)@.pending(self.sub as int)[0],
            ) && final(ch)@ == spec_advance(old(ch)@, self.sub as int),
            old(ch)@.pending(self.sub as int).len() == 0 && old(ch)@.writer_alive ==> step
                == StreamStep::<EventRecord>::Pending && final(ch)@ == old(ch)@,
            old(ch)@.pending(self.sub as int).len() == 0 && !old(ch)@.writer_alive ==> step
                == StreamStep::<EventRecord>::Ended && final(ch)@ == old(ch)@,
    {
        ch.poll_at(self.sub)
    }
}

/// An adapter projecting the event sequence down to device-scoped events.
pub struct DeviceEventProducer {
    /// The unfiltered adapter this projection pulls from.
    pub inner: EventProducer,
}

/// Creates a device-only adapter over a fresh subscription into `ch`.
pub fn device_event_producer(ch: &mut EventChannel) -> (p: DeviceEventProducer)
    requires
        old(ch)@.wf(),
    ensures
        final(ch)@ == spec_subscribe(old(ch)@),
        final(ch)@.wf(),
        p.inner.sub == old(ch)@.sub_count(),
        final(ch)@.pending(p.inner.sub as int) == Seq::<EventRecord>::empty(),
{
    DeviceEventProducer::new(ch)
}

impl DeviceEventProducer {
    /// Subscribes to `ch` and wraps the subscription as a device-only
    /// adapter.
    pub fn new(ch: &mut EventChannel) -> (p: Self)
        requires
            old(ch)@.wf(),
        ensures
            final(ch)@ == spec_subscribe(old(ch)@),
            final(ch)@.wf(),
            p.inner.sub == old(ch)@.sub_count(),
            final(ch)@.pending(p.inner.sub as int) == Seq::<EventRecord>::empty(),
    {
        DeviceEventProducer { inner: EventProducer::new(ch) }
    }

    /// One poll of the projection: pulls from the subscription until a
    /// device-scoped event appears (yielding its projection) or nothing is
    /// pending (a suspension point while the writer is alive, the
    /// permanent end otherwise). Non-matching pending events up to that
    /// point are consumed and discarded; retained events keep their
    /// relative order, and no other subscriber is affected.
    pub fn poll_next(&self, ch: &mut EventChannel) -> (step: StreamStep<DeviceEvent>)
        requires
            old(ch)@.wf(),
            self.inner.sub < old(ch)@.sub_count(),
        ensures
            final(ch)@.wf(),
            final(ch)@.history == old(ch)@.history,
            final(ch)@.starts == old(ch)@.starts,
            final(ch)@.writer_alive == old(ch)@.writer_alive,
            final(ch)@.cursors.len() == old(ch)@.cursors.len(),
            forall|j: int|
                0 <= j < old(ch)@.cursors.len() && j != self.inner.sub ==> final(ch)@.cursors[j]
                    == old(ch)@.cursors[j],
            ({
                let p = old(ch)@.pending(self.inner.sub as int);
                let k = first_device_index(p);
                &&& k < p.len() ==> step == StreamStep::Item(device_view(p[k])) && final(ch)@.pending(self.inner.sub as int) == p.subrange(k + 1, p.len() as int)
                &&& k == p.len() ==> final(ch)@.pending(self.inner.sub as int)
                    == Seq::<EventRecord>::empty() && step == (if old(ch)@.writer_alive {
                    StreamStep::<DeviceEvent>::Pending
                } else {
                    StreamStep::<DeviceEvent>::Ended
                })
            }),
    {
        let ghost sub = self.inner.sub as int;
        let ghost p = old(ch)@.pending(sub);
        let ghost mut skipped: int = 0;
        loop
            invariant
                old(ch)@.wf(),
                self.inner.sub < old(ch)@.sub_count(),
                sub == self.inner.sub as int,
                p == old(ch)@.pending(sub),
                ch@.wf(),
                ch@.history == old(ch)@.history,
                ch@.starts == old(ch)@.starts,
                ch@.writer_alive == old(ch)@.writer_alive,
                ch@.cursors.len() == old(ch)@.cursors.len(),
                forall|j: int|
                    0 <= j < old(ch)@.cursors.len() && j != sub ==> ch@.cursors[j] == old(ch)@.cursors[j],
                0 <= skipped <= p.len(),
                ch@.cursors[sub] == old(ch)@.cursors[sub] + skipped,
                forall|m: int| 0 <= m < skipped ==> !is_device(#[trigger] p[m]),
            decreases p.len() - skipped,
        {
            let prev = Ghost(ch@);
            match ch.poll_at(self.inner.sub) {
                StreamStep::Item(e) => {
                    proof {
                        assert(prev@.pending(sub).len() == p.len() - skipped);
                        assert(e == prev@.pending(sub)[0]);
                        assert(e == p[skipped]);
                        assert(ch@ == spec_advance(prev@, sub));
                    }
                    match e {
                        EventRecord::Device { device_id, payload } => {
                            proof {
                                lemma_first_device_index_is(p, skipped);
                                assert(ch@.pending(sub) =~= p.subrange(
                                    skipped + 1,
                                    p.len() as int,
                                ));
                            }
                            return StreamStep::Item(DeviceEvent { device_id, event: payload });
                        },
                        _ => {
                            proof {
                                assert(!is_device(p[skipped]));
                                skipped = skipped + 1;
                            }
                        },
                    }
                },
                StreamStep::Pending => {
                    proof {
                        assert(skipped == p.len());
                        lemma_first_device_index_is(p, skipped);
                        assert(ch@.pending(sub) =~= Seq::<EventRecord>::empty());
                    }
                    return StreamStep::Pending;
                },
                StreamStep::Ended => {
                    proof {
                        assert(skipped == p.len());
                        lemma_first_device_index_is(p, skipped);
                        assert(ch@.pending(sub) =~= Seq::<EventRecord>::empty());
                    }
                    return StreamStep::Ended;
                },
            }
        }
    }
}

/// An adapter projecting the event sequence down to window-scoped events.
pub struct WindowEventProducer {
    /// The unfiltered adapter this projection pulls from.
    pub inner: EventProducer,
}

/// Creates a window-only adapter over a fresh subscription into `ch`.
pub fn window_event_producer(ch: &mut EventChannel) -> (p: WindowEventProducer)
    requires
        old(ch)@.wf(),
    ensures
        final(ch)@ == spec_subscribe(old(ch)@),
        final(ch)@.wf(),
        p.inner.sub == old(ch)@.sub_count(),
        final(ch)@.pending(p.inner.sub as int) == Seq::<EventRecord>::empty(),
{
    WindowEventProducer::new(ch)
}

impl WindowEventProducer {
    /// Subscribes to `ch` and wraps the subscription as a window-only
    /// adapter.
    pub fn new(ch: &mut EventChannel) -> (p: Self)
        requires
            old(ch)@.wf(),
        ensures
            final(ch)@ == spec_subscribe(old(ch)@),
            final(ch)@.wf(),
            p.inner.sub == old(ch)@.sub_count(),
            final(ch)@.pending(p.inner.sub as int) == Seq::<EventRecord>::empty(),
    {
        WindowEventProducer { inner: EventProducer::new(ch) }
    }

    /// One poll of the projection: pulls from the subscription until a
    /// window-scoped event appears (yielding its projection) or nothing is
    /// pending (a suspension point while the writer is alive, the
    /// permanent end otherwise). Non-matching pending events up to that
    /// point are consumed and discarded; retained events keep their
    /// relative order, and no other subscriber is affected.
    pub fn poll_next(&self, ch: &mut EventChannel) -> (step: StreamStep<WindowEvent>)
        requires
            old(ch)@.wf(),
            self.inner.sub < old(ch)@.sub_count(),
        ensures
            final(ch)@.wf(),
            final(ch)@.history == old(ch)@.history,
            final(ch)@.starts == old(ch)@.starts,
            final(ch)@.writer_alive == old(ch)@.writer_alive,
            final(ch)@.cursors.len() == old(ch)@.cursors.len(),
            forall|j: int|
                0 <= j < old(ch)@.cursors.len() && j != self.inner.sub ==> final(ch)@.cursors[j]
                    == old(ch)@.cursors[j],
            ({
                let p = old(ch)@.pending(self.inner.sub as int);
                let k = first_window_index(p);
                &&& k < p.len() ==> step == StreamStep::Item(window_view(p[k])) && final(ch)@.pending(self.inner.sub as int) == p.subrange(k + 1, p.len() as int)
                &&& k == p.len() ==> final(ch)@.pending(self.inner.sub as int)
                    == Seq::<EventRecord>::empty() && step == (if old(ch)@.writer_alive {
                    StreamStep::<WindowEvent>::Pending
                } else {
                    StreamStep::<WindowEvent>::Ended
                })
            }),
    {
        let ghost sub = self.inner.sub as int;
        let ghost p = old(ch)@.pending(sub);
        let ghost mut skipped: int = 0;
        loop
            invariant
                old(ch)@.wf(),
                self.inner.sub < old(ch)@.sub_count(),
                sub == self.inner.sub as int,
                p == old(ch)@.pending(sub),
                ch@.wf(),
                ch@.history == old(ch)@.history,
                ch@.starts == old(ch)@.starts,
                ch@.writer_alive == old(ch)@.writer_alive,
                ch@.cursors.len() == old(ch)@.cursors.len(),
                forall|j: int|
                    0 <= j < old(ch)@.cursors.len() && j != sub ==> ch@.cursors[j] == old(ch)@.cursors[j],
                0 <= skipped <= p.len(),
                ch@.cursors[sub] == old(ch)@.cursors[sub] + skipped,
                forall|m: int| 0 <= m < skipped ==> !is_window(#[trigger] p[m]),
            decreases p.len() - skipped,
        {
            let prev = Ghost(ch@);
            match ch.poll_at(self.inner.sub) {
                StreamStep::Item(e) => {
                    proof {
                        assert(prev@.pending(sub).len() == p.len() - skipped);
                        assert(e == prev@.pending(sub)[0]);
                        assert(e == p[skipped]);
                        assert(ch@ == spec_advance(prev@, sub));
                    }
                    match e {
                        EventRecord::Window { window_id, payload } => {
                            proof {
                                lemma_first_window_index_is(p, skipped);
                                assert(ch@.pending(sub) =~= p.subrange(
                                    skipped + 1,
                                    p.len() as int,
                                ));
                            }
                            return StreamStep::Item(WindowEvent { window_id, event: payload });
                        },
                        _ => {
                            proof {
                                assert(!is_window(p[skipped]));
                                skipped = skipped + 1;
                            }
                        },
                    }
                },
                StreamStep::Pending => {
                    proof {
                        assert(skipped == p.len());
                        lemma_first_window_index_is(p, skipped);
                        assert(ch@.pending(sub) =~= Seq::<EventRecord>::empty());
                    }
                    return StreamStep::Pending;
                },
                StreamStep::Ended => {
                    proof {
                        assert(skipped == p.len());
                        lemma_first_window_index_is(p, skipped);
                        assert(ch@.pending(sub) =~= Seq::<EventRecord>::empty());
                    }
                    return StreamStep::Ended;
                },
            }
        }
    }
}

} // verus!

