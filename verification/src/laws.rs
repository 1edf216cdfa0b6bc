//! The broadcast laws of the event channel, stated and proved over the
//! pure channel model.
//!
//! Every executable channel operation promises in its contract that it
//! performs one of the pure transitions of [`crate::channel`]
//! ([`spec_subscribe`], [`spec_publish`], [`spec_advance`],
//! [`spec_close`]); the lemmas here say what any run composed of those
//! transitions delivers to each subscriber: the full published sequence in
//! publish order for a subscriber attached before it, independence of
//! subscribers from each other, nothing from before a late subscription,
//! no loss across a suspension, and a permanent end of the stream once
//! the writer is gone and the backlog is drained.

use vstd::prelude::*;

use crate::channel::ChannelView;
use crate::channel::spec_advance;
use crate::channel::spec_close;
use crate::channel::spec_publish;
use crate::channel::spec_subscribe;
use crate::event::DeviceEvent;
use crate::event::EventRecord;
use crate::event::WindowEvent;
use crate::event::device_view;
use crate::event::is_device;
use crate::event::is_window;
use crate::event::window_view;
use crate::producer::device_projection;
use crate::producer::first_device_index;
use crate::producer::first_window_index;
use crate::producer::window_projection;

verus! {

/// Publishing a whole sequence of events, one at a time, in order.
pub open spec fn spec_publish_all(v: ChannelView, s: Seq<EventRecord>) -> ChannelView
    decreases s.len(),
{
    if s.len() == 0 {
        v
    } else {
        spec_publish_all(spec_publish(v, s[0]), s.drop_first())
    }
}

/// Consuming `n` events through subscriber `i`, one at a time.
pub open spec fn spec_advance_n(v: ChannelView, i: int, n: nat) -> ChannelView
    decreases n,
{
    if n == 0 {
        v
    } else {
        spec_advance_n(spec_advance(v, i), i, (n - 1) as nat)
    }
}

/// Publishing a sequence appends exactly that sequence to the history and
/// touches nothing else.
pub proof fn lemma_publish_all_effect(v: ChannelView, s: Seq<EventRecord>)
    ensures
        spec_publish_all(v, s).history == v.history + s,
        spec_publish_all(v, s).starts == v.starts,
        spec_publish_all(v, s).cursors == v.cursors,
        spec_publish_all(v, s).writer_alive == v.writer_alive,
    decreases s.len(),
{
    if s.len() == 0 {
        assert(v.history + s =~= v.history);
    } else {
        lemma_publish_all_effect(spec_publish(v, s[0]), s.drop_first());
        assert(v.history.push(s[0]) + s.drop_first() =~= v.history + s);
    }
}

/// Publishing preserves well-formedness: the history only grows.
pub proof fn lemma_publish_all_wf(v: ChannelView, s: Seq<EventRecord>)
    requires
        v.wf(),
    ensures
        spec_publish_all(v, s).wf(),
{
    lemma_publish_all_effect(v, s);
}

/// Subscribing preserves well-formedness, and the new subscriber starts
/// with nothing observed and nothing pending.
pub proof fn lemma_subscribe_wf(v: ChannelView)
    requires
        v.wf(),
    ensures
        spec_subscribe(v).wf(),
        spec_subscribe(v).pending(v.sub_count() as int) == Seq::<EventRecord>::empty(),
        spec_subscribe(v).observed(v.sub_count() as int) == Seq::<EventRecord>::empty(),
{
    let id = v.sub_count() as int;
    assert(spec_subscribe(v).cursors[id] == v.history.len());
    assert(spec_subscribe(v).pending(id) =~= Seq::<EventRecord>::empty());
    assert(spec_subscribe(v).observed(id) =~= Seq::<EventRecord>::empty());
}

/// Ordering, publication side: a subscriber attached to a well-formed
/// channel before the events `s` are published has, once they are, exactly
/// `s` pending — in publish order, with no duplication, no reordering and
/// no omission — and has observed nothing yet.
pub proof fn lemma_fresh_subscriber_sees_all(v: ChannelView, s: Seq<EventRecord>)
    requires
        v.wf(),
    ensures
        ({
            let id = v.sub_count() as int;
            let v2 = spec_publish_all(spec_subscribe(v), s);
            &&& v2.wf()
            &&& v2.pending(id) == s
            &&& v2.observed(id) == Seq::<EventRecord>::empty()
        }),
{
    let id = v.sub_count() as int;
    let v1 = spec_subscribe(v);
    let v2 = spec_publish_all(v1, s);
    lemma_subscribe_wf(v);
    lemma_publish_all_effect(v1, s);
    lemma_publish_all_wf(v1, s);
    assert(v2.pending(id) =~= s);
    assert(v2.observed(id) =~= Seq::<EventRecord>::empty());
}

/// Ordering, consumption side: consuming `n` of the events pending for
/// subscriber `i` moves exactly the first `n` of them, in order, from its
/// pending sequence to the end of its observed sequence. Nobody else
/// moves.
pub proof fn lemma_drain_in_order(v: ChannelView, i: int, n: int)
    requires
        v.wf(),
        0 <= i < v.sub_count(),
        0 <= n <= v.pending(i).len(),
    ensures
        ({
            let v2 = spec_advance_n(v, i, n as nat);
            &&& v2.wf()
            &&& v2.history == v.history
            &&& v2.starts == v.starts
            &&& v2.writer_alive == v.writer_alive
            &&& v2.sub_count() == v.sub_count()
            &&& forall|j: int|
                0 <= j < v.sub_count() && j != i ==> #[trigger] v2.cursors[j] == v.cursors[j]
            &&& v2.observed(i) == v.observed(i) + v.pending(i).subrange(0, n)
            &&& v2.pending(i) == v.pending(i).subrange(n, v.pending(i).len() as int)
        }),
    decreases n,
{
    let v2 = spec_advance_n(v, i, n as nat);
    if n == 0 {
        assert(v2.observed(i) =~= v.observed(i) + v.pending(i).subrange(0, 0));
        assert(v2.pending(i) =~= v.pending(i).subrange(0, v.pending(i).len() as int));
    } else {
        let v1 = spec_advance(v, i);
        assert(v1.wf());
        assert(v1.pending(i) =~= v.pending(i).subrange(1, v.pending(i).len() as int));
        assert(v1.observed(i) =~= v.observed(i).push(v.pending(i)[0]));
        lemma_drain_in_order(v1, i, n - 1);
        assert(v2.observed(i) =~= v.observed(i) + v.pending(i).subrange(0, n));
        assert(v2.pending(i) =~= v.pending(i).subrange(n, v.pending(i).len() as int));
    }
}

/// Ordering, round trip: a freshly subscribed adapter that consumes all of
/// the `s` events published after it subscribed has observed exactly `s`:
/// in publish order, no duplication, no reordering, no omission.
pub proof fn lemma_ordering_round_trip(v: ChannelView, s: Seq<EventRecord>)
    requires
        v.wf(),
    ensures
        ({
            let id = v.sub_count() as int;
            let v2 = spec_publish_all(spec_subscribe(v), s);
            let v3 = spec_advance_n(v2, id, s.len());
            &&& v3.observed(id) == s
            &&& v3.pending(id).len() == 0
        }),
{
    let id = v.sub_count() as int;
    let v2 = spec_publish_all(spec_subscribe(v), s);
    lemma_fresh_subscriber_sees_all(v, s);
    lemma_publish_all_effect(spec_subscribe(v), s);
    lemma_drain_in_order(v2, id, s.len() as int);
    assert(Seq::<EventRecord>::empty() + s.subrange(0, s.len() as int) =~= s);
}

/// Fan-out independence, publication side: two adapters subscribed before
/// any of the events `s` are published both have the full, identical
/// sequence `s` pending afterwards.
pub proof fn lemma_fanout_same_sequence(v: ChannelView, s: Seq<EventRecord>)
    requires
        v.wf(),
    ensures
        ({
            let a = v.sub_count() as int;
            let b = a + 1;
            let v3 = spec_publish_all(spec_subscribe(spec_subscribe(v)), s);
            &&& v3.wf()
            &&& v3.pending(a) == s
            &&& v3.pending(b) == s
        }),
{
    let a = v.sub_count() as int;
    let b = a + 1;
    let v1 = spec_subscribe(v);
    let v2 = spec_subscribe(v1);
    let v3 = spec_publish_all(v2, s);
    lemma_subscribe_wf(v);
    lemma_subscribe_wf(v1);
    lemma_publish_all_effect(v2, s);
    lemma_publish_all_wf(v2, s);
    assert(v3.pending(a) =~= s);
    assert(v3.pending(b) =~= s);
}

/// Fan-out independence, consumption side: one subscriber consuming a
/// pending event changes nothing another subscriber observes or has
/// pending.
pub proof fn lemma_consume_independent(v: ChannelView, i: int, j: int)
    requires
        v.wf(),
        0 <= i < v.sub_count(),
        0 <= j < v.sub_count(),
        i != j,
    ensures
        spec_advance(v, i).pending(j) == v.pending(j),
        spec_advance(v, i).observed(j) == v.observed(j),
{
    assert(spec_advance(v, i).pending(j) =~= v.pending(j));
    assert(spec_advance(v, i).observed(j) =~= v.observed(j));
}

/// Late subscription loses backlog: an adapter subscribed after `early`
/// was published observes none of it — it starts with nothing pending,
/// and after `late` is published it has exactly `late` pending.
pub proof fn lemma_late_subscriber_misses_backlog(
    v: ChannelView,
    early: Seq<EventRecord>,
    late: Seq<EventRecord>,
)
    requires
        v.wf(),
    ensures
        ({
            let v1 = spec_publish_all(v, early);
            let id = v1.sub_count() as int;
            let v2 = spec_subscribe(v1);
            let v3 = spec_publish_all(v2, late);
            &&& v2.pending(id) == Seq::<EventRecord>::empty()
            &&& v3.pending(id) == late
            &&& v3.observed(id) == Seq::<EventRecord>::empty()
        }),
{
    let v1 = spec_publish_all(v, early);
    lemma_publish_all_wf(v, early);
    lemma_subscribe_wf(v1);
    lemma_fresh_subscriber_sees_all(v1, late);
}

/// Suspension loses nothing: for a subscriber whose backlog is drained (a
/// poll at this point reports not-ready and changes nothing, by the poll
/// contract), an event published afterwards becomes exactly its next
/// pending event.
pub proof fn lemma_suspension_no_loss(v: ChannelView, i: int, e: EventRecord)
    requires
        v.wf(),
        0 <= i < v.sub_count(),
        v.pending(i).len() == 0,
    ensures
        spec_publish(v, e).pending(i) == seq![e],
{
    assert(spec_publish(v, e).pending(i) =~= seq![e]);
}

/// Closing the writer changes no subscriber's backlog or observations:
/// what was pending stays pending to be drained.
pub proof fn lemma_close_keeps_backlog(v: ChannelView, i: int)
    requires
        v.wf(),
        0 <= i < v.sub_count(),
    ensures
        spec_close(v).wf(),
        !spec_close(v).writer_alive,
        spec_close(v).pending(i) == v.pending(i),
        spec_close(v).observed(i) == v.observed(i),
{
}

/// End of stream is permanent: once the writer is gone and subscriber
/// `i`'s backlog is drained (a poll now reports end-of-sequence, by the
/// poll contract), every transition still possible — another subscriber
/// consuming its own backlog, or a new subscription — leaves `i`'s backlog
/// empty and the writer gone, so `i` never yields an event again.
pub proof fn lemma_end_of_stream_permanent(v: ChannelView, i: int, j: int)
    requires
        v.wf(),
        !v.writer_alive,
        0 <= i < v.sub_count(),
        v.pending(i).len() == 0,
        0 <= j < v.sub_count(),
        v.pending(j).len() > 0,
    ensures
        !spec_advance(v, j).writer_alive,
        spec_advance(v, j).pending(i).len() == 0,
        !spec_subscribe(v).writer_alive,
        spec_subscribe(v).pending(i).len() == 0,
{
    if i != j {
        lemma_consume_independent(v, j, i);
    }
    lemma_subscribe_wf(v);
}

/// Category filtering, device side, one poll at a time: if the pending
/// sequence holds no device-scoped event, its device projection is empty
/// (a filtered poll consumes everything and yields nothing); if it holds
/// one, the projection is its first device-scoped event followed by the
/// projection of what such a poll leaves pending. Repeated filtered polls
/// therefore yield exactly the device-tagged subsequence, in original
/// relative order.
pub proof fn lemma_device_projection_step(s: Seq<EventRecord>)
    ensures
        first_device_index(s) == s.len() ==> device_projection(s) == Seq::<DeviceEvent>::empty(),
        first_device_index(s) < s.len() ==> device_projection(s) == seq![
            device_view(s[first_device_index(s)]),
        ] + device_projection(s.subrange(first_device_index(s) + 1, s.len() as int)),
    decreases s.len(),
{
    if s.len() == 0 {
    } else if is_device(s[0]) {
        assert(s.subrange(1, s.len() as int) =~= s.drop_first());
    } else {
        lemma_device_projection_step(s.drop_first());
        crate::producer::lemma_first_device_index(s);
        crate::producer::lemma_first_device_index(s.drop_first());
        let k = first_device_index(s);
        if k < s.len() {
            assert(s.drop_first()[k - 1] == s[k]);
            assert(s.subrange(k + 1, s.len() as int) =~= s.drop_first().subrange(
                k,
                s.drop_first().len() as int,
            ));
        }
    }
}

/// Category filtering, window side: the mirror of the device-side law.
pub proof fn lemma_window_projection_step(s: Seq<EventRecord>)
    ensures
        first_window_index(s) == s.len() ==> window_projection(s) == Seq::<WindowEvent>::empty(),
        first_window_index(s) < s.len() ==> window_projection(s) == seq![
            window_view(s[first_window_index(s)]),
        ] + window_projection(s.subrange(first_window_index(s) + 1, s.len() as int)),
    decreases s.len(),
{
    if s.len() == 0 {
    } else if is_window(s[0]) {
        assert(s.subrange(1, s.len() as int) =~= s.drop_first());
    } else {
        lemma_window_projection_step(s.drop_first());
        crate::producer::lemma_first_window_index(s);
        crate::producer::lemma_first_window_index(s.drop_first());
        let k = first_window_index(s);
        if k < s.len() {
            assert(s.drop_first()[k - 1] == s[k]);
            assert(s.subrange(k + 1, s.len() as int) =~= s.drop_first().subrange(
                k,
                s.drop_first().len() as int,
            ));
        }
    }
}

/// What a run of device-filtered polls yields in total on a pending
/// sequence: the first device-scoped event, then whatever such a run
/// yields on what one filtered poll leaves pending — each step being
/// exactly the filtered poll contract's successful case.
pub open spec fn device_poll_results(s: Seq<EventRecord>) -> Seq<DeviceEvent>
    decreases s.len(),
{
    let k = first_device_index(s);
    if k < 0 || k >= s.len() {
        Seq::empty()
    } else {
        seq![device_view(s[k])] + device_poll_results(s.subrange(k + 1, s.len() as int))
    }
}

/// The window-side mirror of [`device_poll_results`].
pub open spec fn window_poll_results(s: Seq<EventRecord>) -> Seq<WindowEvent>
    decreases s.len(),
{
    let k = first_window_index(s);
    if k < 0 || k >= s.len() {
        Seq::empty()
    } else {
        seq![window_view(s[k])] + window_poll_results(s.subrange(k + 1, s.len() as int))
    }
}

/// Category filtering, device side, whole run: polling a device-filtered
/// adapter repeatedly over a pending sequence yields exactly the
/// device-tagged subsequence of that sequence, projected, in original
/// relative order — nothing dropped, nothing duplicated, nothing
/// reordered.
pub proof fn lemma_device_run_is_projection(s: Seq<EventRecord>)
    ensures
        device_poll_results(s) == device_projection(s),
    decreases s.len(),
{
    crate::producer::lemma_first_device_index(s);
    lemma_device_projection_step(s);
    let k = first_device_index(s);
    if k < s.len() {
        lemma_device_run_is_projection(s.subrange(k + 1, s.len() as int));
    }
}

/// Category filtering, window side, whole run: the mirror of the
/// device-side law.
pub proof fn lemma_window_run_is_projection(s: Seq<EventRecord>)
    ensures
        window_poll_results(s) == window_projection(s),
    decreases s.len(),
{
    crate::producer::lemma_first_window_index(s);
    lemma_window_projection_step(s);
    let k = first_window_index(s);
    if k < s.len() {
        lemma_window_run_is_projection(s.subrange(k + 1, s.len() as int));
    }
}


} // verus!
