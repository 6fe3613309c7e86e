//! What holds of the table in every state that the collector can bring it
//! to, stated over the step function of the collector and proved.

use vstd::prelude::*;
use crate::collector::{
    after_received, after_sent, event_fits, record_wf, ring_ok, ring_push, same_source_count,
    source_siblings, step, table_wf, StatsEventView,
};
use crate::forward::{events_of, Report};
use crate::label::{lemma_sibling_labels_differ, resolve_label_spec};
use crate::model::{
    queued_of, stored_nanos, ChannelState, ChannelStatsView, LogEntryView, StatsView,
};

verus! {

/// The table after the collector has handled `events`, one after the other.
pub open spec fn step_all(t: Map<u64, StatsView>, events: Seq<StatsEventView>, limit: usize) -> Map<
    u64,
    StatsView,
>
    decreases events.len(),
{
    if events.len() == 0 {
        t
    } else {
        step(step_all(t, events.drop_last(), limit), events.last(), limit)
    }
}

/// The table that the collector holds after it has handled `events`, one
/// after the other, starting without records.
pub open spec fn replay(events: Seq<StatsEventView>, limit: usize) -> Map<u64, StatsView> {
    step_all(Map::empty(), events, limit)
}

/// Whether each of `events` finds room in the counters that it moves.
pub open spec fn replay_fits(events: Seq<StatsEventView>, limit: usize) -> bool
    decreases events.len(),
{
    events.len() > 0 ==> replay_fits(events.drop_last(), limit) && event_fits(
        replay(events.drop_last(), limit),
        events.last(),
    )
}

/// The table is well formed in every state.
pub proof fn lemma_replay_wf(events: Seq<StatsEventView>, limit: usize)
    requires
        replay_fits(events, limit),
    ensures
        table_wf(replay(events, limit)),
    decreases events.len(),
{
    if events.len() > 0 {
        lemma_replay_wf(events.drop_last(), limit);
        crate::collector::lemma_step_keeps_wf(
            replay(events.drop_last(), limit),
            events.last(),
            limit,
        );
    }
}

/// The length of a ring that has taken in `count` entries under the cap `limit`.
pub open spec fn ring_len(count: u64, limit: usize) -> nat {
    if count <= limit {
        count as nat
    } else {
        limit as nat
    }
}

/// Whether every ring of the record is as long as its counter and the cap
/// allow: it holds every entry until the cap is reached, and as many as the
/// cap from then on; none under a cap of 0.
pub open spec fn record_rings_full(s: StatsView, limit: usize) -> bool {
    match s {
        StatsView::Channel(c) => c.sent_logs.len() == ring_len(c.sent_count, limit)
            && c.received_logs.len() == ring_len(c.received_count, limit),
        StatsView::Stream(r) => r.yielded_logs.len() == ring_len(r.items_yielded, limit),
    }
}

/// Whether every ring of the table is as long as its counter and the cap allow.
pub open spec fn rings_full(t: Map<u64, StatsView>, limit: usize) -> bool {
    forall|k: u64| t.contains_key(k) ==> record_rings_full(#[trigger] t[k], limit)
}

/// Handling an event leaves every ring as long as its counter and the cap
/// allow, whatever the cap.
pub proof fn lemma_step_keeps_rings_full(
    t: Map<u64, StatsView>,
    event: StatsEventView,
    limit: usize,
)
    requires
        rings_full(t, limit),
        event_fits(t, event),
    ensures
        rings_full(step(t, event, limit), limit),
{
    let next = step(t, event, limit);
    assert forall|k: u64| next.contains_key(k) implies record_rings_full(
        #[trigger] next[k],
        limit,
    ) by {
        if k != event.id() {
            assert(t.contains_key(k) && next[k] == t[k]);
        } else if t.contains_key(k) {
            assert(record_rings_full(t[k], limit));
        }
    }
}

/// With a cap that stays the same, whatever it is, each ring holds at
/// most as many entries as the cap says, in every state; and it holds the
/// latest ones, by consecutive indices that end at the counter.
pub proof fn lemma_rings_never_exceed_cap(events: Seq<StatsEventView>, limit: usize, id: u64)
    requires
        replay_fits(events, limit),
        replay(events, limit).contains_key(id),
    ensures
        match replay(events, limit)[id] {
            StatsView::Channel(c) => {
                &&& c.sent_logs.len() == ring_len(c.sent_count, limit) <= limit
                &&& c.received_logs.len() == ring_len(c.received_count, limit) <= limit
                &&& ring_ok(c.sent_logs, c.sent_count)
                &&& ring_ok(c.received_logs, c.received_count)
            },
            StatsView::Stream(r) => {
                &&& r.yielded_logs.len() == ring_len(r.items_yielded, limit) <= limit
                &&& ring_ok(r.yielded_logs, r.items_yielded)
            },
        },
{
    lemma_replay_rings_full(events, limit);
    lemma_replay_wf(events, limit);
    let t = replay(events, limit);
    assert(record_rings_full(t[id], limit));
    assert(record_wf(id, t[id]));
}

proof fn lemma_replay_rings_full(events: Seq<StatsEventView>, limit: usize)
    requires
        replay_fits(events, limit),
    ensures
        rings_full(replay(events, limit), limit),
    decreases events.len(),
{
    if events.len() > 0 {
        lemma_replay_rings_full(events.drop_last(), limit);
        lemma_step_keeps_rings_full(replay(events.drop_last(), limit), events.last(), limit);
    }
}

/// No two entries of a ring have the same index.
pub proof fn lemma_ring_indices_differ(ring: Seq<LogEntryView>, count: u64, i: int, j: int)
    requires
        ring_ok(ring, count),
        0 <= i < ring.len(),
        0 <= j < ring.len(),
        i != j,
    ensures
        ring[i].index != ring[j].index,
{
}

/// A terminal state is never left: whatever event comes, a record that is
/// closed stays closed and one that is notified stays notified, as long as
/// the record is not created anew.
pub proof fn lemma_terminal_state_stays(
    t: Map<u64, StatsView>,
    event: StatsEventView,
    limit: usize,
    id: u64,
)
    requires
        t.contains_key(id),
        t[id].state().is_terminal(),
        !(event.creates() && event.id() == id),
    ensures
        step(t, event, limit).contains_key(id),
        step(t, event, limit)[id].state() == t[id].state(),
{
}

/// The state of a record that is brought to the terminal state `to`: `to`,
/// unless the record is in a terminal state already.
pub open spec fn state_after_settling(s: StatsView, to: ChannelState) -> ChannelState {
    if s.state().is_terminal() {
        s.state()
    } else {
        to
    }
}

/// Once the collector has handled `Closed` for an endpoint that it knows
/// and that is not in a terminal state yet, the endpoint is shown as closed;
/// `Notified` shows such a channel as notified, and `StreamCompleted` such a
/// stream as closed. An endpoint in a terminal state keeps its state.
pub proof fn lemma_closing_events_close(t: Map<u64, StatsView>, limit: usize, id: u64)
    requires
        t.contains_key(id),
    ensures
        step(t, StatsEventView::Closed { id }, limit)[id].state() == state_after_settling(
            t[id],
            ChannelState::Closed,
        ),
        t[id] is Channel ==> step(t, StatsEventView::Notified { id }, limit)[id].state()
            == state_after_settling(t[id], ChannelState::Notified),
        t[id] is Stream ==> step(t, StatsEventView::StreamCompleted { id }, limit)[id].state()
            == state_after_settling(t[id], ChannelState::Closed),
{
}

/// Once a side of a wrapped oneshot has passed the message on and the
/// collector has handled what it reports, a channel that was not in a
/// terminal state is shown as notified; and once a forwarder has reported
/// `Closed`, such a channel is shown as closed. A channel in a terminal state
/// keeps its state, whichever report comes.
pub proof fn lemma_reports_settle_the_state(
    t: Map<u64, StatsView>,
    limit: usize,
    id: u64,
    log: Option<Seq<char>>,
    at: u128,
)
    requires
        t.contains_key(id),
        t[id] is Channel,
    ensures
        step_all(t, events_of(Report::SentAndNotified, id, log, at), limit)[id].state()
            == state_after_settling(t[id], ChannelState::Notified),
        step_all(t, events_of(Report::ReceivedAndNotified, id, log, at), limit)[id].state()
            == state_after_settling(t[id], ChannelState::Notified),
        step_all(t, events_of(Report::Closed, id, log, at), limit)[id].state()
            == state_after_settling(t[id], ChannelState::Closed),
{
    reveal_with_fuel(step_all, 3);
    let sent = events_of(Report::SentAndNotified, id, log, at);
    assert(sent.drop_last() =~= seq![sent[0]]);
    assert(sent.drop_last().drop_last() =~= Seq::<StatsEventView>::empty());
    assert(step_all(t, sent.drop_last(), limit) == step(t, sent[0], limit));
    let received = events_of(Report::ReceivedAndNotified, id, log, at);
    assert(received.drop_last() =~= seq![received[0]]);
    assert(received.drop_last().drop_last() =~= Seq::<StatsEventView>::empty());
    assert(step_all(t, received.drop_last(), limit) == step(t, received[0], limit));
    let closed = events_of(Report::Closed, id, log, at);
    assert(closed.drop_last() =~= Seq::<StatsEventView>::empty());
    assert(step_all(t, closed, limit) == step(t, closed[0], limit));
}

/// Whether every stream of the table is active or closed.
pub open spec fn streams_active_or_closed(t: Map<u64, StatsView>) -> bool {
    forall|k: u64|
        t.contains_key(k) && (#[trigger] t[k]) is Stream ==> t[k].state() == ChannelState::Active
            || t[k].state() == ChannelState::Closed
}

/// A stream is never shown in another state than active or closed.
pub proof fn lemma_streams_active_or_closed(events: Seq<StatsEventView>, limit: usize)
    ensures
        streams_active_or_closed(replay(events, limit)),
    decreases events.len(),
{
    if events.len() > 0 {
        lemma_streams_active_or_closed(events.drop_last(), limit);
        let before = replay(events.drop_last(), limit);
        let next = replay(events, limit);
        assert forall|k: u64|
            next.contains_key(k) && (#[trigger] next[k]) is Stream implies next[k].state()
            == ChannelState::Active || next[k].state() == ChannelState::Closed by {
            if before.contains_key(k) && before[k] is Stream {
                assert(before[k].state() == ChannelState::Active || before[k].state()
                    == ChannelState::Closed);
            }
        }
    }
}

/// A record once made stays in the table under its id, with its call site
/// and its rank there, unless it is created anew.
pub proof fn lemma_records_stay(
    t: Map<u64, StatsView>,
    event: StatsEventView,
    limit: usize,
    id: u64,
)
    requires
        t.contains_key(id),
        !(event.creates() && event.id() == id),
    ensures
        step(t, event, limit).contains_key(id),
        step(t, event, limit)[id].source() == t[id].source(),
        step(t, event, limit)[id].label() == t[id].label(),
        step(t, event, limit)[id].iter() == t[id].iter(),
{
}

/// A bounded channel whose real queue never holds more than its capacity,
/// with one more message in flight between the forwarders, is never shown
/// with more queued messages than its capacity.
pub proof fn lemma_queued_within_capacity(sent: u64, received: u64, capacity: usize)
    requires
        sent - received <= capacity + 1,
    ensures
        queued_of(sent, received) <= capacity,
{
}

/// After a message was sent or received, a channel that is not in a
/// terminal state is `Full` exactly when as many messages are queued as its
/// kind can hold, and `Active` otherwise; an unbounded channel is never
/// `Full`.
pub proof fn lemma_state_follows_queue(
    c: ChannelStatsView,
    log: Option<Seq<char>>,
    at: u128,
    limit: usize,
)
    requires
        !c.state.is_terminal(),
    ensures
        ({
            let next = after_sent(c, log, at, limit);
            match c.channel_type.full_mark() {
                Some(mark) => next.state == if next.queued() >= mark {
                    ChannelState::Full
                } else {
                    ChannelState::Active
                },
                None => next.state == ChannelState::Active,
            }
        }),
        ({
            let next = after_received(c, at, limit);
            match c.channel_type.full_mark() {
                Some(mark) => next.state == if next.queued() >= mark {
                    ChannelState::Full
                } else {
                    ChannelState::Active
                },
                None => next.state == ChannelState::Active,
            }
        }),
{
}

/// Whether the records of each call site have ranks that tell them apart:
/// each rank is below the number of records of the call site, and no two
/// records of one call site have the same rank.
pub open spec fn ranked(t: Map<u64, StatsView>) -> bool {
    &&& t.dom().finite()
    &&& forall|k: u64|
        t.contains_key(k) ==> (#[trigger] t[k]).iter() < same_source_count(t, t[k].source())
    &&& forall|a: u64, b: u64|
        t.contains_key(a) && t.contains_key(b) && a != b && t[a].source() == t[b].source() ==> (
        #[trigger] t[a]).iter() != (#[trigger] t[b]).iter()
}

/// Whether an event that makes a record brings an id that has no record
/// yet, to a table whose size 32 bits can still count.
pub open spec fn id_is_fresh(t: Map<u64, StatsView>, event: StatsEventView) -> bool {
    event.creates() ==> !t.contains_key(event.id()) && t.dom().len() < 0x1_0000_0000
}

proof fn lemma_siblings_after_insert(t: Map<u64, StatsView>, id: u64, r: StatsView, s: Seq<char>)
    requires
        t.dom().finite(),
        !t.contains_key(id),
    ensures
        source_siblings(t, s).finite(),
        same_source_count(t, s) <= t.dom().len(),
        same_source_count(t.insert(id, r), s) == same_source_count(t, s) + if r.source() == s {
            1nat
        } else {
            0nat
        },
{
    let p = |k: u64| t[k].source() == s;
    t.dom().lemma_len_filter(p);
    let next = t.insert(id, r);
    if r.source() == s {
        assert(source_siblings(next, s) =~= source_siblings(t, s).insert(id));
    } else {
        assert(source_siblings(next, s) =~= source_siblings(t, s));
    }
}

/// A record that is made under an id of its own gets as its rank the
/// number of records that its call site had before, channels and streams
/// counted together, and the call site then has one record more: the n-th
/// record of a call site has the rank n - 1.
pub proof fn lemma_new_record_takes_next_rank(
    t: Map<u64, StatsView>,
    event: StatsEventView,
    limit: usize,
)
    requires
        t.dom().finite(),
        event.creates(),
        id_is_fresh(t, event),
    ensures
        step(t, event, limit).contains_key(event.id()),
        step(t, event, limit)[event.id()].iter() == same_source_count(
            t,
            step(t, event, limit)[event.id()].source(),
        ),
        same_source_count(step(t, event, limit), step(t, event, limit)[event.id()].source())
            == same_source_count(t, step(t, event, limit)[event.id()].source()) + 1,
{
    let next = step(t, event, limit);
    let id = event.id();
    let fresh = next[id];
    assert(next =~= t.insert(id, fresh));
    lemma_siblings_after_insert(t, id, fresh, fresh.source());
}

/// Handling an event keeps the ranks telling the records of each call site
/// apart, as long as no id is used for a second record.
pub proof fn lemma_step_keeps_ranks(t: Map<u64, StatsView>, event: StatsEventView, limit: usize)
    requires
        ranked(t),
        id_is_fresh(t, event),
    ensures
        ranked(step(t, event, limit)),
{
    let next = step(t, event, limit);
    if event.creates() {
        let id = event.id();
        let fresh = next[id];
        let src = fresh.source();
        assert(next =~= t.insert(id, fresh));
        lemma_siblings_after_insert(t, id, fresh, src);
        assert(fresh.iter() == same_source_count(t, src));
        assert forall|k: u64| next.contains_key(k) implies (#[trigger] next[k]).iter()
            < same_source_count(next, next[k].source()) by {
            lemma_siblings_after_insert(t, id, fresh, next[k].source());
        }
    } else {
        assert(next.dom() =~= t.dom());
        assert forall|k: u64| t.contains_key(k) implies next[k].source() == t[k].source()
            && next[k].iter() == t[k].iter() by {
            lemma_records_stay(t, event, limit, k);
        }
        assert forall|k: u64| next.contains_key(k) implies (#[trigger] next[k]).iter()
            < same_source_count(next, next[k].source()) by {
            assert(source_siblings(next, next[k].source()) =~= source_siblings(
                t,
                t[k].source(),
            ));
        }
    }
}

/// Whether no event of `events` that makes a record uses an id a second time.
pub open spec fn replay_fresh(events: Seq<StatsEventView>, limit: usize) -> bool
    decreases events.len(),
{
    events.len() > 0 ==> replay_fresh(events.drop_last(), limit) && id_is_fresh(
        replay(events.drop_last(), limit),
        events.last(),
    )
}

proof fn lemma_replay_ranked(events: Seq<StatsEventView>, limit: usize)
    requires
        replay_fresh(events, limit),
    ensures
        ranked(replay(events, limit)),
    decreases events.len(),
{
    if events.len() > 0 {
        lemma_replay_ranked(events.drop_last(), limit);
        lemma_step_keeps_ranks(replay(events.drop_last(), limit), events.last(), limit);
    } else {
        assert(source_siblings(Map::<u64, StatsView>::empty(), Seq::<char>::empty()).len() >= 0);
    }
}

/// As long as ids are not used twice, two records of one call site never
/// have the same rank; where they also have the same label of their own, or
/// none, they are shown under different labels.
pub proof fn lemma_sibling_suffixes_unique(
    events: Seq<StatsEventView>,
    limit: usize,
    a: u64,
    b: u64,
)
    requires
        replay_fresh(events, limit),
        replay(events, limit).contains_key(a),
        replay(events, limit).contains_key(b),
        a != b,
        replay(events, limit)[a].source() == replay(events, limit)[b].source(),
    ensures
        replay(events, limit)[a].iter() != replay(events, limit)[b].iter(),
        replay(events, limit)[a].label() == replay(events, limit)[b].label()
            ==> resolve_label_spec(
            replay(events, limit)[a].source(),
            replay(events, limit)[a].label(),
            replay(events, limit)[a].iter(),
        ) != resolve_label_spec(
            replay(events, limit)[b].source(),
            replay(events, limit)[b].label(),
            replay(events, limit)[b].iter(),
        ),
{
    lemma_replay_ranked(events, limit);
    let t = replay(events, limit);
    lemma_sibling_labels_differ(t[a].source(), t[a].label(), t[a].iter(), t[b].iter());
}

/// How many messages were sent on the channel `id` since it was created.
pub open spec fn sent_since_created(events: Seq<StatsEventView>, id: u64) -> nat
    decreases events.len(),
{
    if events.len() == 0 {
        0
    } else {
        match events.last() {
            StatsEventView::Created { id: made, .. } if made == id => 0,
            StatsEventView::StreamCreated { id: made, .. } if made == id => 0,
            StatsEventView::MessageSent { id: on, .. } if on == id => sent_since_created(
                events.drop_last(),
                id,
            ) + 1,
            _ => sent_since_created(events.drop_last(), id),
        }
    }
}

/// How many messages were received on the channel `id` since it was created.
pub open spec fn received_since_created(events: Seq<StatsEventView>, id: u64) -> nat
    decreases events.len(),
{
    if events.len() == 0 {
        0
    } else {
        match events.last() {
            StatsEventView::Created { id: made, .. } if made == id => 0,
            StatsEventView::StreamCreated { id: made, .. } if made == id => 0,
            StatsEventView::MessageReceived { id: on, .. } if on == id => received_since_created(
                events.drop_last(),
                id,
            ) + 1,
            _ => received_since_created(events.drop_last(), id),
        }
    }
}

/// The counters of a channel say how many messages were reported as sent
/// and as received since the channel was created.
pub proof fn lemma_counters_count_events(events: Seq<StatsEventView>, limit: usize, id: u64)
    requires
        replay_fits(events, limit),
        replay(events, limit).contains_key(id),
        replay(events, limit)[id] is Channel,
    ensures
        (replay(events, limit)[id]->Channel_0).sent_count == sent_since_created(events, id),
        (replay(events, limit)[id]->Channel_0).received_count == received_since_created(
            events,
            id,
        ),
    decreases events.len(),
{
    if events.len() > 0 {
        let before = replay(events.drop_last(), limit);
        let event = events.last();
        if event.creates() && event.id() == id {
        } else {
            assert(before.contains_key(id) && before[id] is Channel);
            lemma_counters_count_events(events.drop_last(), limit, id);
        }
    }
}

/// Events that fit as a whole fit up to any point.
pub proof fn lemma_replay_fits_so_far(events: Seq<StatsEventView>, limit: usize, k: int)
    requires
        replay_fits(events, limit),
        0 <= k <= events.len(),
    ensures
        replay_fits(events.take(k), limit),
    decreases events.len(),
{
    if k == events.len() {
        assert(events.take(k) =~= events);
    } else {
        lemma_replay_fits_so_far(events.drop_last(), limit, k);
        assert(events.drop_last().take(k) =~= events.take(k));
    }
}

/// After every event of a run, a channel shows no more messages received
/// than sent, as long as up to then no more of them were reported as
/// received than as sent: that is, as long as each message is reported as
/// received only after it was reported as sent.
pub proof fn lemma_received_never_exceeds_sent(
    events: Seq<StatsEventView>,
    limit: usize,
    id: u64,
    k: int,
)
    requires
        replay_fits(events, limit),
        0 <= k <= events.len(),
        received_since_created(events.take(k), id) <= sent_since_created(events.take(k), id),
        replay(events.take(k), limit).contains_key(id),
        replay(events.take(k), limit)[id] is Channel,
    ensures
        (replay(events.take(k), limit)[id]->Channel_0).received_count <= (replay(
            events.take(k),
            limit,
        )[id]->Channel_0).sent_count,
{
    lemma_replay_fits_so_far(events, limit, k);
    lemma_counters_count_events(events.take(k), limit, id);
}

/// No counter ever falls: whatever event comes, as long as it does not make
/// the record anew, a channel shows at least as many messages sent and
/// received as before, and a stream at least as many items yielded.
pub proof fn lemma_counters_never_fall(
    t: Map<u64, StatsView>,
    event: StatsEventView,
    limit: usize,
    id: u64,
)
    requires
        t.contains_key(id),
        event_fits(t, event),
        !(event.creates() && event.id() == id),
    ensures
        step(t, event, limit).contains_key(id),
        match (t[id], step(t, event, limit)[id]) {
            (StatsView::Channel(before), StatsView::Channel(after)) => {
                &&& before.sent_count <= after.sent_count <= before.sent_count + 1
                &&& before.received_count <= after.received_count <= before.received_count + 1
            },
            (StatsView::Stream(before), StatsView::Stream(after)) => before.items_yielded
                <= after.items_yielded <= before.items_yielded + 1,
            _ => false,
        },
{
}

/// Whether the log entries of the channel are in the order of their
/// making: no more messages received than sent, no sent entry later than
/// `horizon`, and no received entry earlier than the sent entry of the same
/// index.
pub open spec fn channel_causal(c: ChannelStatsView, horizon: u64) -> bool {
    &&& c.received_count <= c.sent_count
    &&& forall|i: int|
        0 <= i < c.sent_logs.len() ==> (#[trigger] c.sent_logs[i]).timestamp <= horizon
    &&& forall|i: int, j: int|
        0 <= i < c.sent_logs.len() && 0 <= j < c.received_logs.len() && (
        #[trigger] c.sent_logs[i]).index == (#[trigger] c.received_logs[j]).index
            ==> c.sent_logs[i].timestamp <= c.received_logs[j].timestamp
}

/// Whether the log entries of every channel are in the order of their making.
pub open spec fn causal(t: Map<u64, StatsView>, horizon: u64) -> bool {
    forall|k: u64|
        t.contains_key(k) && (#[trigger] t[k]) is Channel ==> channel_causal(
            t[k]->Channel_0,
            horizon,
        )
}

/// Whether `event` comes in the order that the forwarders keep: its time is
/// not before `horizon`, the time of the events before it, and fits 64
/// bits; and a message is reported as received only after it was reported as
/// sent.
pub open spec fn event_in_order(
    t: Map<u64, StatsView>,
    event: StatsEventView,
    horizon: u64,
) -> bool {
    match event {
        StatsEventView::MessageSent { elapsed_nanos, .. } => horizon <= elapsed_nanos
            <= u64::MAX,
        StatsEventView::MessageReceived { id, elapsed_nanos } => {
            &&& horizon <= elapsed_nanos <= u64::MAX
            &&& t.contains_key(id) && t[id] is Channel ==> (t[id]->Channel_0).received_count < (
            t[id]->Channel_0).sent_count
        },
        _ => true,
    }
}

/// The time of the latest message once `event` is handled.
pub open spec fn horizon_after(event: StatsEventView, horizon: u64) -> u64 {
    match event {
        StatsEventView::MessageSent { elapsed_nanos, .. } => elapsed_nanos as u64,
        StatsEventView::MessageReceived { elapsed_nanos, .. } => elapsed_nanos as u64,
        _ => horizon,
    }
}

/// Handling an event that comes in order keeps the log entries in the
/// order of their making.
pub proof fn lemma_step_keeps_causal(
    t: Map<u64, StatsView>,
    event: StatsEventView,
    limit: usize,
    horizon: u64,
)
    requires
        table_wf(t),
        causal(t, horizon),
        event_fits(t, event),
        event_in_order(t, event, horizon),
    ensures
        causal(step(t, event, limit), horizon_after(event, horizon)),
        horizon <= horizon_after(event, horizon),
{
    let next = step(t, event, limit);
    let later = horizon_after(event, horizon);
    assert forall|k: u64|
        next.contains_key(k) && (#[trigger] next[k]) is Channel implies channel_causal(
        next[k]->Channel_0,
        later,
    ) by {
        let n = next[k]->Channel_0;
        if k != event.id() || !t.contains_key(k) || !(t[k] is Channel) {
            if t.contains_key(k) && t[k] is Channel && next[k] == t[k] {
                assert(channel_causal(t[k]->Channel_0, horizon));
            }
        } else {
            let c = t[k]->Channel_0;
            assert(channel_causal(c, horizon));
            assert(record_wf(k, t[k]));
            match event {
                StatsEventView::MessageSent { id, log, elapsed_nanos } => {
                    assert(stored_nanos(elapsed_nanos) == elapsed_nanos);
                    let newest = n.sent_logs[n.sent_logs.len() - 1];
                    assert forall|i: int| 0 <= i < n.sent_logs.len() implies (
                    #[trigger] n.sent_logs[i]).timestamp <= later by {
                        lemma_ring_push_members(c.sent_logs, newest, limit, i);
                    }
                    assert forall|i: int, j: int|
                        0 <= i < n.sent_logs.len() && 0 <= j < n.received_logs.len() && (
                        #[trigger] n.sent_logs[i]).index == (
                        #[trigger] n.received_logs[j]).index implies n.sent_logs[i].timestamp
                        <= n.received_logs[j].timestamp by {
                        lemma_ring_push_members(c.sent_logs, newest, limit, i);
                        assert(c.received_logs[j].index <= c.received_count);
                    }
                },
                StatsEventView::MessageReceived { id, elapsed_nanos } => {
                    assert(stored_nanos(elapsed_nanos) == elapsed_nanos);
                    assert forall|i: int, j: int|
                        0 <= i < n.sent_logs.len() && 0 <= j < n.received_logs.len() && (
                        #[trigger] n.sent_logs[i]).index == (
                        #[trigger] n.received_logs[j]).index implies n.sent_logs[i].timestamp
                        <= n.received_logs[j].timestamp by {
                        lemma_ring_push_members(
                            c.received_logs,
                            n.received_logs[n.received_logs.len() - 1],
                            limit,
                            j,
                        );
                    }
                },
                _ => {},
            }
        }
    }
}

/// Each entry of a ring that has taken in `entry` is `entry`, at the end,
/// or an entry that the ring held before.
proof fn lemma_ring_push_members(ring: Seq<LogEntryView>, entry: LogEntryView, limit: usize, i: int)
    requires
        0 <= i < ring_push(ring, entry, limit).len(),
    ensures
        ({
            let next = ring_push(ring, entry, limit);
            if i == next.len() - 1 {
                next[i] == entry
            } else {
                exists|j: int| 0 <= j < ring.len() && ring[j] == next[i]
            }
        }),
{
    let next = ring_push(ring, entry, limit);
    if i < next.len() - 1 {
        if ring.len() >= limit && ring.len() > 0 {
            assert(ring[i + 1] == next[i]);
        } else {
            assert(ring[i] == next[i]);
        }
    }
}

/// The time of the latest message among `events`; 0 where there is none.
pub open spec fn latest_time(events: Seq<StatsEventView>) -> u64
    decreases events.len(),
{
    if events.len() == 0 {
        0
    } else {
        horizon_after(events.last(), latest_time(events.drop_last()))
    }
}

/// Whether each of `events` comes in the order that the forwarders keep.
pub open spec fn replay_in_order(events: Seq<StatsEventView>, limit: usize) -> bool
    decreases events.len(),
{
    events.len() > 0 ==> replay_in_order(events.drop_last(), limit) && event_in_order(
        replay(events.drop_last(), limit),
        events.last(),
        latest_time(events.drop_last()),
    )
}

proof fn lemma_replay_causal(events: Seq<StatsEventView>, limit: usize)
    requires
        replay_fits(events, limit),
        replay_in_order(events, limit),
    ensures
        causal(replay(events, limit), latest_time(events)),
    decreases events.len(),
{
    if events.len() > 0 {
        lemma_replay_causal(events.drop_last(), limit);
        lemma_replay_wf(events.drop_last(), limit);
        lemma_step_keeps_causal(
            replay(events.drop_last(), limit),
            events.last(),
            limit,
            latest_time(events.drop_last()),
        );
    }
}

/// Where the events come in the order that the forwarders keep, a channel
/// never shows more messages received than sent; for each sent entry there
/// is at most one received entry with its index; and where there is one, it
/// is not earlier than the sent entry.
pub proof fn lemma_received_follows_sent(events: Seq<StatsEventView>, limit: usize, id: u64)
    requires
        replay_fits(events, limit),
        replay_in_order(events, limit),
        replay(events, limit).contains_key(id),
        replay(events, limit)[id] is Channel,
    ensures
        ({
            let c = replay(events, limit)[id]->Channel_0;
            &&& c.received_count <= c.sent_count
            &&& forall|i: int, j: int|
                0 <= i < c.received_logs.len() && 0 <= j < c.received_logs.len() && i != j ==> (
                #[trigger] c.received_logs[i]).index != (#[trigger] c.received_logs[j]).index
            &&& forall|i: int, j: int|
                0 <= i < c.sent_logs.len() && 0 <= j < c.received_logs.len() && (
                #[trigger] c.sent_logs[i]).index == (#[trigger] c.received_logs[j]).index
                    ==> c.sent_logs[i].timestamp <= c.received_logs[j].timestamp
        }),
{
    lemma_replay_causal(events, limit);
    lemma_replay_wf(events, limit);
    let t = replay(events, limit);
    let c = t[id]->Channel_0;
    assert(channel_causal(c, latest_time(events)));
    assert(record_wf(id, t[id]));
}

} // verus!
