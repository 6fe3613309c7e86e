//! The statistics collector: the table of endpoint records and the effect of
//! each event on it.

use vstd::prelude::*;
use vstd::std_specs::hash::*;
use vstd::std_specs::iter::IteratorSpec;
use std::collections::HashMap;
use std::collections::VecDeque;
use crate::model::{
    derived_state, log_views, queued_of, stored_nanos, text_of, ChannelState, ChannelStats,
    ChannelStatsView, ChannelType, LogEntry, LogEntryView, Stats, StatsView, StreamStats,
    StreamStatsView,
};
use crate::text::str_eq;

verus! {

/// The ids of the records that were created at `source`.
pub open spec fn source_siblings(t: Map<u64, StatsView>, source: Seq<char>) -> Set<u64> {
    t.dom().filter(|k: u64| t[k].source() == source)
}

/// How many records were created at `source`.
pub open spec fn same_source_count(t: Map<u64, StatsView>, source: Seq<char>) -> nat {
    source_siblings(t, source).len()
}

/// How many of `keys` are ids of records that were created at `source`.
spec fn count_siblings(keys: Seq<u64>, t: Map<u64, StatsView>, source: Seq<char>) -> nat
    decreases keys.len(),
{
    if keys.len() == 0 {
        0
    } else {
        count_siblings(keys.drop_last(), t, source) + if t[keys.last()].source() == source {
            1nat
        } else {
            0nat
        }
    }
}

proof fn lemma_count_siblings(keys: Seq<u64>, t: Map<u64, StatsView>, source: Seq<char>)
    requires
        keys.no_duplicates(),
    ensures
        count_siblings(keys, t, source) == keys.to_set().filter(
            |k: u64| t[k].source() == source,
        ).len(),
        count_siblings(keys, t, source) <= keys.len(),
    decreases keys.len(),
{
    let p = |k: u64| t[k].source() == source;
    if keys.len() == 0 {
        assert(keys.to_set().filter(p) =~= Set::<u64>::empty());
    } else {
        let rest = keys.drop_last();
        let x = keys.last();
        lemma_count_siblings(rest, t, source);
        assert(!rest.contains(x)) by {
            if rest.contains(x) {
                let i = choose|i: int| 0 <= i < rest.len() && rest[i] == x;
                assert(keys[i] == keys[keys.len() - 1]);
            }
        }
        assert(keys =~= rest.push(x));
        rest.lemma_push_to_set_commute(x);
        assert(keys.to_set() =~= rest.to_set().insert(x));
        vstd::seq_lib::seq_to_set_is_finite(rest);
        if p(x) {
            assert(keys.to_set().filter(p) =~= rest.to_set().filter(p).insert(x));
        } else {
            assert(keys.to_set().filter(p) =~= rest.to_set().filter(p));
        }
    }
}

/// What a wrapper reports to the collector. Times are nanoseconds since the
/// start-time anchor.
#[derive(Debug)]
pub enum StatsEvent {
    Created {
        id: u64,
        source: &'static str,
        display_label: Option<String>,
        channel_type: ChannelType,
        payload_type: &'static str,
        type_size: usize,
    },
    MessageSent { id: u64, log: Option<String>, elapsed_nanos: u128 },
    MessageReceived { id: u64, elapsed_nanos: u128 },
    Closed { id: u64 },
    Notified { id: u64 },
    StreamCreated {
        id: u64,
        source: &'static str,
        display_label: Option<String>,
        payload_type: &'static str,
        type_size: usize,
    },
    StreamItemYielded { id: u64, log: Option<String>, elapsed_nanos: u128 },
    StreamCompleted { id: u64 },
}

/// An event with its texts as sequences of characters.
pub enum StatsEventView {
    Created {
        id: u64,
        source: Seq<char>,
        display_label: Option<Seq<char>>,
        channel_type: ChannelType,
        payload_type: Seq<char>,
        type_size: usize,
    },
    MessageSent { id: u64, log: Option<Seq<char>>, elapsed_nanos: u128 },
    MessageReceived { id: u64, elapsed_nanos: u128 },
    Closed { id: u64 },
    Notified { id: u64 },
    StreamCreated {
        id: u64,
        source: Seq<char>,
        display_label: Option<Seq<char>>,
        payload_type: Seq<char>,
        type_size: usize,
    },
    StreamItemYielded { id: u64, log: Option<Seq<char>>, elapsed_nanos: u128 },
    StreamCompleted { id: u64 },
}

impl View for StatsEvent {
    type V = StatsEventView;

    open spec fn view(&self) -> StatsEventView {
        match self {
            StatsEvent::Created {
                id,
                source,
                display_label,
                channel_type,
                payload_type,
                type_size,
            } => StatsEventView::Created {
                id: *id,
                source: source@,
                display_label: text_of(*display_label),
                channel_type: *channel_type,
                payload_type: payload_type@,
                type_size: *type_size,
            },
            StatsEvent::MessageSent { id, log, elapsed_nanos } => StatsEventView::MessageSent {
                id: *id,
                log: text_of(*log),
                elapsed_nanos: *elapsed_nanos,
            },
            StatsEvent::MessageReceived { id, elapsed_nanos } => StatsEventView::MessageReceived {
                id: *id,
                elapsed_nanos: *elapsed_nanos,
            },
            StatsEvent::Closed { id } => StatsEventView::Closed { id: *id },
            StatsEvent::Notified { id } => StatsEventView::Notified { id: *id },
            StatsEvent::StreamCreated {
                id,
                source,
                display_label,
                payload_type,
                type_size,
            } => StatsEventView::StreamCreated {
                id: *id,
                source: source@,
                display_label: text_of(*display_label),
                payload_type: payload_type@,
                type_size: *type_size,
            },
            StatsEvent::StreamItemYielded {
                id,
                log,
                elapsed_nanos,
            } => StatsEventView::StreamItemYielded {
                id: *id,
                log: text_of(*log),
                elapsed_nanos: *elapsed_nanos,
            },
            StatsEvent::StreamCompleted { id } => StatsEventView::StreamCompleted { id: *id },
        }
    }
}

impl StatsEventView {
    /// The endpoint that the event is about.
    pub open spec fn id(self) -> u64 {
        match self {
            StatsEventView::Created { id, .. } => id,
            StatsEventView::MessageSent { id, .. } => id,
            StatsEventView::MessageReceived { id, .. } => id,
            StatsEventView::Closed { id } => id,
            StatsEventView::Notified { id } => id,
            StatsEventView::StreamCreated { id, .. } => id,
            StatsEventView::StreamItemYielded { id, .. } => id,
            StatsEventView::StreamCompleted { id } => id,
        }
    }

    /// Whether the event makes a record.
    pub open spec fn creates(self) -> bool {
        self is Created || self is StreamCreated
    }
}

/// A ring after `entry` came in under the cap `limit`: the entry goes to
/// the end, and where the ring then holds more than the cap, its oldest entry
/// leaves. Under a cap of 0 the ring stays empty.
pub open spec fn ring_push(ring: Seq<LogEntryView>, entry: LogEntryView, limit: usize) -> Seq<
    LogEntryView,
> {
    let longer = ring.push(entry);
    if longer.len() > limit {
        longer.drop_first()
    } else {
        longer
    }
}

/// The rank given to a record that is created at `source`: the number of
/// records that were created there before, as far as 32 bits hold it.
pub open spec fn next_iter(t: Map<u64, StatsView>, source: Seq<char>) -> u32 {
    (same_source_count(t, source) % 0x1_0000_0000) as u32
}

/// A channel record after one more message was sent.
pub open spec fn after_sent(
    c: ChannelStatsView,
    log: Option<Seq<char>>,
    elapsed_nanos: u128,
    limit: usize,
) -> ChannelStatsView {
    let sent = (c.sent_count + 1) as u64;
    ChannelStatsView {
        sent_count: sent,
        state: derived_state(c.state, c.channel_type, sent, c.received_count),
        sent_logs: ring_push(
            c.sent_logs,
            LogEntryView { index: sent, timestamp: stored_nanos(elapsed_nanos), message: log },
            limit,
        ),
        ..c
    }
}

/// A channel record after one more message was received.
pub open spec fn after_received(
    c: ChannelStatsView,
    elapsed_nanos: u128,
    limit: usize,
) -> ChannelStatsView {
    let received = (c.received_count + 1) as u64;
    ChannelStatsView {
        received_count: received,
        state: derived_state(c.state, c.channel_type, c.sent_count, received),
        received_logs: ring_push(
            c.received_logs,
            LogEntryView {
                index: received,
                timestamp: stored_nanos(elapsed_nanos),
                message: None,
            },
            limit,
        ),
        ..c
    }
}

/// A stream record after one more item was yielded.
pub open spec fn after_yielded(
    s: StreamStatsView,
    log: Option<Seq<char>>,
    elapsed_nanos: u128,
    limit: usize,
) -> StreamStatsView {
    let yielded = (s.items_yielded + 1) as u64;
    StreamStatsView {
        items_yielded: yielded,
        yielded_logs: ring_push(
            s.yielded_logs,
            LogEntryView { index: yielded, timestamp: stored_nanos(elapsed_nanos), message: log },
            limit,
        ),
        ..s
    }
}

/// A record with its state set to `state`.
pub open spec fn with_state(s: StatsView, state: ChannelState) -> StatsView {
    match s {
        StatsView::Channel(c) => StatsView::Channel(ChannelStatsView { state, ..c }),
        StatsView::Stream(r) => StatsView::Stream(StreamStatsView { state, ..r }),
    }
}

/// A record brought to the terminal state `state`. A record that is in a
/// terminal state already stays as it is: a terminal state is never left.
pub open spec fn settled(s: StatsView, state: ChannelState) -> StatsView {
    if s.state().is_terminal() {
        s
    } else {
        with_state(s, state)
    }
}

/// The table after the collector has handled `event` under the log cap
/// `limit`. An event about an id without a record, or about a record of the
/// other kind, changes nothing; `Closed` alone closes channels and streams.
/// No event but one that makes the record anew changes a terminal state.
pub open spec fn step(t: Map<u64, StatsView>, event: StatsEventView, limit: usize) -> Map<
    u64,
    StatsView,
> {
    match event {
        StatsEventView::Created {
            id,
            source,
            display_label,
            channel_type,
            payload_type,
            type_size,
        } => t.insert(
            id,
            StatsView::Channel(
                ChannelStatsView::fresh(
                    id,
                    source,
                    display_label,
                    channel_type,
                    payload_type,
                    type_size,
                    next_iter(t, source),
                ),
            ),
        ),
        StatsEventView::StreamCreated {
            id,
            source,
            display_label,
            payload_type,
            type_size,
        } => t.insert(
            id,
            StatsView::Stream(
                StreamStatsView::fresh(
                    id,
                    source,
                    display_label,
                    payload_type,
                    type_size,
                    next_iter(t, source),
                ),
            ),
        ),
        StatsEventView::MessageSent { id, log, elapsed_nanos } => {
            if t.contains_key(id) && t[id] is Channel {
                t.insert(
                    id,
                    StatsView::Channel(after_sent(t[id]->Channel_0, log, elapsed_nanos, limit)),
                )
            } else {
                t
            }
        },
        StatsEventView::MessageReceived { id, elapsed_nanos } => {
            if t.contains_key(id) && t[id] is Channel {
                t.insert(
                    id,
                    StatsView::Channel(after_received(t[id]->Channel_0, elapsed_nanos, limit)),
                )
            } else {
                t
            }
        },
        StatsEventView::Closed { id } => {
            if t.contains_key(id) {
                t.insert(id, settled(t[id], ChannelState::Closed))
            } else {
                t
            }
        },
        StatsEventView::Notified { id } => {
            if t.contains_key(id) && t[id] is Channel {
                t.insert(id, settled(t[id], ChannelState::Notified))
            } else {
                t
            }
        },
        StatsEventView::StreamItemYielded { id, log, elapsed_nanos } => {
            if t.contains_key(id) && t[id] is Stream {
                t.insert(
                    id,
                    StatsView::Stream(after_yielded(t[id]->Stream_0, log, elapsed_nanos, limit)),
                )
            } else {
                t
            }
        },
        StatsEventView::StreamCompleted { id } => {
            if t.contains_key(id) && t[id] is Stream {
                t.insert(id, settled(t[id], ChannelState::Closed))
            } else {
                t
            }
        },
    }
}

/// Whether the counters that `event` moves have room to move: a counter
/// below its greatest value, and a byte count of queued messages that still
/// fits 64 bits.
pub open spec fn event_fits(t: Map<u64, StatsView>, event: StatsEventView) -> bool {
    match event {
        StatsEventView::MessageSent { id, .. } => t.contains_key(id) && t[id] is Channel ==> {
            let c = t[id]->Channel_0;
            &&& c.sent_count < u64::MAX
            &&& queued_of((c.sent_count + 1) as u64, c.received_count) * c.type_size <= u64::MAX
        },
        StatsEventView::MessageReceived { id, .. } => t.contains_key(id) && t[id] is Channel
            ==> (t[id]->Channel_0).received_count < u64::MAX,
        StatsEventView::StreamItemYielded { id, .. } => t.contains_key(id) && t[id] is Stream
            ==> (t[id]->Stream_0).items_yielded < u64::MAX,
        _ => true,
    }
}

/// A ring that holds the latest entries of a counter that stands at
/// `count`: their indices are the last `ring.len()` values of the counter,
/// in order.
pub open spec fn ring_ok(ring: Seq<LogEntryView>, count: u64) -> bool {
    &&& ring.len() <= count
    &&& forall|i: int|
        0 <= i < ring.len() ==> (#[trigger] ring[i]).index == count - ring.len() + 1 + i
}

/// What holds of every record of the table: it is filed under its own id,
/// its rings hold the latest entries of their counters, and the bytes of its
/// queued messages fit 64 bits.
pub open spec fn record_wf(k: u64, s: StatsView) -> bool {
    &&& s.id() == k
    &&& match s {
        StatsView::Channel(c) => {
            &&& c.queued_bytes() <= u64::MAX
            &&& ring_ok(c.sent_logs, c.sent_count)
            &&& ring_ok(c.received_logs, c.received_count)
        },
        StatsView::Stream(r) => ring_ok(r.yielded_logs, r.items_yielded),
    }
}

/// Whether every record of the table is well formed.
pub open spec fn table_wf(t: Map<u64, StatsView>) -> bool {
    forall|k: u64| t.contains_key(k) ==> record_wf(k, #[trigger] t[k])
}

/// A ring that holds the latest entries still does so after the entry of
/// the next counter value came in.
pub proof fn lemma_ring_push_ok(
    ring: Seq<LogEntryView>,
    entry: LogEntryView,
    count: u64,
    limit: usize,
)
    requires
        ring_ok(ring, count),
        count < u64::MAX,
        entry.index == count + 1,
    ensures
        ring_ok(ring_push(ring, entry, limit), (count + 1) as u64),
{
    let next = ring_push(ring, entry, limit);
    assert forall|i: int| 0 <= i < next.len() implies (#[trigger] next[i]).index == (count + 1)
        - next.len() + 1 + i by {
        let longer = ring.push(entry);
        if longer.len() > limit {
            assert(next[i] == longer[i + 1]);
        } else {
            assert(next[i] == longer[i]);
        }
    }
}

/// Handling an event that fits keeps the table well formed.
pub proof fn lemma_step_keeps_wf(t: Map<u64, StatsView>, event: StatsEventView, limit: usize)
    requires
        table_wf(t),
        event_fits(t, event),
    ensures
        table_wf(step(t, event, limit)),
{
    let next = step(t, event, limit);
    let id = event.id();
    assert forall|k: u64| next.contains_key(k) implies record_wf(k, #[trigger] next[k]) by {
        if k != id {
            assert(t.contains_key(k) && next[k] == t[k]);
        } else {
            match event {
                StatsEventView::MessageSent { id, log, elapsed_nanos } => {
                    if t.contains_key(id) && t[id] is Channel {
                        let c = t[id]->Channel_0;
                        let sent = (c.sent_count + 1) as u64;
                        lemma_ring_push_ok(
                            c.sent_logs,
                            LogEntryView {
                                index: sent,
                                timestamp: stored_nanos(elapsed_nanos),
                                message: log,
                            },
                            c.sent_count,
                            limit,
                        );
                    }
                },
                StatsEventView::MessageReceived { id, elapsed_nanos } => {
                    if t.contains_key(id) && t[id] is Channel {
                        let c = t[id]->Channel_0;
                        let received = (c.received_count + 1) as u64;
                        lemma_ring_push_ok(
                            c.received_logs,
                            LogEntryView {
                                index: received,
                                timestamp: stored_nanos(elapsed_nanos),
                                message: None,
                            },
                            c.received_count,
                            limit,
                        );
                        assert(queued_of(c.sent_count, received) <= queued_of(
                            c.sent_count,
                            c.received_count,
                        ));
                        assert(queued_of(c.sent_count, received) * c.type_size <= queued_of(
                            c.sent_count,
                            c.received_count,
                        ) * c.type_size) by (nonlinear_arith)
                            requires
                                queued_of(c.sent_count, received) <= queued_of(
                                    c.sent_count,
                                    c.received_count,
                                ),
                        ;
                    }
                },
                StatsEventView::StreamItemYielded { id, log, elapsed_nanos } => {
                    if t.contains_key(id) && t[id] is Stream {
                        let r = t[id]->Stream_0;
                        let yielded = (r.items_yielded + 1) as u64;
                        lemma_ring_push_ok(
                            r.yielded_logs,
                            LogEntryView {
                                index: yielded,
                                timestamp: stored_nanos(elapsed_nanos),
                                message: log,
                            },
                            r.items_yielded,
                            limit,
                        );
                    }
                },
                StatsEventView::Created { type_size, .. } => {
                    assert(0 * (type_size as nat) == 0) by (nonlinear_arith);
                },
                _ => {},
            }
        }
    }
}

/// The views of a sequence of records.
pub open spec fn stats_views(s: Seq<Stats>) -> Seq<StatsView> {
    s.map_values(|x: Stats| x@)
}

/// Whether `s` lists the records of `t`: nothing but records of the table
/// as they stand there, none twice, and every one of them.
pub open spec fn lists_table(s: Seq<StatsView>, t: Map<u64, StatsView>) -> bool {
    &&& forall|i: int|
        0 <= i < s.len() ==> t.contains_key((#[trigger] s[i]).id()) && t[s[i].id()] == s[i]
    &&& forall|i: int, j: int|
        0 <= i < j < s.len() ==> (#[trigger] s[i]).id() != (#[trigger] s[j]).id()
    &&& forall|k: u64|
        t.contains_key(k) ==> exists|i: int| 0 <= i < s.len() && (#[trigger] s[i]).id() == k
}

/// The state of a record that is brought to the terminal state `to`: a
/// terminal state stays.
fn settle(state: ChannelState, to: ChannelState) -> (r: ChannelState)
    ensures
        r == if state.is_terminal() {
            state
        } else {
            to
        },
{
    if state == ChannelState::Closed || state == ChannelState::Notified {
        state
    } else {
        to
    }
}

/// Puts `entry` into a ring under the cap `limit`.
fn push_log(ring: &mut VecDeque<LogEntry>, entry: LogEntry, limit: usize)
    ensures
        log_views(final(ring)@) == ring_push(log_views(old(ring)@), entry@, limit),
{
    ring.push_back(entry);
    if ring.len() > limit {
        ring.pop_front();
    }
    assert(log_views(ring@) =~= ring_push(log_views(old(ring)@), entry@, limit));
}

/// The table of endpoint records, by id.
pub struct StatsTable {
    records: HashMap<u64, Stats>,
}

impl View for StatsTable {
    type V = Map<u64, StatsView>;

    closed spec fn view(&self) -> Map<u64, StatsView> {
        self.records@.map_values(|s: Stats| s@)
    }
}

impl StatsTable {
    /// A table without records.
    pub fn new() -> (r: Self)
        ensures
            r@ == Map::<u64, StatsView>::empty(),
            r.wf(),
    {
        let r = StatsTable { records: HashMap::new() };
        assert(r@ =~= Map::<u64, StatsView>::empty());
        r
    }

    /// Whether every record is filed under its id, with rings that hold the
    /// latest entries and a byte count that fits.
    pub open spec fn wf(&self) -> bool {
        table_wf(self@)
    }

    /// The record of `id`, if there is one.
    pub fn get(&self, id: u64) -> (r: Option<&Stats>)
        ensures
            match r {
                Some(s) => self@.contains_key(id) && s@ == self@[id],
                None => !self@.contains_key(id),
            },
    {
        self.records.get(&id)
    }

    /// The number of records.
    pub fn len(&self) -> (n: usize)
        ensures
            n == self@.dom().len(),
    {
        assert(self@.dom() =~= self.records@.dom());
        self.records.len()
    }

    /// Whether the counters that `event` moves have room to move.
    pub fn accepts(&self, event: &StatsEvent) -> (r: bool)
        ensures
            r == event_fits(self@, event@),
    {
        match event {
            StatsEvent::MessageSent { id, .. } => match self.records.get(id) {
                Some(Stats::Channel(c)) => {
                    if c.sent_count == u64::MAX {
                        false
                    } else {
                        let queued = (c.sent_count + 1).saturating_sub(
                            c.received_count,
                        ).saturating_sub(1);
                        assert((queued as int) * (c.type_size as int) <= 0xffff_ffff_ffff_ffff
                            * 0xffff_ffff_ffff_ffff) by (nonlinear_arith)
                            requires
                                0 <= queued <= 0xffff_ffff_ffff_ffff,
                                0 <= c.type_size <= 0xffff_ffff_ffff_ffff,
                        ;
                        (queued as u128) * (c.type_size as u128) <= u64::MAX as u128
                    }
                },
                _ => true,
            },
            StatsEvent::MessageReceived { id, .. } => match self.records.get(id) {
                Some(Stats::Channel(c)) => c.received_count < u64::MAX,
                _ => true,
            },
            StatsEvent::StreamItemYielded { id, .. } => match self.records.get(id) {
                Some(Stats::Stream(s)) => s.items_yielded < u64::MAX,
                _ => true,
            },
            _ => true,
        }
    }

    /// Handles one event under the log cap `limit`.
    pub fn apply_event(&mut self, event: StatsEvent, limit: usize)
        requires
            old(self).wf(),
            event_fits(old(self)@, event@),
        ensures
            final(self)@ == step(old(self)@, event@, limit),
            final(self).wf(),
    {
        proof {
            lemma_step_keeps_wf(self@, event@, limit);
        }
        match event {
            StatsEvent::Created {
                id,
                source,
                display_label,
                channel_type,
                payload_type,
                type_size,
            } => {
                let iter = self.next_iter(source);
                self.records.insert(
                    id,
                    Stats::Channel(
                        ChannelStats::new(
                            id,
                            source,
                            display_label,
                            channel_type,
                            payload_type,
                            type_size,
                            iter,
                        ),
                    ),
                );
            },
            StatsEvent::StreamCreated { id, source, display_label, payload_type, type_size } => {
                let iter = self.next_iter(source);
                self.records.insert(
                    id,
                    Stats::Stream(
                        StreamStats::new(id, source, display_label, payload_type, type_size, iter),
                    ),
                );
            },
            StatsEvent::MessageSent { id, log, elapsed_nanos } => {
                match self.records.remove(&id) {
                    Some(Stats::Channel(mut c)) => {
                        c.sent_count = c.sent_count + 1;
                        c.update_state();
                        let entry = LogEntry::new(c.sent_count, elapsed_nanos, log);
                        push_log(&mut c.sent_logs, entry, limit);
                        self.records.insert(id, Stats::Channel(c));
                    },
                    Some(other) => {
                        self.records.insert(id, other);
                    },
                    None => {},
                }
            },
            StatsEvent::MessageReceived { id, elapsed_nanos } => {
                match self.records.remove(&id) {
                    Some(Stats::Channel(mut c)) => {
                        c.received_count = c.received_count + 1;
                        c.update_state();
                        let entry = LogEntry::new(c.received_count, elapsed_nanos, None);
                        push_log(&mut c.received_logs, entry, limit);
                        self.records.insert(id, Stats::Channel(c));
                    },
                    Some(other) => {
                        self.records.insert(id, other);
                    },
                    None => {},
                }
            },
            StatsEvent::Closed { id } => {
                match self.records.remove(&id) {
                    Some(Stats::Channel(mut c)) => {
                        c.state = settle(c.state, ChannelState::Closed);
                        self.records.insert(id, Stats::Channel(c));
                    },
                    Some(Stats::Stream(mut s)) => {
                        s.state = settle(s.state, ChannelState::Closed);
                        self.records.insert(id, Stats::Stream(s));
                    },
                    None => {},
                }
            },
            StatsEvent::Notified { id } => {
                match self.records.remove(&id) {
                    Some(Stats::Channel(mut c)) => {
                        c.state = settle(c.state, ChannelState::Notified);
                        self.records.insert(id, Stats::Channel(c));
                    },
                    Some(other) => {
                        self.records.insert(id, other);
                    },
                    None => {},
                }
            },
            StatsEvent::StreamItemYielded { id, log, elapsed_nanos } => {
                match self.records.remove(&id) {
                    Some(Stats::Stream(mut s)) => {
                        s.items_yielded = s.items_yielded + 1;
                        let entry = LogEntry::new(s.items_yielded, elapsed_nanos, log);
                        push_log(&mut s.yielded_logs, entry, limit);
                        self.records.insert(id, Stats::Stream(s));
                    },
                    Some(other) => {
                        self.records.insert(id, other);
                    },
                    None => {},
                }
            },
            StatsEvent::StreamCompleted { id } => {
                match self.records.remove(&id) {
                    Some(Stats::Stream(mut s)) => {
                        s.state = settle(s.state, ChannelState::Closed);
                        self.records.insert(id, Stats::Stream(s));
                    },
                    Some(other) => {
                        self.records.insert(id, other);
                    },
                    None => {},
                }
            },
        }
        assert(self@ =~= step(old(self)@, event@, limit));
    }

    /// A copy of every record, in no particular order.
    pub fn get_all_stats(&self) -> (r: Vec<Stats>)
        requires
            self.wf(),
        ensures
            lists_table(stats_views(r@), self@),
    {
        let ghost pairs = spec_hash_map_iter(&self.records).remaining();
        proof {
            axiom_spec_hash_map_iter(&self.records);
        }
        let mut r: Vec<Stats> = Vec::new();
        for pair in it: self.records.iter()
            invariant
                it.seq() == pairs,
                r@.len() == it.index(),
                forall|j: int| 0 <= j < r@.len() ==> (#[trigger] r@[j])@ == (*pairs[j].1)@,
        {
            assert(pair == pairs[it.index() as int]);
            r.push(pair.1.clone());
        }
        proof {
            let s = stats_views(r@);
            let t = self@;
            assert forall|i: int| 0 <= i < s.len() implies t.contains_key((#[trigger] s[i]).id())
                && t[s[i].id()] == s[i] && s[i].id() == *pairs[i].0 by {
                let k = *pairs[i].0;
                assert(self.records@.contains_key(k));
                assert(t.contains_key(k) && t[k] == s[i]);
                assert(record_wf(k, t[k]));
            }
            assert forall|i: int, j: int| 0 <= i < j < s.len() implies (#[trigger] s[i]).id() != (
            #[trigger] s[j]).id() by {
                if s[i].id() == s[j].id() {
                    assert(*pairs[i].0 == *pairs[j].0);
                    assert(*pairs[i].1 == *pairs[j].1);
                    assert(pairs[i] == pairs[j]);
                }
            }
            assert forall|k: u64| t.contains_key(k) implies exists|i: int|
                0 <= i < s.len() && (#[trigger] s[i]).id() == k by {
                assert(self.records@.contains_key(k));
                let v = self.records@[k];
                assert(pairs.contains((&k, &v)));
                let i = choose|i: int| 0 <= i < pairs.len() && pairs[i] == (&k, &v);
                assert(s[i].id() == k);
            }
        }
        r
    }

    /// The rank for a record that is about to be created at `source`.
    fn next_iter(&self, source: &str) -> (r: u32)
        ensures
            r == next_iter(self@, source@),
    {
        let count = self.count_same_source(source);
        ((count as u64) % 0x1_0000_0000) as u32
    }

    /// How many records were created at `source`.
    pub fn count_same_source(&self, source: &str) -> (n: usize)
        ensures
            n == same_source_count(self@, source@),
    {
        let ghost pairs = spec_hash_map_iter(&self.records).remaining();
        let ghost keys = pairs.map_values(|p: (&u64, &Stats)| *p.0);
        let ghost t = self@;
        proof {
            axiom_spec_hash_map_iter(&self.records);
        }
        let total = self.records.len();
        let mut n: usize = 0;
        for pair in it: self.records.iter()
            invariant
                it.seq() == pairs,
                pairs.len() == total,
                keys == pairs.map_values(|p: (&u64, &Stats)| *p.0),
                t == self@,
                pairs.len() == self.records@.dom().len(),
                forall|i: int|
                    0 <= i < pairs.len() ==> self.records@.contains_key(*(#[trigger] pairs[i]).0)
                        && self.records@[*pairs[i].0] == *pairs[i].1,
                n == count_siblings(keys.take(it.index() as int), t, source@),
                n <= it.index(),
        {
            let ghost i = it.index() as int;
            assert(pair == pairs[i]);
            assert(keys.take(i + 1).drop_last() =~= keys.take(i));
            assert(keys.take(i + 1).last() == *pairs[i].0);
            if str_eq(pair.1.source(), source) {
                n = n + 1;
            }
        }
        proof {
            assert(keys.take(pairs.len() as int) =~= keys);
            assert(keys.no_duplicates()) by {
                assert forall|i: int, j: int|
                    0 <= i < keys.len() && 0 <= j < keys.len() && i != j implies keys[i]
                    != keys[j] by {
                    if keys[i] == keys[j] {
                        assert(pairs[i].0 == pairs[j].0);
                        assert(*pairs[i].1 == *pairs[j].1);
                        assert(pairs[i] == pairs[j]);
                    }
                }
            }
            lemma_count_siblings(keys, t, source@);
            assert(keys.to_set() =~= t.dom()) by {
                assert forall|k: u64| t.dom().contains(k) implies keys.to_set().contains(k) by {
                    assert(self.records@.contains_key(k));
                    let v = self.records@[k];
                    assert(pairs.contains((&k, &v)));
                    let i = choose|i: int| 0 <= i < pairs.len() && pairs[i] == (&k, &v);
                    assert(keys[i] == k);
                }
                assert forall|k: u64| keys.to_set().contains(k) implies t.dom().contains(k) by {
                    let i = choose|i: int| 0 <= i < keys.len() && keys[i] == k;
                    assert(self.records@.contains_key(*pairs[i].0));
                }
            }
        }
        n
    }
}

} // verus!
