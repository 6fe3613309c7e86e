//! What the query surface hands out: the rows of a snapshot and the logs of
//! one endpoint, ready to be serialized.

use vstd::prelude::*;
use vstd::string::*;
use std::collections::VecDeque;
use crate::collector::{record_wf, ring_ok, table_wf, StatsTable};
use crate::label::{resolve_label, resolve_label_spec};
use crate::model::{
    label_text, log_views, stored_nanos, ChannelState, ChannelStats, ChannelStatsView,
    ChannelType, LogEntry, LogEntryView, Stats, StatsView, StreamStats, StreamStatsView,
};
use crate::query::{
    channel_ids, channel_views, get_sorted_channel_stats, get_sorted_stream_stats,
    lists_channels, orders_kind, stream_ids, stream_views,
};
use crate::text::{parse_unsigned, parse_unsigned_spec};

verus! {

/// One channel of a snapshot.
#[derive(Debug)]
pub struct SerializableChannelStats {
    pub id: u64,
    pub source: String,
    pub label: String,
    pub has_custom_label: bool,
    pub channel_type: ChannelType,
    pub state: ChannelState,
    pub sent_count: u64,
    pub received_count: u64,
    pub queued: u64,
    pub payload_type: String,
    pub type_size: usize,
    pub queued_bytes: u64,
    pub iter: u32,
}

/// A channel row with its texts as sequences of characters.
pub struct SerializableChannelStatsView {
    pub id: u64,
    pub source: Seq<char>,
    pub label: Seq<char>,
    pub has_custom_label: bool,
    pub channel_type: ChannelType,
    pub state: ChannelState,
    pub sent_count: u64,
    pub received_count: u64,
    pub queued: u64,
    pub payload_type: Seq<char>,
    pub type_size: usize,
    pub queued_bytes: u64,
    pub iter: u32,
}

impl View for SerializableChannelStats {
    type V = SerializableChannelStatsView;

    open spec fn view(&self) -> SerializableChannelStatsView {
        SerializableChannelStatsView {
            id: self.id,
            source: self.source@,
            label: self.label@,
            has_custom_label: self.has_custom_label,
            channel_type: self.channel_type,
            state: self.state,
            sent_count: self.sent_count,
            received_count: self.received_count,
            queued: self.queued,
            payload_type: self.payload_type@,
            type_size: self.type_size,
            queued_bytes: self.queued_bytes,
            iter: self.iter,
        }
    }
}

/// The row that shows a channel record.
pub open spec fn channel_row(c: ChannelStatsView) -> SerializableChannelStatsView {
    SerializableChannelStatsView {
        id: c.id,
        source: c.source,
        label: resolve_label_spec(c.source, c.label, c.iter),
        has_custom_label: c.label is Some,
        channel_type: c.channel_type,
        state: c.state,
        sent_count: c.sent_count,
        received_count: c.received_count,
        queued: c.queued() as u64,
        payload_type: c.payload_type,
        type_size: c.type_size,
        queued_bytes: c.queued_bytes() as u64,
        iter: c.iter,
    }
}

impl SerializableChannelStats {
    /// The row that shows `channel_stats`.
    pub fn from(channel_stats: &ChannelStats) -> (r: Self)
        requires
            channel_stats@.queued_bytes() <= u64::MAX,
        ensures
            r@ == channel_row(channel_stats@),
    {
        SerializableChannelStats {
            id: channel_stats.id,
            source: String::from_str(channel_stats.source),
            label: resolve_label(
                channel_stats.source,
                label_text(&channel_stats.label),
                channel_stats.iter,
            ),
            has_custom_label: channel_stats.label.is_some(),
            channel_type: channel_stats.channel_type,
            state: channel_stats.state,
            sent_count: channel_stats.sent_count,
            received_count: channel_stats.received_count,
            queued: channel_stats.queued(),
            payload_type: String::from_str(channel_stats.payload_type),
            type_size: channel_stats.type_size,
            queued_bytes: channel_stats.queued_bytes(),
            iter: channel_stats.iter,
        }
    }
}

/// One stream of a snapshot.
#[derive(Debug)]
pub struct SerializableStreamStats {
    pub id: u64,
    pub source: String,
    pub label: String,
    pub has_custom_label: bool,
    pub state: ChannelState,
    pub items_yielded: u64,
    pub payload_type: String,
    pub type_size: usize,
    pub iter: u32,
}

/// A stream row with its texts as sequences of characters.
pub struct SerializableStreamStatsView {
    pub id: u64,
    pub source: Seq<char>,
    pub label: Seq<char>,
    pub has_custom_label: bool,
    pub state: ChannelState,
    pub items_yielded: u64,
    pub payload_type: Seq<char>,
    pub type_size: usize,
    pub iter: u32,
}

impl View for SerializableStreamStats {
    type V = SerializableStreamStatsView;

    open spec fn view(&self) -> SerializableStreamStatsView {
        SerializableStreamStatsView {
            id: self.id,
            source: self.source@,
            label: self.label@,
            has_custom_label: self.has_custom_label,
            state: self.state,
            items_yielded: self.items_yielded,
            payload_type: self.payload_type@,
            type_size: self.type_size,
            iter: self.iter,
        }
    }
}

/// The row that shows a stream record.
pub open spec fn stream_row(s: StreamStatsView) -> SerializableStreamStatsView {
    SerializableStreamStatsView {
        id: s.id,
        source: s.source,
        label: resolve_label_spec(s.source, s.label, s.iter),
        has_custom_label: s.label is Some,
        state: s.state,
        items_yielded: s.items_yielded,
        payload_type: s.payload_type,
        type_size: s.type_size,
        iter: s.iter,
    }
}

impl SerializableStreamStats {
    /// The row that shows `stream_stats`.
    pub fn from(stream_stats: &StreamStats) -> (r: Self)
        ensures
            r@ == stream_row(stream_stats@),
    {
        SerializableStreamStats {
            id: stream_stats.id,
            source: String::from_str(stream_stats.source),
            label: resolve_label(
                stream_stats.source,
                label_text(&stream_stats.label),
                stream_stats.iter,
            ),
            has_custom_label: stream_stats.label.is_some(),
            state: stream_stats.state,
            items_yielded: stream_stats.items_yielded,
            payload_type: String::from_str(stream_stats.payload_type),
            type_size: stream_stats.type_size,
            iter: stream_stats.iter,
        }
    }
}

/// The views of a sequence of channel rows.
pub open spec fn channel_row_views(rows: Seq<SerializableChannelStats>) -> Seq<
    SerializableChannelStatsView,
> {
    rows.map_values(|x: SerializableChannelStats| x@)
}

/// The views of a sequence of stream rows.
pub open spec fn stream_row_views(rows: Seq<SerializableStreamStats>) -> Seq<
    SerializableStreamStatsView,
> {
    rows.map_values(|x: SerializableStreamStats| x@)
}

/// The ids of a sequence of channel rows.
pub open spec fn channel_row_ids(rows: Seq<SerializableChannelStatsView>) -> Seq<u64> {
    rows.map_values(|r: SerializableChannelStatsView| r.id)
}

/// The ids of a sequence of stream rows.
pub open spec fn stream_row_ids(rows: Seq<SerializableStreamStatsView>) -> Seq<u64> {
    rows.map_values(|r: SerializableStreamStatsView| r.id)
}

/// Whether `rows` shows the channels of `t`: one row for each channel of
/// the table and no other, in the order of listings, each the row of its
/// record.
pub open spec fn shows_channels(
    rows: Seq<SerializableChannelStatsView>,
    t: Map<u64, StatsView>,
) -> bool {
    &&& orders_kind(channel_row_ids(rows), t, true)
    &&& forall|i: int|
        0 <= i < rows.len() ==> #[trigger] rows[i] == channel_row(t[rows[i].id]->Channel_0)
}

/// Whether `rows` shows the streams of `t`: one row for each stream of the
/// table and no other, in the order of listings, each the row of its
/// record.
pub open spec fn shows_streams(
    rows: Seq<SerializableStreamStatsView>,
    t: Map<u64, StatsView>,
) -> bool {
    &&& orders_kind(stream_row_ids(rows), t, false)
    &&& forall|i: int|
        0 <= i < rows.len() ==> #[trigger] rows[i] == stream_row(t[rows[i].id]->Stream_0)
}

/// The rows of the channels of the table, sorted.
fn channel_rows(table: &StatsTable) -> (rows: Vec<SerializableChannelStats>)
    requires
        table.wf(),
    ensures
        shows_channels(channel_row_views(rows@), table@),
{
    let channels = get_sorted_channel_stats(table);
    let ghost listed = channel_views(channels@);
    let ghost t = table@;
    let mut rows: Vec<SerializableChannelStats> = Vec::new();
    let mut i: usize = 0;
    while i < channels.len()
        invariant
            i <= channels@.len(),
            rows@.len() == i,
            listed == channel_views(channels@),
            lists_channels(listed, t),
            table_wf(t),
            forall|j: int| 0 <= j < i ==> (#[trigger] rows@[j])@ == channel_row(listed[j]),
        decreases channels@.len() - i,
    {
        proof {
            let c = listed[i as int];
            assert(channel_ids(listed)[i as int] == c.id);
            assert(t.contains_key(c.id) && t[c.id] == StatsView::Channel(c));
            assert(record_wf(c.id, t[c.id]));
        }
        rows.push(SerializableChannelStats::from(&channels[i]));
        i = i + 1;
    }
    proof {
        let views = channel_row_views(rows@);
        assert forall|i: int| 0 <= i < views.len() implies #[trigger] views[i] == channel_row(
            listed[i],
        ) && t[listed[i].id] == StatsView::Channel(listed[i]) by {}
        assert(channel_row_ids(views) =~= channel_ids(listed));
    }
    rows
}

/// The rows of the streams of the table, sorted.
fn stream_rows(table: &StatsTable) -> (rows: Vec<SerializableStreamStats>)
    requires
        table.wf(),
    ensures
        shows_streams(stream_row_views(rows@), table@),
{
    let streams = get_sorted_stream_stats(table);
    let ghost listed = stream_views(streams@);
    let ghost t = table@;
    let mut rows: Vec<SerializableStreamStats> = Vec::new();
    let mut i: usize = 0;
    while i < streams.len()
        invariant
            i <= streams@.len(),
            rows@.len() == i,
            listed == stream_views(streams@),
            forall|j: int| 0 <= j < i ==> (#[trigger] rows@[j])@ == stream_row(listed[j]),
        decreases streams@.len() - i,
    {
        rows.push(SerializableStreamStats::from(&streams[i]));
        i = i + 1;
    }
    proof {
        let views = stream_row_views(rows@);
        assert forall|i: int| 0 <= i < views.len() implies #[trigger] views[i] == stream_row(
            listed[i],
        ) && t[listed[i].id] == StatsView::Stream(listed[i]) by {}
        assert(stream_row_ids(views) =~= stream_ids(listed));
    }
    rows
}

/// The answer to a query for the channels.
#[derive(Debug)]
pub struct ChannelsJson {
    /// Nanoseconds since the start-time anchor.
    pub current_elapsed_ns: u64,
    pub channels: Vec<SerializableChannelStats>,
}

/// The answer to a query for the streams.
#[derive(Debug)]
pub struct StreamsJson {
    /// Nanoseconds since the start-time anchor.
    pub current_elapsed_ns: u64,
    pub streams: Vec<SerializableStreamStats>,
}

/// Channels and streams in one answer.
#[derive(Debug)]
pub struct CombinedJson {
    /// Nanoseconds since the start-time anchor.
    pub current_elapsed_ns: u64,
    pub channels: Vec<SerializableChannelStats>,
    pub streams: Vec<SerializableStreamStats>,
}

/// The snapshot of the channels, taken `elapsed_nanos` after the start-time anchor.
pub fn get_channels_json(table: &StatsTable, elapsed_nanos: u128) -> (r: ChannelsJson)
    requires
        table.wf(),
    ensures
        r.current_elapsed_ns == stored_nanos(elapsed_nanos),
        shows_channels(channel_row_views(r.channels@), table@),
{
    ChannelsJson {
        current_elapsed_ns: (elapsed_nanos % 0x1_0000_0000_0000_0000) as u64,
        channels: channel_rows(table),
    }
}

/// The snapshot of the streams, taken `elapsed_nanos` after the start-time anchor.
pub fn get_streams_json(table: &StatsTable, elapsed_nanos: u128) -> (r: StreamsJson)
    requires
        table.wf(),
    ensures
        r.current_elapsed_ns == stored_nanos(elapsed_nanos),
        shows_streams(stream_row_views(r.streams@), table@),
{
    StreamsJson {
        current_elapsed_ns: (elapsed_nanos % 0x1_0000_0000_0000_0000) as u64,
        streams: stream_rows(table),
    }
}

/// The snapshot of channels and streams, taken `elapsed_nanos` after the
/// start-time anchor.
pub fn get_combined_json(table: &StatsTable, elapsed_nanos: u128) -> (r: CombinedJson)
    requires
        table.wf(),
    ensures
        r.current_elapsed_ns == stored_nanos(elapsed_nanos),
        shows_channels(channel_row_views(r.channels@), table@),
        shows_streams(stream_row_views(r.streams@), table@),
{
    CombinedJson {
        current_elapsed_ns: (elapsed_nanos % 0x1_0000_0000_0000_0000) as u64,
        channels: channel_rows(table),
        streams: stream_rows(table),
    }
}

/// The logs of one channel, newest first.
#[derive(Debug)]
pub struct ChannelLogs {
    pub id: String,
    pub sent_logs: Vec<LogEntry>,
    pub received_logs: Vec<LogEntry>,
}

/// The logs of one stream, newest first.
#[derive(Debug)]
pub struct StreamLogs {
    pub id: String,
    pub yielded_logs: Vec<LogEntry>,
}

/// Whether the indices of `logs` fall from each entry to the next.
pub open spec fn index_descending(logs: Seq<LogEntryView>) -> bool {
    forall|i: int, j: int|
        0 <= i < j < logs.len() ==> (#[trigger] logs[i]).index > (#[trigger] logs[j]).index
}

/// A ring that holds the latest entries of a counter, read backwards, has
/// its entries by falling index: it is the ring sorted by index, newest
/// first.
pub proof fn lemma_reversed_ring_descending(ring: Seq<LogEntryView>, count: u64)
    requires
        ring_ok(ring, count),
    ensures
        index_descending(ring.reverse()),
{
    let r = ring.reverse();
    assert forall|i: int, j: int| 0 <= i < j < r.len() implies (#[trigger] r[i]).index > (
    #[trigger] r[j]).index by {
        assert(r[i] == ring[ring.len() - 1 - i]);
        assert(r[j] == ring[ring.len() - 1 - j]);
    }
}

/// A copy of the entries of a ring, the last one first.
fn newest_first(ring: &VecDeque<LogEntry>) -> (r: Vec<LogEntry>)
    ensures
        log_views(r@) == log_views(ring@).reverse(),
{
    let n = ring.len();
    let mut r: Vec<LogEntry> = Vec::new();
    let mut i: usize = n;
    while i > 0
        invariant
            i <= n,
            n == ring@.len(),
            r@.len() == n - i,
            forall|j: int| 0 <= j < r@.len() ==> (#[trigger] r@[j])@ == ring@[n - 1 - j]@,
        decreases i,
    {
        i = i - 1;
        r.push(ring[i].clone());
    }
    assert(log_views(r@) =~= log_views(ring@).reverse());
    r
}

/// What a query for the logs of the channel `id` finds in `t`.
pub open spec fn channel_logs_spec(t: Map<u64, StatsView>, id: Seq<char>) -> Option<
    (Seq<LogEntryView>, Seq<LogEntryView>),
> {
    match parse_unsigned_spec(id, u64::MAX as nat) {
        Some(key) => if t.contains_key(key as u64) && t[key as u64] is Channel {
            let c = t[key as u64]->Channel_0;
            Some((c.sent_logs.reverse(), c.received_logs.reverse()))
        } else {
            None
        },
        None => None,
    }
}

/// What a query for the logs of the stream `id` finds in `t`.
pub open spec fn stream_logs_spec(t: Map<u64, StatsView>, id: Seq<char>) -> Option<
    Seq<LogEntryView>,
> {
    match parse_unsigned_spec(id, u64::MAX as nat) {
        Some(key) => if t.contains_key(key as u64) && t[key as u64] is Stream {
            Some((t[key as u64]->Stream_0).yielded_logs.reverse())
        } else {
            None
        },
        None => None,
    }
}

/// The logs of the channel whose id `channel_id` writes in base 10, newest
/// first; `None` where `channel_id` is no number or no channel has that id.
pub fn get_channel_logs(table: &StatsTable, channel_id: &str) -> (r: Option<ChannelLogs>)
    requires
        table.wf(),
    ensures
        match channel_logs_spec(table@, channel_id@) {
            Some((sent, received)) => {
                &&& r is Some
                &&& r->0.id@ == channel_id@
                &&& log_views(r->0.sent_logs@) == sent
                &&& log_views(r->0.received_logs@) == received
                &&& index_descending(sent)
                &&& index_descending(received)
            },
            None => r is None,
        },
{
    let id = match parse_unsigned(channel_id, u64::MAX) {
        Some(id) => id,
        None => {
            return None;
        },
    };
    match table.get(id) {
        Some(Stats::Channel(c)) => {
            proof {
                assert(record_wf(id, table@[id]));
                lemma_reversed_ring_descending(c@.sent_logs, c.sent_count);
                lemma_reversed_ring_descending(c@.received_logs, c.received_count);
            }
            Some(
                ChannelLogs {
                    id: String::from_str(channel_id),
                    sent_logs: newest_first(&c.sent_logs),
                    received_logs: newest_first(&c.received_logs),
                },
            )
        },
        _ => None,
    }
}

/// The logs of the stream whose id `stream_id` writes in base 10, newest
/// first; `None` where `stream_id` is no number or no stream has that id.
pub fn get_stream_logs(table: &StatsTable, stream_id: &str) -> (r: Option<StreamLogs>)
    requires
        table.wf(),
    ensures
        match stream_logs_spec(table@, stream_id@) {
            Some(yielded) => {
                &&& r is Some
                &&& r->0.id@ == stream_id@
                &&& log_views(r->0.yielded_logs@) == yielded
                &&& index_descending(yielded)
            },
            None => r is None,
        },
{
    let id = match parse_unsigned(stream_id, u64::MAX) {
        Some(id) => id,
        None => {
            return None;
        },
    };
    match table.get(id) {
        Some(Stats::Stream(s)) => {
            proof {
                assert(record_wf(id, table@[id]));
                lemma_reversed_ring_descending(s@.yielded_logs, s.items_yielded);
            }
            Some(
                StreamLogs {
                    id: String::from_str(stream_id),
                    yielded_logs: newest_first(&s.yielded_logs),
                },
            )
        },
        _ => None,
    }
}

} // verus!
