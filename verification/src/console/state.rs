//! What the dashboard holds between two frames.

use vstd::prelude::*;
use vstd::std_specs::hash::*;
use std::collections::HashMap;
use crate::model::{log_views, LogEntry, LogEntryView};
use crate::report::{ChannelLogs, SerializableChannelStats, SerializableChannelStatsView};

verus! {

/// The part of the screen that the keys act on.
#[derive(Debug, Clone, Copy, PartialEq, Eq, Structural)]
pub enum Focus {
    Channels,
    Logs,
    Inspect,
}

/// A key as the dashboard tells keys apart.
#[derive(Debug, Clone, Copy, PartialEq, Eq, Structural)]
pub enum Key {
    Char(char),
    Left,
    Right,
    Up,
    Down,
    Other,
}

/// What the caller is to do after the dashboard has taken a key or an answer.
#[derive(Debug, Clone, Copy, PartialEq, Eq, Structural)]
pub enum Effect {
    Nothing,
    /// Fetch the logs of the channel with this id and hand them to the dashboard.
    FetchLogs(u64),
}

/// The received entries by their index; of two entries with one index the
/// later one in the sequence.
pub open spec fn index_map(entries: Seq<LogEntryView>) -> Map<u64, LogEntryView>
    decreases entries.len(),
{
    if entries.len() == 0 {
        Map::empty()
    } else {
        index_map(entries.drop_last()).insert(entries.last().index, entries.last())
    }
}

/// The logs of the selected channel, with the received entries by index.
#[derive(Debug)]
pub struct CachedLogs {
    pub logs: ChannelLogs,
    pub received_map: HashMap<u64, LogEntry>,
}

/// Cached logs with their texts as sequences of characters.
pub struct CachedLogsView {
    pub id: Seq<char>,
    pub sent_logs: Seq<LogEntryView>,
    pub received_logs: Seq<LogEntryView>,
    pub received_map: Map<u64, LogEntryView>,
}

impl View for CachedLogs {
    type V = CachedLogsView;

    open spec fn view(&self) -> CachedLogsView {
        CachedLogsView {
            id: self.logs.id@,
            sent_logs: log_views(self.logs.sent_logs@),
            received_logs: log_views(self.logs.received_logs@),
            received_map: self.received_map@.map_values(|e: LogEntry| e@),
        }
    }
}

/// The logs as the dashboard caches them.
pub open spec fn cached(
    id: Seq<char>,
    sent: Seq<LogEntryView>,
    received: Seq<LogEntryView>,
) -> CachedLogsView {
    CachedLogsView {
        id,
        sent_logs: sent,
        received_logs: received,
        received_map: index_map(received),
    }
}

impl CachedLogs {
    /// Caches logs that were fetched.
    pub fn new(logs: ChannelLogs) -> (r: Self)
        ensures
            r@ == cached(logs.id@, log_views(logs.sent_logs@), log_views(logs.received_logs@)),
    {
        let mut received_map: HashMap<u64, LogEntry> = HashMap::new();
        let ghost views = log_views(logs.received_logs@);
        let mut i: usize = 0;
        assert(views.take(0) =~= Seq::<LogEntryView>::empty());
        assert(received_map@.map_values(|e: LogEntry| e@) =~= index_map(views.take(0)));
        while i < logs.received_logs.len()
            invariant
                i <= logs.received_logs@.len(),
                views == log_views(logs.received_logs@),
                received_map@.map_values(|e: LogEntry| e@) == index_map(views.take(i as int)),
            decreases logs.received_logs@.len() - i,
        {
            let entry = logs.received_logs[i].clone();
            let ghost before = received_map@;
            received_map.insert(entry.index, entry);
            proof {
                assert(views.take(i + 1).drop_last() =~= views.take(i as int));
                assert(views.take(i + 1).last() == views[i as int]);
                assert(received_map@.map_values(|e: LogEntry| e@) =~= before.map_values(
                    |e: LogEntry| e@,
                ).insert(views[i as int].index, views[i as int]));
            }
            i = i + 1;
        }
        assert(views.take(views.len() as int) =~= views);
        CachedLogs { logs, received_map }
    }
}

/// How long a message waited between being sent and being received.
#[derive(Debug, Clone, Copy, PartialEq, Eq, Structural)]
pub enum Delay {
    /// So many nanoseconds.
    Nanos(u64),
    /// The received entry is earlier than the sent one: shown as a warning.
    Negative,
    /// No received entry has the index of the sent one: still queued.
    Queued,
}

/// The delay of a sent entry: the time from it to the received entry of
/// the same index.
pub open spec fn delay_of(entry: LogEntryView, received: Map<u64, LogEntryView>) -> Delay {
    if received.contains_key(entry.index) {
        let got = received[entry.index];
        if got.timestamp >= entry.timestamp {
            Delay::Nanos((got.timestamp - entry.timestamp) as u64)
        } else {
            Delay::Negative
        }
    } else {
        Delay::Queued
    }
}

impl CachedLogs {
    /// The delay of a sent entry.
    pub fn delay(&self, entry: &LogEntry) -> (r: Delay)
        ensures
            r == delay_of(entry@, self@.received_map),
    {
        match self.received_map.get(&entry.index) {
            Some(got) => {
                if got.timestamp >= entry.timestamp {
                    Delay::Nanos(got.timestamp - entry.timestamp)
                } else {
                    Delay::Negative
                }
            },
            None => Delay::Queued,
        }
    }
}

/// The views of a sequence of channel rows.
pub open spec fn row_views(rows: Seq<SerializableChannelStats>) -> Seq<
    SerializableChannelStatsView,
> {
    rows.map_values(|x: SerializableChannelStats| x@)
}

} // verus!
