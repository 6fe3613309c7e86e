//! The guard that stands for one run of the instrumented program, and the
//! final summary that is printed when the guard is released.

use vstd::prelude::*;
use vstd::string::*;
use crate::collector::{record_wf, table_wf, StatsTable};
use crate::label::{resolve_label, resolve_label_spec};
use crate::model::{
    label_text, stored_nanos, ChannelStats, ChannelStatsView, Format, StatsView, StreamStats,
    StreamStatsView,
};
use crate::query::{
    channel_ids, channel_views, get_sorted_channel_stats, get_sorted_stream_stats,
    lists_channels, lists_streams, stream_views,
};
use crate::report::{
    channel_row_views, get_combined_json, shows_channels, shows_streams, stream_row_views,
    CombinedJson,
};
use crate::text::{decimal, decimal_string};
use crate::units::{format_bytes, format_bytes_spec};

verus! {

/// Sets up a `ChannelsGuard`.
pub struct ChannelsGuardBuilder {
    format: Format,
}

impl ChannelsGuardBuilder {
    /// The format that the guard will print in.
    pub closed spec fn chosen(&self) -> Format {
        self.format
    }

    /// A builder for a guard that prints tables.
    pub fn new() -> (r: Self)
        ensures
            r.chosen() == Format::Table,
    {
        ChannelsGuardBuilder { format: Format::default() }
    }

    /// Chooses the format of the final summary.
    pub fn format(self, format: Format) -> (r: Self)
        ensures
            r.chosen() == format,
    {
        let mut r = self;
        r.format = format;
        r
    }

    /// The guard.
    pub fn build(self) -> (r: ChannelsGuard)
        ensures
            r.chosen() == self.chosen(),
    {
        ChannelsGuard { format: self.format }
    }
}

impl Default for ChannelsGuardBuilder {
    fn default() -> (r: Self)
        ensures
            r.chosen() == Format::Table,
    {
        ChannelsGuardBuilder::new()
    }
}

/// Stands for one run of the instrumented program. When it is released, the
/// final summary is printed in the format that it holds.
pub struct ChannelsGuard {
    format: Format,
}

/// The cells of a table, row by row.
pub open spec fn cells(rows: Seq<Vec<String>>) -> Seq<Seq<Seq<char>>> {
    rows.map_values(|row: Vec<String>| row@.map_values(|cell: String| cell@))
}

/// The head of the table of channels.
pub open spec fn channel_table_head() -> Seq<Seq<char>> {
    seq!["Channel"@, "Type"@, "State"@, "Sent"@, "Received"@, "Queued"@, "Mem"@]
}

/// The head of the table of streams.
pub open spec fn stream_table_head() -> Seq<Seq<char>> {
    seq!["Stream"@, "State"@, "Yielded"@]
}

/// The row of the table of channels that shows `c`.
pub open spec fn channel_table_row(c: ChannelStatsView) -> Seq<Seq<char>> {
    seq![
        resolve_label_spec(c.source, c.label, c.iter),
        c.channel_type.encoding(),
        c.state.name(),
        decimal(c.sent_count as nat),
        decimal(c.received_count as nat),
        decimal(c.queued()),
        format_bytes_spec(c.queued_bytes() as u64),
    ]
}

/// The row of the table of streams that shows `s`.
pub open spec fn stream_table_row(s: StreamStatsView) -> Seq<Seq<char>> {
    seq![
        resolve_label_spec(s.source, s.label, s.iter),
        s.state.name(),
        decimal(s.items_yielded as nat),
    ]
}

/// A table with the head `head` over the rows `body`; no table at all
/// where there is no row.
pub open spec fn table_of(head: Seq<Seq<char>>, body: Seq<Seq<Seq<char>>>) -> Seq<
    Seq<Seq<char>>,
> {
    if body.len() == 0 {
        Seq::empty()
    } else {
        seq![head] + body
    }
}

/// The table of the channels `s`: its head, then one row for each; no
/// table at all where there is no channel.
pub open spec fn channel_table(s: Seq<ChannelStatsView>) -> Seq<Seq<Seq<char>>> {
    table_of(channel_table_head(), s.map_values(|c: ChannelStatsView| channel_table_row(c)))
}

/// The table of the streams `s`.
pub open spec fn stream_table(s: Seq<StreamStatsView>) -> Seq<Seq<Seq<char>>> {
    table_of(stream_table_head(), s.map_values(|r: StreamStatsView| stream_table_row(r)))
}

/// What is printed when the guard is released.
#[derive(Debug)]
pub enum Summary {
    /// One line that says that nothing was instrumented.
    Nothing,
    /// The table of channels and the table of streams, each with its head
    /// and each left out where it would have no rows.
    Tables { channels: Vec<Vec<String>>, streams: Vec<Vec<String>> },
    /// The snapshot as compact JSON.
    Json(CombinedJson),
    /// The snapshot as indented JSON.
    JsonPretty(CombinedJson),
}

fn channel_row_cells(c: &ChannelStats) -> (row: Vec<String>)
    requires
        c@.queued_bytes() <= u64::MAX,
    ensures
        row@.map_values(|cell: String| cell@) == channel_table_row(c@),
{
    let mut row: Vec<String> = Vec::new();
    row.push(resolve_label(c.source, label_text(&c.label), c.iter));
    row.push(c.channel_type.to_string());
    row.push(String::from_str(c.state.as_str()));
    row.push(decimal_string(c.sent_count));
    row.push(decimal_string(c.received_count));
    row.push(decimal_string(c.queued()));
    row.push(format_bytes(c.queued_bytes()));
    assert(row@.map_values(|cell: String| cell@) =~= channel_table_row(c@));
    row
}

fn stream_row_cells(s: &StreamStats) -> (row: Vec<String>)
    ensures
        row@.map_values(|cell: String| cell@) == stream_table_row(s@),
{
    let mut row: Vec<String> = Vec::new();
    row.push(resolve_label(s.source, label_text(&s.label), s.iter));
    row.push(String::from_str(s.state.as_str()));
    row.push(decimal_string(s.items_yielded));
    assert(row@.map_values(|cell: String| cell@) =~= stream_table_row(s@));
    row
}

fn head_cells(names: &[&'static str]) -> (row: Vec<String>)
    ensures
        row@.map_values(|cell: String| cell@) == names@.map_values(|name: &'static str| name@),
{
    let mut row: Vec<String> = Vec::new();
    let mut i: usize = 0;
    while i < names.len()
        invariant
            i <= names@.len(),
            row@.len() == i,
            forall|j: int| 0 <= j < i ==> (#[trigger] row@[j])@ == names@[j]@,
        decreases names@.len() - i,
    {
        row.push(String::from_str(names[i]));
        i = i + 1;
    }
    assert(row@.map_values(|cell: String| cell@) =~= names@.map_values(
        |name: &'static str| name@,
    ));
    row
}

/// Puts the head with the names `names` over the rows `body`, where there
/// are any.
fn with_head(names: &[&'static str], body: Vec<Vec<String>>) -> (rows: Vec<Vec<String>>)
    ensures
        cells(rows@) == table_of(names@.map_values(|name: &'static str| name@), cells(body@)),
{
    let mut rows = body;
    if rows.len() > 0 {
        rows.insert(0, head_cells(names));
    }
    assert(cells(rows@) =~= table_of(
        names@.map_values(|name: &'static str| name@),
        cells(body@),
    ));
    rows
}

fn channel_table_cells(channels: &Vec<ChannelStats>, Ghost(t): Ghost<Map<u64, StatsView>>) -> (rows:
    Vec<Vec<String>>)
    requires
        table_wf(t),
        lists_channels(channel_views(channels@), t),
    ensures
        cells(rows@) == channel_table(channel_views(channels@)),
{
    let ghost listed = channel_views(channels@);
    let mut body: Vec<Vec<String>> = Vec::new();
    let mut i: usize = 0;
    while i < channels.len()
        invariant
            i <= channels@.len(),
            body@.len() == i,
            listed == channel_views(channels@),
            lists_channels(listed, t),
            table_wf(t),
            forall|j: int|
                0 <= j < i ==> (#[trigger] body@[j])@.map_values(|cell: String| cell@)
                    == channel_table_row(listed[j]),
        decreases channels@.len() - i,
    {
        proof {
            let c = listed[i as int];
            assert(channel_ids(listed)[i as int] == c.id);
            assert(t.contains_key(c.id) && t[c.id] == StatsView::Channel(c));
            assert(record_wf(c.id, t[c.id]));
        }
        body.push(channel_row_cells(&channels[i]));
        i = i + 1;
    }
    assert(cells(body@) =~= listed.map_values(|c: ChannelStatsView| channel_table_row(c)));
    let rows = with_head(&["Channel", "Type", "State", "Sent", "Received", "Queued", "Mem"], body);
    assert(["Channel", "Type", "State", "Sent", "Received", "Queued", "Mem"]@.map_values(
        |name: &'static str| name@,
    ) =~= channel_table_head());
    rows
}

fn stream_table_cells(streams: &Vec<StreamStats>) -> (rows: Vec<Vec<String>>)
    ensures
        cells(rows@) == stream_table(stream_views(streams@)),
{
    let ghost listed = stream_views(streams@);
    let mut body: Vec<Vec<String>> = Vec::new();
    let mut i: usize = 0;
    while i < streams.len()
        invariant
            i <= streams@.len(),
            body@.len() == i,
            listed == stream_views(streams@),
            forall|j: int|
                0 <= j < i ==> (#[trigger] body@[j])@.map_values(|cell: String| cell@)
                    == stream_table_row(listed[j]),
        decreases streams@.len() - i,
    {
        body.push(stream_row_cells(&streams[i]));
        i = i + 1;
    }
    assert(cells(body@) =~= listed.map_values(|r: StreamStatsView| stream_table_row(r)));
    let rows = with_head(&["Stream", "State", "Yielded"], body);
    assert(["Stream", "State", "Yielded"]@.map_values(|name: &'static str| name@)
        =~= stream_table_head());
    rows
}

impl ChannelsGuard {
    /// The format that the guard prints in.
    pub closed spec fn chosen(&self) -> Format {
        self.format
    }

    /// A guard that prints tables.
    pub fn new() -> (r: Self)
        ensures
            r.chosen() == Format::Table,
    {
        ChannelsGuard { format: Format::default() }
    }

    /// Chooses the format of the final summary.
    pub fn format(self, format: Format) -> (r: Self)
        ensures
            r.chosen() == format,
    {
        let mut r = self;
        r.format = format;
        r
    }

    /// The format that the guard prints in.
    pub fn output_format(&self) -> (r: Format)
        ensures
            r == self.chosen(),
    {
        self.format
    }

    /// What is to be printed when the guard is released, from the table as
    /// it stands `elapsed_nanos` after the start-time anchor: one line where
    /// the table has no record; else the tables of the sorted channels and
    /// streams, or the snapshot for JSON, as the format says.
    pub fn summary(&self, table: &StatsTable, elapsed_nanos: u128) -> (r: Summary)
        requires
            table.wf(),
        ensures
            table@.dom().len() == 0 ==> r is Nothing,
            table@.dom().len() > 0 ==> match self.chosen() {
                Format::Table => {
                    &&& r is Tables
                    &&& exists|channels: Seq<ChannelStatsView>, streams: Seq<StreamStatsView>|
                        {
                            &&& lists_channels(channels, table@)
                            &&& lists_streams(streams, table@)
                            &&& cells(r->channels@) == #[trigger] channel_table(channels)
                            &&& cells(r->streams@) == #[trigger] stream_table(streams)
                        }
                },
                Format::Json => {
                    &&& r is Json
                    &&& r->Json_0.current_elapsed_ns == stored_nanos(elapsed_nanos)
                    &&& shows_channels(channel_row_views(r->Json_0.channels@), table@)
                    &&& shows_streams(stream_row_views(r->Json_0.streams@), table@)
                },
                Format::JsonPretty => {
                    &&& r is JsonPretty
                    &&& r->JsonPretty_0.current_elapsed_ns == stored_nanos(elapsed_nanos)
                    &&& shows_channels(channel_row_views(r->JsonPretty_0.channels@), table@)
                    &&& shows_streams(stream_row_views(r->JsonPretty_0.streams@), table@)
                },
            },
    {
        if table.len() == 0 {
            return Summary::Nothing;
        }
        match self.format {
            Format::Table => {
                let channels = get_sorted_channel_stats(table);
                let streams = get_sorted_stream_stats(table);
                let channel_rows = channel_table_cells(&channels, Ghost(table@));
                let stream_rows = stream_table_cells(&streams);
                let r = Summary::Tables { channels: channel_rows, streams: stream_rows };
                proof {
                    let c = channel_views(channels@);
                    let s = stream_views(streams@);
                    assert(lists_channels(c, table@) && lists_streams(s, table@) && cells(
                        r->channels@,
                    ) == channel_table(c) && cells(r->streams@) == stream_table(s));
                }
                r
            },
            Format::Json => Summary::Json(get_combined_json(table, elapsed_nanos)),
            Format::JsonPretty => Summary::JsonPretty(get_combined_json(table, elapsed_nanos)),
        }
    }
}

impl Default for ChannelsGuard {
    fn default() -> (r: Self)
        ensures
            r.chosen() == Format::Table,
    {
        ChannelsGuard::new()
    }
}

} // verus!
