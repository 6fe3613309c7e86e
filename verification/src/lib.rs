//! Observability for message-passing channels and streams: the statistics
//! model, the collector's event handling, the query surface and the logic of
//! the terminal dashboard.

pub mod channels_guard;
pub mod collector;
pub mod config;
pub mod console;
pub mod forward;
pub mod http_api;
pub mod invariants;
pub mod label;
pub mod model;
pub mod order;
pub mod query;
pub mod report;
pub mod text;
pub mod units;

pub use channels_guard::{ChannelsGuard, ChannelsGuardBuilder, Summary};
pub use collector::{StatsEvent, StatsTable};
pub use console::app::{App, ConsoleArgs};
pub use label::{extract_filename, resolve_label};
pub use model::{
    ChannelState, ChannelStats, ChannelType, ChannelTypeError, Format, InstrumentedType,
    LogEntry, Stats, StreamStats,
};
pub use order::compare_stats;
pub use query::{get_sorted_channel_stats, get_sorted_stats, get_sorted_stream_stats};
pub use report::{
    get_channel_logs, get_channels_json, get_combined_json, get_stream_logs, get_streams_json,
    ChannelLogs, ChannelsJson, CombinedJson, SerializableChannelStats, SerializableStreamStats,
    StreamLogs, StreamsJson,
};
pub use units::format_bytes;
