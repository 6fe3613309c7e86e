//! The query surface over HTTP: which request asks for what, and what is
//! answered.

use vstd::prelude::*;
use vstd::string::*;
use crate::collector::StatsTable;
use crate::model::{log_views, stored_nanos};
use crate::report::{
    channel_logs_spec, channel_row_views, get_channel_logs, get_channels_json, get_stream_logs,
    get_streams_json, index_descending, shows_channels, shows_streams, stream_logs_spec,
    stream_row_views, ChannelLogs, ChannelsJson, StreamLogs, StreamsJson,
};
use crate::text::{
    chars_end_with, chars_start_with, decimal, decimal_string, ends_with, find_first,
    first_index_of, lemma_first_index_of, lemma_parse_decimal, parse_unsigned_chars,
    parse_unsigned_spec, starts_with, to_chars,
};

verus! {

/// What a request asks for.
#[derive(Debug, Clone, Copy, PartialEq, Eq, Structural)]
pub enum Route {
    /// The snapshot of the channels.
    Channels,
    /// The snapshot of the streams.
    Streams,
    /// The logs of the channel with this id.
    ChannelLogs(u64),
    /// The logs of the stream with this id.
    StreamLogs(u64),
    /// The logs of a channel, but what stands for its id is no number.
    InvalidChannelId,
    /// The logs of a stream, but what stands for its id is no number.
    InvalidStreamId,
    /// Nothing that the server has.
    NotFound,
}

/// The path of a request target: what stands before its first `?`.
pub open spec fn path_of(url: Seq<char>) -> Seq<char> {
    match first_index_of(url, '?') {
        Some(i) => url.take(i),
        None => url,
    }
}

/// What stands for the id in a path of the shape `<prefix><id>/logs`.
pub open spec fn id_text(path: Seq<char>, prefix: Seq<char>) -> Option<Seq<char>> {
    if starts_with(path, prefix) && ends_with(path.skip(prefix.len() as int), "/logs"@) {
        Some(path.subrange(prefix.len() as int, path.len() - "/logs"@.len()))
    } else {
        None
    }
}

/// What a request asks for, by its method and its target. Only `GET` asks
/// for anything; the id of an endpoint is an unsigned base-10 number of 64
/// bits.
pub open spec fn route_spec(is_get: bool, url: Seq<char>) -> Route {
    let path = path_of(url);
    if !is_get {
        Route::NotFound
    } else if path == "/channels"@ {
        Route::Channels
    } else if path == "/streams"@ {
        Route::Streams
    } else if starts_with(path, "/channels/"@) {
        match id_text(path, "/channels/"@) {
            Some(text) => match parse_unsigned_spec(text, u64::MAX as nat) {
                Some(id) => Route::ChannelLogs(id as u64),
                None => Route::InvalidChannelId,
            },
            None => Route::NotFound,
        }
    } else if starts_with(path, "/streams/"@) {
        match id_text(path, "/streams/"@) {
            Some(text) => match parse_unsigned_spec(text, u64::MAX as nat) {
                Some(id) => Route::StreamLogs(id as u64),
                None => Route::InvalidStreamId,
            },
            None => Route::NotFound,
        }
    } else {
        Route::NotFound
    }
}

/// Finds what a request asks for.
pub fn route(is_get: bool, url: &str) -> (r: Route)
    ensures
        r == route_spec(is_get, url@),
{
    if !is_get {
        return Route::NotFound;
    }
    let mut chars = to_chars(url);
    let cut = find_first(&chars, '?');
    proof {
        lemma_first_index_of(url@, '?');
    }
    chars.truncate(cut);
    let ghost path = path_of(url@);
    assert(chars@ =~= path);
    let n = chars.len();
    proof {
        reveal_strlit("/channels");
        reveal_strlit("/streams");
        reveal_strlit("/channels/");
        reveal_strlit("/streams/");
        reveal_strlit("/logs");
    }
    if chars_start_with(&chars, "/channels") && n == 9 {
        assert(path.take(9) =~= path);
        return Route::Channels;
    }
    assert(path != "/channels"@) by {
        if path == "/channels"@ {
            assert(path.take(9) =~= path);
        }
    }
    if chars_start_with(&chars, "/streams") && n == 8 {
        assert(path.take(8) =~= path);
        return Route::Streams;
    }
    assert(path != "/streams"@) by {
        if path == "/streams"@ {
            assert(path.take(8) =~= path);
        }
    }
    if chars_start_with(&chars, "/channels/") {
        if chars_end_with(&chars, 10, "/logs") {
            assert(path.subrange(10, n - 5) =~= chars@.subrange(10, n - 5));
            match parse_unsigned_chars(&chars, 10, n - 5, u64::MAX) {
                Some(id) => Route::ChannelLogs(id),
                None => Route::InvalidChannelId,
            }
        } else {
            Route::NotFound
        }
    } else if chars_start_with(&chars, "/streams/") {
        if chars_end_with(&chars, 9, "/logs") {
            assert(path.subrange(9, n - 5) =~= chars@.subrange(9, n - 5));
            match parse_unsigned_chars(&chars, 9, n - 5, u64::MAX) {
                Some(id) => Route::StreamLogs(id),
                None => Route::InvalidStreamId,
            }
        } else {
            Route::NotFound
        }
    } else {
        Route::NotFound
    }
}

/// What the server answers: a body to be serialized as JSON, or a status
/// with a plain message.
#[derive(Debug)]
pub enum Reply {
    Channels(ChannelsJson),
    Streams(StreamsJson),
    ChannelLogs(ChannelLogs),
    StreamLogs(StreamLogs),
    Error { status: u16, message: &'static str },
}

/// Whether `r` is the error answer with this status and this message.
pub open spec fn is_error(r: Reply, status: u16, message: Seq<char>) -> bool {
    &&& r is Error
    &&& r->status == status
    &&& r->message@ == message
}

/// Answers a request from the table as it stands `elapsed_nanos` after the
/// start-time anchor: a snapshot, the logs of one endpoint under its id in
/// decimal, 400 for an id that is no number, and 404 for an endpoint that
/// the table does not hold and for everything else.
pub fn handle_request(table: &StatsTable, is_get: bool, url: &str, elapsed_nanos: u128) -> (r:
    Reply)
    requires
        table.wf(),
    ensures
        match route_spec(is_get, url@) {
            Route::Channels => {
                &&& r is Channels
                &&& r->Channels_0.current_elapsed_ns == stored_nanos(elapsed_nanos)
                &&& shows_channels(channel_row_views(r->Channels_0.channels@), table@)
            },
            Route::Streams => {
                &&& r is Streams
                &&& r->Streams_0.current_elapsed_ns == stored_nanos(elapsed_nanos)
                &&& shows_streams(stream_row_views(r->Streams_0.streams@), table@)
            },
            Route::ChannelLogs(id) => match channel_logs_spec(table@, decimal(id as nat)) {
                Some((sent, received)) => {
                    &&& r is ChannelLogs
                    &&& r->ChannelLogs_0.id@ == decimal(id as nat)
                    &&& log_views(r->ChannelLogs_0.sent_logs@) == sent
                    &&& log_views(r->ChannelLogs_0.received_logs@) == received
                    &&& index_descending(sent)
                    &&& index_descending(received)
                },
                None => is_error(r, 404, "Channel not found"@),
            },
            Route::StreamLogs(id) => match stream_logs_spec(table@, decimal(id as nat)) {
                Some(yielded) => {
                    &&& r is StreamLogs
                    &&& r->StreamLogs_0.id@ == decimal(id as nat)
                    &&& log_views(r->StreamLogs_0.yielded_logs@) == yielded
                    &&& index_descending(yielded)
                },
                None => is_error(r, 404, "Stream not found"@),
            },
            Route::InvalidChannelId => is_error(
                r,
                400,
                "Invalid channel ID: must be a valid number"@,
            ),
            Route::InvalidStreamId => is_error(
                r,
                400,
                "Invalid stream ID: must be a valid number"@,
            ),
            Route::NotFound => is_error(r, 404, "Not found"@),
        },
{
    match route(is_get, url) {
        Route::Channels => Reply::Channels(get_channels_json(table, elapsed_nanos)),
        Route::Streams => Reply::Streams(get_streams_json(table, elapsed_nanos)),
        Route::ChannelLogs(id) => {
            let text = decimal_string(id);
            match get_channel_logs(table, text.as_str()) {
                Some(logs) => Reply::ChannelLogs(logs),
                None => Reply::Error { status: 404, message: "Channel not found" },
            }
        },
        Route::StreamLogs(id) => {
            let text = decimal_string(id);
            match get_stream_logs(table, text.as_str()) {
                Some(logs) => Reply::StreamLogs(logs),
                None => Reply::Error { status: 404, message: "Stream not found" },
            }
        },
        Route::InvalidChannelId => Reply::Error {
            status: 400,
            message: "Invalid channel ID: must be a valid number",
        },
        Route::InvalidStreamId => Reply::Error {
            status: 400,
            message: "Invalid stream ID: must be a valid number",
        },
        Route::NotFound => Reply::Error { status: 404, message: "Not found" },
    }
}

/// The logs of an endpoint are found under the decimal numeral of its id.
pub proof fn lemma_logs_found_by_id(t: Map<u64, crate::model::StatsView>, id: u64)
    ensures
        t.contains_key(id) && t[id] is Channel ==> channel_logs_spec(t, decimal(id as nat))
            is Some,
        t.contains_key(id) && t[id] is Stream ==> stream_logs_spec(t, decimal(id as nat))
            is Some,
{
    lemma_parse_decimal(id as nat, u64::MAX as nat);
}

} // verus!
