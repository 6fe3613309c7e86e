use channels_console::http_api::{handle_request, route, Reply, Route};
use channels_console::{ChannelType, StatsEvent, StatsTable};

fn table() -> StatsTable {
    let mut table = StatsTable::new();
    table.apply_event(
        StatsEvent::Created {
            id: 0,
            source: "examples/basic.rs:7",
            display_label: Some("hello-there".to_string()),
            channel_type: ChannelType::Bounded(1),
            payload_type: "&str",
            type_size: 16,
        },
        50,
    );
    table.apply_event(
        StatsEvent::StreamCreated {
            id: 1,
            source: "examples/basic.rs:9",
            display_label: None,
            payload_type: "u8",
            type_size: 1,
        },
        50,
    );
    table.apply_event(StatsEvent::MessageSent { id: 0, log: None, elapsed_nanos: 5 }, 50);
    table.apply_event(StatsEvent::MessageReceived { id: 0, elapsed_nanos: 6 }, 50);
    table.apply_event(StatsEvent::Closed { id: 0 }, 50);
    table
}

fn error_of(reply: Reply) -> (u16, &'static str) {
    match reply {
        Reply::Error { status, message } => (status, message),
        other => panic!("not an error: {:?}", other),
    }
}

#[test]
fn routes_of_the_snapshots() {
    assert_eq!(route(true, "/channels"), Route::Channels);
    assert_eq!(route(true, "/streams"), Route::Streams);
    assert_eq!(route(true, "/channels?pretty=1"), Route::Channels);
    assert_eq!(route(true, "/streams?"), Route::Streams);
}

#[test]
fn routes_of_the_logs() {
    assert_eq!(route(true, "/channels/0/logs"), Route::ChannelLogs(0));
    assert_eq!(route(true, "/channels/17/logs"), Route::ChannelLogs(17));
    assert_eq!(route(true, "/channels/+17/logs"), Route::ChannelLogs(17));
    assert_eq!(route(true, "/channels/18446744073709551615/logs"), Route::ChannelLogs(u64::MAX));
    assert_eq!(route(true, "/streams/3/logs?x=y"), Route::StreamLogs(3));
}

#[test]
fn routes_with_ids_that_are_no_numbers() {
    assert_eq!(route(true, "/channels/abc/logs"), Route::InvalidChannelId);
    assert_eq!(route(true, "/channels//logs"), Route::InvalidChannelId);
    assert_eq!(route(true, "/channels/-1/logs"), Route::InvalidChannelId);
    assert_eq!(route(true, "/channels/1.5/logs"), Route::InvalidChannelId);
    assert_eq!(route(true, "/channels/18446744073709551616/logs"), Route::InvalidChannelId);
    assert_eq!(route(true, "/streams/x/logs"), Route::InvalidStreamId);
    assert_eq!(route(true, "/streams/1/2/logs"), Route::InvalidStreamId);
}

#[test]
fn routes_to_nothing() {
    for url in [
        "", "/", "/channel", "/channels/", "/channels/1", "/channels/1/log", "/channels/logs",
        "/streams/", "/streams/1/logs/", "/metrics", "/logs/1", "channels", "/Channels",
        "/channels/1/logs/extra", "?/channels",
    ] {
        assert_eq!(route(true, url), Route::NotFound, "url {:?}", url);
    }
}

#[test]
fn only_get_asks_for_anything() {
    for url in ["/channels", "/streams", "/channels/0/logs", "/streams/x/logs", "/nothing"] {
        assert_eq!(route(false, url), Route::NotFound);
    }
}

#[test]
fn basic_bounded_scenario_over_http() {
    let table = table();
    match handle_request(&table, true, "/channels", 99) {
        Reply::Channels(json) => {
            assert_eq!(json.current_elapsed_ns, 99);
            assert_eq!(json.channels.len(), 1);
            let c = &json.channels[0];
            assert_eq!(c.label, "hello-there");
            assert_eq!(c.channel_type.to_string(), "bounded[1]");
            assert_eq!(c.sent_count, 1);
            assert_eq!(c.received_count, 1);
            assert_eq!(c.state.as_str(), "closed");
        },
        other => panic!("unexpected reply {:?}", other),
    }
}

#[test]
fn streams_over_http() {
    let table = table();
    match handle_request(&table, true, "/streams", 5) {
        Reply::Streams(json) => {
            assert_eq!(json.streams.len(), 1);
            assert_eq!(json.streams[0].label, "examples/basic.rs:9");
        },
        other => panic!("unexpected reply {:?}", other),
    }
}

#[test]
fn logs_over_http() {
    let table = table();
    match handle_request(&table, true, "/channels/+0/logs", 5) {
        Reply::ChannelLogs(logs) => {
            assert_eq!(logs.id, "0");
            assert_eq!(logs.sent_logs.len(), 1);
            assert_eq!(logs.received_logs.len(), 1);
        },
        other => panic!("unexpected reply {:?}", other),
    }
    match handle_request(&table, true, "/streams/1/logs", 5) {
        Reply::StreamLogs(logs) => {
            assert_eq!(logs.id, "1");
            assert!(logs.yielded_logs.is_empty());
        },
        other => panic!("unexpected reply {:?}", other),
    }
}

#[test]
fn errors_over_http() {
    let table = table();
    assert_eq!(
        error_of(handle_request(&table, true, "/channels/1/logs", 0)),
        (404, "Channel not found"),
    );
    assert_eq!(
        error_of(handle_request(&table, true, "/channels/9/logs", 0)),
        (404, "Channel not found"),
    );
    assert_eq!(
        error_of(handle_request(&table, true, "/streams/0/logs", 0)),
        (404, "Stream not found"),
    );
    assert_eq!(
        error_of(handle_request(&table, true, "/channels/zero/logs", 0)),
        (400, "Invalid channel ID: must be a valid number")
    );
    assert_eq!(
        error_of(handle_request(&table, true, "/streams/zero/logs", 0)),
        (400, "Invalid stream ID: must be a valid number")
    );
    assert_eq!(error_of(handle_request(&table, true, "/metrics", 0)), (404, "Not found"));
    assert_eq!(error_of(handle_request(&table, false, "/channels", 0)), (404, "Not found"));
}

fn route_by_hand(url: &str) -> Route {
    let path = url.split('?').next().unwrap_or("/");
    match path {
        "/channels" => Route::Channels,
        "/streams" => Route::Streams,
        _ => {
            if let Some(rest) = path.strip_prefix("/channels/") {
                if let Some(id_str) = rest.strip_suffix("/logs") {
                    match id_str.parse::<u64>() {
                        Ok(id) => Route::ChannelLogs(id),
                        Err(_) => Route::InvalidChannelId,
                    }
                } else {
                    Route::NotFound
                }
            } else if let Some(rest) = path.strip_prefix("/streams/") {
                if let Some(id_str) = rest.strip_suffix("/logs") {
                    match id_str.parse::<u64>() {
                        Ok(id) => Route::StreamLogs(id),
                        Err(_) => Route::InvalidStreamId,
                    }
                } else {
                    Route::NotFound
                }
            } else {
                Route::NotFound
            }
        }
    }
}

#[test]
fn routes_agree_with_matching_by_hand() {
    let heads = ["", "/", "/channels", "/streams", "/channel", "/stream", "channels", "/x"];
    let mids = ["", "/", "/0", "/17", "/+17", "/-1", "/abc", "/1/2", "//", "/ 1", "/1 ", "/٣"];
    let tails = ["", "/logs", "/log", "/logs/", "logs", "/logs/logs"];
    let queries = ["", "?", "?a=b", "?/channels", "?x?y"];
    for head in heads {
        for mid in mids {
            for tail in tails {
                for query in queries {
                    let url = format!("{}{}{}{}", head, mid, tail, query);
                    assert_eq!(route(true, &url), route_by_hand(&url), "url {:?}", url);
                }
            }
        }
    }
}
