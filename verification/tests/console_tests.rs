use channels_console::console::app::App;
use channels_console::console::formatters::{
    delay_scale, delay_text, format_delay, format_time_ago, format_timestamp, queue_status, truncate_left,
    truncate_message, try_truncate_left, try_truncate_message, DelayScale, QueueColor,
};
use channels_console::console::state::{CachedLogs, Delay, Effect, Focus, Key};
use channels_console::console::views::{
    channel_column_width, channel_rows, channels_border_thick, channels_dimmed, channels_title,
    error_hint,
    inspect_text_width, inspect_view, key_hints, logs_message_width, logs_pane,
    logs_placeholder_position, message_column_width, placeholder_position, popup_area,
    refresh_status, screen, selected_label, wrap_message, Area, LogsPane, Screen,
};
use channels_console::{
    ChannelLogs, ChannelState, ChannelType, ConsoleArgs, LogEntry, SerializableChannelStats,
};

fn stat(id: u64, label: &str, kind: ChannelType, state: ChannelState) -> SerializableChannelStats {
    SerializableChannelStats {
        id,
        source: "src/main.rs:1".to_string(),
        label: label.to_string(),
        has_custom_label: true,
        channel_type: kind,
        state,
        sent_count: 12,
        received_count: 7,
        queued: 4,
        payload_type: "u64".to_string(),
        type_size: 8,
        queued_bytes: 32,
        iter: 0,
    }
}

fn three_channels() -> Vec<SerializableChannelStats> {
    vec![
        stat(10, "alpha", ChannelType::Bounded(8), ChannelState::Active),
        stat(11, "", ChannelType::Unbounded, ChannelState::Full),
        stat(12, "gamma", ChannelType::Oneshot, ChannelState::Notified),
    ]
}

fn entry(index: u64, timestamp: u64, message: Option<&str>) -> LogEntry {
    LogEntry { index, timestamp, message: message.map(|m| m.to_string()) }
}

fn logs(sent: Vec<LogEntry>, received: Vec<LogEntry>) -> ChannelLogs {
    ChannelLogs { id: "10".to_string(), sent_logs: sent, received_logs: received }
}

fn some_logs() -> ChannelLogs {
    logs(
        vec![entry(3, 3_000, Some("three")), entry(2, 2_000, Some("two")), entry(1, 1_000, Some("one"))],
        vec![entry(2, 2_500, None), entry(1, 900, None)],
    )
}

fn app_with_channels() -> App {
    let mut app = App::new(6770);
    assert_eq!(app.refresh_data(Ok(three_channels())), Effect::Nothing);
    app
}

fn app_with_logs() -> App {
    let mut app = app_with_channels();
    assert_eq!(app.handle_key_event(Key::Char('o')), Effect::FetchLogs(10));
    app.logs_fetched(some_logs());
    app
}

#[test]
fn the_dashboard_starts_on_the_first_row() {
    let app = ConsoleArgs { metrics_port: 7000 }.app();
    assert!(app.stats.is_empty());
    assert!(app.error.is_none());
    assert!(!app.exit);
    assert_eq!(app.selected, Some(0));
    assert_eq!(app.selected_log, None);
    assert_eq!(app.focus, Focus::Channels);
    assert!(!app.show_logs);
    assert!(app.logs.is_none());
    assert!(!app.paused);
    assert!(app.inspected_log.is_none());
    assert_eq!(app.metrics_port, 7000);
}

#[test]
fn refresh_is_due_every_200_ms_unless_paused() {
    let mut app = app_with_channels();
    assert!(!app.is_refresh_due(0));
    assert!(!app.is_refresh_due(199));
    assert!(app.is_refresh_due(200));
    assert!(app.is_refresh_due(10_000));
    app.paused = true;
    assert!(!app.is_refresh_due(200));
    assert!(!app.is_refresh_due(u128::MAX));
}

#[test]
fn q_quits_in_either_case() {
    for key in ['q', 'Q'] {
        let mut app = app_with_channels();
        assert_eq!(app.handle_key_event(Key::Char(key)), Effect::Nothing);
        assert!(app.exit);
    }
}

#[test]
fn p_toggles_the_pause() {
    let mut app = app_with_channels();
    app.handle_key_event(Key::Char('p'));
    assert!(app.paused);
    app.handle_key_event(Key::Char('P'));
    assert!(!app.paused);
}

#[test]
fn other_keys_do_nothing() {
    let mut app = app_with_logs();
    for key in [Key::Other, Key::Char('x'), Key::Char(' '), Key::Char('1')] {
        assert_eq!(app.handle_key_event(key), Effect::Nothing);
    }
    assert_eq!(app.selected, Some(0));
    assert!(app.show_logs);
    assert_eq!(app.focus, Focus::Channels);
    assert!(app.logs.is_some());
}

#[test]
fn down_and_up_move_the_channel_selection() {
    let mut app = app_with_channels();
    assert_eq!(app.handle_key_event(Key::Down), Effect::Nothing);
    assert_eq!(app.selected, Some(1));
    app.handle_key_event(Key::Char('j'));
    assert_eq!(app.selected, Some(2));
    app.handle_key_event(Key::Char('J'));
    assert_eq!(app.selected, Some(2));
    app.handle_key_event(Key::Up);
    assert_eq!(app.selected, Some(1));
    app.handle_key_event(Key::Char('k'));
    app.handle_key_event(Key::Char('K'));
    assert_eq!(app.selected, Some(0));
}

#[test]
fn moving_without_channels_does_nothing() {
    let mut app = App::new(1);
    app.handle_key_event(Key::Down);
    assert_eq!(app.selected, Some(0));
    app.selected = None;
    app.handle_key_event(Key::Up);
    assert_eq!(app.selected, None);
    assert_eq!(app.handle_key_event(Key::Char('o')), Effect::Nothing);
    assert!(!app.show_logs);
}

#[test]
fn moving_selects_the_first_row_where_none_was_selected() {
    let mut app = app_with_channels();
    app.selected = None;
    app.handle_key_event(Key::Down);
    assert_eq!(app.selected, Some(0));
    app.selected = None;
    app.handle_key_event(Key::Up);
    assert_eq!(app.selected, Some(0));
}

#[test]
fn o_opens_the_logs_and_keeps_the_focus() {
    let mut app = app_with_channels();
    assert_eq!(app.handle_key_event(Key::Char('o')), Effect::FetchLogs(10));
    assert!(app.show_logs);
    assert_eq!(app.focus, Focus::Channels);
    assert!(app.logs.is_none());
    app.logs_fetched(some_logs());
    assert!(app.logs.is_some());
    assert_eq!(app.handle_key_event(Key::Char('O')), Effect::Nothing);
    assert!(!app.show_logs);
    assert!(app.logs.is_none());
}

#[test]
fn o_opens_the_logs_without_fetching_while_paused() {
    let mut app = app_with_channels();
    app.handle_key_event(Key::Char('p'));
    assert_eq!(app.handle_key_event(Key::Char('o')), Effect::Nothing);
    assert!(app.show_logs);
    assert!(app.logs.is_none());
}

#[test]
fn o_needs_a_selected_channel() {
    let mut app = app_with_channels();
    app.selected = Some(3);
    assert_eq!(app.handle_key_event(Key::Char('o')), Effect::Nothing);
    assert!(!app.show_logs);
    app.selected = None;
    assert_eq!(app.handle_key_event(Key::Char('o')), Effect::Nothing);
    assert!(!app.show_logs);
}

#[test]
fn moving_with_open_logs_fetches_the_logs_of_the_new_row() {
    let mut app = app_with_logs();
    assert_eq!(app.handle_key_event(Key::Down), Effect::FetchLogs(11));
    assert!(app.logs.is_none());
    app.logs_fetched(some_logs());
    assert_eq!(app.handle_key_event(Key::Up), Effect::FetchLogs(10));
}

#[test]
fn moving_with_open_logs_while_paused_drops_the_logs() {
    let mut app = app_with_logs();
    app.handle_key_event(Key::Char('p'));
    assert_eq!(app.handle_key_event(Key::Down), Effect::Nothing);
    assert_eq!(app.selected, Some(1));
    assert!(app.logs.is_none());
}

#[test]
fn right_focuses_the_logs_and_left_returns() {
    let mut app = app_with_logs();
    app.handle_key_event(Key::Right);
    assert_eq!(app.focus, Focus::Logs);
    assert_eq!(app.selected_log, Some(0));
    app.handle_key_event(Key::Down);
    assert_eq!(app.selected_log, Some(1));
    assert_eq!(app.selected, Some(0));
    app.handle_key_event(Key::Left);
    assert_eq!(app.focus, Focus::Channels);
    assert_eq!(app.selected_log, None);
    app.handle_key_event(Key::Char('l'));
    assert_eq!(app.focus, Focus::Logs);
    app.handle_key_event(Key::Char('h'));
    assert_eq!(app.focus, Focus::Channels);
    app.handle_key_event(Key::Char('L'));
    assert_eq!(app.focus, Focus::Logs);
    app.handle_key_event(Key::Char('H'));
    assert_eq!(app.focus, Focus::Channels);
}

#[test]
fn right_needs_logs_with_entries() {
    let mut app = app_with_channels();
    app.handle_key_event(Key::Right);
    assert_eq!(app.focus, Focus::Channels);
    app.handle_key_event(Key::Char('o'));
    app.handle_key_event(Key::Right);
    assert_eq!(app.focus, Focus::Channels);
    app.logs_fetched(logs(vec![], vec![entry(1, 1, None)]));
    app.handle_key_event(Key::Right);
    assert_eq!(app.focus, Focus::Channels);
    assert_eq!(app.selected_log, None);
}

#[test]
fn o_in_the_logs_closes_them() {
    let mut app = app_with_logs();
    app.handle_key_event(Key::Right);
    assert_eq!(app.handle_key_event(Key::Char('o')), Effect::Nothing);
    assert!(!app.show_logs);
    assert!(app.logs.is_none());
    assert_eq!(app.selected_log, None);
    assert_eq!(app.focus, Focus::Channels);
}

#[test]
fn log_selection_stays_within_the_entries() {
    let mut app = app_with_logs();
    app.handle_key_event(Key::Right);
    for _ in 0..5 {
        app.handle_key_event(Key::Down);
    }
    assert_eq!(app.selected_log, Some(2));
    for _ in 0..5 {
        app.handle_key_event(Key::Up);
    }
    assert_eq!(app.selected_log, Some(0));
}

#[test]
fn i_opens_and_closes_the_inspect_overlay() {
    let mut app = app_with_logs();
    app.handle_key_event(Key::Char('i'));
    assert_eq!(app.focus, Focus::Channels);
    assert!(app.inspected_log.is_none());
    app.handle_key_event(Key::Right);
    app.handle_key_event(Key::Down);
    app.handle_key_event(Key::Char('i'));
    assert_eq!(app.focus, Focus::Inspect);
    assert_eq!(app.inspected_log.as_ref().map(|e| e.index), Some(2));
    app.handle_key_event(Key::Down);
    assert_eq!(app.selected_log, Some(2));
    assert_eq!(app.inspected_log.as_ref().map(|e| e.index), Some(1));
    app.handle_key_event(Key::Up);
    app.handle_key_event(Key::Up);
    assert_eq!(app.inspected_log.as_ref().map(|e| e.index), Some(3));
    app.handle_key_event(Key::Char('I'));
    assert_eq!(app.focus, Focus::Logs);
    assert!(app.inspected_log.is_none());
    assert!(app.show_logs);
}

#[test]
fn o_in_the_inspect_overlay_closes_overlay_and_logs() {
    let mut app = app_with_logs();
    app.handle_key_event(Key::Right);
    app.handle_key_event(Key::Char('i'));
    assert_eq!(app.handle_key_event(Key::Char('o')), Effect::Nothing);
    assert_eq!(app.focus, Focus::Channels);
    assert!(app.inspected_log.is_none());
    assert!(!app.show_logs);
    assert!(app.logs.is_none());
    assert_eq!(app.selected_log, None);
}

#[test]
fn left_in_the_inspect_overlay_closes_it_and_returns_to_the_channels() {
    let mut app = app_with_logs();
    app.handle_key_event(Key::Right);
    app.handle_key_event(Key::Char('i'));
    app.handle_key_event(Key::Left);
    assert_eq!(app.focus, Focus::Channels);
    assert!(app.inspected_log.is_none());
    assert_eq!(app.selected_log, None);
    assert!(app.show_logs);
    assert!(app.logs.is_some());
}

#[test]
fn fetched_channels_replace_the_list_and_clamp_the_selection() {
    let mut app = app_with_channels();
    app.selected = Some(2);
    app.error = Some("old".to_string());
    let fewer = vec![stat(1, "only", ChannelType::Unbounded, ChannelState::Active)];
    assert_eq!(app.refresh_data(Ok(fewer)), Effect::Nothing);
    assert_eq!(app.stats.len(), 1);
    assert_eq!(app.selected, Some(0));
    assert!(app.error.is_none());
    assert_eq!(app.refresh_data(Ok(vec![])), Effect::Nothing);
    assert_eq!(app.selected, Some(0));
}

#[test]
fn fetched_channels_ask_for_logs_while_the_pane_is_open() {
    let mut app = app_with_logs();
    assert_eq!(app.refresh_data(Ok(three_channels())), Effect::FetchLogs(10));
    assert!(app.logs.is_none());
    app.logs_fetched(some_logs());
    app.paused = true;
    assert_eq!(app.refresh_data(Ok(three_channels())), Effect::Nothing);
    assert!(app.logs.is_some());
}

#[test]
fn a_failed_fetch_keeps_the_list() {
    let mut app = app_with_channels();
    assert_eq!(app.refresh_data(Err("connection refused".to_string())), Effect::Nothing);
    assert_eq!(app.stats.len(), 3);
    assert_eq!(app.error.as_deref(), Some("Failed to fetch metrics: connection refused"));
}

#[test]
fn fetched_logs_clamp_the_log_selection() {
    let mut app = app_with_logs();
    app.selected_log = Some(7);
    app.logs_fetched(some_logs());
    assert_eq!(app.selected_log, Some(2));
    app.logs_fetched(logs(vec![], vec![]));
    assert_eq!(app.selected_log, Some(2));
    app.selected_log = None;
    app.logs_fetched(some_logs());
    assert_eq!(app.selected_log, None);
}

#[test]
fn cached_logs_find_received_entries_by_index() {
    let cached = CachedLogs::new(some_logs());
    assert_eq!(cached.received_map.len(), 2);
    assert_eq!(cached.delay(&entry(2, 2_000, None)), Delay::Nanos(500));
    assert_eq!(cached.delay(&entry(1, 1_000, None)), Delay::Negative);
    assert_eq!(cached.delay(&entry(3, 3_000, None)), Delay::Queued);
    let twice = CachedLogs::new(logs(vec![], vec![entry(1, 10, None), entry(1, 30, None)]));
    assert_eq!(twice.delay(&entry(1, 5, None)), Delay::Nanos(25));
}

#[test]
fn timestamps_are_written_as_minutes_seconds_millis() {
    assert_eq!(format_timestamp(0), "00:00.000");
    assert_eq!(format_timestamp(1_000_000), "00:00.001");
    assert_eq!(format_timestamp(999_999), "00:00.000");
    assert_eq!(format_timestamp(61_234_000_000), "01:01.234");
    assert_eq!(format_timestamp(3_599_999_000_000), "59:59.999");
    assert_eq!(format_timestamp(3_600_000_000_000), "00:00.000");
    assert_eq!(format_timestamp(u64::MAX), "34:33.709");
    for ns in [0u64, 1, 999_999_999, 1_000_000_000, 59_999_000_000, 754_123_456_789, u64::MAX / 7] {
        let total_secs = ns / 1_000_000_000;
        let millis = (ns % 1_000_000_000) / 1_000_000;
        let expected = format!("{:02}:{:02}.{:03}", (total_secs % 3600) / 60, total_secs % 60, millis);
        assert_eq!(format_timestamp(ns), expected);
    }
}

#[test]
fn time_ago_uses_the_largest_unit() {
    assert_eq!(format_time_ago(0), "now");
    assert_eq!(format_time_ago(999_999_999), "now");
    assert_eq!(format_time_ago(1_000_000_000), "1s ago");
    assert_eq!(format_time_ago(59_999_999_999), "59s ago");
    assert_eq!(format_time_ago(60_000_000_000), "1m ago");
    assert_eq!(format_time_ago(3_599_000_000_000), "59m ago");
    assert_eq!(format_time_ago(3_600_000_000_000), "1h ago");
    assert_eq!(format_time_ago(2 * 3_600_000_000_000), "2h ago");
    assert_eq!(format_time_ago(u64::MAX), "5124095h ago");
}

#[test]
fn delays_pick_their_unit() {
    assert_eq!(delay_scale(0), DelayScale::Nanos);
    assert_eq!(delay_scale(999), DelayScale::Nanos);
    assert_eq!(delay_scale(1_000), DelayScale::Micros);
    assert_eq!(delay_scale(999_999), DelayScale::Micros);
    assert_eq!(delay_scale(1_000_000), DelayScale::Millis);
    assert_eq!(delay_scale(999_999_999), DelayScale::Millis);
    assert_eq!(delay_scale(1_000_000_000), DelayScale::Seconds);
    assert_eq!(delay_scale(u64::MAX), DelayScale::Seconds);
}

fn with_floats(delay_ns: u64) -> String {
    if delay_ns < 1_000 {
        format!("{}ns", delay_ns)
    } else if delay_ns < 1_000_000 {
        format!("{:.1}μs", delay_ns as f64 / 1_000.0)
    } else if delay_ns < 1_000_000_000 {
        format!("{:.2}ms", delay_ns as f64 / 1_000_000.0)
    } else {
        format!("{:.3}s", delay_ns as f64 / 1_000_000_000.0)
    }
}

#[test]
fn delays_are_written_in_their_unit() {
    assert_eq!(format_delay(0), "0ns");
    assert_eq!(format_delay(999), "999ns");
    assert_eq!(format_delay(1_000), "1.0μs");
    assert_eq!(format_delay(1_500), "1.5μs");
    assert_eq!(format_delay(999_949), "999.9μs");
    assert_eq!(format_delay(999_999), "1000.0μs");
    assert_eq!(format_delay(1_000_000), "1.00ms");
    assert_eq!(format_delay(2_345_678), "2.35ms");
    assert_eq!(format_delay(1_000_000_000), "1.000s");
    assert_eq!(format_delay(12_345_678_901), "12.346s");
    assert_eq!(format_delay(u64::MAX), "18446744073.710s");
}

#[test]
fn delays_round_as_floats_do() {
    assert_eq!(format_delay(1_250), "1.2μs");
    assert_eq!(format_delay(1_750), "1.8μs");
    assert_eq!(format_delay(1_150), with_floats(1_150));
    assert_eq!(format_delay(1_350), with_floats(1_350));
    assert_eq!(format_delay(1_450), with_floats(1_450));
    assert_eq!(format_delay(1_005_000), with_floats(1_005_000));
    assert_eq!(format_delay(1_015_000), with_floats(1_015_000));
    assert_eq!(format_delay(1_000_500_000), with_floats(1_000_500_000));
}

#[test]
fn delays_agree_with_floats_on_all_microseconds() {
    for delay_ns in 0..1_000_000u64 {
        assert_eq!(format_delay(delay_ns), with_floats(delay_ns), "delay {}", delay_ns);
    }
}

#[test]
fn delays_agree_with_floats_on_milliseconds() {
    let mut delay_ns = 1_000_000u64;
    while delay_ns < 1_000_000_000 {
        for d in [0u64, 1, 4_999, 5_000, 5_001, 9_999] {
            let n = (delay_ns / 10_000) * 10_000 + d;
            if n >= 1_000_000 && n < 1_000_000_000 {
                assert_eq!(format_delay(n), with_floats(n), "delay {}", n);
            }
        }
        assert_eq!(format_delay(delay_ns), with_floats(delay_ns), "delay {}", delay_ns);
        delay_ns += 7_919;
    }
}

#[test]
fn delays_agree_with_floats_on_ties_of_milliseconds() {
    let mut k = 100u64;
    while k < 100_000 {
        let n = k * 10_000 + 5_000;
        assert_eq!(format_delay(n), with_floats(n), "delay {}", n);
        k += 1;
    }
}

#[test]
fn delays_agree_with_floats_on_seconds() {
    let mut delay_ns = 1_000_000_000u64;
    while delay_ns < u64::MAX / 2 {
        for d in [0u64, 1, 499_999, 500_000, 500_001, 999_999] {
            let n = (delay_ns / 1_000_000) * 1_000_000 + d;
            assert_eq!(format_delay(n), with_floats(n), "delay {}", n);
        }
        assert_eq!(format_delay(delay_ns), with_floats(delay_ns), "delay {}", delay_ns);
        delay_ns = delay_ns + delay_ns / 1_000 + 1;
    }
    for n in [u64::MAX, u64::MAX - 1, u64::MAX - 1_024, 1u64 << 63, (1u64 << 53) + 1, (1u64 << 53) + 3] {
        assert_eq!(format_delay(n), with_floats(n), "delay {}", n);
    }
}

#[test]
fn delays_agree_with_floats_on_ties_of_seconds() {
    let mut k = 1_000u64;
    while k < 3_000_000 {
        let n = k * 1_000_000 + 500_000;
        assert_eq!(format_delay(n), with_floats(n), "delay {}", n);
        k += 1;
    }
}

#[test]
fn delay_column_texts() {
    assert_eq!(delay_text(Delay::Nanos(1_500)), "1.5μs");
    assert_eq!(delay_text(Delay::Nanos(5)), "5ns");
    assert_eq!(delay_text(Delay::Negative), "⚠");
    assert_eq!(delay_text(Delay::Queued), "queued");
}

#[test]
fn long_labels_lose_their_beginning() {
    assert_eq!(truncate_left("short", 10), "short");
    assert_eq!(truncate_left("exactly-10", 10), "exactly-10");
    assert_eq!(truncate_left("examples/basic_crossbeam.rs:12", 10), "...m.rs:12");
    assert_eq!(truncate_left("abcdef", 3), "...");
    assert_eq!(truncate_left("abcdef", 2), "...");
    assert_eq!(truncate_left("abcdef", 0), "...");
    assert_eq!(truncate_left("abcdef", 5), "...ef");
    assert_eq!(try_truncate_left("abcdef", 5), Some("...ef".to_string()));
    assert_eq!(try_truncate_left("ab日本", 6), Some("...本".to_string()));
    assert_eq!(try_truncate_left("ab日本", 7), None);
    assert_eq!(try_truncate_left("ab日本", 8), Some("ab日本".to_string()));
}

fn left_by_hand(s: &str, max_len: usize) -> String {
    if s.len() <= max_len {
        s.to_string()
    } else {
        let truncated_len = max_len.saturating_sub(3);
        let start_idx = s.len().saturating_sub(truncated_len);
        format!("...{}", &s[start_idx..])
    }
}

fn message_by_hand(msg: &str, max_len: usize) -> String {
    if msg.len() <= max_len {
        format!("{:<width$}", msg, width = max_len)
    } else {
        let truncated = &msg[..max_len.saturating_sub(3)];
        format!("{}...", truncated)
    }
}

#[test]
fn truncation_agrees_with_cutting_by_hand() {
    for text in ["", "a", "ab", "abc", "abcd", "examples/basic_crossbeam.rs:12", "x y z 1 2 3 4 5 6 7 8 9"] {
        for max_len in 0..40usize {
            assert_eq!(truncate_left(text, max_len), left_by_hand(text, max_len));
            assert_eq!(truncate_message(text, max_len), message_by_hand(text, max_len));
        }
    }
    for text in ["é", "日本語", "aé日b本c語d", "ü-label/ö.rs:5"] {
        for max_len in 0..24usize {
            let kept = max_len.saturating_sub(3);
            let start = text.len().saturating_sub(kept);
            if text.len() <= max_len || text.is_char_boundary(start) {
                assert_eq!(try_truncate_left(text, max_len), Some(left_by_hand(text, max_len)));
            } else {
                assert_eq!(try_truncate_left(text, max_len), None);
            }
            if text.len() <= max_len || text.is_char_boundary(kept) {
                assert_eq!(
                    try_truncate_message(text, max_len),
                    Some(message_by_hand(text, max_len))
                );
            } else {
                assert_eq!(try_truncate_message(text, max_len), None);
            }
        }
    }
}

#[test]
fn long_messages_lose_their_end() {
    assert_eq!(truncate_message("hi", 5), "hi   ");
    assert_eq!(truncate_message("hello", 5), "hello");
    assert_eq!(truncate_message("", 3), "   ");
    assert_eq!(truncate_message("", 0), "");
    assert_eq!(truncate_message("hello world", 8), "hello...");
    assert_eq!(truncate_message("hello world", 3), "...");
    assert_eq!(truncate_message("hello world", 1), "...");
    assert_eq!(truncate_message("é", 4), format!("{:<width$}", "é", width = 4));
    assert_eq!(try_truncate_message("hello world", 8), Some("hello...".to_string()));
    assert_eq!(try_truncate_message("日本語のメッセージ", 9), Some("日本...".to_string()));
    assert_eq!(try_truncate_message("日本語のメッセージ", 8), None);
    assert_eq!(try_truncate_message("日本", 6), Some("日本    ".to_string()));
}

#[test]
fn queue_cells_show_the_level() {
    let cell = queue_status(0, &ChannelType::Bounded(10));
    assert_eq!((cell.text.as_str(), cell.color), ("[0/10]", Some(QueueColor::Green)));
    let cell = queue_status(4, &ChannelType::Bounded(10));
    assert_eq!((cell.text.as_str(), cell.color), ("[4/10]", Some(QueueColor::Green)));
    let cell = queue_status(5, &ChannelType::Bounded(10));
    assert_eq!((cell.text.as_str(), cell.color), ("[5/10]", Some(QueueColor::Yellow)));
    let cell = queue_status(2, &ChannelType::Bounded(3));
    assert_eq!((cell.text.as_str(), cell.color), ("[2/3]", Some(QueueColor::Yellow)));
    let cell = queue_status(1, &ChannelType::Bounded(3));
    assert_eq!((cell.text.as_str(), cell.color), ("[1/3]", Some(QueueColor::Green)));
    let cell = queue_status(10, &ChannelType::Bounded(10));
    assert_eq!((cell.text.as_str(), cell.color), ("[10/10]", Some(QueueColor::Red)));
    let cell = queue_status(11, &ChannelType::Bounded(10));
    assert_eq!((cell.text.as_str(), cell.color), ("[11/10]", Some(QueueColor::Red)));
    let cell = queue_status(0, &ChannelType::Oneshot);
    assert_eq!((cell.text.as_str(), cell.color), ("[0/1]", Some(QueueColor::Green)));
    let cell = queue_status(1, &ChannelType::Oneshot);
    assert_eq!((cell.text.as_str(), cell.color), ("[1/1]", Some(QueueColor::Red)));
    let cell = queue_status(7, &ChannelType::Unbounded);
    assert_eq!((cell.text.as_str(), cell.color), ("N/A", None));
    let cell = queue_status(7, &ChannelType::Bounded(0));
    assert_eq!((cell.text.as_str(), cell.color), ("N/A", None));
}

#[test]
fn queue_colors_agree_with_percentages() {
    for cap in 1..40u64 {
        for queued in 0..50u64 {
            let percentage = (queued as f64 / cap as f64 * 100.0).min(100.0);
            let expected = if percentage >= 100.0 {
                QueueColor::Red
            } else if percentage >= 50.0 {
                QueueColor::Yellow
            } else {
                QueueColor::Green
            };
            assert_eq!(
                queue_status(queued, &ChannelType::Bounded(cap as usize)).color,
                Some(expected),
            );
        }
    }
}

#[test]
fn screens() {
    let mut app = App::new(6770);
    assert_eq!(screen(&app), Screen::Empty);
    app.refresh_data(Err("down".to_string()));
    assert_eq!(screen(&app), Screen::Error);
    app.refresh_data(Ok(three_channels()));
    assert_eq!(screen(&app), Screen::Main);
    app.refresh_data(Err("down".to_string()));
    assert_eq!(screen(&app), Screen::Main);
    assert_eq!(
        error_hint(6770),
        "Make sure the metrics server is running on http://127.0.0.1:6770",
    );
}

#[test]
fn refresh_status_shows_pause_staleness_and_age() {
    let mut app = App::new(6770);
    assert_eq!(refresh_status(&app, None), "");
    assert_eq!(refresh_status(&app, Some(3)), "🔄 3s ");
    app.refresh_data(Ok(three_channels()));
    assert_eq!(refresh_status(&app, Some(0)), "🔄 0s ");
    app.refresh_data(Err("down".to_string()));
    assert_eq!(refresh_status(&app, Some(12)), "⚠ 12s ");
    app.paused = true;
    assert_eq!(refresh_status(&app, Some(12)), "⏸ PAUSED ");
    assert_eq!(refresh_status(&app, None), "⏸ PAUSED ");
    let mut failing = App::new(6770);
    failing.refresh_data(Err("down".to_string()));
    assert_eq!(refresh_status(&failing, Some(4)), "🔄 4s ");
}

#[test]
fn column_widths() {
    assert_eq!(channel_column_width(0), 36);
    assert_eq!(channel_column_width(100), 36);
    assert_eq!(channel_column_width(174), 36);
    assert_eq!(channel_column_width(178), 36);
    assert_eq!(channel_column_width(179), 37);
    assert_eq!(channel_column_width(510), 110);
    for width in 0..2000u16 {
        let available = width.saturating_sub(10);
        let expected = ((available as f32 * 0.22) as usize).max(36);
        assert_eq!(channel_column_width(width), expected, "width {}", width);
        let inner = width.saturating_sub(2);
        assert_eq!(message_column_width(width), (inner.saturating_sub(30) as usize).max(20));
    }
    assert_eq!(message_column_width(u16::MAX), 65503);
}

#[test]
fn popup_takes_four_fifths_of_the_screen() {
    let area = Area { x: 0, y: 0, width: 100, height: 50 };
    assert_eq!(popup_area(area), Area { x: 10, y: 5, width: 80, height: 40 });
    let area = Area { x: 3, y: 4, width: 81, height: 23 };
    assert_eq!(popup_area(area), Area { x: 11, y: 6, width: 64, height: 18 });
    for width in 0..1200u16 {
        let expected = (width as f32 * 0.8) as u16;
        let got = popup_area(Area { x: 0, y: 0, width, height: width / 2 });
        assert_eq!(got.width, expected, "width {}", width);
        assert_eq!(got.x, (width - expected) / 2);
        assert_eq!(got.height, ((width / 2) as f32 * 0.8) as u16);
    }
}

#[test]
fn placeholder_sits_in_the_middle() {
    let inner = Area { x: 2, y: 1, width: 40, height: 10 };
    assert_eq!(placeholder_position(inner, 9), Some((17, 6)));
    assert_eq!(placeholder_position(inner, 60), Some((2, 6)));
    assert_eq!(placeholder_position(Area { x: 2, y: 1, width: 0, height: 10 }, 9), None);
    assert_eq!(placeholder_position(Area { x: 2, y: 1, width: 10, height: 0 }, 9), None);
}

#[test]
fn borders_take_a_column_on_each_side() {
    assert_eq!(logs_message_width(Area { x: 0, y: 0, width: 100, height: 20 }), 66);
    assert_eq!(logs_message_width(Area { x: 0, y: 0, width: 54, height: 20 }), 20);
    assert_eq!(logs_message_width(Area { x: 0, y: 0, width: 55, height: 20 }), 21);
    assert_eq!(logs_message_width(Area { x: 0, y: 0, width: 1, height: 1 }), 20);
    assert_eq!(logs_message_width(Area { x: 0, y: 0, width: 0, height: 0 }), 20);
    for width in 0..400u16 {
        let inner = width.saturating_sub(2);
        assert_eq!(
            logs_message_width(Area { x: 3, y: 4, width, height: 9 }),
            message_column_width(inner)
        );
    }
}

#[test]
fn placeholder_sits_in_the_middle_of_what_the_borders_leave() {
    let pane = Area { x: 10, y: 5, width: 42, height: 12 };
    assert_eq!(logs_placeholder_position(pane, 9), Some((26, 11)));
    assert_eq!(
        logs_placeholder_position(pane, 9),
        placeholder_position(Area { x: 11, y: 6, width: 40, height: 10 }, 9)
    );
    assert_eq!(logs_placeholder_position(Area { x: 0, y: 0, width: 2, height: 10 }, 9), None);
    assert_eq!(logs_placeholder_position(Area { x: 0, y: 0, width: 10, height: 2 }, 9), None);
    assert_eq!(logs_placeholder_position(Area { x: 0, y: 0, width: 0, height: 0 }, 9), None);
    assert_eq!(
        logs_placeholder_position(Area { x: 7, y: 7, width: 3, height: 3 }, 9),
        Some((8, 8)),
    );
}

#[test]
fn inspect_text_is_narrower_than_the_overlay() {
    assert_eq!(inspect_text_width(Area { x: 0, y: 0, width: 100, height: 50 }), 76);
    assert_eq!(inspect_text_width(Area { x: 5, y: 5, width: 10, height: 10 }), 4);
    assert_eq!(inspect_text_width(Area { x: 0, y: 0, width: 5, height: 5 }), 0);
    assert_eq!(inspect_text_width(Area { x: 0, y: 0, width: 0, height: 0 }), 0);
    for width in 0..500u16 {
        let popup = (width as f32 * 0.8) as u16;
        let expected = popup.saturating_sub(2).saturating_sub(2) as usize;
        assert_eq!(inspect_text_width(Area { x: 1, y: 1, width, height: 30 }), expected);
    }
}

#[test]
fn rows_of_the_channels_table() {
    let app = app_with_channels();
    let rows = channel_rows(&app);
    assert_eq!(rows.len(), 3);
    assert_eq!(rows[0].label, "alpha");
    assert_eq!(rows[0].channel_type, "bounded[8]");
    assert_eq!(rows[0].state_text, "active");
    assert_eq!(rows[0].state, ChannelState::Active);
    assert_eq!(rows[0].sent, "12");
    assert_eq!(rows[0].received, "7");
    assert_eq!(rows[0].queue.text, "[4/8]");
    assert_eq!(rows[0].queue.color, Some(QueueColor::Yellow));
    assert_eq!(rows[0].mem, "32 B");
    assert_eq!(rows[1].state_text, "⚠ full");
    assert_eq!(rows[1].queue.text, "N/A");
    assert_eq!(rows[1].mem, "N/A");
    assert_eq!(rows[2].state_text, "notified");
    assert_eq!(rows[2].channel_type, "oneshot");
    assert_eq!(rows[2].queue.text, "[4/1]");
    assert_eq!(rows[2].queue.color, Some(QueueColor::Red));
}

#[test]
fn title_and_dimming_of_the_channels_table() {
    let mut app = app_with_logs();
    assert_eq!(channels_title(&app), " [1/3] ");
    assert!(!channels_dimmed(&app));
    app.handle_key_event(Key::Right);
    assert!(channels_dimmed(&app));
    app.handle_key_event(Key::Left);
    app.handle_key_event(Key::Down);
    assert_eq!(channels_title(&app), " [2/3] ");
    app.selected = None;
    assert_eq!(channels_title(&app), " [1/3] ");
    let closed = app_with_channels();
    assert!(!channels_dimmed(&closed));
    assert!(channels_border_thick(&closed));
    let mut open = app_with_logs();
    assert!(channels_border_thick(&open));
    open.handle_key_event(Key::Right);
    assert!(!channels_border_thick(&open));
}

#[test]
fn label_of_the_selected_channel() {
    let mut app = app_with_channels();
    assert_eq!(selected_label(&app), "alpha");
    app.selected = Some(1);
    assert_eq!(selected_label(&app), "11");
    app.selected = Some(3);
    assert_eq!(selected_label(&app), "Unknown");
    app.selected = None;
    assert_eq!(selected_label(&app), "Unknown");
}

#[test]
fn logs_pane_is_hidden_until_opened() {
    let app = app_with_channels();
    assert!(matches!(logs_pane(&app), LogsPane::Hidden));
}

#[test]
fn logs_pane_without_logs_says_why() {
    let mut app = app_with_channels();
    app.handle_key_event(Key::Char('o'));
    match logs_pane(&app) {
        LogsPane::Placeholder { title, message } => {
            assert_eq!(title, "alpha");
            assert_eq!(message, "(no data)");
        },
        other => panic!("unexpected pane {:?}", other),
    }
    app.refresh_data(Err("down".to_string()));
    assert!(matches!(logs_pane(&app), LogsPane::Placeholder { message: "(cannot fetch new data)", .. }));
    app.paused = true;
    assert!(matches!(logs_pane(&app), LogsPane::Placeholder { message: "(refresh paused)", .. }));
}

#[test]
fn logs_pane_shows_the_sent_entries() {
    let mut app = app_with_logs();
    match logs_pane(&app) {
        LogsPane::Table { title, focused, rows } => {
            assert_eq!(title, "alpha");
            assert!(!focused);
            assert_eq!(rows.len(), 3);
            assert_eq!(rows[0].index, "3");
            assert_eq!(rows[0].timestamp, "00:00.000");
            assert_eq!(rows[0].message, "three");
            assert_eq!(rows[0].delay, Delay::Queued);
            assert_eq!(rows[1].delay, Delay::Nanos(500));
            assert_eq!(rows[2].delay, Delay::Negative);
        },
        other => panic!("unexpected pane {:?}", other),
    }
    app.handle_key_event(Key::Right);
    assert!(matches!(logs_pane(&app), LogsPane::Table { focused: true, .. }));
    app.logs_fetched(logs(vec![entry(1, 5, None)], vec![]));
    match logs_pane(&app) {
        LogsPane::Table { title, rows, .. } => {
            assert_eq!(title, "alpha (missing \"log = true\")");
            assert_eq!(rows[0].message, "");
        },
        other => panic!("unexpected pane {:?}", other),
    }
}

#[test]
fn wrapping_follows_lines_and_width() {
    let lines = |text: &str, width: usize| wrap_message(text, width);
    assert_eq!(lines("", 5), Vec::<String>::new());
    assert_eq!(lines("abc", 5), vec!["abc"]);
    assert_eq!(lines("abcde", 5), vec!["abcde"]);
    assert_eq!(lines("abcdef", 5), vec!["abcde", "f"]);
    assert_eq!(lines("abcdefghijk", 5), vec!["abcde", "fghij", "k"]);
    assert_eq!(lines("ab\ncd", 5), vec!["ab", "cd"]);
    assert_eq!(lines("ab\r\ncd\r\n", 5), vec!["ab", "cd"]);
    assert_eq!(lines("ab\n\ncd", 5), vec!["ab", "", "cd"]);
    assert_eq!(lines("\n", 5), vec![""]);
    assert_eq!(lines("ab\r", 5), vec!["ab\r"]);
    assert_eq!(lines("ab\n", 1), vec!["a", "b"]);
    assert_eq!(lines("日本語のメッセージ", 4), vec!["日本語の", "メッセー", "ジ"]);
}

#[test]
fn a_column_without_width_gets_the_lines_unwrapped() {
    assert_eq!(wrap_message("", 0), Vec::<String>::new());
    assert_eq!(wrap_message("abc", 0), vec!["abc"]);
    assert_eq!(wrap_message("a long line\nand a second\r\n\nlast", 0), vec![
        "a long line",
        "and a second",
        "",
        "last",
    ]);
    for text in ["", "a", "a\nb", "one\ntwo\n\nfour\n", "日本語\nx\r"] {
        let expected: Vec<String> = text.lines().map(|l| l.to_string()).collect();
        assert_eq!(wrap_message(text, 0), expected, "text {:?}", text);
    }
    let mut app = app_with_logs();
    app.handle_key_event(Key::Right);
    app.handle_key_event(Key::Char('i'));
    let view = inspect_view(&app, 0).unwrap();
    assert_eq!(view.lines, vec!["three"]);
}

#[test]
fn wrapping_agrees_with_lines_of_std() {
    for text in ["", "a", "a\nb", "a\r\nb\r\n\r\n", "\r\n", "a\rb\nc", "one\ntwo\n\nfour\n", "x\r"] {
        let expected: Vec<String> = text.lines().map(|l| l.to_string()).collect();
        assert_eq!(wrap_message(text, 1000), expected, "text {:?}", text);
    }
}

fn wrapped_by_hand(message: &str, max_width: usize) -> Vec<String> {
    let mut out = Vec::new();
    for line in message.lines() {
        if line.len() <= max_width {
            out.push(line.to_string());
        } else {
            let mut remaining = line;
            while !remaining.is_empty() {
                let split_at = remaining
                    .char_indices()
                    .nth(max_width)
                    .map(|(i, _)| i)
                    .unwrap_or(remaining.len());
                out.push(remaining[..split_at].to_string());
                remaining = &remaining[split_at..];
            }
        }
    }
    out
}

#[test]
fn wrapping_agrees_with_cutting_by_hand() {
    let texts = [
        "",
        "short",
        "a line that is longer than the width of the column it is shown in",
        "two lines\nof which the second one is the longer one by far, is it not",
        "日本語のメッセージはバイトでは長いが文字では短い",
        "mixed ascii と 日本語 in one line\r\nand a second line\n\n",
        "tabs\tand\u{a0}other spaces",
        "\n\n\n",
        "ends with cr\r",
    ];
    for text in texts {
        for width in 1..40usize {
            assert_eq!(
                wrap_message(text, width),
                wrapped_by_hand(text, width),
                "{:?} at {}",
                text,
                width,
            );
        }
    }
}

#[test]
fn inspect_overlay_shows_the_captured_entry() {
    let mut app = app_with_logs();
    assert!(inspect_view(&app, 10).is_none());
    app.handle_key_event(Key::Right);
    app.handle_key_event(Key::Char('i'));
    let view = inspect_view(&app, 3).unwrap();
    assert_eq!(view.title, " Log Message (Index: 3) ");
    assert_eq!(view.lines, vec!["thr", "ee"]);
    app.logs_fetched(logs(vec![entry(9, 5, None)], vec![]));
    app.handle_key_event(Key::Up);
    let view = inspect_view(&app, 80).unwrap();
    assert_eq!(view.title, " Log Message (Index: 9) ");
    assert_eq!(view.lines, vec!["(missing \"log = true\")"]);
}

#[test]
fn key_hints_follow_the_focus() {
    let texts = |focus: Focus| -> Vec<(&'static str, bool)> {
        key_hints(focus).iter().map(|h| (h.text, h.is_key)).collect()
    };
    assert_eq!(
        texts(Focus::Channels),
        vec![
            (" Quit ", false), ("<q> ", true), (" | ", false), ("<↑↓←→/jkhl> ", true),
            (" | Logs ", false), ("<o> ", true), (" | Pause ", false), ("<p> ", true),
        ]
    );
    assert_eq!(texts(Focus::Logs)[4], (" | Inspect ", false));
    assert_eq!(texts(Focus::Logs)[5], ("<i> ", true));
    assert_eq!(texts(Focus::Inspect)[3], ("<↑↓/jk> ", true));
    assert_eq!(texts(Focus::Inspect)[4], (" | Close ", false));
    assert_eq!(texts(Focus::Inspect)[5], ("<i/o/h> ", true));
}
