use channels_console::{
    ChannelType, ChannelsGuard, ChannelsGuardBuilder, Format, StatsEvent, StatsTable, Summary,
};

fn filled() -> StatsTable {
    let mut table = StatsTable::new();
    table.apply_event(
        StatsEvent::Created {
            id: 0,
            source: "examples/basic_std.rs:12",
            display_label: Some("unbounded-channel".to_string()),
            channel_type: ChannelType::Unbounded,
            payload_type: "String",
            type_size: 24,
        },
        50,
    );
    table.apply_event(
        StatsEvent::Created {
            id: 1,
            source: "examples/basic_std.rs:20",
            display_label: None,
            channel_type: ChannelType::Bounded(10),
            payload_type: "u64",
            type_size: 8,
        },
        50,
    );
    for at in 0..100u128 {
        table.apply_event(StatsEvent::MessageSent { id: 1, log: None, elapsed_nanos: at }, 50);
    }
    table.apply_event(StatsEvent::MessageReceived { id: 1, elapsed_nanos: 200 }, 50);
    table.apply_event(
        StatsEvent::StreamCreated {
            id: 2,
            source: "examples/basic_std.rs:30",
            display_label: Some("number-stream".to_string()),
            payload_type: "i32",
            type_size: 4,
        },
        50,
    );
    table.apply_event(StatsEvent::StreamItemYielded { id: 2, log: None, elapsed_nanos: 3 }, 50);
    table.apply_event(StatsEvent::StreamCompleted { id: 2 }, 50);
    table
}

fn strings(rows: &[&[&str]]) -> Vec<Vec<String>> {
    rows.iter().map(|r| r.iter().map(|c| c.to_string()).collect()).collect()
}

#[test]
fn guards_print_tables_unless_told_otherwise() {
    assert_eq!(ChannelsGuard::new().output_format(), Format::Table);
    assert_eq!(ChannelsGuard::default().output_format(), Format::Table);
    assert_eq!(ChannelsGuardBuilder::new().build().output_format(), Format::Table);
    assert_eq!(ChannelsGuardBuilder::default().build().output_format(), Format::Table);
    assert_eq!(Format::default(), Format::Table);
}

#[test]
fn the_format_that_was_chosen_is_kept() {
    assert_eq!(ChannelsGuard::new().format(Format::Json).output_format(), Format::Json);
    assert_eq!(
        ChannelsGuardBuilder::new().format(Format::JsonPretty).build().output_format(),
        Format::JsonPretty
    );
    assert_eq!(
        ChannelsGuardBuilder::new().format(Format::Json).format(Format::Table).build().output_format(),
        Format::Table
    );
}

#[test]
fn nothing_to_report_without_records() {
    let table = StatsTable::new();
    for format in [Format::Table, Format::Json, Format::JsonPretty] {
        let guard = ChannelsGuard::new().format(format);
        assert!(matches!(guard.summary(&table, 0), Summary::Nothing));
    }
}

#[test]
fn tables_of_the_summary() {
    let table = filled();
    match ChannelsGuard::new().summary(&table, 5) {
        Summary::Tables { channels, streams } => {
            assert_eq!(
                channels,
                strings(&[
                    &["Channel", "Type", "State", "Sent", "Received", "Queued", "Mem"],
                    &["unbounded-channel", "unbounded", "active", "0", "0", "0", "0 B"],
                    &["examples/basic_std.rs:20", "bounded[10]", "full", "100", "1", "98", "784 B"],
                ])
            );
            assert_eq!(
                streams,
                strings(&[&["Stream", "State", "Yielded"], &["number-stream", "closed", "1"]])
            );
        },
        other => panic!("unexpected summary {:?}", other),
    }
}

#[test]
fn a_table_without_rows_is_left_out() {
    let mut table = StatsTable::new();
    table.apply_event(
        StatsEvent::StreamCreated {
            id: 2,
            source: "s.rs:1",
            display_label: None,
            payload_type: "i32",
            type_size: 4,
        },
        50,
    );
    match ChannelsGuard::new().summary(&table, 5) {
        Summary::Tables { channels, streams } => {
            assert!(channels.is_empty());
            assert_eq!(
                streams,
                strings(&[&["Stream", "State", "Yielded"], &["s.rs:1", "active", "0"]]),
            );
        },
        other => panic!("unexpected summary {:?}", other),
    }
}

#[test]
fn json_of_the_summary() {
    let table = filled();
    match ChannelsGuard::new().format(Format::Json).summary(&table, 42) {
        Summary::Json(all) => {
            assert_eq!(all.current_elapsed_ns, 42);
            assert_eq!(all.channels.len(), 2);
            assert_eq!(all.channels[0].label, "unbounded-channel");
            assert_eq!(all.channels[1].label, "examples/basic_std.rs:20");
            assert_eq!(all.streams.len(), 1);
            assert_eq!(all.streams[0].label, "number-stream");
        },
        other => panic!("unexpected summary {:?}", other),
    }
    assert!(matches!(
        ChannelsGuard::new().format(Format::JsonPretty).summary(&table, 42),
        Summary::JsonPretty(_)
    ));
}
