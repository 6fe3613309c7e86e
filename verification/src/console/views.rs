//! What the dashboard shows, as plain values that a renderer draws: which
//! panel, the rows of the tables, the titles and the texts.

use vstd::prelude::*;
use vstd::string::*;
use ratatui::layout::Rect;
use ratatui::widgets::Block;
use crate::console::app::{App, AppView};
use crate::console::formatters::{
    format_timestamp, format_timestamp_spec, queue_color, queue_status, queue_text, shown_capacity,
    QueueCell, QueueColor,
};
use crate::console::state::{delay_of, CachedLogs, CachedLogsView, Delay, Focus};
use crate::model::{ChannelState, ChannelType, LogEntry, LogEntryView};
use crate::report::{SerializableChannelStats, SerializableChannelStatsView};
use crate::text::{append_decimal, decimal, decimal_string, to_chars};
use crate::units::{format_bytes, format_bytes_spec};

verus! {

/// Which panel fills the screen.
#[derive(Debug, Clone, Copy, PartialEq, Eq, Structural)]
pub enum Screen {
    /// No list of channels was ever fetched, and the last fetch failed.
    Error,
    /// The list of channels is empty.
    Empty,
    /// The channels table, with the logs pane and the inspect overlay where
    /// they are open.
    Main,
}

/// Which panel fills the screen.
pub open spec fn screen_of(app: AppView) -> Screen {
    if app.stats.len() == 0 {
        if app.error is Some {
            Screen::Error
        } else {
            Screen::Empty
        }
    } else {
        Screen::Main
    }
}

/// Finds which panel fills the screen.
pub fn screen(app: &App) -> (r: Screen)
    ensures
        r == screen_of(app@),
{
    if app.stats.len() == 0 {
        if app.error.is_some() {
            Screen::Error
        } else {
            Screen::Empty
        }
    } else {
        Screen::Main
    }
}

/// The line of the error panel that says where the metrics server is expected.
pub open spec fn error_hint_spec(metrics_port: u16) -> Seq<char> {
    "Make sure the metrics server is running on http://127.0.0.1:"@ + decimal(
        metrics_port as nat,
    )
}

/// Writes the line of the error panel that says where the metrics server
/// is expected.
pub fn error_hint(metrics_port: u16) -> (r: String)
    ensures
        r@ == error_hint_spec(metrics_port),
{
    let mut r = String::from_str("Make sure the metrics server is running on http://127.0.0.1:");
    append_decimal(&mut r, metrics_port as u64);
    r
}

/// The status at the bottom of the screen: that the dashboard is paused;
/// else the seconds since the last fetch that succeeded, with a warning
/// mark where the data on screen is stale because the last fetch failed;
/// nothing before the first fetch that succeeded.
pub open spec fn refresh_status_spec(app: AppView, seconds_since_fetch: Option<u64>) -> Seq<char> {
    if app.paused {
        "⏸ PAUSED "@
    } else {
        match seconds_since_fetch {
            Some(seconds) => if app.error is Some && app.stats.len() > 0 {
                "⚠ "@ + decimal(seconds as nat) + "s "@
            } else {
                "🔄 "@ + decimal(seconds as nat) + "s "@
            },
            None => Seq::empty(),
        }
    }
}

/// Writes the status at the bottom of the screen, `seconds_since_fetch`
/// after the last fetch that succeeded.
pub fn refresh_status(app: &App, seconds_since_fetch: Option<u64>) -> (r: String)
    ensures
        r@ == refresh_status_spec(app@, seconds_since_fetch),
{
    if app.paused {
        return String::from_str("⏸ PAUSED ");
    }
    match seconds_since_fetch {
        Some(seconds) => {
            let mut r = if app.error.is_some() && app.stats.len() > 0 {
                String::from_str("⚠ ")
            } else {
                String::from_str("🔄 ")
            };
            append_decimal(&mut r, seconds);
            r.append("s ");
            r
        },
        None => String::new(),
    }
}

/// The width of the channel column in a panel of width `area_width`: 22
/// percent of what the borders leave, and 36 at the least.
pub open spec fn channel_column_width_spec(area_width: u16) -> nat {
    let available: nat = if area_width >= 10 {
        (area_width - 10) as nat
    } else {
        0
    };
    let share = available * 22 / 100;
    if share >= 36 {
        share
    } else {
        36
    }
}

/// The width of the channel column in a panel of width `area_width`.
pub fn channel_column_width(area_width: u16) -> (r: usize)
    ensures
        r == channel_column_width_spec(area_width),
{
    let available: u32 = if area_width >= 10 {
        (area_width - 10) as u32
    } else {
        0
    };
    let share = available * 22 / 100;
    if share >= 36 {
        share as usize
    } else {
        36
    }
}

/// The width of the message column in a logs pane whose inside is
/// `inner_width` wide: what index, time and delay leave, and 20 at the least.
pub open spec fn message_column_width_spec(inner_width: u16) -> nat {
    if inner_width >= 52 {
        (inner_width - 32) as nat
    } else {
        20
    }
}

/// The width of the message column in a logs pane whose inside is
/// `inner_width` wide.
pub fn message_column_width(inner_width: u16) -> (r: usize)
    ensures
        r == message_column_width_spec(inner_width),
{
    if inner_width >= 52 {
        (inner_width - 32) as usize
    } else {
        20
    }
}

/// A rectangle of the screen.
#[derive(Debug, Clone, Copy, PartialEq, Eq, Structural)]
pub struct Area {
    pub x: u16,
    pub y: u16,
    pub width: u16,
    pub height: u16,
}

/// The place of the inspect overlay: four fifths of the screen in each
/// direction, in the middle of it.
pub open spec fn popup_area_spec(area: Area) -> Area {
    let width = (area.width * 4 / 5) as u16;
    let height = (area.height * 4 / 5) as u16;
    Area {
        x: (area.x + (area.width - width) / 2) as u16,
        y: (area.y + (area.height - height) / 2) as u16,
        width,
        height,
    }
}

/// The place of the inspect overlay on a screen that takes `area`.
pub fn popup_area(area: Area) -> (r: Area)
    requires
        area.x + area.width <= u16::MAX,
        area.y + area.height <= u16::MAX,
    ensures
        r == popup_area_spec(area),
{
    let width = ((area.width as u32) * 4 / 5) as u16;
    let height = ((area.height as u32) * 4 / 5) as u16;
    Area {
        x: area.x + (area.width - width) / 2,
        y: area.y + (area.height - height) / 2,
        width,
        height,
    }
}

/// What the four borders of a block leave of `area`: one column and one
/// row less on each side, as far as there are any, with the corner kept
/// inside `area`.
pub open spec fn bordered_inner_spec(area: Area) -> Area {
    let right: int = if area.x + area.width <= u16::MAX {
        area.x + area.width
    } else {
        u16::MAX as int
    };
    let bottom: int = if area.y + area.height <= u16::MAX {
        area.y + area.height
    } else {
        u16::MAX as int
    };
    Area {
        x: if area.x + 1 <= right {
            (area.x + 1) as u16
        } else {
            right as u16
        },
        y: if area.y + 1 <= bottom {
            (area.y + 1) as u16
        } else {
            bottom as u16
        },
        width: if area.width >= 2 {
            (area.width - 2) as u16
        } else {
            0
        },
        height: if area.height >= 2 {
            (area.height - 2) as u16
        } else {
            0
        },
    }
}

/// `ratatui::widgets::Block::inner` of a block with all four borders, no
/// titles and no padding: the borders take one column on the left and on the
/// right and one row at the top and at the bottom, each as far as there is
/// one, and the corner does not leave `area`.
#[verifier::external_body]
fn bordered_inner(area: Area) -> (inner: Area)
    ensures
        inner == bordered_inner_spec(area),
{
    let rect = Block::bordered().inner(
        Rect { x: area.x, y: area.y, width: area.width, height: area.height },
    );
    Area { x: rect.x, y: rect.y, width: rect.width, height: rect.height }
}

/// The width of the message column of a logs pane that takes `pane`, borders
/// and all.
pub fn logs_message_width(pane: Area) -> (r: usize)
    ensures
        r == message_column_width_spec(bordered_inner_spec(pane).width),
{
    message_column_width(bordered_inner(pane).width)
}

/// Where the message of an open logs pane without logs is written, for a
/// pane that takes `pane`, borders and all.
pub fn logs_placeholder_position(pane: Area, message_width: u16) -> (r: Option<(u16, u16)>)
    requires
        pane.x + pane.width <= u16::MAX,
        pane.y + pane.height <= u16::MAX,
    ensures
        r == placeholder_position_spec(bordered_inner_spec(pane), message_width),
{
    placeholder_position(bordered_inner(pane), message_width)
}

/// The width to which the inspect overlay wraps its text on a screen that
/// takes `screen`: what the borders of the overlay and a margin of one
/// column on each side leave.
pub open spec fn inspect_text_width_spec(screen: Area) -> nat {
    let inner = bordered_inner_spec(popup_area_spec(screen));
    if inner.width >= 2 {
        (inner.width - 2) as nat
    } else {
        0
    }
}

/// The width to which the inspect overlay wraps its text.
pub fn inspect_text_width(screen: Area) -> (r: usize)
    requires
        screen.x + screen.width <= u16::MAX,
        screen.y + screen.height <= u16::MAX,
    ensures
        r == inspect_text_width_spec(screen),
{
    let inner = bordered_inner(popup_area(screen));
    if inner.width >= 2 {
        (inner.width - 2) as usize
    } else {
        0
    }
}

/// Where the message of an open logs pane without logs is written: in the
/// middle of the inside of the pane; nowhere where the pane has no room
/// inside.
pub open spec fn placeholder_position_spec(inner: Area, message_width: u16) -> Option<(u16, u16)> {
    let free: int = if inner.width >= message_width {
        inner.width - message_width
    } else {
        0
    };
    if inner.width > 0 && inner.height > 0 {
        Some(((inner.x + free / 2) as u16, (inner.y + inner.height / 2) as u16))
    } else {
        None
    }
}

/// Where the message of an open logs pane without logs is written.
pub fn placeholder_position(inner: Area, message_width: u16) -> (r: Option<(u16, u16)>)
    requires
        inner.x + inner.width <= u16::MAX,
        inner.y + inner.height <= u16::MAX,
    ensures
        r == placeholder_position_spec(inner, message_width),
{
    let free = if inner.width >= message_width {
        inner.width - message_width
    } else {
        0
    };
    let x = inner.x + free / 2;
    let y = inner.y + inner.height / 2;
    if x < inner.x + inner.width && y < inner.y + inner.height {
        Some((x, y))
    } else {
        None
    }
}

/// One row of the channels table. The label is given in full: how much of
/// it is shown depends on the width of its column.
#[derive(Debug)]
pub struct ChannelRow {
    pub label: String,
    pub channel_type: String,
    /// The state as it is written: a warning mark goes before `full`.
    pub state_text: String,
    /// The state, for the colour of its cell.
    pub state: ChannelState,
    pub sent: String,
    pub received: String,
    pub queue: QueueCell,
    /// The bytes queued; `N/A` for an unbounded channel.
    pub mem: String,
}

/// A row of the channels table with its texts as sequences of characters.
pub struct ChannelRowView {
    pub label: Seq<char>,
    pub channel_type: Seq<char>,
    pub state_text: Seq<char>,
    pub state: ChannelState,
    pub sent: Seq<char>,
    pub received: Seq<char>,
    pub queue_text: Seq<char>,
    pub queue_color: Option<QueueColor>,
    pub mem: Seq<char>,
}

impl View for ChannelRow {
    type V = ChannelRowView;

    open spec fn view(&self) -> ChannelRowView {
        ChannelRowView {
            label: self.label@,
            channel_type: self.channel_type@,
            state_text: self.state_text@,
            state: self.state,
            sent: self.sent@,
            received: self.received@,
            queue_text: self.queue.text@,
            queue_color: self.queue.color,
            mem: self.mem@,
        }
    }
}

/// The row of the channels table that shows `stat`.
pub open spec fn channel_row_of(stat: SerializableChannelStatsView) -> ChannelRowView {
    ChannelRowView {
        label: stat.label,
        channel_type: stat.channel_type.encoding(),
        state_text: if stat.state == ChannelState::Full {
            "⚠ "@ + stat.state.name()
        } else {
            stat.state.name()
        },
        state: stat.state,
        sent: decimal(stat.sent_count as nat),
        received: decimal(stat.received_count as nat),
        queue_text: queue_text(stat.queued, stat.channel_type),
        queue_color: match shown_capacity(stat.channel_type) {
            Some(cap) if cap > 0 => Some(queue_color(stat.queued, cap)),
            _ => None,
        },
        mem: if stat.channel_type == ChannelType::Unbounded {
            "N/A"@
        } else {
            format_bytes_spec(stat.queued_bytes)
        },
    }
}

/// The row of the channels table that shows `stat`.
pub fn channel_row(stat: &SerializableChannelStats) -> (r: ChannelRow)
    ensures
        r@ == channel_row_of(stat@),
{
    let state_text = match stat.state {
        ChannelState::Full => {
            let mut text = String::from_str("⚠ ");
            text.append(stat.state.as_str());
            text
        },
        _ => String::from_str(stat.state.as_str()),
    };
    let mem = match stat.channel_type {
        ChannelType::Unbounded => String::from_str("N/A"),
        _ => format_bytes(stat.queued_bytes),
    };
    ChannelRow {
        label: stat.label.clone(),
        channel_type: stat.channel_type.to_string(),
        state_text,
        state: stat.state,
        sent: decimal_string(stat.sent_count),
        received: decimal_string(stat.received_count),
        queue: queue_status(stat.queued, &stat.channel_type),
        mem,
    }
}

/// The views of a sequence of rows.
pub open spec fn channel_row_views(rows: Seq<ChannelRow>) -> Seq<ChannelRowView> {
    rows.map_values(|r: ChannelRow| r@)
}

/// The rows of the channels table: one for each channel, in the order of the list.
pub fn channel_rows(app: &App) -> (rows: Vec<ChannelRow>)
    ensures
        channel_row_views(rows@) == app@.stats.map_values(
            |s: SerializableChannelStatsView| channel_row_of(s),
        ),
{
    let mut rows: Vec<ChannelRow> = Vec::new();
    let mut i: usize = 0;
    while i < app.stats.len()
        invariant
            i <= app.stats@.len(),
            rows@.len() == i,
            forall|j: int| 0 <= j < i ==> (#[trigger] rows@[j])@ == channel_row_of(app.stats@[j]@),
        decreases app.stats@.len() - i,
    {
        rows.push(channel_row(&app.stats[i]));
        i = i + 1;
    }
    assert(channel_row_views(rows@) =~= app@.stats.map_values(
        |s: SerializableChannelStatsView| channel_row_of(s),
    ));
    rows
}

/// The title of the channels table: the selected row, counted from one,
/// among all rows.
pub open spec fn channels_title_spec(app: AppView) -> Seq<char> {
    let position: nat = match app.selected {
        Some(i) => i as nat + 1,
        None => 1,
    };
    " ["@ + decimal(position) + "/"@ + decimal(app.stats.len()) + "] "@
}

/// Writes the title of the channels table.
pub fn channels_title(app: &App) -> (r: String)
    requires
        match app.selected {
            Some(i) => i < u64::MAX,
            None => true,
        },
    ensures
        r@ == channels_title_spec(app@),
{
    let position: u64 = match app.selected {
        Some(i) => i as u64 + 1,
        None => 1,
    };
    let mut r = String::from_str(" [");
    append_decimal(&mut r, position);
    r.append("/");
    append_decimal(&mut r, app.stats.len() as u64);
    r.append("] ");
    r
}

/// Whether the channels table is drawn with a thick border: it has the
/// focus, or the logs pane is shut.
pub open spec fn channels_border_thick_spec(app: AppView) -> bool {
    !app.show_logs || app.focus == Focus::Channels
}

/// Whether the channels table is drawn with a thick border.
pub fn channels_border_thick(app: &App) -> (r: bool)
    ensures
        r == channels_border_thick_spec(app@),
{
    !app.show_logs || app.focus == Focus::Channels
}

/// Whether the channels table is drawn dimmed: the logs pane is open and
/// has the focus, or the inspect overlay has it.
pub open spec fn channels_dimmed_spec(app: AppView) -> bool {
    app.show_logs && app.focus != Focus::Channels
}

/// Whether the channels table is drawn dimmed.
pub fn channels_dimmed(app: &App) -> (r: bool)
    ensures
        r == channels_dimmed_spec(app@),
{
    app.show_logs && app.focus != Focus::Channels
}

/// The label of the selected channel as the logs pane is titled with it:
/// its label, or its id where the label is empty; `Unknown` where no row
/// of the list is selected.
pub open spec fn selected_label_spec(app: AppView) -> Seq<char> {
    match app.selected {
        Some(i) if i < app.stats.len() => {
            let stat = app.stats[i as int];
            if stat.label.len() == 0 {
                decimal(stat.id as nat)
            } else {
                stat.label
            }
        },
        _ => "Unknown"@,
    }
}

/// Writes the label of the selected channel as the logs pane is titled
/// with it.
pub fn selected_label(app: &App) -> (r: String)
    ensures
        r@ == selected_label_spec(app@),
{
    match app.selected {
        Some(i) => {
            if i < app.stats.len() {
                let stat = &app.stats[i];
                if stat.label.as_str().unicode_len() == 0 {
                    decimal_string(stat.id)
                } else {
                    stat.label.clone()
                }
            } else {
                String::from_str("Unknown")
            }
        },
        None => String::from_str("Unknown"),
    }
}

/// One row of the logs table. The message is given in full: how much of
/// it is shown depends on the width of its column.
#[derive(Debug)]
pub struct LogRow {
    pub index: String,
    pub timestamp: String,
    pub message: String,
    pub delay: Delay,
}

/// A row of the logs table with its texts as sequences of characters.
pub struct LogRowView {
    pub index: Seq<char>,
    pub timestamp: Seq<char>,
    pub message: Seq<char>,
    pub delay: Delay,
}

impl View for LogRow {
    type V = LogRowView;

    open spec fn view(&self) -> LogRowView {
        LogRowView {
            index: self.index@,
            timestamp: self.timestamp@,
            message: self.message@,
            delay: self.delay,
        }
    }
}

/// The row of the logs table that shows the sent entry `entry`.
pub open spec fn log_row_of(entry: LogEntryView, logs: CachedLogsView) -> LogRowView {
    LogRowView {
        index: decimal(entry.index as nat),
        timestamp: format_timestamp_spec(entry.timestamp),
        message: match entry.message {
            Some(m) => m,
            None => Seq::empty(),
        },
        delay: delay_of(entry, logs.received_map),
    }
}

fn log_row(entry: &LogEntry, logs: &CachedLogs) -> (r: LogRow)
    ensures
        r@ == log_row_of(entry@, logs@),
{
    LogRow {
        index: decimal_string(entry.index),
        timestamp: format_timestamp(entry.timestamp),
        message: match &entry.message {
            Some(m) => m.clone(),
            None => String::new(),
        },
        delay: logs.delay(entry),
    }
}

/// What stands in the place of the logs pane.
#[derive(Debug)]
pub enum LogsPane {
    /// The pane is shut.
    Hidden,
    /// The pane is open without logs to show: its title, and why.
    Placeholder { title: String, message: &'static str },
    /// The pane shows the sent entries of the selected channel.
    Table { title: String, focused: bool, rows: Vec<LogRow> },
}

/// Why an open logs pane has no logs to show.
pub open spec fn placeholder_message(app: AppView) -> Seq<char> {
    if app.paused {
        "(refresh paused)"@
    } else if app.error is Some {
        "(cannot fetch new data)"@
    } else {
        "(no data)"@
    }
}

/// Whether a sent entry of the logs came without its message.
pub open spec fn has_missing_log(sent: Seq<LogEntryView>) -> bool {
    exists|i: int| 0 <= i < sent.len() && (#[trigger] sent[i]).message is None
}

/// The title of the logs table: the label of the selected channel, with a
/// note where entries came without their messages.
pub open spec fn logs_title_spec(app: AppView) -> Seq<char> {
    if app.logs is Some && has_missing_log(app.logs->0.sent_logs) {
        selected_label_spec(app) + " (missing \"log = true\")"@
    } else {
        selected_label_spec(app)
    }
}

/// Whether `pane` is what stands in the place of the logs pane of `app`.
pub open spec fn is_logs_pane(pane: LogsPane, app: AppView) -> bool {
    if !app.show_logs {
        pane is Hidden
    } else {
        match app.logs {
            Some(logs) => {
                &&& pane is Table
                &&& pane->Table_title@ == logs_title_spec(app)
                &&& pane->focused == (app.focus == Focus::Logs)
                &&& pane->rows@.map_values(|r: LogRow| r@) == logs.sent_logs.map_values(
                    |e: LogEntryView| log_row_of(e, logs),
                )
            },
            None => {
                &&& pane is Placeholder
                &&& pane->Placeholder_title@ == selected_label_spec(app)
                &&& pane->message@ == placeholder_message(app)
            },
        }
    }
}

fn any_missing(sent: &Vec<LogEntry>) -> (r: bool)
    ensures
        r == has_missing_log(crate::model::log_views(sent@)),
{
    let ghost views = crate::model::log_views(sent@);
    let mut i: usize = 0;
    while i < sent.len()
        invariant
            i <= sent@.len(),
            views == crate::model::log_views(sent@),
            forall|j: int| 0 <= j < i ==> (#[trigger] views[j]).message is Some,
        decreases sent@.len() - i,
    {
        if sent[i].message.is_none() {
            assert(views[i as int].message is None);
            return true;
        }
        i = i + 1;
    }
    false
}

/// What stands in the place of the logs pane.
pub fn logs_pane(app: &App) -> (pane: LogsPane)
    ensures
        is_logs_pane(pane, app@),
{
    if !app.show_logs {
        return LogsPane::Hidden;
    }
    let label = selected_label(app);
    match &app.logs {
        Some(logs) => {
            let title = if any_missing(&logs.logs.sent_logs) {
                let mut t = label;
                t.append(" (missing \"log = true\")");
                t
            } else {
                label
            };
            let sent = &logs.logs.sent_logs;
            let mut rows: Vec<LogRow> = Vec::new();
            let mut i: usize = 0;
            while i < sent.len()
                invariant
                    i <= sent@.len(),
                    rows@.len() == i,
                    forall|j: int|
                        0 <= j < i ==> (#[trigger] rows@[j])@ == log_row_of(sent@[j]@, logs@),
                decreases sent@.len() - i,
            {
                rows.push(log_row(&sent[i], logs));
                i = i + 1;
            }
            assert(rows@.map_values(|r: LogRow| r@) =~= logs@.sent_logs.map_values(
                |e: LogEntryView| log_row_of(e, logs@),
            ));
            LogsPane::Table { title, focused: app.focus == Focus::Logs, rows }
        },
        None => {
            let message = if app.paused {
                "(refresh paused)"
            } else if app.error.is_some() {
                "(cannot fetch new data)"
            } else {
                "(no data)"
            };
            LogsPane::Placeholder { title: label, message }
        },
    }
}

/// A line without the carriage return at its end, if it has one.
pub open spec fn strip_cr(line: Seq<char>) -> Seq<char> {
    if line.len() > 0 && line.last() == '\r' {
        line.drop_last()
    } else {
        line
    }
}

/// A line cut into pieces of `width` characters, the last one as long as
/// what is left. Where there is no width at all, the line stays in one
/// piece.
pub open spec fn chunks(line: Seq<char>, width: nat) -> Seq<Seq<char>>
    decreases line.len(),
{
    if line.len() == 0 {
        Seq::empty()
    } else if width == 0 || line.len() <= width {
        seq![line]
    } else {
        seq![line.take(width as int)] + chunks(line.skip(width as int), width)
    }
}

/// A line as it is shown in a column of `width` characters: cut into
/// pieces of that width; an empty line stays one empty line.
pub open spec fn wrap_line(line: Seq<char>, width: nat) -> Seq<Seq<char>> {
    if line.len() == 0 {
        seq![Seq::<char>::empty()]
    } else {
        chunks(line, width)
    }
}

/// The lines of `rest`, wrapped to `width`, where `line` holds what was
/// read of the current line. A line ends at a line feed; a carriage return
/// before the line feed belongs to the line ending; the last line needs no
/// line ending.
pub open spec fn wrap_from(rest: Seq<char>, line: Seq<char>, width: nat) -> Seq<Seq<char>>
    decreases rest.len(),
{
    if rest.len() == 0 {
        if line.len() == 0 {
            Seq::empty()
        } else {
            wrap_line(line, width)
        }
    } else if rest[0] == '\n' {
        wrap_line(strip_cr(line), width) + wrap_from(rest.skip(1), Seq::empty(), width)
    } else {
        wrap_from(rest.skip(1), line.push(rest[0]), width)
    }
}

/// A message as the inspect overlay shows it: line by line, each line
/// wrapped to `width` characters.
pub open spec fn wrap_message_spec(message: Seq<char>, width: nat) -> Seq<Seq<char>> {
    wrap_from(message, Seq::empty(), width)
}

/// The texts of a sequence of strings.
pub open spec fn texts(lines: Seq<String>) -> Seq<Seq<char>> {
    lines.map_values(|l: String| l@)
}

/// Appends the pieces of the line `message[from..to]` to `out`.
fn push_wrapped(out: &mut Vec<String>, message: &str, from: usize, to: usize, width: usize)
    requires
        from <= to <= message@.len(),
    ensures
        texts(final(out)@) == texts(old(out)@) + wrap_line(
            message@.subrange(from as int, to as int),
            width as nat,
        ),
{
    let ghost line = message@.subrange(from as int, to as int);
    if from == to {
        out.push(String::new());
        assert(texts(out@) =~= texts(old(out)@) + wrap_line(line, width as nat));
        return ;
    }
    let mut pos: usize = from;
    assert(line.skip(0) =~= line);
    assert(texts(out@) + chunks(line.skip(0), width as nat) =~= texts(old(out)@) + chunks(
        line,
        width as nat,
    ));
    while pos < to
        invariant
            from <= pos <= to <= message@.len(),
            line == message@.subrange(from as int, to as int),
            texts(out@) + chunks(line.skip(pos - from), width as nat) == texts(old(out)@) + chunks(
                line,
                width as nat,
            ),
        decreases to - pos,
    {
        let end = if width == 0 || to - pos <= width {
            to
        } else {
            pos + width
        };
        let ghost before = out@;
        let ghost left = line.skip(pos - from);
        out.push(String::from_str(message.substring_char(pos, end)));
        proof {
            let piece = message@.subrange(pos as int, end as int);
            assert(texts(out@) =~= texts(before).push(piece));
            if width == 0 || to - pos <= width {
                assert(piece =~= left);
                assert(line.skip(end - from) =~= Seq::<char>::empty());
                assert(chunks(left, width as nat) =~= seq![piece]);
                assert(chunks(line.skip(end - from), width as nat) =~= Seq::<Seq<char>>::empty());
            } else {
                assert(piece =~= left.take(width as int));
                assert(left.skip(width as int) =~= line.skip(end - from));
            }
            assert(texts(out@) + chunks(line.skip(end - from), width as nat) =~= texts(before)
                + chunks(left, width as nat));
        }
        pos = end;
    }
    assert(line.skip(to - from) =~= Seq::<char>::empty());
    assert(texts(out@) + Seq::<Seq<char>>::empty() =~= texts(out@));
}

/// Breaks a message into the lines that a column of `width` characters
/// shows; a column without width gets the lines as they are.
pub fn wrap_message(message: &str, width: usize) -> (lines: Vec<String>)
    ensures
        texts(lines@) == wrap_message_spec(message@, width as nat),
{
    let chars = to_chars(message);
    let n = chars.len();
    let mut lines: Vec<String> = Vec::new();
    let mut start: usize = 0;
    let mut i: usize = 0;
    assert(message@.skip(0) =~= message@);
    assert(message@.subrange(0, 0) =~= Seq::<char>::empty());
    assert(texts(lines@) + wrap_message_spec(message@, width as nat) =~= wrap_message_spec(
        message@,
        width as nat,
    ));
    while i < n
        invariant
            start <= i <= n,
            n == message@.len(),
            chars@ == message@,
            texts(lines@) + wrap_from(
                message@.skip(i as int),
                message@.subrange(start as int, i as int),
                width as nat,
            ) == wrap_message_spec(message@, width as nat),
        decreases n - i,
    {
        let ghost rest = message@.skip(i as int);
        let ghost line = message@.subrange(start as int, i as int);
        let ghost before = texts(lines@);
        assert(rest[0] == message@[i as int]);
        assert(rest.skip(1) =~= message@.skip(i + 1));
        if chars[i] == '\n' {
            let end = if i > start && chars[i - 1] == '\r' {
                i - 1
            } else {
                i
            };
            assert(strip_cr(line) =~= message@.subrange(start as int, end as int));
            push_wrapped(&mut lines, message, start, end, width);
            start = i + 1;
            assert(message@.subrange(start as int, start as int) =~= Seq::<char>::empty());
            assert(texts(lines@) + wrap_from(
                message@.skip(i + 1),
                Seq::<char>::empty(),
                width as nat,
            ) =~= before + wrap_from(rest, line, width as nat));
        } else {
            assert(line.push(rest[0]) =~= message@.subrange(start as int, i + 1));
        }
        i = i + 1;
    }
    assert(message@.skip(n as int) =~= Seq::<char>::empty());
    if start < n {
        push_wrapped(&mut lines, message, start, n, width);
    } else {
        assert(message@.subrange(start as int, n as int) =~= Seq::<char>::empty());
        assert(texts(lines@) + Seq::<Seq<char>>::empty() =~= texts(lines@));
    }
    lines
}

/// What the inspect overlay shows.
#[derive(Debug)]
pub struct InspectView {
    pub title: String,
    pub lines: Vec<String>,
}

/// The title of the inspect overlay on `entry`.
pub open spec fn inspect_title(entry: LogEntryView) -> Seq<char> {
    " Log Message (Index: "@ + decimal(entry.index as nat) + ") "@
}

/// The message that the inspect overlay shows for `entry`.
pub open spec fn inspect_message(entry: LogEntryView) -> Seq<char> {
    match entry.message {
        Some(m) => m,
        None => "(missing \"log = true\")"@,
    }
}

/// The inspect overlay: over everything else while it has the focus, with
/// the entry that was captured when it was opened or moved; its message
/// wrapped to `text_width` characters.
pub fn inspect_view(app: &App, text_width: usize) -> (r: Option<InspectView>)
    ensures
        match r {
            Some(view) => {
                &&& app@.focus == Focus::Inspect
                &&& app@.inspected_log is Some
                &&& view.title@ == inspect_title(app@.inspected_log->0)
                &&& texts(view.lines@) == wrap_message_spec(
                    inspect_message(app@.inspected_log->0),
                    text_width as nat,
                )
            },
            None => app@.focus != Focus::Inspect || app@.inspected_log is None,
        },
{
    if app.focus != Focus::Inspect {
        return None;
    }
    match &app.inspected_log {
        Some(entry) => {
            let mut title = String::from_str(" Log Message (Index: ");
            append_decimal(&mut title, entry.index);
            title.append(") ");
            let lines = match &entry.message {
                Some(m) => wrap_message(m.as_str(), text_width),
                None => wrap_message("(missing \"log = true\")", text_width),
            };
            Some(InspectView { title, lines })
        },
        None => None,
    }
}

/// One piece of the line of key hints: a text, and whether it names keys.
#[derive(Debug, Clone, Copy)]
pub struct Hint {
    pub text: &'static str,
    pub is_key: bool,
}

/// The texts of a line of key hints, with the pieces that name keys marked.
pub open spec fn hint_views(hints: Seq<Hint>) -> Seq<(Seq<char>, bool)> {
    hints.map_values(|h: Hint| (h.text@, h.is_key))
}

/// The line of key hints under the focus `focus`: how to quit and to move,
/// then what the focus offers (the logs, to inspect, to close), then how to
/// pause.
pub open spec fn key_hints_spec(focus: Focus) -> Seq<(Seq<char>, bool)> {
    seq![
        (" Quit "@, false),
        ("<q> "@, true),
        (" | "@, false),
        (
            if focus == Focus::Inspect {
                "<↑↓/jk> "@
            } else {
                "<↑↓←→/jkhl> "@
            },
            true,
        ),
        (
            match focus {
                Focus::Channels => " | Logs "@,
                Focus::Logs => " | Inspect "@,
                Focus::Inspect => " | Close "@,
            },
            false,
        ),
        (
            match focus {
                Focus::Channels => "<o> "@,
                Focus::Logs => "<i> "@,
                Focus::Inspect => "<i/o/h> "@,
            },
            true,
        ),
        (" | Pause "@, false),
        ("<p> "@, true),
    ]
}

/// The line of key hints under the focus `focus`.
pub fn key_hints(focus: Focus) -> (r: Vec<Hint>)
    ensures
        hint_views(r@) == key_hints_spec(focus),
{
    let mut r: Vec<Hint> = Vec::new();
    r.push(Hint { text: " Quit ", is_key: false });
    r.push(Hint { text: "<q> ", is_key: true });
    r.push(Hint { text: " | ", is_key: false });
    r.push(
        Hint {
            text: match focus {
                Focus::Inspect => "<↑↓/jk> ",
                _ => "<↑↓←→/jkhl> ",
            },
            is_key: true,
        },
    );
    r.push(
        Hint {
            text: match focus {
                Focus::Channels => " | Logs ",
                Focus::Logs => " | Inspect ",
                Focus::Inspect => " | Close ",
            },
            is_key: false,
        },
    );
    r.push(
        Hint {
            text: match focus {
                Focus::Channels => "<o> ",
                Focus::Logs => "<i> ",
                Focus::Inspect => "<i/o/h> ",
            },
            is_key: true,
        },
    );
    r.push(Hint { text: " | Pause ", is_key: false });
    r.push(Hint { text: "<p> ", is_key: true });
    assert(hint_views(r@) =~= key_hints_spec(focus));
    r
}

} // verus!
