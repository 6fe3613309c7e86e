//! The dashboard as a state machine: what a key and what an answer of the
//! metrics server does to it. Fetching is left to the caller: a step says
//! what to fetch, and the answer is handed back in.

use vstd::prelude::*;
use vstd::string::*;
use crate::config::{DEFAULT_METRICS_PORT, REFRESH_INTERVAL_MILLIS};
use crate::console::state::{cached, row_views, CachedLogs, CachedLogsView, Effect, Focus, Key};
use crate::model::{log_views, text_of, LogEntry, LogEntryView};
use crate::report::{ChannelLogs, SerializableChannelStats, SerializableChannelStatsView};

verus! {

/// How the dashboard is started.
#[derive(Debug, Clone, Copy, PartialEq, Eq, Structural)]
pub struct ConsoleArgs {
    /// The metrics server's port.
    pub metrics_port: u16,
}

impl Default for ConsoleArgs {
    fn default() -> (r: Self)
        ensures
            r.metrics_port == DEFAULT_METRICS_PORT,
    {
        ConsoleArgs { metrics_port: DEFAULT_METRICS_PORT }
    }
}

/// The dashboard between two frames.
#[derive(Debug)]
pub struct App {
    /// The channels as they were last fetched.
    pub stats: Vec<SerializableChannelStats>,
    /// Why the last fetch failed, if it did.
    pub error: Option<String>,
    pub exit: bool,
    /// The selected row of the channels table.
    pub selected: Option<usize>,
    /// The selected row of the logs table.
    pub selected_log: Option<usize>,
    pub focus: Focus,
    /// Whether the logs pane is open.
    pub show_logs: bool,
    /// The logs of the selected channel, as far as they were fetched.
    pub logs: Option<CachedLogs>,
    pub paused: bool,
    /// The entry that the inspect overlay shows.
    pub inspected_log: Option<LogEntry>,
    pub metrics_port: u16,
}

/// The dashboard with its texts as sequences of characters.
pub struct AppView {
    pub stats: Seq<SerializableChannelStatsView>,
    pub error: Option<Seq<char>>,
    pub exit: bool,
    pub selected: Option<usize>,
    pub selected_log: Option<usize>,
    pub focus: Focus,
    pub show_logs: bool,
    pub logs: Option<CachedLogsView>,
    pub paused: bool,
    pub inspected_log: Option<LogEntryView>,
    pub metrics_port: u16,
}

impl View for App {
    type V = AppView;

    open spec fn view(&self) -> AppView {
        AppView {
            stats: row_views(self.stats@),
            error: text_of(self.error),
            exit: self.exit,
            selected: self.selected,
            selected_log: self.selected_log,
            focus: self.focus,
            show_logs: self.show_logs,
            logs: match self.logs {
                Some(l) => Some(l@),
                None => None,
            },
            paused: self.paused,
            inspected_log: match self.inspected_log {
                Some(e) => Some(e@),
                None => None,
            },
            metrics_port: self.metrics_port,
        }
    }
}

/// The row before row `at`, the first row at the least; the first row
/// where none is selected.
pub open spec fn row_before(at: Option<usize>) -> usize {
    match at {
        Some(i) => if i > 0 {
            (i - 1) as usize
        } else {
            0
        },
        None => 0,
    }
}

/// The row after row `at` of `count > 0` rows, the last row at the most;
/// the first row where none is selected.
pub open spec fn row_after(at: Option<usize>, count: nat) -> usize {
    match at {
        Some(i) => if i + 1 < count {
            (i + 1) as usize
        } else {
            (count - 1) as usize
        },
        None => 0,
    }
}

/// A selection brought back into `count` rows: the last row where it lies
/// beyond them and there are rows.
pub open spec fn clamped(at: Option<usize>, count: nat) -> Option<usize> {
    match at {
        Some(i) if i >= count && count > 0 => Some((count - 1) as usize),
        _ => at,
    }
}

impl AppView {
    /// The dashboard as it starts: the first row selected, the logs pane shut.
    pub open spec fn initial(metrics_port: u16) -> AppView {
        AppView {
            stats: Seq::empty(),
            error: None,
            exit: false,
            selected: Some(0),
            selected_log: None,
            focus: Focus::Channels,
            show_logs: false,
            logs: None,
            paused: false,
            inspected_log: None,
            metrics_port,
        }
    }

    /// The number of sent entries in the cached logs; 0 without cached logs.
    pub open spec fn log_count(self) -> nat {
        match self.logs {
            Some(l) => l.sent_logs.len(),
            None => 0,
        }
    }

    /// Asks for the logs of the selected channel: the cached logs go, and
    /// the caller is to fetch new ones. While paused, nothing happens.
    pub open spec fn refresh_logs(self) -> (AppView, Effect) {
        if self.paused {
            (self, Effect::Nothing)
        } else {
            let cleared = AppView { logs: None, ..self };
            match self.selected {
                Some(i) if i < self.stats.len() => (
                    cleared,
                    Effect::FetchLogs(self.stats[i as int].id),
                ),
                _ => (cleared, Effect::Nothing),
            }
        }
    }

    /// Moves the selection of the channels table to row `to`. With the
    /// logs pane open, the logs of the old selection go: new ones are asked
    /// for, unless the dashboard is paused.
    pub open spec fn select_channel(self, to: usize) -> (AppView, Effect) {
        let moved = AppView { selected: Some(to), ..self };
        if self.paused && self.show_logs {
            (AppView { logs: None, ..moved }, Effect::Nothing)
        } else if self.show_logs {
            moved.refresh_logs()
        } else {
            (moved, Effect::Nothing)
        }
    }

    /// Moves the selection of the channels table one row up.
    pub open spec fn select_previous_channel(self) -> (AppView, Effect) {
        if self.stats.len() > 0 {
            self.select_channel(row_before(self.selected))
        } else {
            (self, Effect::Nothing)
        }
    }

    /// Moves the selection of the channels table one row down.
    pub open spec fn select_next_channel(self) -> (AppView, Effect) {
        if self.stats.len() > 0 {
            self.select_channel(row_after(self.selected, self.stats.len()))
        } else {
            (self, Effect::Nothing)
        }
    }

    /// Shuts the logs pane: the cached logs and the selection in them go,
    /// and the focus returns to the channels.
    pub open spec fn hide_logs(self) -> AppView {
        AppView { show_logs: false, logs: None, selected_log: None, focus: Focus::Channels, ..self }
    }

    /// Opens the logs pane for the selected channel, or shuts it where it
    /// is open. Without a selected channel nothing happens.
    pub open spec fn toggle_logs(self) -> (AppView, Effect) {
        let valid = match self.selected {
            Some(i) => i < self.stats.len(),
            None => false,
        };
        if valid {
            if self.show_logs {
                (self.hide_logs(), Effect::Nothing)
            } else {
                let open = AppView { show_logs: true, ..self };
                if self.paused {
                    (AppView { logs: None, ..open }, Effect::Nothing)
                } else {
                    open.refresh_logs()
                }
            }
        } else {
            (self, Effect::Nothing)
        }
    }

    /// Moves the focus to the channels; the selection in the logs goes.
    pub open spec fn focus_channels(self) -> AppView {
        AppView { focus: Focus::Channels, selected_log: None, ..self }
    }

    /// Moves the focus to the logs, where the pane is open and shows
    /// entries; the first entry is selected where none was.
    pub open spec fn focus_logs(self) -> AppView {
        if self.show_logs && self.stats.len() > 0 && self.log_count() > 0 {
            AppView {
                focus: Focus::Logs,
                selected_log: match self.selected_log {
                    Some(i) => Some(i),
                    None => Some(0),
                },
                ..self
            }
        } else {
            self
        }
    }

    /// Moves the selection of the logs table to row `to`; an open inspect
    /// overlay follows to the entry of that row.
    pub open spec fn select_log(self, to: usize) -> AppView {
        let moved = AppView { selected_log: Some(to), ..self };
        if self.focus == Focus::Inspect && to < self.log_count() {
            AppView { inspected_log: Some(self.logs->0.sent_logs[to as int]), ..moved }
        } else {
            moved
        }
    }

    /// Moves the selection of the logs table one row up.
    pub open spec fn select_previous_log(self) -> AppView {
        if self.log_count() > 0 {
            self.select_log(row_before(self.selected_log))
        } else {
            self
        }
    }

    /// Moves the selection of the logs table one row down.
    pub open spec fn select_next_log(self) -> AppView {
        if self.log_count() > 0 {
            self.select_log(row_after(self.selected_log, self.log_count()))
        } else {
            self
        }
    }

    /// Opens the inspect overlay on the selected entry of the logs, or
    /// shuts it where it is open.
    pub open spec fn toggle_inspect(self) -> AppView {
        if self.focus == Focus::Inspect {
            AppView { focus: Focus::Logs, inspected_log: None, ..self }
        } else if self.focus == Focus::Logs {
            match self.selected_log {
                Some(i) if i < self.log_count() => AppView {
                    inspected_log: Some(self.logs->0.sent_logs[i as int]),
                    focus: Focus::Inspect,
                    ..self
                },
                _ => self,
            }
        } else {
            self
        }
    }

    /// Shuts the inspect overlay and the logs pane with it.
    pub open spec fn close_inspect_and_refocus_channels(self) -> AppView {
        AppView { inspected_log: None, ..self }.hide_logs()
    }

    /// Shuts the inspect overlay and returns to the channels; the logs pane
    /// stays open.
    pub open spec fn close_inspect_only(self) -> AppView {
        AppView { inspected_log: None, focus: Focus::Channels, selected_log: None, ..self }
    }

    /// What a key does. Letters count in either case: `q` quits, `o`
    /// opens and shuts the logs pane, `p` pauses, `h` and `l` go left and
    /// right, `k` and `j` up and down, `i` inspects.
    pub open spec fn key_step(self, key: Key) -> (AppView, Effect) {
        match key {
            Key::Char('q') | Key::Char('Q') => (AppView { exit: true, ..self }, Effect::Nothing),
            Key::Char('o') | Key::Char('O') => match self.focus {
                Focus::Inspect => (self.close_inspect_and_refocus_channels(), Effect::Nothing),
                Focus::Logs => (self.hide_logs(), Effect::Nothing),
                Focus::Channels => self.toggle_logs(),
            },
            Key::Char('p') | Key::Char('P') => (
                AppView { paused: !self.paused, ..self },
                Effect::Nothing,
            ),
            Key::Left | Key::Char('h') | Key::Char('H') => if self.focus == Focus::Inspect {
                (self.close_inspect_only(), Effect::Nothing)
            } else {
                (self.focus_channels(), Effect::Nothing)
            },
            Key::Right | Key::Char('l') | Key::Char('L') => (self.focus_logs(), Effect::Nothing),
            Key::Char('i') | Key::Char('I') => (self.toggle_inspect(), Effect::Nothing),
            Key::Up | Key::Char('k') | Key::Char('K') => match self.focus {
                Focus::Channels => self.select_previous_channel(),
                _ => (self.select_previous_log(), Effect::Nothing),
            },
            Key::Down | Key::Char('j') | Key::Char('J') => match self.focus {
                Focus::Channels => self.select_next_channel(),
                _ => (self.select_next_log(), Effect::Nothing),
            },
            _ => (self, Effect::Nothing),
        }
    }

    /// Whether the dashboard is to fetch anew when its data is
    /// `millis_since_refresh` old: never while paused, else once the data
    /// has the age of the refresh interval.
    pub open spec fn refresh_due(self, millis_since_refresh: u128) -> bool {
        !self.paused && millis_since_refresh >= REFRESH_INTERVAL_MILLIS
    }

    /// What a fetched list of channels does: it replaces the old list, the
    /// error goes, the selection is brought back into the list, and with
    /// the logs pane open the logs are asked for anew.
    pub open spec fn metrics_arrived(self, stats: Seq<SerializableChannelStatsView>) -> (
        AppView,
        Effect,
    ) {
        let updated = AppView {
            stats,
            error: None,
            selected: clamped(self.selected, stats.len()),
            ..self
        };
        if self.show_logs {
            updated.refresh_logs()
        } else {
            (updated, Effect::Nothing)
        }
    }

    /// What a failed fetch of the channels does: the old list stays, and
    /// the failure is kept to be shown.
    pub open spec fn metrics_failed(self, reason: Seq<char>) -> AppView {
        AppView { error: Some("Failed to fetch metrics: "@ + reason), ..self }
    }

    /// What fetched logs do: they are cached, and the selection in them is
    /// brought back into the sent entries.
    pub open spec fn logs_arrived(self, logs: CachedLogsView) -> AppView {
        AppView {
            logs: Some(logs),
            selected_log: clamped(self.selected_log, logs.sent_logs.len()),
            ..self
        }
    }
}

fn before(at: Option<usize>) -> (r: usize)
    ensures
        r == row_before(at),
{
    match at {
        Some(i) => if i > 0 {
            i - 1
        } else {
            0
        },
        None => 0,
    }
}

fn after(at: Option<usize>, count: usize) -> (r: usize)
    requires
        count > 0,
    ensures
        r == row_after(at, count as nat),
{
    match at {
        Some(i) => if i < count - 1 {
            i + 1
        } else {
            count - 1
        },
        None => 0,
    }
}

fn clamp(at: Option<usize>, count: usize) -> (r: Option<usize>)
    ensures
        r == clamped(at, count as nat),
{
    match at {
        Some(i) => if i >= count && count > 0 {
            Some(count - 1)
        } else {
            at
        },
        None => at,
    }
}

impl ConsoleArgs {
    /// The dashboard as it starts.
    pub fn app(&self) -> (r: App)
        ensures
            r@ == AppView::initial(self.metrics_port),
    {
        App::new(self.metrics_port)
    }
}

impl App {
    /// The dashboard as it starts.
    pub fn new(metrics_port: u16) -> (r: Self)
        ensures
            r@ == AppView::initial(metrics_port),
    {
        let r = App {
            stats: Vec::new(),
            error: None,
            exit: false,
            selected: Some(0),
            selected_log: None,
            focus: Focus::Channels,
            show_logs: false,
            logs: None,
            paused: false,
            inspected_log: None,
            metrics_port,
        };
        assert(r@.stats =~= Seq::empty());
        r
    }

    fn log_count(&self) -> (n: usize)
        ensures
            n == self@.log_count(),
    {
        match &self.logs {
            Some(l) => l.logs.sent_logs.len(),
            None => 0,
        }
    }

    fn refresh_logs(&mut self) -> (effect: Effect)
        ensures
            (final(self)@, effect) == old(self)@.refresh_logs(),
    {
        if self.paused {
            return Effect::Nothing;
        }
        self.logs = None;
        match self.selected {
            Some(i) => {
                if i < self.stats.len() {
                    Effect::FetchLogs(self.stats[i].id)
                } else {
                    Effect::Nothing
                }
            },
            None => Effect::Nothing,
        }
    }

    fn select_channel(&mut self, to: usize) -> (effect: Effect)
        ensures
            (final(self)@, effect) == old(self)@.select_channel(to),
    {
        self.selected = Some(to);
        if self.paused && self.show_logs {
            self.logs = None;
            Effect::Nothing
        } else if self.show_logs {
            self.refresh_logs()
        } else {
            Effect::Nothing
        }
    }

    fn select_previous_channel(&mut self) -> (effect: Effect)
        ensures
            (final(self)@, effect) == old(self)@.select_previous_channel(),
    {
        if self.stats.len() > 0 {
            let to = before(self.selected);
            self.select_channel(to)
        } else {
            Effect::Nothing
        }
    }

    fn select_next_channel(&mut self) -> (effect: Effect)
        ensures
            (final(self)@, effect) == old(self)@.select_next_channel(),
    {
        if self.stats.len() > 0 {
            let to = after(self.selected, self.stats.len());
            self.select_channel(to)
        } else {
            Effect::Nothing
        }
    }

    fn hide_logs(&mut self)
        ensures
            final(self)@ == old(self)@.hide_logs(),
    {
        self.show_logs = false;
        self.logs = None;
        self.selected_log = None;
        self.focus = Focus::Channels;
    }

    fn toggle_logs(&mut self) -> (effect: Effect)
        ensures
            (final(self)@, effect) == old(self)@.toggle_logs(),
    {
        let valid = match self.selected {
            Some(i) => i < self.stats.len(),
            None => false,
        };
        if valid {
            if self.show_logs {
                self.hide_logs();
                Effect::Nothing
            } else {
                self.show_logs = true;
                if self.paused {
                    self.logs = None;
                    Effect::Nothing
                } else {
                    self.refresh_logs()
                }
            }
        } else {
            Effect::Nothing
        }
    }

    fn focus_channels(&mut self)
        ensures
            final(self)@ == old(self)@.focus_channels(),
    {
        self.focus = Focus::Channels;
        self.selected_log = None;
    }

    fn focus_logs(&mut self)
        ensures
            final(self)@ == old(self)@.focus_logs(),
    {
        if self.show_logs && self.stats.len() > 0 && self.log_count() > 0 {
            self.focus = Focus::Logs;
            if self.selected_log.is_none() {
                self.selected_log = Some(0);
            }
        }
    }

    fn select_log(&mut self, to: usize)
        ensures
            final(self)@ == old(self)@.select_log(to),
    {
        self.selected_log = Some(to);
        if self.focus == Focus::Inspect && to < self.log_count() {
            let entry = match &self.logs {
                Some(l) => Some(l.logs.sent_logs[to].clone()),
                None => None,
            };
            self.inspected_log = entry;
        }
    }

    fn select_previous_log(&mut self)
        ensures
            final(self)@ == old(self)@.select_previous_log(),
    {
        if self.log_count() > 0 {
            let to = before(self.selected_log);
            self.select_log(to);
        }
    }

    fn select_next_log(&mut self)
        ensures
            final(self)@ == old(self)@.select_next_log(),
    {
        let count = self.log_count();
        if count > 0 {
            let to = after(self.selected_log, count);
            self.select_log(to);
        }
    }

    fn toggle_inspect(&mut self)
        ensures
            final(self)@ == old(self)@.toggle_inspect(),
    {
        if self.focus == Focus::Inspect {
            self.focus = Focus::Logs;
            self.inspected_log = None;
        } else if self.focus == Focus::Logs {
            match self.selected_log {
                Some(i) => {
                    if i < self.log_count() {
                        let entry = match &self.logs {
                            Some(l) => Some(l.logs.sent_logs[i].clone()),
                            None => None,
                        };
                        self.inspected_log = entry;
                        self.focus = Focus::Inspect;
                    }
                },
                None => {},
            }
        }
    }

    fn close_inspect_and_refocus_channels(&mut self)
        ensures
            final(self)@ == old(self)@.close_inspect_and_refocus_channels(),
    {
        self.inspected_log = None;
        self.hide_logs();
    }

    fn close_inspect_only(&mut self)
        ensures
            final(self)@ == old(self)@.close_inspect_only(),
    {
        self.inspected_log = None;
        self.focus = Focus::Channels;
        self.selected_log = None;
    }

    /// Whether it is time to fetch anew, `millis_since_refresh` after the
    /// last fetch.
    pub fn is_refresh_due(&self, millis_since_refresh: u128) -> (r: bool)
        ensures
            r == self@.refresh_due(millis_since_refresh),
    {
        !self.paused && millis_since_refresh >= REFRESH_INTERVAL_MILLIS as u128
    }

    /// Takes a key; the answer says what the caller is to fetch.
    pub fn handle_key_event(&mut self, key: Key) -> (effect: Effect)
        ensures
            (final(self)@, effect) == old(self)@.key_step(key),
    {
        match key {
            Key::Char('q') | Key::Char('Q') => {
                self.exit = true;
                Effect::Nothing
            },
            Key::Char('o') | Key::Char('O') => match self.focus {
                Focus::Inspect => {
                    self.close_inspect_and_refocus_channels();
                    Effect::Nothing
                },
                Focus::Logs => {
                    self.hide_logs();
                    Effect::Nothing
                },
                Focus::Channels => self.toggle_logs(),
            },
            Key::Char('p') | Key::Char('P') => {
                self.paused = !self.paused;
                Effect::Nothing
            },
            Key::Left | Key::Char('h') | Key::Char('H') => {
                if self.focus == Focus::Inspect {
                    self.close_inspect_only();
                } else {
                    self.focus_channels();
                }
                Effect::Nothing
            },
            Key::Right | Key::Char('l') | Key::Char('L') => {
                self.focus_logs();
                Effect::Nothing
            },
            Key::Char('i') | Key::Char('I') => {
                self.toggle_inspect();
                Effect::Nothing
            },
            Key::Up | Key::Char('k') | Key::Char('K') => match self.focus {
                Focus::Channels => self.select_previous_channel(),
                _ => {
                    self.select_previous_log();
                    Effect::Nothing
                },
            },
            Key::Down | Key::Char('j') | Key::Char('J') => match self.focus {
                Focus::Channels => self.select_next_channel(),
                _ => {
                    self.select_next_log();
                    Effect::Nothing
                },
            },
            _ => Effect::Nothing,
        }
    }

    /// Takes the answer to a fetch of the channels: the list, or why there
    /// is none. The answer says what the caller is to fetch next.
    pub fn refresh_data(
        &mut self,
        fetched: Result<Vec<SerializableChannelStats>, String>,
    ) -> (effect: Effect)
        ensures
            match fetched {
                Ok(stats) => (final(self)@, effect) == old(self)@.metrics_arrived(
                    row_views(stats@),
                ),
                Err(reason) => final(self)@ == old(self)@.metrics_failed(reason@) && effect
                    == Effect::Nothing,
            },
    {
        match fetched {
            Ok(stats) => {
                self.selected = clamp(self.selected, stats.len());
                self.stats = stats;
                self.error = None;
                if self.show_logs {
                    self.refresh_logs()
                } else {
                    Effect::Nothing
                }
            },
            Err(reason) => {
                let mut message = String::from_str("Failed to fetch metrics: ");
                message.append(reason.as_str());
                self.error = Some(message);
                Effect::Nothing
            },
        }
    }

    /// Takes the logs that were fetched for the selected channel.
    pub fn logs_fetched(&mut self, logs: ChannelLogs)
        ensures
            final(self)@ == old(self)@.logs_arrived(
                cached(logs.id@, log_views(logs.sent_logs@), log_views(logs.received_logs@)),
            ),
    {
        let count = logs.sent_logs.len();
        self.logs = Some(CachedLogs::new(logs));
        self.selected_log = clamp(self.selected_log, count);
    }
}

} // verus!
