//! The data model: endpoint records, their states and kinds, and log entries.
//!
//! Every type that holds text or a collection has a view in which strings are
//! sequences of characters and rings are sequences of entries; the contracts
//! of the crate speak of those views.

use vstd::prelude::*;
use vstd::string::*;
use std::collections::VecDeque;
use crate::text::{
    append_decimal, chars_start_with, decimal, lemma_decimal_digits, lemma_parse_decimal,
    parse_unsigned_chars, parse_unsigned_spec, str_eq, text_view, to_chars,
};

verus! {

/// The characters of an optional string.
pub open spec fn text_of(o: Option<String>) -> Option<Seq<char>> {
    match o {
        Some(s) => Some(s@),
        None => None,
    }
}

/// One message that was sent, received or yielded.
#[derive(Debug)]
pub struct LogEntry {
    /// The endpoint's counter when the entry was made.
    pub index: u64,
    /// Nanoseconds since the start-time anchor.
    pub timestamp: u64,
    /// The message as rendered for debugging, where logging is on.
    pub message: Option<String>,
}

/// A log entry with its message as a sequence of characters.
pub struct LogEntryView {
    pub index: u64,
    pub timestamp: u64,
    pub message: Option<Seq<char>>,
}

impl View for LogEntry {
    type V = LogEntryView;

    open spec fn view(&self) -> LogEntryView {
        LogEntryView {
            index: self.index,
            timestamp: self.timestamp,
            message: text_of(self.message),
        }
    }
}

/// The views of the entries of a ring, oldest first.
pub open spec fn log_views(entries: Seq<LogEntry>) -> Seq<LogEntryView> {
    entries.map_values(|e: LogEntry| e@)
}

/// A time in nanoseconds as a log entry stores it: its low 64 bits.
pub open spec fn stored_nanos(elapsed_nanos: u128) -> u64 {
    (elapsed_nanos % 0x1_0000_0000_0000_0000) as u64
}

/// The text of an optional string.
pub fn label_text(label: &Option<String>) -> (r: Option<&str>)
    ensures
        text_view(r) == text_of(*label),
{
    match label {
        Some(l) => Some(l.as_str()),
        None => None,
    }
}

fn clone_text(o: &Option<String>) -> (r: Option<String>)
    ensures
        text_of(r) == text_of(*o),
{
    match o {
        Some(s) => Some(s.clone()),
        None => None,
    }
}

impl LogEntry {
    /// An entry for the message with counter value `index` that was seen
    /// `elapsed_nanos` after the start-time anchor.
    pub fn new(index: u64, elapsed_nanos: u128, message: Option<String>) -> (r: Self)
        ensures
            r@ == (LogEntryView {
                index,
                timestamp: stored_nanos(elapsed_nanos),
                message: text_of(message),
            }),
    {
        let timestamp: u64 = (elapsed_nanos % 0x1_0000_0000_0000_0000) as u64;
        LogEntry { index, timestamp, message }
    }
}

impl Clone for LogEntry {
    fn clone(&self) -> (r: Self)
        ensures
            r@ == self@,
    {
        LogEntry {
            index: self.index,
            timestamp: self.timestamp,
            message: clone_text(&self.message),
        }
    }
}

/// The flavor of a channel.
#[derive(Debug, Clone, Copy, PartialEq, Eq, Structural)]
pub enum ChannelType {
    Bounded(usize),
    Unbounded,
    Oneshot,
}

/// Why a text is not the encoding of a channel type.
#[derive(Debug, Clone, Copy, PartialEq, Eq, Structural)]
pub enum ChannelTypeError {
    /// It names no channel type.
    InvalidChannelType,
    /// It has the shape `bounded[..]`, but what stands in the brackets is no size.
    InvalidBoundedSize,
}

impl ChannelType {
    /// The textual encoding: `unbounded`, `oneshot` or `bounded[<capacity>]`.
    pub open spec fn encoding(self) -> Seq<char> {
        match self {
            ChannelType::Bounded(size) => "bounded["@ + decimal(size as nat) + "]"@,
            ChannelType::Unbounded => "unbounded"@,
            ChannelType::Oneshot => "oneshot"@,
        }
    }

    /// What a text decodes to.
    pub open spec fn decoding(s: Seq<char>) -> Result<ChannelType, ChannelTypeError> {
        if s == "unbounded"@ {
            Ok(ChannelType::Unbounded)
        } else if s == "oneshot"@ {
            Ok(ChannelType::Oneshot)
        } else if s.len() >= 9 && s.take(8) == "bounded["@ && s.last() == ']' {
            match parse_unsigned_spec(s.subrange(8, s.len() - 1), usize::MAX as nat) {
                Some(size) => Ok(ChannelType::Bounded(size as usize)),
                None => Err(ChannelTypeError::InvalidBoundedSize),
            }
        } else {
            Err(ChannelTypeError::InvalidChannelType)
        }
    }

    /// The number of messages at which the channel counts as full, if any.
    pub open spec fn full_mark(self) -> Option<nat> {
        match self {
            ChannelType::Bounded(cap) => Some(cap as nat),
            ChannelType::Oneshot => Some(1),
            ChannelType::Unbounded => None,
        }
    }

    /// Writes the textual encoding.
    pub fn to_string(&self) -> (r: String)
        ensures
            r@ == self.encoding(),
    {
        match self {
            ChannelType::Bounded(size) => {
                let mut r = String::from_str("bounded[");
                append_decimal(&mut r, *size as u64);
                r.append("]");
                r
            },
            ChannelType::Unbounded => String::from_str("unbounded"),
            ChannelType::Oneshot => String::from_str("oneshot"),
        }
    }

    /// Reads a textual encoding back.
    pub fn parse(s: &str) -> (r: Result<ChannelType, ChannelTypeError>)
        ensures
            r == ChannelType::decoding(s@),
    {
        if str_eq(s, "unbounded") {
            return Ok(ChannelType::Unbounded);
        }
        if str_eq(s, "oneshot") {
            return Ok(ChannelType::Oneshot);
        }
        let chars = to_chars(s);
        let n = chars.len();
        proof {
            reveal_strlit("bounded[");
        }
        if chars_start_with(&chars, "bounded[") && n >= 9 && chars[n - 1] == ']' {
            match parse_unsigned_chars(&chars, 8, n - 1, usize::MAX as u64) {
                Some(size) => Ok(ChannelType::Bounded(size as usize)),
                None => Err(ChannelTypeError::InvalidBoundedSize),
            }
        } else {
            Err(ChannelTypeError::InvalidChannelType)
        }
    }
}

/// Decoding the encoding of a channel type gives the channel type back.
pub proof fn lemma_channel_type_round_trip(t: ChannelType)
    ensures
        ChannelType::decoding(t.encoding()) == Ok::<ChannelType, ChannelTypeError>(t),
{
    reveal_strlit("unbounded");
    reveal_strlit("oneshot");
    reveal_strlit("bounded[");
    reveal_strlit("]");
    match t {
        ChannelType::Bounded(size) => {
            let s = t.encoding();
            let d = decimal(size as nat);
            lemma_decimal_digits(size as nat);
            lemma_parse_decimal(size as nat, usize::MAX as nat);
            assert(s[0] == 'b');
            assert("unbounded"@[0] == 'u');
            assert("oneshot"@[0] == 'o');
            assert(s.len() == 9 + d.len());
            assert(s.take(8) =~= "bounded["@);
            assert(s.subrange(8, s.len() - 1) =~= d);
        },
        ChannelType::Unbounded => {},
        ChannelType::Oneshot => {
            assert("oneshot"@[0] == 'o');
            assert("unbounded"@[0] == 'u');
        },
    }
}

/// What was instrumented: a channel of some flavor, or a stream.
#[derive(Debug, Clone, Copy, PartialEq, Eq, Structural)]
pub enum InstrumentedType {
    Channel { channel_type: ChannelType },
    Stream,
}

impl InstrumentedType {
    /// The name shown for the kind: the channel type's encoding, or `stream`.
    pub open spec fn encoding(self) -> Seq<char> {
        match self {
            InstrumentedType::Channel { channel_type } => channel_type.encoding(),
            InstrumentedType::Stream => "stream"@,
        }
    }

    /// Writes the name shown for the kind.
    pub fn to_string(&self) -> (r: String)
        ensures
            r@ == self.encoding(),
    {
        match self {
            InstrumentedType::Channel { channel_type } => channel_type.to_string(),
            InstrumentedType::Stream => String::from_str("stream"),
        }
    }
}

/// How the final summary is printed.
#[derive(Debug, Clone, Copy, PartialEq, Eq, Structural)]
pub enum Format {
    Table,
    Json,
    JsonPretty,
}

impl Default for Format {
    fn default() -> (r: Self)
        ensures
            r == Format::Table,
    {
        Format::Table
    }
}

/// Live state of an endpoint. `Closed` and `Notified` are terminal.
#[derive(Debug, Clone, Copy, PartialEq, Eq, Structural)]
pub enum ChannelState {
    Active,
    Closed,
    Full,
    Notified,
}

impl Default for ChannelState {
    fn default() -> (r: Self)
        ensures
            r == ChannelState::Active,
    {
        ChannelState::Active
    }
}

impl ChannelState {
    /// The lower-case name under which the state is shown and serialized.
    pub open spec fn name(self) -> Seq<char> {
        match self {
            ChannelState::Active => "active"@,
            ChannelState::Closed => "closed"@,
            ChannelState::Full => "full"@,
            ChannelState::Notified => "notified"@,
        }
    }

    /// The state that a name stands for, if it is the name of a state.
    pub open spec fn named(s: Seq<char>) -> Option<ChannelState> {
        if s == "active"@ {
            Some(ChannelState::Active)
        } else if s == "closed"@ {
            Some(ChannelState::Closed)
        } else if s == "full"@ {
            Some(ChannelState::Full)
        } else if s == "notified"@ {
            Some(ChannelState::Notified)
        } else {
            None
        }
    }

    /// Terminal states are never left once entered.
    pub open spec fn is_terminal(self) -> bool {
        self == ChannelState::Closed || self == ChannelState::Notified
    }

    /// The lower-case name under which the state is shown and serialized.
    pub fn as_str(&self) -> (r: &'static str)
        ensures
            r@ == self.name(),
    {
        match self {
            ChannelState::Active => "active",
            ChannelState::Closed => "closed",
            ChannelState::Full => "full",
            ChannelState::Notified => "notified",
        }
    }

    /// Reads the name of a state back; `None` where `s` names no state.
    pub fn parse(s: &str) -> (r: Option<ChannelState>)
        ensures
            r == ChannelState::named(s@),
    {
        if str_eq(s, "active") {
            Some(ChannelState::Active)
        } else if str_eq(s, "closed") {
            Some(ChannelState::Closed)
        } else if str_eq(s, "full") {
            Some(ChannelState::Full)
        } else if str_eq(s, "notified") {
            Some(ChannelState::Notified)
        } else {
            None
        }
    }
}

/// Reading the name of a state gives the state back.
pub proof fn lemma_channel_state_round_trip(state: ChannelState)
    ensures
        ChannelState::named(state.name()) == Some(state),
{
    reveal_strlit("active");
    reveal_strlit("closed");
    reveal_strlit("full");
    reveal_strlit("notified");
    assert("active"@.len() == 6 && "closed"@.len() == 6 && "full"@.len() == 4 && "notified"@.len()
        == 8);
    assert("active"@[0] == 'a' && "closed"@[0] == 'c');
}

/// The number of messages that wait in a channel on which `sent` messages
/// went in and `received` came out: one message is always in flight between
/// the two forwarders and is not counted.
pub open spec fn queued_of(sent: u64, received: u64) -> nat {
    if sent - received - 1 > 0 {
        (sent - received - 1) as nat
    } else {
        0
    }
}

/// The state that the counters of a channel give, unless the state is terminal.
pub open spec fn derived_state(
    state: ChannelState,
    channel_type: ChannelType,
    sent: u64,
    received: u64,
) -> ChannelState {
    if state.is_terminal() {
        state
    } else {
        match channel_type.full_mark() {
            Some(mark) => if queued_of(sent, received) >= mark {
                ChannelState::Full
            } else {
                ChannelState::Active
            },
            None => ChannelState::Active,
        }
    }
}

/// Statistics of one instrumented channel.
#[derive(Debug)]
pub struct ChannelStats {
    pub id: u64,
    pub source: &'static str,
    pub label: Option<String>,
    pub channel_type: ChannelType,
    pub state: ChannelState,
    pub sent_count: u64,
    pub received_count: u64,
    pub payload_type: &'static str,
    pub type_size: usize,
    pub sent_logs: VecDeque<LogEntry>,
    pub received_logs: VecDeque<LogEntry>,
    pub iter: u32,
}

/// A channel record with its texts as sequences of characters and its
/// rings as sequences of entries, oldest first.
pub struct ChannelStatsView {
    pub id: u64,
    pub source: Seq<char>,
    pub label: Option<Seq<char>>,
    pub channel_type: ChannelType,
    pub state: ChannelState,
    pub sent_count: u64,
    pub received_count: u64,
    pub payload_type: Seq<char>,
    pub type_size: usize,
    pub sent_logs: Seq<LogEntryView>,
    pub received_logs: Seq<LogEntryView>,
    pub iter: u32,
}

impl View for ChannelStats {
    type V = ChannelStatsView;

    open spec fn view(&self) -> ChannelStatsView {
        ChannelStatsView {
            id: self.id,
            source: self.source@,
            label: text_of(self.label),
            channel_type: self.channel_type,
            state: self.state,
            sent_count: self.sent_count,
            received_count: self.received_count,
            payload_type: self.payload_type@,
            type_size: self.type_size,
            sent_logs: log_views(self.sent_logs@),
            received_logs: log_views(self.received_logs@),
            iter: self.iter,
        }
    }
}

impl ChannelStatsView {
    /// Messages waiting in the channel.
    pub open spec fn queued(self) -> nat {
        queued_of(self.sent_count, self.received_count)
    }

    /// Bytes that the waiting messages take.
    pub open spec fn queued_bytes(self) -> nat {
        self.queued() * (self.type_size as nat)
    }

    /// A record as it is when its channel has just been created.
    pub open spec fn fresh(
        id: u64,
        source: Seq<char>,
        label: Option<Seq<char>>,
        channel_type: ChannelType,
        payload_type: Seq<char>,
        type_size: usize,
        iter: u32,
    ) -> ChannelStatsView {
        ChannelStatsView {
            id,
            source,
            label,
            channel_type,
            state: ChannelState::Active,
            sent_count: 0,
            received_count: 0,
            payload_type,
            type_size,
            sent_logs: Seq::empty(),
            received_logs: Seq::empty(),
            iter,
        }
    }
}

fn clone_logs(logs: &VecDeque<LogEntry>) -> (r: VecDeque<LogEntry>)
    ensures
        log_views(r@) == log_views(logs@),
{
    let r = logs.clone();
    assert(log_views(r@) =~= log_views(logs@));
    r
}

impl ChannelStats {
    /// The record of a channel that has just been created.
    pub fn new(
        id: u64,
        source: &'static str,
        label: Option<String>,
        channel_type: ChannelType,
        payload_type: &'static str,
        type_size: usize,
        iter: u32,
    ) -> (r: Self)
        ensures
            r@ == ChannelStatsView::fresh(
                id,
                source@,
                text_of(label),
                channel_type,
                payload_type@,
                type_size,
                iter,
            ),
    {
        let r = ChannelStats {
            id,
            source,
            label,
            channel_type,
            state: ChannelState::default(),
            sent_count: 0,
            received_count: 0,
            payload_type,
            type_size,
            sent_logs: VecDeque::new(),
            received_logs: VecDeque::new(),
            iter,
        };
        assert(log_views(r.sent_logs@) =~= Seq::empty());
        assert(log_views(r.received_logs@) =~= Seq::empty());
        r
    }

    /// Messages waiting in the channel.
    pub fn queued(&self) -> (r: u64)
        ensures
            r == self@.queued(),
    {
        self.sent_count.saturating_sub(self.received_count).saturating_sub(1)
    }

    /// Bytes that the waiting messages take.
    pub fn queued_bytes(&self) -> (r: u64)
        requires
            self@.queued_bytes() <= u64::MAX,
        ensures
            r == self@.queued_bytes(),
    {
        self.queued() * (self.type_size as u64)
    }

    /// Derives the state from the counters; a terminal state stays.
    pub fn update_state(&mut self)
        ensures
            final(self)@ == (ChannelStatsView {
                state: derived_state(
                    old(self).state,
                    old(self).channel_type,
                    old(self).sent_count,
                    old(self).received_count,
                ),
                ..old(self)@
            }),
    {
        if self.state == ChannelState::Closed || self.state == ChannelState::Notified {
            return ;
        }
        let queued = self.queued();
        let is_full = match self.channel_type {
            ChannelType::Bounded(cap) => queued >= cap as u64,
            ChannelType::Oneshot => queued >= 1,
            ChannelType::Unbounded => false,
        };
        if is_full {
            self.state = ChannelState::Full;
        } else {
            self.state = ChannelState::Active;
        }
    }
}

impl Clone for ChannelStats {
    fn clone(&self) -> (r: Self)
        ensures
            r@ == self@,
    {
        ChannelStats {
            id: self.id,
            source: self.source,
            label: clone_text(&self.label),
            channel_type: self.channel_type,
            state: self.state,
            sent_count: self.sent_count,
            received_count: self.received_count,
            payload_type: self.payload_type,
            type_size: self.type_size,
            sent_logs: clone_logs(&self.sent_logs),
            received_logs: clone_logs(&self.received_logs),
            iter: self.iter,
        }
    }
}

/// Statistics of one instrumented stream. Its state is `Active` or `Closed`.
#[derive(Debug)]
pub struct StreamStats {
    pub id: u64,
    pub source: &'static str,
    pub label: Option<String>,
    pub state: ChannelState,
    pub items_yielded: u64,
    pub payload_type: &'static str,
    pub type_size: usize,
    pub yielded_logs: VecDeque<LogEntry>,
    pub iter: u32,
}

/// A stream record with its texts as sequences of characters and its ring
/// as a sequence of entries, oldest first.
pub struct StreamStatsView {
    pub id: u64,
    pub source: Seq<char>,
    pub label: Option<Seq<char>>,
    pub state: ChannelState,
    pub items_yielded: u64,
    pub payload_type: Seq<char>,
    pub type_size: usize,
    pub yielded_logs: Seq<LogEntryView>,
    pub iter: u32,
}

impl View for StreamStats {
    type V = StreamStatsView;

    open spec fn view(&self) -> StreamStatsView {
        StreamStatsView {
            id: self.id,
            source: self.source@,
            label: text_of(self.label),
            state: self.state,
            items_yielded: self.items_yielded,
            payload_type: self.payload_type@,
            type_size: self.type_size,
            yielded_logs: log_views(self.yielded_logs@),
            iter: self.iter,
        }
    }
}

impl StreamStatsView {
    /// A record as it is when its stream has just been created.
    pub open spec fn fresh(
        id: u64,
        source: Seq<char>,
        label: Option<Seq<char>>,
        payload_type: Seq<char>,
        type_size: usize,
        iter: u32,
    ) -> StreamStatsView {
        StreamStatsView {
            id,
            source,
            label,
            state: ChannelState::Active,
            items_yielded: 0,
            payload_type,
            type_size,
            yielded_logs: Seq::empty(),
            iter,
        }
    }
}

impl StreamStats {
    /// The record of a stream that has just been created.
    pub fn new(
        id: u64,
        source: &'static str,
        label: Option<String>,
        payload_type: &'static str,
        type_size: usize,
        iter: u32,
    ) -> (r: Self)
        ensures
            r@ == StreamStatsView::fresh(
                id,
                source@,
                text_of(label),
                payload_type@,
                type_size,
                iter,
            ),
    {
        let r = StreamStats {
            id,
            source,
            label,
            state: ChannelState::Active,
            items_yielded: 0,
            payload_type,
            type_size,
            yielded_logs: VecDeque::new(),
            iter,
        };
        assert(log_views(r.yielded_logs@) =~= Seq::empty());
        r
    }
}

impl Clone for StreamStats {
    fn clone(&self) -> (r: Self)
        ensures
            r@ == self@,
    {
        StreamStats {
            id: self.id,
            source: self.source,
            label: clone_text(&self.label),
            state: self.state,
            items_yielded: self.items_yielded,
            payload_type: self.payload_type,
            type_size: self.type_size,
            yielded_logs: clone_logs(&self.yielded_logs),
            iter: self.iter,
        }
    }
}

/// The record of a channel or of a stream.
#[derive(Debug)]
pub enum Stats {
    Channel(ChannelStats),
    Stream(StreamStats),
}

/// The view of the record of a channel or of a stream.
pub enum StatsView {
    Channel(ChannelStatsView),
    Stream(StreamStatsView),
}

impl StatsView {
    /// The id of the endpoint.
    pub open spec fn id(self) -> u64 {
        match self {
            StatsView::Channel(c) => c.id,
            StatsView::Stream(s) => s.id,
        }
    }

    /// The call site at which the endpoint was created, as `<file>:<line>`.
    pub open spec fn source(self) -> Seq<char> {
        match self {
            StatsView::Channel(c) => c.source,
            StatsView::Stream(s) => s.source,
        }
    }

    /// The label that the user gave, if any.
    pub open spec fn label(self) -> Option<Seq<char>> {
        match self {
            StatsView::Channel(c) => c.label,
            StatsView::Stream(s) => s.label,
        }
    }

    /// How many endpoints of the same call site were created before this one.
    pub open spec fn iter(self) -> u32 {
        match self {
            StatsView::Channel(c) => c.iter,
            StatsView::Stream(s) => s.iter,
        }
    }

    /// The state of the endpoint.
    pub open spec fn state(self) -> ChannelState {
        match self {
            StatsView::Channel(c) => c.state,
            StatsView::Stream(s) => s.state,
        }
    }
}

impl View for Stats {
    type V = StatsView;

    open spec fn view(&self) -> StatsView {
        match self {
            Stats::Channel(c) => StatsView::Channel(c@),
            Stats::Stream(s) => StatsView::Stream(s@),
        }
    }
}

impl Stats {
    /// The id of the endpoint.
    pub fn id(&self) -> (r: u64)
        ensures
            r == self@.id(),
    {
        match self {
            Stats::Channel(c) => c.id,
            Stats::Stream(s) => s.id,
        }
    }

    /// The call site at which the endpoint was created, as `<file>:<line>`.
    pub fn source(&self) -> (r: &'static str)
        ensures
            r@ == self@.source(),
    {
        match self {
            Stats::Channel(c) => c.source,
            Stats::Stream(s) => s.source,
        }
    }

    /// The label that the user gave, if any.
    pub fn label(&self) -> (r: Option<&str>)
        ensures
            match r {
                Some(l) => self@.label() == Some(l@),
                None => self@.label() is None,
            },
    {
        match self {
            Stats::Channel(c) => label_text(&c.label),
            Stats::Stream(s) => label_text(&s.label),
        }
    }

    /// How many endpoints of the same call site were created before this one.
    pub fn iter(&self) -> (r: u32)
        ensures
            r == self@.iter(),
    {
        match self {
            Stats::Channel(c) => c.iter,
            Stats::Stream(s) => s.iter,
        }
    }
}

impl Clone for Stats {
    fn clone(&self) -> (r: Self)
        ensures
            r@ == self@,
    {
        match self {
            Stats::Channel(c) => Stats::Channel(c.clone()),
            Stats::Stream(s) => Stats::Stream(s.clone()),
        }
    }
}

} // verus!
