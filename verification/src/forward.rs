//! The forwarders of a wrapped channel, as state machines. A forwarder does
//! outside work (it waits on a channel, it hands a message on) and decides
//! what to do next; the deciding is here. The caller does the work that the
//! phase asks for, says what came of it, and gets the next phase and what to
//! report to the collector.

use vstd::prelude::*;
use crate::collector::{StatsEvent, StatsEventView};
use crate::model::{text_of, ChannelType};

verus! {

/// What a forwarder reports to the collector after a step.
#[derive(Debug, Clone, Copy, PartialEq, Eq, Structural)]
pub enum Report {
    Nothing,
    /// A message went through to the real sender.
    MessageSent,
    /// A message went through to the caller's receiver.
    MessageReceived,
    /// The one message of a oneshot went through to the real sender:
    /// `MessageSent`, then `Notified`.
    SentAndNotified,
    /// The one message of a oneshot went through to the caller's receiver:
    /// `MessageReceived`, then `Notified`.
    ReceivedAndNotified,
    /// The forwarder winds down.
    Closed,
}

impl Report {
    /// Whether the report says that the endpoint has come to its end:
    /// closed, or notified.
    pub open spec fn settles(self) -> bool {
        self == Report::Closed || self == Report::SentAndNotified || self
            == Report::ReceivedAndNotified
    }
}

/// Whether `report` says that the endpoint has come to its end.
pub fn report_settles(report: Report) -> (r: bool)
    ensures
        r == report.settles(),
{
    match report {
        Report::Closed => true,
        Report::SentAndNotified => true,
        Report::ReceivedAndNotified => true,
        _ => false,
    }
}

/// What is passed on to the collector of a report, given whether the
/// endpoint was already reported to have come to its end: `Closed` is
/// passed on for an endpoint once at most, and never after its message
/// went through.
pub open spec fn passed_on(report: Report, settled: bool) -> Report {
    if report == Report::Closed && settled {
        Report::Nothing
    } else {
        report
    }
}

/// Filters what a forwarder reports for the collector. The two forwarders
/// of an endpoint share `settled`; it is to be updated to the second
/// component of the result.
pub fn pass_on(report: Report, settled: bool) -> (r: (Report, bool))
    ensures
        r.0 == passed_on(report, settled),
        r.1 == (settled || report.settles()),
{
    match report {
        Report::Closed => {
            if settled {
                (Report::Nothing, true)
            } else {
                (Report::Closed, true)
            }
        },
        Report::SentAndNotified => (report, true),
        Report::ReceivedAndNotified => (report, true),
        _ => (report, settled),
    }
}

/// What reaches the collector of the reports of the forwarders of one
/// endpoint, in the order in which they come, and whether the endpoint has
/// come to its end.
pub open spec fn passed_reports(reports: Seq<Report>) -> (Seq<Report>, bool)
    decreases reports.len(),
{
    if reports.len() == 0 {
        (Seq::empty(), false)
    } else {
        let (before, settled) = passed_reports(reports.drop_last());
        (
            before.push(passed_on(reports.last(), settled)),
            settled || reports.last().settles(),
        )
    }
}

/// How often `Closed` occurs among `reports`.
pub open spec fn closed_count(reports: Seq<Report>) -> nat
    decreases reports.len(),
{
    if reports.len() == 0 {
        0
    } else {
        closed_count(reports.drop_last()) + if reports.last() == Report::Closed {
            1nat
        } else {
            0nat
        }
    }
}

/// However the reports of the forwarders of an endpoint interleave, the
/// collector is told at most once that the endpoint is closed, and only
/// where nothing was reported before that settles the endpoint.
pub proof fn lemma_closed_reaches_collector_once(reports: Seq<Report>)
    ensures
        closed_count(passed_reports(reports).0) <= 1,
        closed_count(passed_reports(reports).0) == 1 ==> passed_reports(reports).1,
    decreases reports.len(),
{
    if reports.len() > 0 {
        lemma_closed_reaches_collector_once(reports.drop_last());
        let (before, settled) = passed_reports(reports.drop_last());
        let next = before.push(passed_on(reports.last(), settled));
        assert(next.drop_last() =~= before);
    }
}

/// The outside work that a phase asks for.
#[derive(Debug, Clone, Copy, PartialEq, Eq, Structural)]
pub enum Work {
    /// Look at the close signal without waiting.
    PollSignal,
    /// Wait for the next message; a forwarder on the send path gives up
    /// after a short while, or when the close signal fires.
    AwaitMessage,
    /// Hand the message on.
    Deliver,
    /// Nothing is left to do: let go of both ends.
    Stop,
}

/// Where the forwarder on the send path stands.
#[derive(Debug, Clone, Copy, PartialEq, Eq, Structural)]
pub enum SendPhase {
    Polling,
    Receiving,
    Delivering,
    Finished,
}

/// What came of the work of the forwarder on the send path.
#[derive(Debug, Clone, Copy, PartialEq, Eq, Structural)]
pub enum SendEvent {
    /// The close signal has fired: the caller's receiver is gone.
    SignalFired,
    /// The close signal can fire no more: the other forwarder has ended.
    SignalGone,
    /// The close signal has not fired.
    SignalQuiet,
    /// A message came in from the caller's sender.
    Message,
    /// No message came in for a while.
    Timeout,
    /// The caller's sender is gone.
    IngressClosed,
    /// The close signal fired while the forwarder waited for a message.
    Interrupted,
    /// The real sender took the message.
    Delivered,
    /// The real sender refused the message: the real receiver is gone.
    Refused,
}

/// The outcome of one step of the forwarder on the send path.
#[derive(Debug, Clone, Copy, PartialEq, Eq, Structural)]
pub struct SendStep {
    pub next: SendPhase,
    pub report: Report,
}

/// The step of the forwarder on the send path. An event that the phase did
/// not ask for changes nothing.
pub open spec fn send_step(phase: SendPhase, event: SendEvent) -> SendStep {
    match (phase, event) {
        (SendPhase::Polling, SendEvent::SignalFired) => SendStep {
            next: SendPhase::Finished,
            report: Report::Closed,
        },
        (SendPhase::Polling, SendEvent::SignalGone) => SendStep {
            next: SendPhase::Finished,
            report: Report::Closed,
        },
        (SendPhase::Polling, SendEvent::SignalQuiet) => SendStep {
            next: SendPhase::Receiving,
            report: Report::Nothing,
        },
        (SendPhase::Receiving, SendEvent::Message) => SendStep {
            next: SendPhase::Delivering,
            report: Report::Nothing,
        },
        (SendPhase::Receiving, SendEvent::Timeout) => SendStep {
            next: SendPhase::Polling,
            report: Report::Nothing,
        },
        (SendPhase::Receiving, SendEvent::IngressClosed) => SendStep {
            next: SendPhase::Finished,
            report: Report::Closed,
        },
        (SendPhase::Receiving, SendEvent::Interrupted) => SendStep {
            next: SendPhase::Finished,
            report: Report::Closed,
        },
        (SendPhase::Delivering, SendEvent::Delivered) => SendStep {
            next: SendPhase::Polling,
            report: Report::MessageSent,
        },
        (SendPhase::Delivering, SendEvent::Refused) => SendStep {
            next: SendPhase::Finished,
            report: Report::Closed,
        },
        _ => SendStep { next: phase, report: Report::Nothing },
    }
}

/// The work that a phase of the forwarder on the send path asks for.
pub open spec fn send_work(phase: SendPhase) -> Work {
    match phase {
        SendPhase::Polling => Work::PollSignal,
        SendPhase::Receiving => Work::AwaitMessage,
        SendPhase::Delivering => Work::Deliver,
        SendPhase::Finished => Work::Stop,
    }
}

/// Takes what came of the work of the forwarder on the send path, and
/// says where it stands next and what it reports.
pub fn send_forwarder_step(phase: SendPhase, event: SendEvent) -> (r: SendStep)
    ensures
        r == send_step(phase, event),
{
    match (phase, event) {
        (SendPhase::Polling, SendEvent::SignalFired) => SendStep {
            next: SendPhase::Finished,
            report: Report::Closed,
        },
        (SendPhase::Polling, SendEvent::SignalGone) => SendStep {
            next: SendPhase::Finished,
            report: Report::Closed,
        },
        (SendPhase::Polling, SendEvent::SignalQuiet) => SendStep {
            next: SendPhase::Receiving,
            report: Report::Nothing,
        },
        (SendPhase::Receiving, SendEvent::Message) => SendStep {
            next: SendPhase::Delivering,
            report: Report::Nothing,
        },
        (SendPhase::Receiving, SendEvent::Timeout) => SendStep {
            next: SendPhase::Polling,
            report: Report::Nothing,
        },
        (SendPhase::Receiving, SendEvent::IngressClosed) => SendStep {
            next: SendPhase::Finished,
            report: Report::Closed,
        },
        (SendPhase::Receiving, SendEvent::Interrupted) => SendStep {
            next: SendPhase::Finished,
            report: Report::Closed,
        },
        (SendPhase::Delivering, SendEvent::Delivered) => SendStep {
            next: SendPhase::Polling,
            report: Report::MessageSent,
        },
        (SendPhase::Delivering, SendEvent::Refused) => SendStep {
            next: SendPhase::Finished,
            report: Report::Closed,
        },
        _ => SendStep { next: phase, report: Report::Nothing },
    }
}

/// The work that the forwarder on the send path is to do in `phase`.
pub fn send_forwarder_work(phase: SendPhase) -> (r: Work)
    ensures
        r == send_work(phase),
{
    match phase {
        SendPhase::Polling => Work::PollSignal,
        SendPhase::Receiving => Work::AwaitMessage,
        SendPhase::Delivering => Work::Deliver,
        SendPhase::Finished => Work::Stop,
    }
}

/// Where the forwarder on the receive path stands.
#[derive(Debug, Clone, Copy, PartialEq, Eq, Structural)]
pub enum RecvPhase {
    Receiving,
    Delivering,
    Finished,
}

/// What came of the work of the forwarder on the receive path.
#[derive(Debug, Clone, Copy, PartialEq, Eq, Structural)]
pub enum RecvEvent {
    /// A message came out of the real receiver.
    Message,
    /// The real sender is gone.
    InnerClosed,
    /// The caller's receiver went away while the forwarder waited for a
    /// message.
    ReceiverGone,
    /// The caller's receiver took the message.
    Delivered,
    /// The caller's receiver refused the message: it is gone.
    Refused,
}

/// The outcome of one step of the forwarder on the receive path.
#[derive(Debug, Clone, Copy, PartialEq, Eq, Structural)]
pub struct RecvStep {
    pub next: RecvPhase,
    pub report: Report,
    /// Whether to fire the close signal, so that the forwarder on the
    /// send path refuses further messages.
    pub fire_close_signal: bool,
}

/// The step of the forwarder on the receive path. An event that the phase
/// did not ask for changes nothing.
pub open spec fn recv_step(phase: RecvPhase, event: RecvEvent) -> RecvStep {
    match (phase, event) {
        (RecvPhase::Receiving, RecvEvent::Message) => RecvStep {
            next: RecvPhase::Delivering,
            report: Report::Nothing,
            fire_close_signal: false,
        },
        (RecvPhase::Receiving, RecvEvent::InnerClosed) => RecvStep {
            next: RecvPhase::Finished,
            report: Report::Closed,
            fire_close_signal: false,
        },
        (RecvPhase::Receiving, RecvEvent::ReceiverGone) => RecvStep {
            next: RecvPhase::Finished,
            report: Report::Closed,
            fire_close_signal: true,
        },
        (RecvPhase::Delivering, RecvEvent::Delivered) => RecvStep {
            next: RecvPhase::Receiving,
            report: Report::MessageReceived,
            fire_close_signal: false,
        },
        (RecvPhase::Delivering, RecvEvent::Refused) => RecvStep {
            next: RecvPhase::Finished,
            report: Report::Closed,
            fire_close_signal: true,
        },
        _ => RecvStep { next: phase, report: Report::Nothing, fire_close_signal: false },
    }
}

/// The work that a phase of the forwarder on the receive path asks for.
pub open spec fn recv_work(phase: RecvPhase) -> Work {
    match phase {
        RecvPhase::Receiving => Work::AwaitMessage,
        RecvPhase::Delivering => Work::Deliver,
        RecvPhase::Finished => Work::Stop,
    }
}

/// Takes what came of the work of the forwarder on the receive path, and
/// says where it stands next, what it reports, and whether it fires the close
/// signal.
pub fn recv_forwarder_step(phase: RecvPhase, event: RecvEvent) -> (r: RecvStep)
    ensures
        r == recv_step(phase, event),
{
    match (phase, event) {
        (RecvPhase::Receiving, RecvEvent::Message) => RecvStep {
            next: RecvPhase::Delivering,
            report: Report::Nothing,
            fire_close_signal: false,
        },
        (RecvPhase::Receiving, RecvEvent::InnerClosed) => RecvStep {
            next: RecvPhase::Finished,
            report: Report::Closed,
            fire_close_signal: false,
        },
        (RecvPhase::Receiving, RecvEvent::ReceiverGone) => RecvStep {
            next: RecvPhase::Finished,
            report: Report::Closed,
            fire_close_signal: true,
        },
        (RecvPhase::Delivering, RecvEvent::Delivered) => RecvStep {
            next: RecvPhase::Receiving,
            report: Report::MessageReceived,
            fire_close_signal: false,
        },
        (RecvPhase::Delivering, RecvEvent::Refused) => RecvStep {
            next: RecvPhase::Finished,
            report: Report::Closed,
            fire_close_signal: true,
        },
        _ => RecvStep { next: phase, report: Report::Nothing, fire_close_signal: false },
    }
}

/// The work that the forwarder on the receive path is to do in `phase`.
pub fn recv_forwarder_work(phase: RecvPhase) -> (r: Work)
    ensures
        r == recv_work(phase),
{
    match phase {
        RecvPhase::Receiving => Work::AwaitMessage,
        RecvPhase::Delivering => Work::Deliver,
        RecvPhase::Finished => Work::Stop,
    }
}

/// Where one side of a wrapped oneshot stands. Its one message passes at
/// most once.
#[derive(Debug, Clone, Copy, PartialEq, Eq, Structural)]
pub enum OneshotPhase {
    Watching,
    Delivering,
    Finished,
}

/// What came of the work of one side of a wrapped oneshot.
#[derive(Debug, Clone, Copy, PartialEq, Eq, Structural)]
pub enum OneshotEvent {
    /// The message arrived.
    Message,
    /// The end that the message would have come from is gone.
    Dropped,
    /// The caller's receiver is gone: seen by the side that watches it, and
    /// told to the other side by the close signal.
    Canceled,
    /// The message was taken.
    Delivered,
    /// The message was refused: the end that it was meant for is gone.
    Refused,
}

/// The outcome of the step of one side of a wrapped oneshot.
#[derive(Debug, Clone, Copy, PartialEq, Eq, Structural)]
pub struct OneshotStep {
    pub next: OneshotPhase,
    pub report: Report,
    /// Whether to let go of the real receiver, so that the real send
    /// fails, and to fire the close signal.
    pub cancel_inner: bool,
}

/// The step of one side of a wrapped oneshot; `receiving` tells the side
/// that watches the real receiver from the side that serves the caller's
/// sender. `Closed` is reported by a side exactly when it ends without
/// having passed the message on.
pub open spec fn oneshot_step(
    receiving: bool,
    phase: OneshotPhase,
    event: OneshotEvent,
) -> OneshotStep {
    match (phase, event) {
        (OneshotPhase::Watching, OneshotEvent::Message) => OneshotStep {
            next: OneshotPhase::Delivering,
            report: Report::Nothing,
            cancel_inner: false,
        },
        (OneshotPhase::Watching, OneshotEvent::Dropped) => OneshotStep {
            next: OneshotPhase::Finished,
            report: Report::Closed,
            cancel_inner: false,
        },
        (OneshotPhase::Watching, OneshotEvent::Canceled) => OneshotStep {
            next: OneshotPhase::Finished,
            report: Report::Closed,
            cancel_inner: receiving,
        },
        (OneshotPhase::Delivering, OneshotEvent::Delivered) => OneshotStep {
            next: OneshotPhase::Finished,
            report: if receiving {
                Report::ReceivedAndNotified
            } else {
                Report::SentAndNotified
            },
            cancel_inner: false,
        },
        (OneshotPhase::Delivering, OneshotEvent::Refused) => OneshotStep {
            next: OneshotPhase::Finished,
            report: Report::Closed,
            cancel_inner: false,
        },
        _ => OneshotStep { next: phase, report: Report::Nothing, cancel_inner: false },
    }
}

/// The work that a phase of a side of a wrapped oneshot asks for.
pub open spec fn oneshot_work(phase: OneshotPhase) -> Work {
    match phase {
        OneshotPhase::Watching => Work::AwaitMessage,
        OneshotPhase::Delivering => Work::Deliver,
        OneshotPhase::Finished => Work::Stop,
    }
}

/// Takes what came of the work of one side of a wrapped oneshot, and says
/// where it stands next and what it reports.
pub fn oneshot_forwarder_step(receiving: bool, phase: OneshotPhase, event: OneshotEvent) -> (r:
    OneshotStep)
    ensures
        r == oneshot_step(receiving, phase, event),
{
    match (phase, event) {
        (OneshotPhase::Watching, OneshotEvent::Message) => OneshotStep {
            next: OneshotPhase::Delivering,
            report: Report::Nothing,
            cancel_inner: false,
        },
        (OneshotPhase::Watching, OneshotEvent::Dropped) => OneshotStep {
            next: OneshotPhase::Finished,
            report: Report::Closed,
            cancel_inner: false,
        },
        (OneshotPhase::Watching, OneshotEvent::Canceled) => OneshotStep {
            next: OneshotPhase::Finished,
            report: Report::Closed,
            cancel_inner: receiving,
        },
        (OneshotPhase::Delivering, OneshotEvent::Delivered) => OneshotStep {
            next: OneshotPhase::Finished,
            report: if receiving {
                Report::ReceivedAndNotified
            } else {
                Report::SentAndNotified
            },
            cancel_inner: false,
        },
        (OneshotPhase::Delivering, OneshotEvent::Refused) => OneshotStep {
            next: OneshotPhase::Finished,
            report: Report::Closed,
            cancel_inner: false,
        },
        _ => OneshotStep { next: phase, report: Report::Nothing, cancel_inner: false },
    }
}

/// The work that a side of a wrapped oneshot is to do in `phase`.
pub fn oneshot_forwarder_work(phase: OneshotPhase) -> (r: Work)
    ensures
        r == oneshot_work(phase),
{
    match phase {
        OneshotPhase::Watching => Work::AwaitMessage,
        OneshotPhase::Delivering => Work::Deliver,
        OneshotPhase::Finished => Work::Stop,
    }
}

/// What one step of an instrumented stream gave.
#[derive(Debug, Clone, Copy, PartialEq, Eq, Structural)]
pub enum StreamPoll {
    /// The stream yielded an item.
    Item,
    /// The stream is over.
    Done,
    /// The stream has nothing yet.
    Pending,
}

/// What an instrumented stream reports to the collector after a step.
#[derive(Debug, Clone, Copy, PartialEq, Eq, Structural)]
pub enum StreamReport {
    Nothing,
    /// An item was yielded; `with_log` says whether its rendering goes along.
    Yielded { with_log: bool },
    Completed,
}

/// What an instrumented stream reports after a step: an item as yielded,
/// with its rendering exactly where logging is on; the end as completed;
/// nothing while the stream is not ready.
pub open spec fn stream_report(poll: StreamPoll, logging: bool) -> StreamReport {
    match poll {
        StreamPoll::Item => StreamReport::Yielded { with_log: logging },
        StreamPoll::Done => StreamReport::Completed,
        StreamPoll::Pending => StreamReport::Nothing,
    }
}

/// What an instrumented stream reports after a step that gave `poll`.
pub fn stream_step(poll: StreamPoll, logging: bool) -> (r: StreamReport)
    ensures
        r == stream_report(poll, logging),
{
    match poll {
        StreamPoll::Item => StreamReport::Yielded { with_log: logging },
        StreamPoll::Done => StreamReport::Completed,
        StreamPoll::Pending => StreamReport::Nothing,
    }
}

/// The events that tell the collector of what a forwarder of the endpoint
/// `id` reports, `elapsed_nanos` after the start-time anchor; `log` is the
/// rendering of the message, where logging is on.
pub open spec fn events_of(
    report: Report,
    id: u64,
    log: Option<Seq<char>>,
    elapsed_nanos: u128,
) -> Seq<StatsEventView> {
    match report {
        Report::Nothing => Seq::empty(),
        Report::MessageSent => seq![StatsEventView::MessageSent { id, log, elapsed_nanos }],
        Report::MessageReceived => seq![StatsEventView::MessageReceived { id, elapsed_nanos }],
        Report::SentAndNotified => seq![
            StatsEventView::MessageSent { id, log, elapsed_nanos },
            StatsEventView::Notified { id },
        ],
        Report::ReceivedAndNotified => seq![
            StatsEventView::MessageReceived { id, elapsed_nanos },
            StatsEventView::Notified { id },
        ],
        Report::Closed => seq![StatsEventView::Closed { id }],
    }
}

/// The views of a sequence of events.
pub open spec fn event_views(events: Seq<StatsEvent>) -> Seq<StatsEventView> {
    events.map_values(|e: StatsEvent| e@)
}

/// The events that tell the collector of what a forwarder reports.
pub fn report_events(report: Report, id: u64, log: Option<String>, elapsed_nanos: u128) -> (r: Vec<
    StatsEvent,
>)
    ensures
        event_views(r@) == events_of(report, id, text_of(log), elapsed_nanos),
{
    let mut r: Vec<StatsEvent> = Vec::new();
    match report {
        Report::Nothing => {},
        Report::MessageSent => {
            r.push(StatsEvent::MessageSent { id, log, elapsed_nanos });
        },
        Report::MessageReceived => {
            r.push(StatsEvent::MessageReceived { id, elapsed_nanos });
        },
        Report::SentAndNotified => {
            r.push(StatsEvent::MessageSent { id, log, elapsed_nanos });
            r.push(StatsEvent::Notified { id });
        },
        Report::ReceivedAndNotified => {
            r.push(StatsEvent::MessageReceived { id, elapsed_nanos });
            r.push(StatsEvent::Notified { id });
        },
        Report::Closed => {
            r.push(StatsEvent::Closed { id });
        },
    }
    assert(event_views(r@) =~= events_of(report, id, text_of(log), elapsed_nanos));
    r
}

/// The events that tell the collector of what the instrumented stream `id`
/// reports; `log` is the rendering of the item, and goes along where the
/// report says so.
pub open spec fn stream_events_of(
    report: StreamReport,
    id: u64,
    log: Option<Seq<char>>,
    elapsed_nanos: u128,
) -> Seq<StatsEventView> {
    match report {
        StreamReport::Nothing => Seq::empty(),
        StreamReport::Yielded { with_log } => seq![
            StatsEventView::StreamItemYielded {
                id,
                log: if with_log {
                    log
                } else {
                    None
                },
                elapsed_nanos,
            },
        ],
        StreamReport::Completed => seq![StatsEventView::StreamCompleted { id }],
    }
}

/// The events that tell the collector of what an instrumented stream reports.
pub fn stream_report_events(
    report: StreamReport,
    id: u64,
    log: Option<String>,
    elapsed_nanos: u128,
) -> (r: Vec<StatsEvent>)
    ensures
        event_views(r@) == stream_events_of(report, id, text_of(log), elapsed_nanos),
{
    let mut r: Vec<StatsEvent> = Vec::new();
    match report {
        StreamReport::Nothing => {},
        StreamReport::Yielded { with_log } => {
            let log = if with_log {
                log
            } else {
                None
            };
            r.push(StatsEvent::StreamItemYielded { id, log, elapsed_nanos });
        },
        StreamReport::Completed => {
            r.push(StatsEvent::StreamCompleted { id });
        },
    }
    assert(event_views(r@) =~= stream_events_of(report, id, text_of(log), elapsed_nanos));
    r
}

/// A bounded channel was to be wrapped, and its capacity was not given.
#[derive(Debug, Clone, Copy, PartialEq, Eq, Structural)]
pub struct MissingCapacity;

/// The type of a bounded channel whose capacity cannot be asked of the
/// channel itself: the capacity has to be given.
pub fn bounded_channel_type(capacity: Option<usize>) -> (r: Result<ChannelType, MissingCapacity>)
    ensures
        r == match capacity {
            Some(c) => Ok::<ChannelType, MissingCapacity>(ChannelType::Bounded(c)),
            None => Err::<ChannelType, MissingCapacity>(MissingCapacity),
        },
{
    match capacity {
        Some(c) => Ok(ChannelType::Bounded(c)),
        None => Err(MissingCapacity),
    }
}

/// The phase that the forwarder on the send path reaches from `phase` by
/// `events`, and how often it reports `Closed` on the way.
pub open spec fn send_run(phase: SendPhase, events: Seq<SendEvent>) -> (SendPhase, nat)
    decreases events.len(),
{
    if events.len() == 0 {
        (phase, 0)
    } else {
        let (before, closed) = send_run(phase, events.drop_last());
        let step = send_step(before, events.last());
        (
            step.next,
            closed + if step.report == Report::Closed {
                1nat
            } else {
                0nat
            },
        )
    }
}

/// Whatever happens, the forwarder on the send path reports `Closed`
/// exactly once when it has finished, and not before.
pub proof fn lemma_sender_closes_once(events: Seq<SendEvent>)
    ensures
        send_run(SendPhase::Polling, events).1 == if send_run(SendPhase::Polling, events).0
            == SendPhase::Finished {
            1nat
        } else {
            0nat
        },
    decreases events.len(),
{
    if events.len() > 0 {
        lemma_sender_closes_once(events.drop_last());
    }
}

/// The phase that the forwarder on the receive path reaches from `phase`
/// by `events`, and how often it reports `Closed` on the way.
pub open spec fn recv_run(phase: RecvPhase, events: Seq<RecvEvent>) -> (RecvPhase, nat)
    decreases events.len(),
{
    if events.len() == 0 {
        (phase, 0)
    } else {
        let (before, closed) = recv_run(phase, events.drop_last());
        let step = recv_step(before, events.last());
        (
            step.next,
            closed + if step.report == Report::Closed {
                1nat
            } else {
                0nat
            },
        )
    }
}

/// Whatever happens, the forwarder on the receive path reports `Closed`
/// exactly once when it has finished, and not before.
pub proof fn lemma_receiver_closes_once(events: Seq<RecvEvent>)
    ensures
        recv_run(RecvPhase::Receiving, events).1 == if recv_run(RecvPhase::Receiving, events).0
            == RecvPhase::Finished {
            1nat
        } else {
            0nat
        },
    decreases events.len(),
{
    if events.len() > 0 {
        lemma_receiver_closes_once(events.drop_last());
    }
}

/// When the caller's receiver is gone, the forwarder on the receive path
/// fires the close signal as it ends; and the forwarder on the send path,
/// once it sees the signal, takes no further message: it ends, and with it
/// the end that the caller sends into.
pub proof fn lemma_close_signal_stops_sends(phase: SendPhase, event: SendEvent)
    ensures
        recv_step(RecvPhase::Delivering, RecvEvent::Refused).fire_close_signal,
        recv_step(RecvPhase::Delivering, RecvEvent::Refused).next == RecvPhase::Finished,
        recv_step(RecvPhase::Receiving, RecvEvent::ReceiverGone).fire_close_signal,
        recv_step(RecvPhase::Receiving, RecvEvent::ReceiverGone).next == RecvPhase::Finished,
        send_step(SendPhase::Polling, SendEvent::SignalFired).next == SendPhase::Finished,
        send_step(SendPhase::Receiving, SendEvent::Interrupted).next == SendPhase::Finished,
        send_work(SendPhase::Finished) == Work::Stop,
        send_step(SendPhase::Finished, event).next == SendPhase::Finished,
        send_step(phase, event).next == SendPhase::Delivering ==> phase == SendPhase::Receiving
            || phase == SendPhase::Delivering,
{
}

/// What the work of a phase of the forwarder on the send path can come to
/// once the close signal has fired: a look at the signal finds it fired, or
/// gone with the other forwarder, and a wait for a message is interrupted
/// unless a message or the end of the caller's sender comes first.
pub open spec fn comes_after_signal(phase: SendPhase, event: SendEvent) -> bool {
    match phase {
        SendPhase::Polling => event == SendEvent::SignalFired || event == SendEvent::SignalGone,
        SendPhase::Receiving => event == SendEvent::Message || event == SendEvent::Timeout
            || event == SendEvent::IngressClosed || event == SendEvent::Interrupted,
        SendPhase::Delivering => event == SendEvent::Delivered || event == SendEvent::Refused,
        SendPhase::Finished => true,
    }
}

/// Once the close signal has fired, the forwarder on the send path has
/// finished after three steps at the most, wherever it stood, and has passed
/// on one message at the most in them.
pub proof fn lemma_sender_stops_soon_after_signal(
    phase: SendPhase,
    first: SendEvent,
    second: SendEvent,
    third: SendEvent,
)
    requires
        comes_after_signal(phase, first),
        comes_after_signal(send_step(phase, first).next, second),
        comes_after_signal(send_step(send_step(phase, first).next, second).next, third),
    ensures
        send_step(send_step(send_step(phase, first).next, second).next, third).next
            == SendPhase::Finished,
        send_run(phase, seq![first, second, third]).0 == SendPhase::Finished,
        sent_count(phase, seq![first, second, third]) <= 1,
{
    reveal_with_fuel(send_run, 4);
    reveal_with_fuel(sent_count, 4);
    let events = seq![first, second, third];
    assert(events.drop_last() =~= seq![first, second]);
    assert(events.drop_last().drop_last() =~= seq![first]);
    assert(events.drop_last().drop_last().drop_last() =~= Seq::<SendEvent>::empty());
}

/// How many messages the forwarder on the send path passes on, from
/// `phase` on, while `events` come.
pub open spec fn sent_count(phase: SendPhase, events: Seq<SendEvent>) -> nat
    decreases events.len(),
{
    if events.len() == 0 {
        0
    } else {
        let before = send_run(phase, events.drop_last()).0;
        sent_count(phase, events.drop_last()) + if send_step(before, events.last()).report
            == Report::MessageSent {
            1nat
        } else {
            0nat
        }
    }
}

/// What the work of a phase of the forwarder on the send path can come to
/// once the caller's sender is gone and what it sent is passed on: a wait for
/// a message finds the end.
pub open spec fn comes_after_sender_drop(phase: SendPhase, event: SendEvent) -> bool {
    match phase {
        SendPhase::Polling => event == SendEvent::SignalFired || event == SendEvent::SignalGone
            || event == SendEvent::SignalQuiet,
        SendPhase::Receiving => event == SendEvent::IngressClosed || event
            == SendEvent::Interrupted,
        SendPhase::Delivering => event == SendEvent::Delivered || event == SendEvent::Refused,
        SendPhase::Finished => true,
    }
}

/// Once the caller's sender is gone and what it sent is passed on, the
/// forwarder on the send path has finished after three steps at the most,
/// wherever it stood.
pub proof fn lemma_sender_stops_soon_after_drop(
    phase: SendPhase,
    first: SendEvent,
    second: SendEvent,
    third: SendEvent,
)
    requires
        comes_after_sender_drop(phase, first),
        comes_after_sender_drop(send_step(phase, first).next, second),
        comes_after_sender_drop(send_step(send_step(phase, first).next, second).next, third),
    ensures
        send_step(send_step(send_step(phase, first).next, second).next, third).next
            == SendPhase::Finished,
{
}

/// When the caller's sender is gone, the forwarder on the send path ends
/// and reports `Closed`; the forwarder on the receive path, whose real
/// sender ends with it, ends too, and with it the end that the caller
/// receives from.
pub proof fn lemma_sender_drop_closes()
    ensures
        send_step(SendPhase::Receiving, SendEvent::IngressClosed) == (SendStep {
            next: SendPhase::Finished,
            report: Report::Closed,
        }),
        recv_step(RecvPhase::Receiving, RecvEvent::InnerClosed) == (RecvStep {
            next: RecvPhase::Finished,
            report: Report::Closed,
            fire_close_signal: false,
        }),
        recv_work(RecvPhase::Finished) == Work::Stop,
{
}

} // verus!
