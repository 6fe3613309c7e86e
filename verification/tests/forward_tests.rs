use channels_console::forward::{
    bounded_channel_type, oneshot_forwarder_step, oneshot_forwarder_work, pass_on,
    recv_forwarder_step, report_events, report_settles, stream_report_events,
    recv_forwarder_work, send_forwarder_step, send_forwarder_work, stream_step, MissingCapacity,
    OneshotEvent, OneshotPhase, RecvEvent, RecvPhase, Report, SendEvent, SendPhase, StreamPoll,
    StreamReport, Work,
};
use channels_console::{ChannelType, StatsEvent};

fn run_sender(events: &[SendEvent]) -> (SendPhase, Vec<Report>) {
    let mut phase = SendPhase::Polling;
    let mut reports = Vec::new();
    for event in events {
        let step = send_forwarder_step(phase, *event);
        phase = step.next;
        if step.report != Report::Nothing {
            reports.push(step.report);
        }
    }
    (phase, reports)
}

fn run_receiver(events: &[RecvEvent]) -> (RecvPhase, Vec<Report>, u32) {
    let mut phase = RecvPhase::Receiving;
    let mut reports = Vec::new();
    let mut signals = 0;
    for event in events {
        let step = recv_forwarder_step(phase, *event);
        phase = step.next;
        if step.report != Report::Nothing {
            reports.push(step.report);
        }
        if step.fire_close_signal {
            signals += 1;
        }
    }
    (phase, reports, signals)
}

#[test]
fn sender_forwards_and_reports_each_message() {
    let (phase, reports) = run_sender(&[
        SendEvent::SignalQuiet,
        SendEvent::Message,
        SendEvent::Delivered,
        SendEvent::SignalQuiet,
        SendEvent::Timeout,
        SendEvent::SignalQuiet,
        SendEvent::Message,
        SendEvent::Delivered,
    ]);
    assert_eq!(phase, SendPhase::Polling);
    assert_eq!(reports, vec![Report::MessageSent, Report::MessageSent]);
}

#[test]
fn sender_work_follows_the_phase() {
    assert_eq!(send_forwarder_work(SendPhase::Polling), Work::PollSignal);
    assert_eq!(send_forwarder_work(SendPhase::Receiving), Work::AwaitMessage);
    assert_eq!(send_forwarder_work(SendPhase::Delivering), Work::Deliver);
    assert_eq!(send_forwarder_work(SendPhase::Finished), Work::Stop);
    assert_eq!(recv_forwarder_work(RecvPhase::Receiving), Work::AwaitMessage);
    assert_eq!(recv_forwarder_work(RecvPhase::Delivering), Work::Deliver);
    assert_eq!(recv_forwarder_work(RecvPhase::Finished), Work::Stop);
    assert_eq!(oneshot_forwarder_work(OneshotPhase::Watching), Work::AwaitMessage);
    assert_eq!(oneshot_forwarder_work(OneshotPhase::Delivering), Work::Deliver);
    assert_eq!(oneshot_forwarder_work(OneshotPhase::Finished), Work::Stop);
}

#[test]
fn sender_stops_when_the_close_signal_fires() {
    for signal in [SendEvent::SignalFired, SendEvent::SignalGone] {
        let (phase, reports) = run_sender(&[
            SendEvent::SignalQuiet,
            SendEvent::Message,
            SendEvent::Delivered,
            signal,
            SendEvent::Message,
            SendEvent::Delivered,
        ]);
        assert_eq!(phase, SendPhase::Finished);
        assert_eq!(reports, vec![Report::MessageSent, Report::Closed]);
    }
    let (phase, reports) = run_sender(&[SendEvent::SignalQuiet, SendEvent::Interrupted]);
    assert_eq!(phase, SendPhase::Finished);
    assert_eq!(reports, vec![Report::Closed]);
}

#[test]
fn sender_stops_when_the_caller_drops_its_sender() {
    let (phase, reports) = run_sender(&[SendEvent::SignalQuiet, SendEvent::IngressClosed]);
    assert_eq!(phase, SendPhase::Finished);
    assert_eq!(reports, vec![Report::Closed]);
}

#[test]
fn sender_stops_when_the_real_receiver_is_gone() {
    let (phase, reports) =
        run_sender(&[SendEvent::SignalQuiet, SendEvent::Message, SendEvent::Refused]);
    assert_eq!(phase, SendPhase::Finished);
    assert_eq!(reports, vec![Report::Closed]);
}

#[test]
fn sender_ignores_what_it_did_not_ask_for() {
    let step = send_forwarder_step(SendPhase::Polling, SendEvent::Message);
    assert_eq!((step.next, step.report), (SendPhase::Polling, Report::Nothing));
    let step = send_forwarder_step(SendPhase::Delivering, SendEvent::SignalFired);
    assert_eq!((step.next, step.report), (SendPhase::Delivering, Report::Nothing));
    for event in [
        SendEvent::SignalFired, SendEvent::SignalGone, SendEvent::SignalQuiet, SendEvent::Message,
        SendEvent::Timeout, SendEvent::IngressClosed, SendEvent::Interrupted,
        SendEvent::Delivered, SendEvent::Refused,
    ] {
        let step = send_forwarder_step(SendPhase::Finished, event);
        assert_eq!((step.next, step.report), (SendPhase::Finished, Report::Nothing));
    }
}

#[test]
fn receiver_forwards_and_reports_each_message() {
    let (phase, reports, signals) = run_receiver(&[
        RecvEvent::Message,
        RecvEvent::Delivered,
        RecvEvent::Message,
        RecvEvent::Delivered,
        RecvEvent::InnerClosed,
    ]);
    assert_eq!(phase, RecvPhase::Finished);
    assert_eq!(reports, vec![Report::MessageReceived, Report::MessageReceived, Report::Closed]);
    assert_eq!(signals, 0);
}

#[test]
fn receiver_fires_the_close_signal_when_the_caller_drops_its_receiver() {
    let (phase, reports, signals) = run_receiver(&[
        RecvEvent::Message,
        RecvEvent::Delivered,
        RecvEvent::Message,
        RecvEvent::Refused,
        RecvEvent::Message,
    ]);
    assert_eq!(phase, RecvPhase::Finished);
    assert_eq!(reports, vec![Report::MessageReceived, Report::Closed]);
    assert_eq!(signals, 1);
}

#[test]
fn receiver_fires_the_close_signal_when_the_receiver_goes_while_it_waits() {
    let (phase, reports, signals) =
        run_receiver(&[RecvEvent::Message, RecvEvent::Delivered, RecvEvent::ReceiverGone]);
    assert_eq!(phase, RecvPhase::Finished);
    assert_eq!(reports, vec![Report::MessageReceived, Report::Closed]);
    assert_eq!(signals, 1);
    let step = recv_forwarder_step(RecvPhase::Delivering, RecvEvent::ReceiverGone);
    assert_eq!(
        (step.next, step.report, step.fire_close_signal),
        (RecvPhase::Delivering, Report::Nothing, false),
    );
}

#[test]
fn closed_and_notified_settle_an_endpoint() {
    assert!(report_settles(Report::Closed));
    assert!(report_settles(Report::SentAndNotified));
    assert!(report_settles(Report::ReceivedAndNotified));
    assert!(!report_settles(Report::Nothing));
    assert!(!report_settles(Report::MessageSent));
    assert!(!report_settles(Report::MessageReceived));
}

#[test]
fn closed_is_passed_on_once() {
    assert_eq!(pass_on(Report::Closed, false), (Report::Closed, true));
    assert_eq!(pass_on(Report::Closed, true), (Report::Nothing, true));
    assert_eq!(pass_on(Report::MessageSent, false), (Report::MessageSent, false));
    assert_eq!(pass_on(Report::MessageSent, true), (Report::MessageSent, true));
    assert_eq!(pass_on(Report::MessageReceived, false), (Report::MessageReceived, false));
    assert_eq!(pass_on(Report::SentAndNotified, false), (Report::SentAndNotified, true));
    assert_eq!(pass_on(Report::ReceivedAndNotified, true), (Report::ReceivedAndNotified, true));
    assert_eq!(pass_on(Report::Nothing, false), (Report::Nothing, false));
    let mut settled = false;
    let mut passed = Vec::new();
    for report in [Report::MessageSent, Report::Closed, Report::MessageReceived, Report::Closed] {
        let (out, now) = pass_on(report, settled);
        settled = now;
        passed.push(out);
    }
    assert_eq!(
        passed,
        vec![Report::MessageSent, Report::Closed, Report::MessageReceived, Report::Nothing],
    );
}

#[test]
fn receiver_ignores_what_it_did_not_ask_for() {
    let step = recv_forwarder_step(RecvPhase::Receiving, RecvEvent::Delivered);
    assert_eq!(
        (step.next, step.report, step.fire_close_signal),
        (RecvPhase::Receiving, Report::Nothing, false),
    );
    let step = recv_forwarder_step(RecvPhase::Delivering, RecvEvent::InnerClosed);
    assert_eq!(
        (step.next, step.report, step.fire_close_signal),
        (RecvPhase::Delivering, Report::Nothing, false),
    );
}

#[test]
fn oneshot_passes_its_message_once() {
    let step = oneshot_forwarder_step(false, OneshotPhase::Watching, OneshotEvent::Message);
    assert_eq!((step.next, step.report), (OneshotPhase::Delivering, Report::Nothing));
    let step = oneshot_forwarder_step(false, OneshotPhase::Delivering, OneshotEvent::Delivered);
    assert_eq!((step.next, step.report), (OneshotPhase::Finished, Report::SentAndNotified));
    let step = oneshot_forwarder_step(true, OneshotPhase::Delivering, OneshotEvent::Delivered);
    assert_eq!((step.next, step.report), (OneshotPhase::Finished, Report::ReceivedAndNotified));
    let step = oneshot_forwarder_step(true, OneshotPhase::Finished, OneshotEvent::Message);
    assert_eq!((step.next, step.report), (OneshotPhase::Finished, Report::Nothing));
}

#[test]
fn oneshot_reports_closed_when_no_message_passed() {
    for receiving in [false, true] {
        let step = oneshot_forwarder_step(receiving, OneshotPhase::Watching, OneshotEvent::Dropped);
        assert_eq!(
            (step.next, step.report, step.cancel_inner),
            (OneshotPhase::Finished, Report::Closed, false),
        );
        let step = oneshot_forwarder_step(receiving, OneshotPhase::Delivering, OneshotEvent::Refused);
        assert_eq!(
            (step.next, step.report, step.cancel_inner),
            (OneshotPhase::Finished, Report::Closed, false),
        );
        let step = oneshot_forwarder_step(receiving, OneshotPhase::Watching, OneshotEvent::Canceled);
        assert_eq!(
            (step.next, step.report, step.cancel_inner),
            (OneshotPhase::Finished, Report::Closed, receiving),
        );
    }
}

#[test]
fn stream_reports_follow_the_poll() {
    assert_eq!(stream_step(StreamPoll::Item, false), StreamReport::Yielded { with_log: false });
    assert_eq!(stream_step(StreamPoll::Item, true), StreamReport::Yielded { with_log: true });
    assert_eq!(stream_step(StreamPoll::Done, true), StreamReport::Completed);
    assert_eq!(stream_step(StreamPoll::Done, false), StreamReport::Completed);
    assert_eq!(stream_step(StreamPoll::Pending, true), StreamReport::Nothing);
    assert_eq!(stream_step(StreamPoll::Pending, false), StreamReport::Nothing);
}

#[test]
fn a_bounded_channel_needs_its_capacity() {
    assert_eq!(bounded_channel_type(Some(10)), Ok(ChannelType::Bounded(10)));
    assert_eq!(bounded_channel_type(Some(0)), Ok(ChannelType::Bounded(0)));
    assert_eq!(bounded_channel_type(None), Err(MissingCapacity));
}

#[test]
fn reports_become_events() {
    assert!(report_events(Report::Nothing, 3, None, 9).is_empty());
    let events = report_events(Report::MessageSent, 3, Some("msg".to_string()), 9);
    assert!(matches!(
        events.as_slice(),
        [StatsEvent::MessageSent { id: 3, log: Some(log), elapsed_nanos: 9 }] if log == "msg"
    ));
    let events = report_events(Report::MessageReceived, 3, Some("msg".to_string()), 9);
    assert!(matches!(
        events.as_slice(),
        [StatsEvent::MessageReceived { id: 3, elapsed_nanos: 9 }]
    ));
    let events = report_events(Report::SentAndNotified, 4, None, 7);
    assert!(matches!(
        events.as_slice(),
        [StatsEvent::MessageSent { id: 4, log: None, elapsed_nanos: 7 }, StatsEvent::Notified { id: 4 }]
    ));
    let events = report_events(Report::ReceivedAndNotified, 4, None, 7);
    assert!(matches!(
        events.as_slice(),
        [StatsEvent::MessageReceived { id: 4, elapsed_nanos: 7 }, StatsEvent::Notified { id: 4 }]
    ));
    let events = report_events(Report::Closed, 5, None, 1);
    assert!(matches!(events.as_slice(), [StatsEvent::Closed { id: 5 }]));
}

#[test]
fn stream_reports_become_events() {
    assert!(stream_report_events(StreamReport::Nothing, 1, None, 2).is_empty());
    let events = stream_report_events(StreamReport::Completed, 1, None, 2);
    assert!(matches!(events.as_slice(), [StatsEvent::StreamCompleted { id: 1 }]));
    let events =
        stream_report_events(StreamReport::Yielded { with_log: true }, 1, Some("7".to_string()), 2);
    assert!(matches!(
        events.as_slice(),
        [StatsEvent::StreamItemYielded { id: 1, log: Some(log), elapsed_nanos: 2 }] if log == "7"
    ));
    let events =
        stream_report_events(StreamReport::Yielded { with_log: false }, 1, Some("7".to_string()), 2);
    assert!(matches!(
        events.as_slice(),
        [StatsEvent::StreamItemYielded { id: 1, log: None, elapsed_nanos: 2 }]
    ));
}
