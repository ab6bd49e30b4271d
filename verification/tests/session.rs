use kitbash_watch::event::FileChangeEvent;
use kitbash_watch::hub::Delivery;
use kitbash_watch::session::{
    inbound_continues, other_half, outbound_step, outbound_step_encoded, Half, InboundRead,
    OutboundStep, Session, SessionAction, SessionState,
};

#[test]
fn new_session_is_open_with_both_halves_running() {
    let session = Session::open();
    assert_eq!(session.state(), SessionState::Open);
    assert!(session.running(Half::Outbound));
    assert!(session.running(Half::Inbound));
    assert!(!session.is_closed());
}

#[test]
fn inbound_end_cancels_outbound() {
    let mut session = Session::open();
    assert_eq!(
        session.half_stopped(Half::Inbound),
        Some(SessionAction::Cancel(Half::Outbound))
    );
    assert_eq!(session.state(), SessionState::Closing { awaiting: Half::Outbound });
    assert!(!session.running(Half::Inbound));
    assert!(session.running(Half::Outbound));
    assert!(!session.is_closed());
    assert_eq!(session.half_stopped(Half::Outbound), Some(SessionAction::Release));
    assert_eq!(session.state(), SessionState::Closed);
    assert!(session.is_closed());
    assert!(!session.running(Half::Outbound));
    assert!(!session.running(Half::Inbound));
}

#[test]
fn outbound_end_cancels_inbound() {
    let mut session = Session::open();
    assert_eq!(
        session.half_stopped(Half::Outbound),
        Some(SessionAction::Cancel(Half::Inbound))
    );
    assert_eq!(session.state(), SessionState::Closing { awaiting: Half::Inbound });
    assert_eq!(session.half_stopped(Half::Inbound), Some(SessionAction::Release));
    assert!(session.is_closed());
}

#[test]
fn repeated_reports_ask_for_nothing() {
    let mut session = Session::open();
    session.half_stopped(Half::Inbound);
    assert_eq!(session.half_stopped(Half::Inbound), None);
    assert_eq!(session.state(), SessionState::Closing { awaiting: Half::Outbound });
    session.half_stopped(Half::Outbound);
    assert_eq!(session.half_stopped(Half::Outbound), None);
    assert_eq!(session.half_stopped(Half::Inbound), None);
    assert_eq!(session.state(), SessionState::Closed);
}

#[test]
fn release_is_asked_for_exactly_once() {
    let runs: [&[Half]; 4] = [
        &[Half::Inbound, Half::Outbound, Half::Inbound, Half::Outbound],
        &[Half::Outbound, Half::Outbound, Half::Inbound, Half::Inbound],
        &[Half::Inbound, Half::Inbound, Half::Inbound],
        &[],
    ];
    let expected = [1, 1, 0, 0];
    for (run, want) in runs.iter().zip(expected) {
        let mut session = Session::open();
        let mut releases = 0;
        for half in run.iter() {
            if session.half_stopped(*half) == Some(SessionAction::Release) {
                releases += 1;
            }
        }
        assert_eq!(releases, want);
        assert_eq!(session.is_closed(), want == 1);
    }
}

#[test]
fn halves_are_each_other_s_counterpart() {
    assert_eq!(other_half(Half::Inbound), Half::Outbound);
    assert_eq!(other_half(Half::Outbound), Half::Inbound);
}

#[test]
fn outbound_forwards_events_as_wire_text() {
    let delivery = Delivery::Event(FileChangeEvent::Added { filename: "a.obj".to_string() });
    assert_eq!(
        outbound_step(&delivery),
        OutboundStep::Forward("{\"type\":\"file_added\",\"filename\":\"a.obj\"}".to_string())
    );
}

#[test]
fn outbound_waits_on_empty_and_stops_on_lag_or_close() {
    assert_eq!(outbound_step(&Delivery::Empty), OutboundStep::Wait);
    assert_eq!(outbound_step(&Delivery::Lagged(3)), OutboundStep::Stop);
    assert_eq!(outbound_step(&Delivery::Closed), OutboundStep::Stop);
}

#[test]
fn outbound_step_on_encoded_deliveries() {
    let event = Delivery::Event(FileChangeEvent::Removed { filename: "a.obj".to_string() });
    assert_eq!(
        outbound_step_encoded(&event, Some("text".to_string())),
        OutboundStep::Forward("text".to_string())
    );
    assert_eq!(outbound_step_encoded(&event, None), OutboundStep::Stop);
    assert_eq!(outbound_step_encoded(&Delivery::Empty, None), OutboundStep::Wait);
    assert_eq!(
        outbound_step_encoded(&Delivery::Empty, Some("text".to_string())),
        OutboundStep::Wait
    );
    assert_eq!(outbound_step_encoded(&Delivery::Lagged(1), None), OutboundStep::Stop);
    assert_eq!(outbound_step_encoded(&Delivery::Closed, None), OutboundStep::Stop);
}

#[test]
fn inbound_reads_on_after_messages_only() {
    assert!(inbound_continues(InboundRead::Message));
    assert!(!inbound_continues(InboundRead::Close));
    assert!(!inbound_continues(InboundRead::Failed));
    assert!(!inbound_continues(InboundRead::Ended));
}
