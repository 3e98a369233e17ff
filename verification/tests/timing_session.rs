use cursor_party::access::bad_from_query;
use cursor_party::access::FROM_QUERY_CUTOFF_UNIX;
use cursor_party::sched::ArmOutcome;
use cursor_party::sched::Scheduler;
use cursor_party::sched::BROADCAST_INTERVAL_MS;
use cursor_party::session::FrameAction;
use cursor_party::session::InboundFrame;
use cursor_party::session::LivenessAction;
use cursor_party::session::SessionCore;
use cursor_party::session::SessionPhase;
use cursor_party::session::CLIENT_TIMEOUT_MS;

#[test]
fn burst_within_one_interval_coalesces_into_one_flush() {
    let mut s = Scheduler::new(1000);
    // first event schedules the one deferred flush, exactly one interval
    // after the previous flush
    assert_eq!(s.arm(1010), ArmOutcome::ScheduleAt(1000 + BROADCAST_INTERVAL_MS));
    // everything else in the window rides along
    assert_eq!(s.arm(1011), ArmOutcome::Pending);
    assert_eq!(s.arm(1032), ArmOutcome::Pending);
    // the deferred flush fires at the scheduled time
    s.fire(1000 + BROADCAST_INTERVAL_MS);
    assert_eq!(s.last_flush_ms, 1033);
    assert!(!s.armed);
}

#[test]
fn a_late_event_flushes_immediately() {
    let mut s = Scheduler::new(1000);
    assert_eq!(s.arm(1000 + BROADCAST_INTERVAL_MS), ArmOutcome::FlushNow);
    assert_eq!(s.last_flush_ms, 1033);
    assert_eq!(s.arm(2000), ArmOutcome::FlushNow);
    assert_eq!(s.last_flush_ms, 2000);
}

#[test]
fn an_event_right_after_a_flush_waits_a_full_interval() {
    let mut s = Scheduler::new(5000);
    assert_eq!(s.arm(5000), ArmOutcome::ScheduleAt(5000 + BROADCAST_INTERVAL_MS));
}

#[test]
fn session_lifecycle_runs_to_a_single_disconnect() {
    let mut s = SessionCore::start(100);
    assert_eq!(s.phase, SessionPhase::Connecting);
    s.on_connected(7);
    assert_eq!(s.phase, SessionPhase::Active);
    assert_eq!(s.id, 7);
    s.on_error();
    assert_eq!(s.phase, SessionPhase::Closing);
    assert_eq!(s.finish_close(), Some(7));
    assert_eq!(s.phase, SessionPhase::Closed);
    assert!(s.disconnect_sent);
}

#[test]
fn frames_drive_the_session() {
    let mut s = SessionCore::start(100);
    s.on_connected(1);

    let good = InboundFrame::Binary({
        let mut b = 0.25f32.to_le_bytes().to_vec();
        b.extend_from_slice(&0.75f32.to_le_bytes());
        b
    });
    match s.on_frame(&good, 150) {
        FrameAction::Update(p) => {
            assert_eq!(p.x_bits, 0.25f32.to_bits());
            assert_eq!(p.y_bits, 0.75f32.to_bits());
        }
        other => panic!("expected a position update, got {:?}", other),
    }
    assert_eq!(s.phase, SessionPhase::Active);
    assert_eq!(s.last_heartbeat_ms, 100);

    let beat = InboundFrame::Text(b"{\"heartbeat\":true}".to_vec());
    assert_eq!(s.on_frame(&beat, 200), FrameAction::Heartbeat);
    assert_eq!(s.last_heartbeat_ms, 200);

    assert_eq!(s.on_frame(&InboundFrame::Other, 250), FrameAction::Ignore);
    assert_eq!(s.phase, SessionPhase::Active);

    let bad = InboundFrame::Binary(vec![0u8; 7]);
    assert_eq!(s.on_frame(&bad, 300), FrameAction::Stop);
    assert_eq!(s.phase, SessionPhase::Closing);
}

#[test]
fn a_bad_text_frame_stops_the_session() {
    let mut s = SessionCore::start(0);
    s.on_connected(1);
    let bad = InboundFrame::Text(b"not json".to_vec());
    assert_eq!(s.on_frame(&bad, 10), FrameAction::Stop);
    assert_eq!(s.phase, SessionPhase::Closing);
}

#[test]
fn liveness_probes_then_times_out() {
    let mut s = SessionCore::start(1000);
    s.on_connected(1);
    assert_eq!(s.on_liveness_tick(1000 + CLIENT_TIMEOUT_MS), LivenessAction::Probe);
    assert_eq!(s.phase, SessionPhase::Active);
    assert_eq!(
        s.on_liveness_tick(1000 + CLIENT_TIMEOUT_MS + 1),
        LivenessAction::Close
    );
    assert_eq!(s.phase, SessionPhase::Closing);
}

fn pairs(list: &[(&str, &str)]) -> Vec<(Vec<u8>, Vec<u8>)> {
    list.iter()
        .map(|(k, v)| (k.as_bytes().to_vec(), v.as_bytes().to_vec()))
        .collect()
}

#[test]
fn requests_before_the_cutoff_are_always_let_in() {
    assert!(!bad_from_query(FROM_QUERY_CUTOFF_UNIX, &pairs(&[])));
    assert!(!bad_from_query(0, &pairs(&[("from", "elsewhere")])));
}

#[test]
fn requests_after_the_cutoff_need_an_accepted_origin() {
    let later = FROM_QUERY_CUTOFF_UNIX + 1;
    assert!(bad_from_query(later, &pairs(&[])));
    assert!(!bad_from_query(later, &pairs(&[("from", "cc2")])));
    assert!(!bad_from_query(later, &pairs(&[("x", "y"), ("from", "index")])));
    assert!(bad_from_query(later, &pairs(&[("from", "elsewhere")])));
    assert!(bad_from_query(later, &pairs(&[("From", "cc2")])));
    assert!(bad_from_query(later, &pairs(&[("x", "cc2")])));
}
