use abbey::clock::Timestamp;
use abbey::flow::{FlowSession, FlowState, TickOutcome};
use abbey::models::Flow;

fn at(secs: i64) -> Timestamp {
    Timestamp { secs, nanos: 0 }
}

fn five_minutes() -> FlowSession {
    FlowSession::start_with(Flow::with("flow-1".to_string(), 5, at(1_700_000_000)))
}

#[test]
fn a_session_of_five_minutes_ends_once_after_300_seconds() {
    let mut session = five_minutes();
    assert_eq!(session.state(), FlowState::Running);
    assert_eq!(session.remaining_seconds(), 300);
    assert_eq!(session.elapsed_seconds(), 0);
    session.update_text("some words here");
    let mut ended = Vec::new();
    for second in 1..=300u64 {
        match session.tick() {
            TickOutcome::Advanced(t) => {
                assert_eq!(t.elapsed_seconds, second);
                assert_eq!(t.remaining_seconds, 300 - second);
                assert_eq!(t.word_count, 3);
            }
            TickOutcome::Ended(flow) => ended.push((second, flow)),
            TickOutcome::Skipped => panic!("a running session skipped second {}", second),
        }
    }
    assert_eq!(ended.len(), 1);
    assert_eq!(ended[0].0, 300);
    assert_eq!(ended[0].1.actual_duration_seconds, 300);
    assert_eq!(ended[0].1.content, "some words here");
    assert_eq!(ended[0].1.duration_minutes, 5);
    assert_eq!(ended[0].1.id, "flow-1");
    assert_eq!(session.state(), FlowState::Ended);
    assert_eq!(session.elapsed_seconds(), 300);
    assert_eq!(session.remaining_seconds(), 0);
    assert!(!session.clock_running());
    for _ in 0..10 {
        assert_eq!(session.tick(), TickOutcome::Skipped);
    }
    assert_eq!(session.end(), None);
}

#[test]
fn a_pause_costs_wall_time_and_no_session_time() {
    let k = 40u64;
    let mut session = five_minutes();
    let mut wall = 0u64;
    for _ in 0..100 {
        session.tick();
        wall += 1;
    }
    session.toggle_pause();
    assert!(session.is_paused());
    for _ in 0..k {
        assert_eq!(session.tick(), TickOutcome::Skipped);
        wall += 1;
    }
    assert_eq!(session.elapsed_seconds(), 100);
    assert_eq!(session.remaining_seconds(), 200);
    session.toggle_pause();
    assert!(!session.is_paused());
    let mut records = 0;
    while session.clock_running() {
        if let TickOutcome::Ended(flow) = session.tick() {
            records += 1;
            assert_eq!(flow.actual_duration_seconds, 300);
        }
        wall += 1;
        if wall == 300 {
            assert_eq!(session.elapsed_seconds(), 300 - k);
        }
    }
    assert_eq!(records, 1);
    assert_eq!(wall, 300 + k);
    assert_eq!(session.elapsed_seconds(), 300);
}

#[test]
fn ending_twice_hands_out_one_record() {
    let mut session = five_minutes();
    for _ in 0..7 {
        session.tick();
    }
    session.update_text("written");
    let first = session.end();
    let second = session.end();
    let flow = first.expect("the first end hands out the record");
    assert_eq!(flow.actual_duration_seconds, 7);
    assert_eq!(flow.content, "written");
    assert_eq!(second, None);
    assert_eq!(session.state(), FlowState::Ended);
    assert_eq!(session.remaining_seconds(), 293);
}

#[test]
fn a_paused_session_can_be_ended_by_hand() {
    let mut session = five_minutes();
    session.tick();
    session.toggle_pause();
    let flow = session.end().expect("a paused session is live");
    assert_eq!(flow.actual_duration_seconds, 1);
    assert_eq!(session.state(), FlowState::Ended);
    session.toggle_pause();
    assert_eq!(session.state(), FlowState::Ended);
}

#[test]
fn an_unstarted_session_ignores_everything() {
    let mut session = FlowSession::new();
    assert_eq!(session.state(), FlowState::Idle);
    assert_eq!(session.tick(), TickOutcome::Skipped);
    session.toggle_pause();
    session.update_text("ignored");
    assert_eq!(session.word_count(), 0);
    assert_eq!(session.end(), None);
    assert_eq!(session.state(), FlowState::Idle);
    assert!(!session.clock_running());
}

#[test]
fn a_session_of_no_minutes_ends_at_its_first_second() {
    let mut session = FlowSession::start_with(Flow::with("z".to_string(), 0, at(0)));
    match session.tick() {
        TickOutcome::Ended(flow) => assert_eq!(flow.actual_duration_seconds, 0),
        other => panic!("expected the end, got {:?}", other),
    }
    assert_eq!(session.tick(), TickOutcome::Skipped);
}

#[test]
fn disposing_stops_the_clock_without_a_record() {
    let mut session = five_minutes();
    session.tick();
    session.dispose();
    assert!(!session.clock_running());
    assert_eq!(session.state(), FlowState::Ended);
    assert_eq!(session.end(), None);
    assert_eq!(session.tick(), TickOutcome::Skipped);
    session.dispose();
    assert_eq!(session.state(), FlowState::Ended);
}

#[test]
fn the_timer_label_shows_minutes_and_seconds() {
    let mut session = five_minutes();
    assert_eq!(session.timer_label(), "05:00");
    session.tick();
    assert_eq!(session.timer_label(), "04:59");
    let long = FlowSession::start_with(Flow::with("l".to_string(), 120, at(0)));
    assert_eq!(long.timer_label(), "120:00");
}

#[test]
fn the_word_count_follows_the_text() {
    let mut session = five_minutes();
    assert_eq!(session.word_count(), 0);
    session.update_text("one two  three\nfour");
    assert_eq!(session.word_count(), 4);
    let snap = session.snapshot();
    assert_eq!(snap.word_count, 4);
    assert_eq!(snap.remaining_seconds, 300);
    assert_eq!(snap.elapsed_seconds, 0);
}

#[test]
fn start_makes_a_fresh_running_session() {
    let mut a = FlowSession::start(10);
    let mut b = FlowSession::start(10);
    assert_eq!(a.state(), FlowState::Running);
    assert_eq!(a.remaining_seconds(), 600);
    let fa = a.end().expect("live");
    let fb = b.end().expect("live");
    assert_eq!(fa.id.len(), 36);
    assert_ne!(fa.id, fb.id);
    assert_eq!(fa.duration_minutes, 10);
    assert_eq!(fa.actual_duration_seconds, 0);
    assert_eq!(fa.content, "");
}
