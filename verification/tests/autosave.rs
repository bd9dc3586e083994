use abbey::autosave::{AutosaveScheduler, TimerToken, DEBOUNCE_SECONDS};

#[test]
fn a_burst_of_changes_flushes_once() {
    let mut scheduler = AutosaveScheduler::new();
    assert!(!scheduler.is_armed());
    let mut armed: Vec<TimerToken> = Vec::new();
    let mut cancelled: Vec<TimerToken> = Vec::new();
    for _ in 0..25 {
        let step = scheduler.notify_changed();
        assert_eq!(step.delay_seconds, 2);
        assert_eq!(step.delay_seconds, DEBOUNCE_SECONDS);
        if let Some(old) = step.cancel {
            cancelled.push(old);
        }
        armed.push(step.arm);
        assert!(scheduler.is_armed());
    }
    assert_eq!(cancelled, armed[..24].to_vec());
    let mut flushes = 0;
    for token in armed.iter() {
        if scheduler.timer_fired(*token) {
            flushes += 1;
        }
    }
    for token in armed.iter().rev() {
        if scheduler.timer_fired(*token) {
            flushes += 1;
        }
    }
    assert_eq!(flushes, 1);
    assert!(!scheduler.is_armed());
}

#[test]
fn tokens_are_never_reused() {
    let mut scheduler = AutosaveScheduler::new();
    let a = scheduler.notify_changed().arm;
    assert!(scheduler.timer_fired(a));
    let b = scheduler.notify_changed().arm;
    assert_ne!(a, b);
    assert!(!scheduler.timer_fired(a));
    assert!(scheduler.is_armed());
    assert_eq!(scheduler.pending(), Some(b));
    assert!(scheduler.timer_fired(b));
}

#[test]
fn save_now_cancels_the_pending_timer() {
    let mut scheduler = AutosaveScheduler::new();
    let step = scheduler.notify_changed();
    let cancel = scheduler.save_now();
    assert_eq!(cancel, Some(step.arm));
    assert!(!scheduler.is_armed());
    assert!(!scheduler.timer_fired(step.arm));
    assert_eq!(scheduler.save_now(), None);
}

#[test]
fn save_now_on_an_idle_scheduler_cancels_nothing() {
    let mut scheduler = AutosaveScheduler::new();
    assert_eq!(scheduler.save_now(), None);
    assert!(!scheduler.is_armed());
    let step = scheduler.notify_changed();
    assert_eq!(step.cancel, None);
}

#[test]
fn cancelling_is_idempotent_and_safe_after_the_timer_fired() {
    let mut scheduler = AutosaveScheduler::new();
    let step = scheduler.notify_changed();
    assert_eq!(scheduler.cancel(), Some(step.arm));
    assert_eq!(scheduler.cancel(), None);
    let next = scheduler.notify_changed();
    assert!(scheduler.timer_fired(next.arm));
    assert_eq!(scheduler.cancel(), None);
    assert!(!scheduler.timer_fired(next.arm));
}

#[test]
fn the_next_change_arms_again_after_a_flush() {
    let mut scheduler = AutosaveScheduler::new();
    let first = scheduler.notify_changed();
    assert!(scheduler.timer_fired(first.arm));
    let second = scheduler.notify_changed();
    assert_eq!(second.cancel, None);
    assert!(scheduler.is_armed());
    assert!(scheduler.timer_fired(second.arm));
}
