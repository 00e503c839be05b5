use foldersync::schedule::{ErrorPolicy, Phase, Scheduler, Step};
use foldersync::trigger::{chord_held, Key};

#[test]
fn stop_one_unit_into_wait() {
    let mut s = Scheduler::new(5, ErrorPolicy::Continue);
    assert_eq!(s.next(false), Step::RunPass);
    assert_eq!(s.next(false), Step::SleepUnit);
    let mut passes = 1;
    let mut sleeps = 1;
    loop {
        match s.next(true) {
            Step::RunPass => passes += 1,
            Step::SleepUnit => sleeps += 1,
            Step::Stop => break,
        }
    }
    assert_eq!(passes, 1);
    assert!(sleeps <= 2);
    assert_eq!(s.phase, Phase::Stopped);
}

#[test]
fn waits_interval_between_passes() {
    let mut s = Scheduler::new(3, ErrorPolicy::Continue);
    let mut steps = Vec::new();
    for _ in 0..9 {
        steps.push(s.next(false));
    }
    let (p, w) = (Step::RunPass, Step::SleepUnit);
    assert_eq!(steps, vec![p, w, w, w, p, w, w, w, p]);
}

#[test]
fn zero_interval_passes_back_to_back() {
    let mut s = Scheduler::new(0, ErrorPolicy::Continue);
    assert_eq!(s.next(false), Step::RunPass);
    assert_eq!(s.next(false), Step::RunPass);
}

#[test]
fn stop_before_first_pass_runs_nothing() {
    let mut s = Scheduler::new(5, ErrorPolicy::Continue);
    assert_eq!(s.next(true), Step::Stop);
    assert_eq!(s.next(false), Step::Stop);
    assert!(s.is_stopped());
}

#[test]
fn stop_during_pass_ends_after_it() {
    let mut s = Scheduler::new(5, ErrorPolicy::Continue);
    assert_eq!(s.next(false), Step::RunPass);
    // the request arrives while the pass runs
    assert_eq!(s.next(true), Step::Stop);
    assert_eq!(s.next(false), Step::Stop);
}

#[test]
fn fail_fast_stops_after_failed_pass() {
    let mut s = Scheduler::new(5, ErrorPolicy::FailFast);
    assert_eq!(s.next(false), Step::RunPass);
    s.pass_failed();
    assert!(s.is_stopped());
    assert_eq!(s.next(false), Step::Stop);
}

#[test]
fn continue_policy_keeps_schedule_after_failed_pass() {
    let mut s = Scheduler::new(2, ErrorPolicy::Continue);
    assert_eq!(s.next(false), Step::RunPass);
    s.pass_failed();
    assert_eq!(s.phase, Phase::WaitingForInterval { elapsed: 0 });
    assert_eq!(s.next(false), Step::SleepUnit);
}

#[test]
fn chord_needs_every_key() {
    let chord = vec![Key::Alt, Key::Char('a')];
    assert!(chord_held(&vec![Key::Char('a'), Key::Other, Key::Alt], &chord));
    assert!(!chord_held(&vec![Key::Alt], &chord));
    assert!(!chord_held(&vec![Key::Alt, Key::Char('c')], &chord));
    assert!(!chord_held(&vec![], &chord));
    assert!(chord_held(&vec![], &vec![]));
}
