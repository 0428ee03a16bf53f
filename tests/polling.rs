use netdash::dashboard::{App, Command, LoopState, System};
use netdash::monitor::Monitor;
use netdash::probe::ConnectOutcome::{BadTarget, Connected, Failed};
use netdash::probe::{probe_start, probe_step, ConnectOutcome, ProbeStep, Status};
use netdash::round::PollRound;
use netdash::schedule::PollSchedule;

/// Drives one probe with a stub connector that answers from `outcomes`, and
/// returns the status and the ports it was asked to try.
fn run_probe(outcomes: &[ConnectOutcome]) -> (Status, Vec<usize>) {
    let mut tried = Vec::new();
    let mut step = probe_start(outcomes.len());
    loop {
        match step {
            ProbeStep::Attempt(i) => {
                tried.push(i);
                step = probe_step(outcomes.len(), i, outcomes[i]);
            }
            ProbeStep::Finished(status) => return (status, tried),
        }
    }
}

fn endpoint(name: &str, address: &str, ports: &[&str]) -> System {
    System {
        name: name.to_string(),
        address: address.to_string(),
        status: Status::Unknown,
        ports: ports.iter().map(|p| p.to_string()).collect(),
    }
}

#[test]
fn first_success_stops_the_probe() {
    let (status, tried) = run_probe(&[Failed, Connected, Connected]);
    assert_eq!(status, Status::Up);
    assert_eq!(tried, vec![0, 1]);
}

#[test]
fn first_port_up_tries_only_it() {
    let (status, tried) = run_probe(&[Connected, Failed]);
    assert_eq!(status, Status::Up);
    assert_eq!(tried, vec![0]);
}

#[test]
fn all_ports_failing_is_down() {
    let (status, tried) = run_probe(&[Failed, Failed, Failed]);
    assert_eq!(status, Status::Down);
    assert_eq!(tried, vec![0, 1, 2]);
}

#[test]
fn no_ports_is_down_without_attempts() {
    assert_eq!(probe_start(0), ProbeStep::Finished(Status::Down));
    let (status, tried) = run_probe(&[]);
    assert_eq!(status, Status::Down);
    assert!(tried.is_empty());
}

#[test]
fn bad_target_is_a_configuration_error() {
    let (status, tried) = run_probe(&[BadTarget, Connected]);
    assert_eq!(status, Status::ConfigError);
    assert_eq!(tried, vec![0]);
    assert_eq!(probe_step(3, 1, Failed), ProbeStep::Attempt(2));
    assert_eq!(probe_step(3, 2, Failed), ProbeStep::Finished(Status::Down));
}

#[test]
fn round_completes_when_every_endpoint_reports() {
    let mut round = PollRound::new(3);
    assert!(!round.is_complete());
    assert!(round.record(2, Status::Down));
    assert!(round.record(0, Status::Up));
    assert!(round.finish().is_none());
    assert!(!round.record(3, Status::Up));
    assert!(round.record(1, Status::ConfigError));
    assert!(round.is_complete());
    let result = round.finish().unwrap();
    assert_eq!(result.statuses, vec![Status::Up, Status::ConfigError, Status::Down]);
}

#[test]
fn empty_round_is_complete_at_once() {
    let round = PollRound::new(0);
    assert!(round.is_complete());
    assert!(round.finish().unwrap().statuses.is_empty());
}

#[test]
fn remaining_time_is_floored_at_zero() {
    let s = PollSchedule::new(1000, 0);
    assert_eq!(s.remaining_ms(0), 1000);
    assert_eq!(s.remaining_ms(300), 700);
    assert_eq!(s.remaining_ms(1000), 0);
    assert_eq!(s.remaining_ms(1500), 0);
    let later = PollSchedule::new(1000, 5000);
    assert_eq!(later.remaining_ms(4000), 1000);
}

#[test]
fn a_started_round_snaps_to_its_boundary() {
    let mut s = PollSchedule::new(1000, 0);
    assert!(!s.try_start(999));
    assert!(s.try_start(2500));
    assert_eq!(s.anchor_ms, 2000);
    assert!(s.in_flight);
    assert_eq!(s.remaining_ms(2600), 400);
    assert!(!s.is_due(3100));
    assert!(!s.try_start(3100));
    s.finish_round();
    assert!(s.is_due(3100));
}

#[test]
fn rounds_follow_whole_intervals_elapsed() {
    for step in [1u64, 7, 300, 999] {
        let mut s = PollSchedule::new(1000, 0);
        let mut rounds = 0u64;
        let mut now = 0u64;
        while now < 20_000 {
            now += step;
            if s.try_start(now) {
                rounds += 1;
                s.finish_round();
            }
            assert_eq!(rounds, now / 1000);
        }
    }
}

fn monitor_of_three() -> Monitor {
    let app = App::new(
        "Systems".to_string(),
        vec![
            endpoint("web", "127.0.0.1", &["80", "443"]),
            endpoint("broken", "not an address", &["22"]),
            endpoint("db", "127.0.0.1", &["5432"]),
        ],
    );
    Monitor::new(app, 1000, 0)
}

#[test]
fn configuration_error_leaves_other_endpoints_probed() {
    let mut m = monitor_of_three();
    assert!(!m.begin_round(500));
    assert!(m.begin_round(1000));
    let (web, _) = run_probe(&[Failed, Connected]);
    let (broken, _) = run_probe(&[BadTarget]);
    let (db, _) = run_probe(&[Failed]);
    assert!(!m.record_status(1, broken));
    assert!(!m.record_status(0, web));
    assert!(m.record_status(2, db));
    assert_eq!(m.app.statuses(), vec![Status::Up, Status::ConfigError, Status::Down]);
    assert!(m.round.is_none());
    assert!(!m.schedule.in_flight);
}

#[test]
fn statuses_change_only_when_the_round_is_complete() {
    let mut m = monitor_of_three();
    assert!(m.begin_round(1200));
    assert!(!m.begin_round(2300));
    assert!(!m.record_status(0, Status::Up));
    assert_eq!(m.app.statuses(), vec![Status::Unknown, Status::Unknown, Status::Unknown]);
    assert!(!m.record_status(1, Status::Down));
    assert_eq!(m.app.statuses(), vec![Status::Unknown, Status::Unknown, Status::Unknown]);
    assert!(m.record_status(2, Status::Up));
    assert_eq!(m.app.statuses(), vec![Status::Up, Status::Down, Status::Up]);
    assert!(m.begin_round(2300));
    assert!(!m.record_status(0, Status::Down));
    assert_eq!(m.app.statuses(), vec![Status::Up, Status::Down, Status::Up]);
}

#[test]
fn status_without_a_round_is_ignored() {
    let mut m = monitor_of_three();
    assert!(!m.record_status(0, Status::Up));
    assert_eq!(m.app.statuses(), vec![Status::Unknown, Status::Unknown, Status::Unknown]);
}

#[test]
fn monitor_waits_and_dispatches() {
    let mut m = monitor_of_three();
    assert_eq!(m.wait_ms(250), 750);
    assert_eq!(m.handle_command(Command::SelectPrevious), LoopState::Running);
    assert_eq!(m.app.selected, Some(2));
    assert_eq!(m.handle_command(Command::Quit), LoopState::Terminated);
}

#[test]
fn empty_dashboard_never_polls() {
    let mut m = Monitor::new(App::default(), 1000, 0);
    assert!(!m.begin_round(5000));
    assert!(m.round.is_none());
    assert!(!m.schedule.in_flight);
}
