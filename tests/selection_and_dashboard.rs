use netdash::dashboard::{App, Command, LoopState, PollResult, System};
use netdash::probe::Status;
use netdash::selection::{next_selection, previous_selection};

fn endpoint(name: &str, address: &str, ports: &[&str]) -> System {
    System {
        name: name.to_string(),
        address: address.to_string(),
        status: Status::Unknown,
        ports: ports.iter().map(|p| p.to_string()).collect(),
    }
}

fn three_endpoints() -> App {
    App::new(
        "Systems".to_string(),
        vec![
            endpoint("a", "127.0.0.1", &["80"]),
            endpoint("b", "127.0.0.1", &["22", "443"]),
            endpoint("c", "10.0.0.1", &[]),
        ],
    )
}

#[test]
fn next_wraps_from_last_to_first() {
    assert_eq!(next_selection(Some(0), 3), Some(1));
    assert_eq!(next_selection(Some(1), 3), Some(2));
    assert_eq!(next_selection(Some(2), 3), Some(0));
}

#[test]
fn previous_wraps_from_first_to_last() {
    assert_eq!(previous_selection(Some(2), 3), Some(1));
    assert_eq!(previous_selection(Some(1), 3), Some(0));
    assert_eq!(previous_selection(Some(0), 3), Some(2));
}

#[test]
fn out_of_range_selection_lands_in_range() {
    assert_eq!(next_selection(Some(7), 3), Some(0));
    assert_eq!(previous_selection(Some(7), 3), Some(2));
}

#[test]
fn single_row_stays_selected() {
    assert_eq!(next_selection(Some(0), 1), Some(0));
    assert_eq!(previous_selection(Some(0), 1), Some(0));
}

#[test]
fn full_cycles_return_to_start() {
    for n in 1usize..6 {
        for i in 0..n {
            let mut down = Some(i);
            let mut up = Some(i);
            for _ in 0..n {
                down = next_selection(down, n);
                up = previous_selection(up, n);
            }
            assert_eq!(down, Some(i));
            assert_eq!(up, Some(i));
            assert_eq!(previous_selection(next_selection(Some(i), n), n), Some(i));
        }
    }
}

#[test]
fn app_cycles_through_its_rows() {
    let mut app = three_endpoints();
    assert_eq!(app.selected, Some(0));
    for _ in 0..3 {
        app.next();
    }
    assert_eq!(app.selected, Some(0));
    app.previous();
    assert_eq!(app.selected, Some(2));
    app.next();
    assert_eq!(app.selected, Some(0));
}

#[test]
fn empty_dashboard_never_selects() {
    let mut app = App::new("empty".to_string(), vec![]);
    assert_eq!(app.selected, None);
    app.next();
    assert_eq!(app.selected, None);
    app.previous();
    assert_eq!(app.selected, None);
    assert_eq!(next_selection(Some(0), 0), None);
    assert_eq!(previous_selection(Some(0), 0), None);
    assert_eq!(next_selection(None, 0), None);
}

#[test]
fn default_dashboard_is_empty() {
    let mut app = App::default();
    assert_eq!(app.title, "DEFAULT");
    assert!(app.systems.is_empty());
    assert_eq!(app.selected, None);
    assert_eq!(app.handle_command(Command::SelectNext), LoopState::Running);
    assert_eq!(app.selected, None);
}

#[test]
fn commands_move_selection_and_quit_terminates() {
    let mut app = three_endpoints();
    assert_eq!(app.handle_command(Command::SelectNext), LoopState::Running);
    assert_eq!(app.selected, Some(1));
    assert_eq!(app.handle_command(Command::SelectPrevious), LoopState::Running);
    assert_eq!(app.handle_command(Command::SelectPrevious), LoopState::Running);
    assert_eq!(app.selected, Some(2));
    assert_eq!(app.handle_command(Command::Quit), LoopState::Terminated);
    assert_eq!(app.selected, Some(2));
}

#[test]
fn poll_result_applies_every_status() {
    let mut app = three_endpoints();
    let result = PollResult { statuses: vec![Status::Up, Status::Down, Status::ConfigError] };
    assert!(app.apply_poll_result(&result));
    assert_eq!(app.statuses(), vec![Status::Up, Status::Down, Status::ConfigError]);
    assert_eq!(app.systems[1].name, "b");
    assert_eq!(app.systems[1].ports, vec!["22".to_string(), "443".to_string()]);
    assert_eq!(app.selected, Some(0));
}

#[test]
fn poll_result_of_wrong_length_changes_nothing() {
    let mut app = three_endpoints();
    let result = PollResult { statuses: vec![Status::Up, Status::Up] };
    assert!(!app.apply_poll_result(&result));
    assert_eq!(app.statuses(), vec![Status::Unknown, Status::Unknown, Status::Unknown]);
}

#[test]
fn detail_pane_follows_the_selection() {
    let mut app = three_endpoints();
    assert_eq!(app.selected_system().unwrap().name, "a");
    app.previous();
    assert_eq!(app.selected_system().unwrap().name, "c");
    assert!(App::default().selected_system().is_none());
    app.selected = Some(9);
    assert!(app.selected_system().is_none());
}
