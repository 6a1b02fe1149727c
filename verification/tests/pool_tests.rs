use hasher::application::{Application, InputEvent, MiningThread, ThreadState};
use hasher::rate::HashRateHistory;

fn fresh_app(thread_count: usize) -> Application {
    Application::start(String::from("12345678"), thread_count, String::from("rig-1"))
}

#[test]
fn start_has_no_workers_and_clean_flags() {
    let app = fresh_app(3);
    assert_eq!(app.threads.len(), 0);
    assert_eq!(app.expected_thread_count, 3);
    assert!(!app.quitting);
    assert!(!app.threads_cleaned_up);
    assert!(app.pool_status.is_none());
}

#[test]
fn reconciliation_converges_up_then_down() {
    // From zero workers, desired 5 converges to exactly 5 handles.
    let mut app = fresh_app(5);
    app.spawn_missing();
    assert_eq!(app.threads.len(), 5);
    for t in app.threads.iter() {
        assert!(t.state != ThreadState::StopSignal);
        assert_eq!(t.state, ThreadState::NotStated);
        assert!(t.current_job.is_none());
    }

    // Desired 2: exactly 3 handles are signaled and handed back for
    // joining, most recent first, leaving 2.
    app.expected_thread_count = 2;
    let mut retired = Vec::new();
    while let Some(handle) = app.retire_one() {
        assert_eq!(handle.state, ThreadState::StopSignal);
        retired.push(handle);
    }
    assert_eq!(retired.len(), 3);
    assert_eq!(app.threads.len(), 2);
    assert!(app.retire_one().is_none());
}

#[test]
fn quit_check_drains_then_completes() {
    let mut app = fresh_app(2);
    app.spawn_missing();
    app.handle_input(InputEvent::Quit);
    assert!(app.quitting);

    // Quitting forces the desired count to zero, but cleanup is not
    // complete while workers remain.
    assert!(!app.quit_check());
    assert_eq!(app.expected_thread_count, 0);
    assert!(!app.threads_cleaned_up);

    while app.retire_one().is_some() {}
    assert_eq!(app.threads.len(), 0);
    assert!(app.quit_check());
    assert!(app.threads_cleaned_up);
    assert!(app.ui_should_exit());
}

#[test]
fn input_events_move_the_desired_count() {
    let mut app = fresh_app(1);
    app.handle_input(InputEvent::IncreaseThreads);
    assert_eq!(app.expected_thread_count, 2);
    app.handle_input(InputEvent::DecreaseThreads);
    app.handle_input(InputEvent::DecreaseThreads);
    assert_eq!(app.expected_thread_count, 0);
    // At zero, a further decrease is ignored.
    app.handle_input(InputEvent::DecreaseThreads);
    assert_eq!(app.expected_thread_count, 0);
}

#[test]
fn aggregate_hashrate_is_zero_without_workers() {
    let app = fresh_app(0);
    assert_eq!(app.total_hashrate(), 0);
}

#[test]
fn aggregate_hashrate_is_the_mean_of_worker_means() {
    let mut app = fresh_app(0);
    let mut first = HashRateHistory::new();
    first.push_hashrate(100);
    first.push_hashrate(200);  // mean 150
    let mut second = HashRateHistory::new();
    second.push_hashrate(50);  // mean 50
    app.threads.push(MiningThread {
        current_job: None,
        state: ThreadState::Mining,
        hash_rate_history: first,
    });
    app.threads.push(MiningThread {
        current_job: None,
        state: ThreadState::Mining,
        hash_rate_history: second,
    });
    assert_eq!(app.total_hashrate(), 100);
}
