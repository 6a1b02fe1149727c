use hasher::digest::{count_leading_zero_bits, sha245_to_string};
use hasher::packets::{
    classify_job_outcome, ExchangeOutcome, Job, JobResponsePacket, ProtocolError,
};
use hasher::worker::{backoff_step, BackoffDecision, JobAttempt, BACKOFF_TICKS};
use sha2::Digest;

/// SHA-256 computed directly with the sha2 crate, as a reference.
fn sha256(data: &[u8]) -> Vec<u8> {
    sha2::Sha256::digest(data).to_vec()
}

fn sixteen_step_job() -> Job {
    Job { number: 1, size: 16, nounce_start: 0, nounce_end: 16 }
}

#[test]
fn threshold_zero_captures_every_step() {
    // End to end: with the threshold lowered to zero, every one of the 16
    // steps yields a solution, and the report covers [0, 16).
    let mut attempt = JobAttempt::with_threshold("12345678", sixteen_step_job(), 0);
    let steps = attempt.run_batch(16, 777);
    assert_eq!(steps, 16);
    assert!(attempt.finished());

    let report = attempt.into_submission(
        &String::from("rig-1"),
        &String::from("12345678"),
        123,
        456,
    );
    assert_eq!(report.solutions.len(), 16);
    assert_eq!(report.nounce_start, 0);
    assert_eq!(report.nounce_end, 16);
    assert_eq!(report.job_n, 1);
    assert_eq!(report.thread_hashes_per_second, 123);
    assert_eq!(report.total_hashes_per_second, 456);

    // The candidate suffixes run through the counter alphabet in order.
    let expected_nounces = [
        "0", "1", "2", "3", "4", "5", "6", "7", "8", "9", "A", "B", "C", "D", "E", "F",
    ];
    for (solution, expected) in report.solutions.iter().zip(expected_nounces.iter()) {
        assert_eq!(solution.nounce, *expected);
        assert_eq!(solution.time, 777);
        let mut candidate = b"12345678".to_vec();
        candidate.extend_from_slice(solution.nounce.as_bytes());
        let digest = sha256(&candidate);
        assert_eq!(solution.sha256, sha245_to_string(&digest));
        assert_eq!(solution.leading_zero_bit_length, count_leading_zero_bits(&digest));
    }
}

#[test]
fn configured_threshold_filters_candidates() {
    // At the configured difficulty, only candidates whose digest really
    // has enough leading zero bits are captured; a reference scan of the
    // same range predicts the exact count.
    let mut attempt = JobAttempt::new("12345678", sixteen_step_job());
    attempt.run_batch(16, 0);
    let report = attempt.into_submission(
        &String::from("rig-1"),
        &String::from("12345678"),
        0,
        0,
    );

    let mut expected = 0;
    for suffix in b"0123456789ABCDEF" {
        let mut candidate = b"12345678".to_vec();
        candidate.push(*suffix);
        if count_leading_zero_bits(&sha256(&candidate)) >= 26 {
            expected += 1;
        }
    }
    assert_eq!(report.solutions.len(), expected);
}

#[test]
fn batches_publish_progress_snapshots() {
    let job = Job { number: 9, size: 100, nounce_start: 40, nounce_end: 140 };
    let mut attempt = JobAttempt::with_threshold("12345678", job, 0);
    let steps = attempt.run_batch(30, 5);
    assert_eq!(steps, 30);
    let snapshot = attempt.current_job_snapshot();
    assert_eq!(snapshot.job_number, 9);
    assert_eq!(snapshot.size, 100);
    assert_eq!(snapshot.progress, 30);
    assert_eq!(snapshot.solutions, 30);
    assert_eq!(attempt.hashes_processed(), 29);
    assert!(!attempt.finished());

    // A budget beyond the end of the range stops at the end.
    let steps = attempt.run_batch(1000, 6);
    assert_eq!(steps, 70);
    assert!(attempt.finished());
}

#[test]
fn a_report_cut_short_covers_what_ran() {
    let job = Job { number: 2, size: 1000, nounce_start: 100, nounce_end: 1100 };
    let mut attempt = JobAttempt::with_threshold("12345678", job, 0);
    attempt.run_batch(10, 0);
    let report = attempt.into_submission(
        &String::from("rig-1"),
        &String::from("12345678"),
        0,
        0,
    );
    // Ten steps processed nounces 100..=109.
    assert_eq!(report.nounce_start, 100);
    assert_eq!(report.nounce_end, 110);
}

#[test]
fn classification_separates_the_failure_kinds() {
    let job = sixteen_step_job();
    match classify_job_outcome(ExchangeOutcome::Delivered(JobResponsePacket::Success(job))) {
        Ok(got) => assert_eq!(got.number, 1),
        Err(_) => panic!("a delivered job is a success"),
    }
    match classify_job_outcome(ExchangeOutcome::Delivered(JobResponsePacket::Error(
        String::from("no work"),
    ))) {
        Err(ProtocolError::Application(msg)) => assert_eq!(msg, "no work"),
        _ => panic!("a server rejection is an application error"),
    }
    assert!(matches!(
        classify_job_outcome(ExchangeOutcome::<JobResponsePacket>::TransportFailed),
        Err(ProtocolError::Transport)
    ));
    assert!(matches!(
        classify_job_outcome(ExchangeOutcome::<JobResponsePacket>::DecodeFailed),
        Err(ProtocolError::Decode)
    ));
}

#[test]
fn backoff_honors_a_stop_within_one_tick() {
    // A permanent job-request failure keeps the worker in the backoff
    // loop; a stop signal set mid-backoff is observed at the very next
    // tick.
    let stop_set_at = 137;
    let mut tick = 0;
    let exited_at = loop {
        let stop_requested = tick >= stop_set_at;
        match backoff_step(tick, stop_requested) {
            BackoffDecision::Exit => break tick,
            BackoffDecision::Sleep => tick += 1,
            BackoffDecision::Retry => panic!("the stop must be seen before the ceiling"),
        }
    };
    assert_eq!(exited_at, stop_set_at);
}

#[test]
fn backoff_without_a_stop_retries_after_the_ceiling() {
    let mut tick = 0;
    let mut sleeps = 0;
    loop {
        match backoff_step(tick, false) {
            BackoffDecision::Exit => panic!("no stop was requested"),
            BackoffDecision::Sleep => {
                sleeps += 1;
                tick += 1;
            }
            BackoffDecision::Retry => break,
        }
    }
    assert_eq!(sleeps, BACKOFF_TICKS);
}
