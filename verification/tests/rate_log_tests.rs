use hasher::log::{LogMessage, Logger};
use hasher::rate::HashRateHistory;

#[test]
fn empty_history_has_mean_zero() {
    let history = HashRateHistory::new();
    assert_eq!(history.get_hashrate(), 0);
}

#[test]
fn mean_is_the_arithmetic_mean() {
    let mut history = HashRateHistory::new();
    history.push_hashrate(2);
    history.push_hashrate(4);
    assert_eq!(history.get_hashrate(), 3);
    history.push_hashrate(4);
    // 10 / 3 rounded toward zero.
    assert_eq!(history.get_hashrate(), 3);
}

#[test]
fn history_retains_the_most_recent_hundred() {
    let mut history = HashRateHistory::new();
    for i in 0u64..101 {
        history.push_hashrate(i);
    }
    // The first sample (0) was evicted: the mean is over 1..=100.
    assert_eq!(history.get_hashrate(), (1..=100u64).sum::<u64>() / 100);
    let mut other = HashRateHistory::new();
    for _ in 0..101 {
        other.push_hashrate(7);
    }
    assert_eq!(other.get_hashrate(), 7);
}

#[test]
fn logger_keeps_messages_in_order() {
    let mut log = Logger::new();
    log.info("first");
    log.error("second");
    log.solution(&String::from("00ab"), &String::from("X1"), 9);
    assert_eq!(log.len(), 3);
    match log.pop() {
        LogMessage::Info(m) => assert_eq!(m, "first"),
        _ => panic!("expected the oldest message first"),
    }
    match log.pop() {
        LogMessage::Error(m) => assert_eq!(m, "second"),
        _ => panic!("expected the error next"),
    }
    match log.pop() {
        LogMessage::Solution { hash, nounce, leading_zero_bit_length } => {
            assert_eq!(hash, "00ab");
            assert_eq!(nounce, "X1");
            assert_eq!(leading_zero_bit_length, 9);
        }
        _ => panic!("expected the solution last"),
    }
}

#[test]
fn logger_drops_oldest_beyond_capacity() {
    let mut log = Logger::new();
    for i in 0..105 {
        log.info(&format!("message {}", i));
    }
    assert_eq!(log.len(), 100);
    match log.get().first() {
        Some(LogMessage::Info(m)) => assert_eq!(m, "message 5"),
        _ => panic!("expected the oldest retained message"),
    }
}
