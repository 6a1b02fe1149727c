use hasher::counter::{base36_upper, increment_byte_string, next};

#[test]
fn next_steps_through_the_alphabet() {
    assert_eq!(next(b'0'), b'1');
    assert_eq!(next(b'8'), b'9');
    assert_eq!(next(b'9'), b'A');
    assert_eq!(next(b'A'), b'B');
    assert_eq!(next(b'Y'), b'Z');
    assert_eq!(next(b'Z'), b'0');
}

#[test]
fn increment_advances_one_digit() {
    let mut buffer = b"0".to_vec();
    increment_byte_string(&mut buffer, 0);
    assert_eq!(buffer, b"1".to_vec());
}

#[test]
fn increment_carries_through_nine() {
    let mut buffer = b"9".to_vec();
    increment_byte_string(&mut buffer, 0);
    assert_eq!(buffer, b"A".to_vec());
}

#[test]
fn increment_never_touches_the_prefix() {
    let mut buffer = b"abcZ".to_vec();
    increment_byte_string(&mut buffer, 3);
    assert_eq!(buffer, b"abc01".to_vec());
}

#[test]
fn all_z_buffer_grows_by_one_byte() {
    let mut buffer = b"ZZZ".to_vec();
    increment_byte_string(&mut buffer, 0);
    assert_eq!(buffer, b"0001".to_vec());
    assert_eq!(buffer.len(), 4);
}

#[test]
fn repeated_increments_give_distinct_states() {
    // Fifty steps from a fixed start: every buffer state is distinct.
    let mut buffer = b"Y".to_vec();
    let mut seen = vec![buffer.clone()];
    for _ in 0..50 {
        increment_byte_string(&mut buffer, 0);
        assert!(!seen.contains(&buffer));
        seen.push(buffer.clone());
    }
}

#[test]
fn base36_renders_uppercase_most_significant_first() {
    assert_eq!(base36_upper(0), b"0".to_vec());
    assert_eq!(base36_upper(35), b"Z".to_vec());
    assert_eq!(base36_upper(36), b"10".to_vec());
    assert_eq!(base36_upper(12345678), b"7CLZI".to_vec());
}
