use ping_store::bit_stream::StreamError;
use ping_store::ping_state::{BinaryPingState, GeneralPingState, PingState, TimeTaken};

#[test]
fn test_binary_ping_state() {
    let state = BinaryPingState(true);
    assert!(state.is_up());
    assert!(!state.is_down());
    assert!(state.is_tested());

    let state = BinaryPingState(false);
    assert!(!state.is_up());
    assert!(state.is_down());
    assert!(!state.is_tested());
}

#[test]
fn test_binary_ping_write() {
    let mut buf = [0u8; 4];
    let up = BinaryPingState(true);
    let down = BinaryPingState(false);

    for i in 0..4 {
        up.write_to(&mut buf, 2 * i).unwrap();
        down.write_to(&mut buf, 2 * i + 1).unwrap();
    }
    for i in 4..8 {
        down.write_to(&mut buf, 2 * i).unwrap();
        up.write_to(&mut buf, 2 * i + 1).unwrap();
    }
    for i in 16..24 {
        up.write_to(&mut buf, i).unwrap();
    }
    for i in 24..32 {
        down.write_to(&mut buf, i).unwrap();
    }

    assert_eq!(buf, [0b10101010, 0b01010101, 0b11111111, 0b00000000]);
}

#[test]
fn test_binary_ping_read() {
    let data = [0b10101010, 0b01010101, 0b11111111, 0b00000000];
    let mut expected_values = Vec::new();
    let up = BinaryPingState(true);
    let down = BinaryPingState(false);
    for _ in 0..4 {
        expected_values.push(up);
        expected_values.push(down);
    }
    for _ in 0..4 {
        expected_values.push(down);
        expected_values.push(up);
    }
    for _ in 0..8 {
        expected_values.push(up);
    }
    for _ in 0..8 {
        expected_values.push(down);
    }

    let mut actual_values = Vec::new();
    for i in 0..32 {
        actual_values.push(BinaryPingState::read_from(&data, i).unwrap());
    }

    assert_eq!(actual_values, expected_values);
}

#[test]
fn write_over_set_bits_clears_only_the_addressed_bit() {
    let mut buf = [0xFFu8; 2];
    BinaryPingState(false).write_to(&mut buf, 0).unwrap();
    assert_eq!(buf, [0x7F, 0xFF]);
    BinaryPingState(false).write_to(&mut buf, 7).unwrap();
    assert_eq!(buf, [0x7E, 0xFF]);
    BinaryPingState(false).write_to(&mut buf, 8).unwrap();
    assert_eq!(buf, [0x7E, 0x7F]);
    BinaryPingState(false).write_to(&mut buf, 15).unwrap();
    assert_eq!(buf, [0x7E, 0x7E]);
}

#[test]
fn written_state_is_read_back() {
    for offset in 0..24 {
        for value in [true, false] {
            for fill in [0x00u8, 0xFF, 0xA5] {
                let mut buf = [fill; 3];
                BinaryPingState(value).write_to(&mut buf, offset).unwrap();
                assert_eq!(
                    BinaryPingState::read_from(&buf, offset),
                    Ok(BinaryPingState(value))
                );
            }
        }
    }
}

#[test]
fn write_leaves_every_other_offset_as_it_was() {
    let before = [0x3Cu8, 0x96, 0xF0];
    for offset in 0..24 {
        for value in [true, false] {
            let mut buf = before;
            BinaryPingState(value).write_to(&mut buf, offset).unwrap();
            for other in 0..30 {
                if other != offset {
                    assert_eq!(
                        BinaryPingState::read_from(&buf, other),
                        BinaryPingState::read_from(&before, other)
                    );
                }
            }
        }
    }
}

#[test]
fn writing_twice_is_writing_once() {
    for offset in 0..16 {
        for value in [true, false] {
            let mut once = [0x5Au8, 0xC3];
            BinaryPingState(value).write_to(&mut once, offset).unwrap();
            let mut twice = once;
            BinaryPingState(value).write_to(&mut twice, offset).unwrap();
            assert_eq!(twice, once);
        }
    }
}

#[test]
fn packing_of_four_bytes() {
    let mut buf = [0u8; 4];
    let first = [true, false, true, false, true, false, true, false];
    let second = [false, true, false, true, false, true, false, true];
    for i in 0..8 {
        BinaryPingState(first[i]).write_to(&mut buf, i).unwrap();
        BinaryPingState(second[i]).write_to(&mut buf, 8 + i).unwrap();
        BinaryPingState(true).write_to(&mut buf, 16 + i).unwrap();
        BinaryPingState(false).write_to(&mut buf, 24 + i).unwrap();
    }
    assert_eq!(buf, [0xAA, 0x55, 0xFF, 0x00]);
}

#[test]
fn write_past_the_end_fails_and_changes_nothing() {
    let mut buf = [0x12u8, 0x34];
    assert_eq!(
        BinaryPingState(true).write_to(&mut buf, 16),
        Err(StreamError::UnexpectedEof)
    );
    assert_eq!(
        BinaryPingState(true).write_to(&mut buf, 1000),
        Err(StreamError::UnexpectedEof)
    );
    assert_eq!(buf, [0x12, 0x34]);
    assert_eq!(BinaryPingState(true).write_to(&mut buf, 15), Ok(()));
    assert_eq!(buf, [0x12, 0x35]);

    let mut empty: [u8; 0] = [];
    assert_eq!(
        BinaryPingState(false).write_to(&mut empty, 0),
        Err(StreamError::UnexpectedEof)
    );
}

#[test]
fn read_past_the_end_fails() {
    let data = [0xFFu8];
    assert_eq!(BinaryPingState::read_from(&data, 7), Ok(BinaryPingState(true)));
    assert_eq!(
        BinaryPingState::read_from(&data, 8),
        Err(StreamError::UnexpectedEof)
    );
    let empty: [u8; 0] = [];
    assert_eq!(
        BinaryPingState::read_from(&empty, 0),
        Err(StreamError::UnexpectedEof)
    );
}

#[test]
fn state_in_a_single_byte() {
    assert_eq!(BinaryPingState::from_byte(0x80, 0), BinaryPingState(true));
    assert_eq!(BinaryPingState::from_byte(0x80, 1), BinaryPingState(false));
    assert_eq!(BinaryPingState::from_byte(0x01, 7), BinaryPingState(true));
    assert_eq!(BinaryPingState::from_byte(0x01, 15), BinaryPingState(true));
    assert_eq!(BinaryPingState::from_byte(0x10, 27), BinaryPingState(true));
    assert_eq!(BinaryPingState(true).store_in_byte(0x00, 0), 0x80);
    assert_eq!(BinaryPingState(true).store_in_byte(0x00, 13), 0x04);
    assert_eq!(BinaryPingState(false).store_in_byte(0xFF, 13), 0xFB);
    assert_eq!(BinaryPingState(true).store_in_byte(0xFF, 13), 0xFF);
    assert_eq!(BinaryPingState(false).store_in_byte(0x00, 13), 0x00);
}

#[test]
fn binary_state_to_general_state() {
    let up = GeneralPingState::from(BinaryPingState(true));
    assert_eq!(
        up,
        GeneralPingState {
            is_up: true,
            is_tested: true,
            time_taken: TimeTaken { secs: u64::MAX, subsec_nanos: 999_999_999 },
        }
    );
    let down = GeneralPingState::from(BinaryPingState(false));
    assert!(!down.is_up);
    assert!(!down.is_tested);
    assert_eq!(down.time_taken, TimeTaken::max());
}

#[test]
fn general_state_to_binary_state() {
    let time_taken = TimeTaken::from_millis(12);
    let state = |is_up, is_tested| GeneralPingState { is_up, is_tested, time_taken };
    assert_eq!(BinaryPingState::from(state(true, true)), BinaryPingState(true));
    assert_eq!(BinaryPingState::from(state(false, true)), BinaryPingState(false));
    assert_eq!(BinaryPingState::from(state(false, false)), BinaryPingState(false));
    assert_eq!(BinaryPingState::from(state(true, false)), BinaryPingState(false));
}

#[test]
fn time_taken_values() {
    assert_eq!(
        TimeTaken::from_millis(250),
        TimeTaken { secs: 0, subsec_nanos: 250_000_000 }
    );
    assert_eq!(
        TimeTaken::from_millis(1_999),
        TimeTaken { secs: 1, subsec_nanos: 999_000_000 }
    );
    assert_eq!(TimeTaken::from_millis(0), TimeTaken { secs: 0, subsec_nanos: 0 });
    assert_eq!(
        TimeTaken::from_millis(u64::MAX),
        TimeTaken { secs: 18_446_744_073_709_551, subsec_nanos: 615_000_000 }
    );
    assert_eq!(
        TimeTaken::max(),
        TimeTaken { secs: u64::MAX, subsec_nanos: 999_999_999 }
    );
}

fn write_record<S: PingState>(state: &S, stream: &mut [u8], offset: usize) -> bool {
    state.write_to(stream, offset).is_ok()
}

fn read_record<S: PingState>(stream: &[u8], offset: usize) -> Option<S> {
    S::read_from(stream, offset).ok()
}

#[test]
fn binary_state_as_a_ping_state() {
    assert_eq!(<BinaryPingState as PingState>::bit_size(), 1);
    assert_eq!(BinaryPingState::bit_size(), 1);
    let up = BinaryPingState(true);
    assert!(PingState::is_up(&up));
    assert!(!PingState::is_down(&up));
    assert!(PingState::is_tested(&up));

    let mut stream = [0u8; 2];
    assert!(write_record(&up, &mut stream, 9));
    assert_eq!(stream, [0x00, 0x40]);
    assert!(!write_record(&up, &mut stream, 16));
    assert_eq!(stream, [0x00, 0x40]);
    assert_eq!(read_record::<BinaryPingState>(&stream, 9), Some(up));
    assert_eq!(
        read_record::<BinaryPingState>(&stream, 10),
        Some(BinaryPingState(false))
    );
    assert_eq!(read_record::<BinaryPingState>(&stream, 16), None);
}
