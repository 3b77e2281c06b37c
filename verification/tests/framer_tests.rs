use ebers_core::framer::{
    elapsed_since, process_completed_dataset, process_serial_data_chunk, split_complete_lines,
    CompletionReason, SerialDataState, IDLE_GAP_MS,
};

#[test]
fn new_state_is_empty() {
    let state = SerialDataState::new();
    assert_eq!(state.csv_buffer(), "");
    assert_eq!(state.line_buffer(), "");
    assert_eq!(state.last_data_at(), None);
    assert_eq!(state.data_start_at(), None);
    assert!(!state.has_pending_data());
    assert!(!state.is_idle(0));
    assert!(!state.is_idle(u64::MAX));
    assert_eq!(state.get_collection_duration_ms(12345), 0);
    assert_eq!(IDLE_GAP_MS, 2000);
    assert_eq!(state.idle_gap_ms(), 2000);
}

#[test]
fn idle_exactly_from_two_seconds_of_silence() {
    let mut state = SerialDataState::new();
    state.append("1,2,3\n", 10_000);
    for gap in [0u64, 1, 500, 1999] {
        assert!(!state.is_idle(10_000 + gap), "gap {}", gap);
    }
    for gap in [2000u64, 2001, 5000, 1_000_000] {
        assert!(state.is_idle(10_000 + gap), "gap {}", gap);
    }
    assert!(!state.is_idle(9_000));
}

#[test]
fn empty_buffer_is_never_idle() {
    let mut state = SerialDataState::new();
    state.append("", 100);
    assert_eq!(state.last_data_at(), None);
    assert!(!state.is_idle(100_000));
    state.append("x", 100);
    state.flush();
    assert!(!state.is_idle(100_000));
}

#[test]
fn append_tracks_timing() {
    let mut state = SerialDataState::new();
    state.append("0,0.0,", 1000);
    assert_eq!(state.data_start_at(), Some(1000));
    assert_eq!(state.last_data_at(), Some(1000));
    state.append("1.2\n", 1500);
    assert_eq!(state.data_start_at(), Some(1000));
    assert_eq!(state.last_data_at(), Some(1500));
    assert_eq!(state.csv_buffer(), "0,0.0,1.2\n");
    assert_eq!(state.get_collection_duration_ms(1800), 800);
    assert_eq!(state.get_collection_duration_ms(900), 0);
    assert!(state.has_pending_data());
    state.append("", 9999);
    assert_eq!(state.last_data_at(), Some(1500));
    assert_eq!(state.csv_buffer(), "0,0.0,1.2\n");
}

#[test]
fn chunks_complete_lines_across_reads() {
    let mut state = SerialDataState::new();
    assert_eq!(
        process_serial_data_chunk(&mut state, "0,0.0", 1),
        Vec::<String>::new()
    );
    assert_eq!(state.line_buffer(), "0,0.0");
    assert_eq!(
        process_serial_data_chunk(&mut state, ",1.2\r\n1,0.1,1.3\nhalf", 2),
        vec!["0,0.0,1.2".to_string(), "1,0.1,1.3".to_string()]
    );
    assert_eq!(state.line_buffer(), "half");
    assert_eq!(
        process_serial_data_chunk(&mut state, "\n\n", 3),
        vec!["half".to_string(), "".to_string()]
    );
    assert_eq!(state.line_buffer(), "");
    assert_eq!(state.csv_buffer(), "0,0.0,1.2\r\n1,0.1,1.3\nhalf\n\n");
    assert_eq!(state.data_start_at(), Some(1));
    assert_eq!(state.last_data_at(), Some(3));
    assert_eq!(
        process_serial_data_chunk(&mut state, "", 9),
        Vec::<String>::new()
    );
    assert_eq!(state.last_data_at(), Some(3));
}

#[test]
fn line_buffer_is_apart_from_the_dataset() {
    let mut state = SerialDataState::new();
    assert_eq!(state.feed_lines("a\nb"), vec!["a".to_string()]);
    assert_eq!(state.line_buffer(), "b");
    assert_eq!(state.csv_buffer(), "");
    assert_eq!(state.last_data_at(), None);
    state.append("1,2,3\n", 5);
    assert_eq!(state.line_buffer(), "b");
    assert_eq!(state.feed_lines("c\r\n"), vec!["bc".to_string()]);
    assert_eq!(state.line_buffer(), "");
}

#[test]
fn lines_lose_one_carriage_return() {
    let (lines, rest) = split_complete_lines("a\r\nb\r\r\n\r\nc\rd\ne\r");
    assert_eq!(
        lines,
        vec![
            "a".to_string(),
            "b\r".to_string(),
            "".to_string(),
            "c\rd".to_string()
        ]
    );
    assert_eq!(rest, "e\r");
    let (lines, rest) = split_complete_lines("");
    assert!(lines.is_empty());
    assert_eq!(rest, "");
    let (lines, rest) = split_complete_lines("très bien\nπ");
    assert_eq!(lines, vec!["très bien".to_string()]);
    assert_eq!(rest, "π");
}

#[test]
fn flush_returns_and_clears() {
    let mut state = SerialDataState::new();
    process_serial_data_chunk(&mut state, "1,2,3\npart", 100);
    assert_eq!(state.flush(), "1,2,3\npart");
    assert_eq!(state.csv_buffer(), "");
    assert_eq!(state.last_data_at(), None);
    assert_eq!(state.data_start_at(), None);
    assert_eq!(state.line_buffer(), "part");
}

#[test]
fn flush_twice_gives_empty_both_times_after_the_first() {
    let mut state = SerialDataState::new();
    state.append("1,2,3\n", 100);
    assert_eq!(state.flush(), "1,2,3\n");
    assert_eq!(state.flush(), "");
    assert_eq!(state.csv_buffer(), "");
    assert_eq!(state.flush(), "");
    assert_eq!(state.csv_buffer(), "");
    assert_eq!(
        process_completed_dataset(&mut state, "COM3", 9600, CompletionReason::IdleTimeout, 5000),
        None
    );
}

#[test]
fn completed_dataset_carries_duration_and_reason() {
    let mut state = SerialDataState::new();
    state.append("1,2,3\n", 1000);
    state.append("4,5,6\n", 1400);
    let dataset =
        process_completed_dataset(&mut state, "COM7", 19200, CompletionReason::Disconnect, 1500)
            .unwrap();
    assert_eq!(dataset.csv_data, "1,2,3\n4,5,6\n");
    assert_eq!(dataset.port, "COM7");
    assert_eq!(dataset.baud_rate, 19200);
    assert_eq!(dataset.collection_duration_ms, 500);
    assert_eq!(dataset.reason, CompletionReason::Disconnect);
    assert_eq!(dataset.reason.as_str(), "on disconnect");
    assert_eq!(CompletionReason::IdleTimeout.as_str(), "(idle timeout)");
    assert!(!state.has_pending_data());
    assert_eq!(
        process_completed_dataset(&mut state, "COM7", 19200, CompletionReason::Disconnect, 1500),
        None
    );
}

#[test]
fn reset_timing_keeps_the_data() {
    let mut state = SerialDataState::new();
    state.append("1,2,3\n", 1000);
    state.reset_timing();
    assert_eq!(state.csv_buffer(), "1,2,3\n");
    assert_eq!(state.last_data_at(), None);
    assert_eq!(state.data_start_at(), None);
    assert!(!state.is_idle(1_000_000));
    assert_eq!(state.get_collection_duration_ms(5000), 0);
    state.append("4,5,6\n", 2000);
    assert_eq!(state.data_start_at(), Some(2000));
}

#[test]
fn clear_buffers_discards_the_dataset() {
    let mut state = SerialDataState::new();
    process_serial_data_chunk(&mut state, "1,2,3\nrest", 1000);
    state.clear_buffers();
    assert_eq!(state.csv_buffer(), "");
    assert_eq!(state.line_buffer(), "rest");
    assert_eq!(state.last_data_at(), None);
    assert_eq!(state.data_start_at(), None);
}

#[test]
fn elapsed_never_goes_negative() {
    assert_eq!(elapsed_since(10, 25), 15);
    assert_eq!(elapsed_since(25, 10), 0);
    assert_eq!(elapsed_since(0, u64::MAX), u64::MAX);
    assert_eq!(elapsed_since(7, 7), 0);
}

#[test]
fn idle_gap_stays_two_seconds() {
    let mut state = SerialDataState::new();
    process_serial_data_chunk(&mut state, "1,2,3\nrest", 10);
    assert_eq!(state.idle_gap_ms(), 2000);
    state.reset_timing();
    state.flush();
    state.clear_buffers();
    assert_eq!(state.idle_gap_ms(), 2000);
}

#[test]
fn pending_line_never_holds_a_newline() {
    let mut state = SerialDataState::new();
    for chunk in ["a", "\n", "b\nc", "", "\n\n", "d\r", "\ne"] {
        process_serial_data_chunk(&mut state, chunk, 1);
        assert!(!state.line_buffer().contains('\n'), "after {:?}", chunk);
    }
    assert_eq!(state.line_buffer(), "e");
}
