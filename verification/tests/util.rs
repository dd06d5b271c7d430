use ipc_bench::util::{
    is_pipe_closed, is_pipe_closed_code, pipe_connect_step, retry_step,
    transfer_overlapped_step, unique_name, wide_string, OverlappedStep, RetryStep,
};

#[test]
fn wide_string_is_utf16_with_terminator() {
    assert_eq!(wide_string(""), vec![0]);
    assert_eq!(wide_string("Local\\a"), "Local\\a".encode_utf16().chain([0]).collect::<Vec<_>>());
    assert_eq!(wide_string("é\u{1F600}"), vec![0xE9, 0xD83D, 0xDE00, 0]);
    assert_eq!(wide_string("\u{10FFFF}"), vec![0xDBFF, 0xDFFF, 0]);
}

#[test]
fn pipe_closed_codes() {
    assert!(is_pipe_closed_code(Some(109)));
    assert!(is_pipe_closed_code(Some(232)));
    assert!(is_pipe_closed_code(Some(233)));
    assert!(!is_pipe_closed_code(Some(2)));
    assert!(!is_pipe_closed_code(None));
}

#[test]
fn pipe_closed_errors() {
    assert!(is_pipe_closed(&std::io::Error::from_raw_os_error(109)));
    assert!(is_pipe_closed(&std::io::Error::from_raw_os_error(233)));
    assert!(!is_pipe_closed(&std::io::Error::from_raw_os_error(5)));
    assert!(!is_pipe_closed(&std::io::Error::other("no code")));
}

#[test]
fn unique_names_join_prefix_process_and_time() {
    assert_eq!(unique_name("ipc-bench", 4242, 1_700_000_000_123_456_789), "ipc-bench-4242-1700000000123456789");
    assert_eq!(unique_name("", 0, 0), "-0-0");
}

#[test]
fn retry_tries_while_attempts_are_left() {
    assert_eq!(retry_step(0, 200), RetryStep::Attempt);
    assert_eq!(retry_step(199, 200), RetryStep::Attempt);
    assert_eq!(retry_step(200, 200), RetryStep::GiveUp);
    assert_eq!(retry_step(0, 0), RetryStep::GiveUp);
}

#[test]
fn pipe_connect_steps() {
    assert_eq!(pipe_connect_step(true, None), OverlappedStep::Done);
    assert_eq!(pipe_connect_step(false, Some(535)), OverlappedStep::Done);
    assert_eq!(pipe_connect_step(false, Some(997)), OverlappedStep::WaitThenCollect);
    assert_eq!(pipe_connect_step(false, Some(5)), OverlappedStep::Fail);
    assert_eq!(pipe_connect_step(false, None), OverlappedStep::Fail);
}

#[test]
fn overlapped_transfer_steps() {
    assert_eq!(transfer_overlapped_step(true, None), OverlappedStep::Collect);
    assert_eq!(transfer_overlapped_step(true, Some(5)), OverlappedStep::Collect);
    assert_eq!(transfer_overlapped_step(false, Some(997)), OverlappedStep::WaitThenCollect);
    assert_eq!(transfer_overlapped_step(false, Some(535)), OverlappedStep::Fail);
    assert_eq!(transfer_overlapped_step(false, Some(109)), OverlappedStep::Fail);
    assert_eq!(transfer_overlapped_step(false, None), OverlappedStep::Fail);
}

#[test]
fn wide_string_decodes_back() {
    for text in ["", "ipc-bench", "Local\\a", "é\u{1F600}x", "\u{10FFFF}\u{FFFF}", "a\0b"] {
        let w = wide_string(text);
        assert_eq!(w.last(), Some(&0));
        assert_eq!(String::from_utf16(&w[..w.len() - 1]).unwrap(), text);
    }
    assert_eq!(wide_string("a\0b"), vec![0x61, 0, 0x62, 0]);
}
