use terminal::protocol::{parse_count, step, LoopAction, LoopEvent, Mode, ProtocolError};

#[test]
fn parse_count_accepts_trimmed_digits() {
    assert_eq!(parse_count(b"3\n"), Some(3));
    assert_eq!(parse_count(b"0"), Some(0));
    assert_eq!(parse_count(b"  42 \r\n"), Some(42));
    assert_eq!(parse_count(b"007"), Some(7));
    assert_eq!(parse_count(b"18446744073709551615\n"), Some(u64::MAX));
}

#[test]
fn parse_count_rejects_non_numbers() {
    assert_eq!(parse_count(b"xyz\n"), None);
    assert_eq!(parse_count(b""), None);
    assert_eq!(parse_count(b"\n"), None);
    assert_eq!(parse_count(b"12a"), None);
    assert_eq!(parse_count(b"-3"), None);
    assert_eq!(parse_count(b"1 2"), None);
    assert_eq!(parse_count(b"18446744073709551616"), None);
}

#[test]
fn feed_then_print_then_clean_end() {
    // The stream `d\n3\nfoo` + `p\n` + end of input: three bytes are fed,
    // one snapshot is printed, and the loop closes cleanly.
    let mut prints = 0;
    let (m, a) = step(Mode::AwaitingCommand, &LoopEvent::LineRead(b"d\n".to_vec()));
    assert_eq!(m, Mode::AwaitingCount);
    assert_eq!(a, LoopAction::ReadLine);
    let (m, a) = step(m, &LoopEvent::LineRead(b"3\n".to_vec()));
    assert_eq!(m, Mode::AwaitingPayload(3));
    assert_eq!(a, LoopAction::ReadBytes(3));
    let (m, a) = step(m, &LoopEvent::BytesRead(b"foo".to_vec()));
    assert_eq!(m, Mode::AwaitingCommand);
    assert_eq!(a, LoopAction::Feed);
    let (m, a) = step(m, &LoopEvent::LineRead(b"p\n".to_vec()));
    assert_eq!(m, Mode::AwaitingCommand);
    assert_eq!(a, LoopAction::PrintSnapshot);
    if a == LoopAction::PrintSnapshot {
        prints += 1;
    }
    let (m, a) = step(m, &LoopEvent::EndOfInput);
    assert_eq!(m, Mode::Closed);
    assert_eq!(a, LoopAction::Stop);
    assert_eq!(prints, 1);
}

#[test]
fn non_numeric_count_is_fatal_with_no_output() {
    // The stream `d\nxyz\n`: the count line fails to parse, and the loop
    // aborts without ever producing a print action.
    let (m, a) = step(Mode::AwaitingCommand, &LoopEvent::LineRead(b"d\n".to_vec()));
    assert_eq!(m, Mode::AwaitingCount);
    assert_ne!(a, LoopAction::PrintSnapshot);
    assert_ne!(a, LoopAction::PrintCursor);
    let (m, a) = step(m, &LoopEvent::LineRead(b"xyz\n".to_vec()));
    assert_eq!(m, Mode::Failed(ProtocolError::BadCount));
    assert_eq!(a, LoopAction::Abort(ProtocolError::BadCount));
}

#[test]
fn cursor_command_asks_for_cursor_print() {
    let (m, a) = step(Mode::AwaitingCommand, &LoopEvent::LineRead(b"c\n".to_vec()));
    assert_eq!(m, Mode::AwaitingCommand);
    assert_eq!(a, LoopAction::PrintCursor);
}

#[test]
fn empty_line_is_fatal() {
    let (m, a) = step(Mode::AwaitingCommand, &LoopEvent::LineRead(Vec::new()));
    assert_eq!(m, Mode::Failed(ProtocolError::EmptyCommand));
    assert_eq!(a, LoopAction::Abort(ProtocolError::EmptyCommand));
}

#[test]
fn unknown_command_is_fatal() {
    let (m, a) = step(Mode::AwaitingCommand, &LoopEvent::LineRead(b"q\n".to_vec()));
    assert_eq!(m, Mode::Failed(ProtocolError::UnknownCommand));
    assert_eq!(a, LoopAction::Abort(ProtocolError::UnknownCommand));
    let (m2, _) = step(Mode::AwaitingCommand, &LoopEvent::LineRead(b" p\n".to_vec()));
    assert_eq!(m2, Mode::Failed(ProtocolError::UnknownCommand));
}

#[test]
fn end_of_input_mid_command_is_fatal() {
    let (m, a) = step(Mode::AwaitingCount, &LoopEvent::EndOfInput);
    assert_eq!(m, Mode::Failed(ProtocolError::TruncatedInput));
    assert_eq!(a, LoopAction::Abort(ProtocolError::TruncatedInput));
    let (m, a) = step(Mode::AwaitingPayload(5), &LoopEvent::EndOfInput);
    assert_eq!(m, Mode::Failed(ProtocolError::TruncatedInput));
    assert_eq!(a, LoopAction::Abort(ProtocolError::TruncatedInput));
}

#[test]
fn short_payload_read_is_fatal() {
    let (m, a) = step(Mode::AwaitingPayload(5), &LoopEvent::BytesRead(b"ab".to_vec()));
    assert_eq!(m, Mode::Failed(ProtocolError::TruncatedInput));
    assert_eq!(a, LoopAction::Abort(ProtocolError::TruncatedInput));
}

#[test]
fn empty_payload_feeds_nothing() {
    let (m, a) = step(Mode::AwaitingCount, &LoopEvent::LineRead(b"0\n".to_vec()));
    assert_eq!(m, Mode::AwaitingPayload(0));
    assert_eq!(a, LoopAction::ReadBytes(0));
    let (m, a) = step(m, &LoopEvent::BytesRead(Vec::new()));
    assert_eq!(m, Mode::AwaitingCommand);
    assert_eq!(a, LoopAction::Feed);
}
