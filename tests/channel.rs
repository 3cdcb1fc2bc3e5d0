use ptyterm::channel::{
    read_event, response_of, CommandChannel, ReadError, ReadEvent, Step, SubmitError,
};

fn data(s: &str) -> ReadEvent {
    ReadEvent::Data(s.as_bytes().to_vec())
}

#[test]
fn begin_gives_line_and_newline() {
    let mut ch = CommandChannel::new();
    assert!(!ch.is_waiting());
    assert_eq!(ch.begin("ls"), Ok("ls\n".to_string()));
    assert!(ch.is_waiting());
}

#[test]
fn second_begin_while_waiting_is_busy() {
    let mut ch = CommandChannel::new();
    ch.begin("ls").unwrap();
    assert_eq!(ch.begin("pwd"), Err(SubmitError::Busy));
    assert!(ch.is_waiting());
}

#[test]
fn echo_then_output_completes_with_output() {
    let mut ch = CommandChannel::new();
    ch.begin("echo hi").unwrap();
    assert_eq!(ch.on_read(data("echo hi\r\n")), Step::Continue);
    let step = ch.on_read(data("hi\r\n"));
    assert_eq!(step, Step::Finished(Ok("hi".to_string())));
    if let Step::Finished(Ok(s)) = step {
        assert!(!s.contains("echo hi"));
    }
    assert!(!ch.is_waiting());
}

#[test]
fn polls_without_data_do_not_complete() {
    let mut ch = CommandChannel::new();
    ch.begin("echo hi").unwrap();
    for _ in 0..1000 {
        assert_eq!(ch.on_read(ReadEvent::WouldBlock), Step::Continue);
        assert!(ch.is_waiting());
    }
    assert_eq!(ch.on_read(data("echo hi\r\nhi\r\n")), Step::Finished(Ok("hi".to_string())));
}

#[test]
fn child_exit_without_output_ends_the_command() {
    let mut ch = CommandChannel::new();
    ch.begin("exit").unwrap();
    assert_eq!(ch.on_read(ReadEvent::EndOfStream), Step::Finished(Err(SubmitError::ChildExited)));
    assert!(!ch.is_waiting());
}

#[test]
fn child_exit_after_echo_ends_the_command() {
    let mut ch = CommandChannel::new();
    ch.begin("exit").unwrap();
    assert_eq!(ch.on_read(data("exit\r\n")), Step::Continue);
    assert_eq!(ch.on_read(read_event(Ok(vec![]))), Step::Finished(Err(SubmitError::ChildExited)));
}

#[test]
fn listing_scenario() {
    let mut ch = CommandChannel::new();
    assert_eq!(ch.begin("ls"), Ok("ls\n".to_string()));
    match ch.on_read(data("ls\nfile1.txt\nfile2.txt\n$ ")) {
        Step::Finished(Ok(s)) => {
            assert!(s.contains("file1.txt"));
            assert!(s.contains("file2.txt"));
            assert!(!s.contains("ls"));
            assert_eq!(s, "file1.txt\nfile2.txt\n$");
        }
        other => panic!("unexpected step {:?}", other),
    }
}

#[test]
fn colour_in_output_is_cleaned() {
    let mut ch = CommandChannel::new();
    ch.begin("ls").unwrap();
    let step = ch.on_read(data("ls\r\n\x1b[32mfile1.txt\x1b[0m\r\nbash-3.2$ "));
    assert_eq!(step, Step::Finished(Ok("file1.txt".to_string())));
}

#[test]
fn output_split_across_reads_is_joined() {
    let mut ch = CommandChannel::new();
    ch.begin("echo abc").unwrap();
    assert_eq!(ch.on_read(data("echo abc\r\n")), Step::Continue);
    assert_eq!(ch.on_read(data("ab")), Step::Finished(Ok("ab".to_string())));
}

#[test]
fn invalid_utf8_is_replaced() {
    let mut ch = CommandChannel::new();
    ch.begin("cat").unwrap();
    let step = ch.on_read(ReadEvent::Data(b"cat\r\nh\xffi".to_vec()));
    assert_eq!(step, Step::Finished(Ok("h\u{fffd}i".to_string())));
}

#[test]
fn multibyte_text_is_decoded() {
    let mut ch = CommandChannel::new();
    ch.begin("echo é").unwrap();
    let step = ch.on_read(data("echo é\r\nété\r\n"));
    assert_eq!(step, Step::Finished(Ok("été".to_string())));
}

#[test]
fn failure_and_timeout_end_the_command() {
    let mut ch = CommandChannel::new();
    ch.begin("ls").unwrap();
    assert_eq!(ch.on_read(ReadEvent::Failed), Step::Finished(Err(SubmitError::Io)));
    ch.begin("ls").unwrap();
    assert_eq!(ch.on_read(ReadEvent::TimedOut), Step::Finished(Err(SubmitError::TimedOut)));
    assert!(!ch.is_waiting());
}

#[test]
fn response_waits_while_only_the_echo_is_there() {
    assert_eq!(response_of("echo hi\r\n", "echo hi"), None);
    assert_eq!(response_of("x echo hi \r\n echo hi", "echo hi"), None);
}

#[test]
fn blank_text_without_echo_is_a_complete_empty_response() {
    assert_eq!(response_of("", "echo hi"), Some(String::new()));
    let mut ch = CommandChannel::new();
    ch.begin("true").unwrap();
    assert_eq!(ch.on_read(data("\r\n")), Step::Finished(Ok(String::new())));
}

#[test]
fn response_after_the_first_echo() {
    assert_eq!(response_of("echo echo hi\r\necho hi\r\n", "echo echo hi"), Some("echo hi".to_string()));
    assert_eq!(response_of("x\nls\nls\n", "ls"), None);
}

#[test]
fn response_without_echo_is_the_trimmed_text() {
    assert_eq!(response_of("  out \n", "cmd"), Some("out".to_string()));
}

#[test]
fn empty_line_completes_on_any_output() {
    assert_eq!(response_of("\r\n$ ", ""), Some("$".to_string()));
}

#[test]
fn read_results_map_to_events() {
    assert_eq!(read_event(Ok(vec![104, 105])), ReadEvent::Data(vec![104, 105]));
    assert_eq!(read_event(Ok(vec![])), ReadEvent::EndOfStream);
    assert_eq!(read_event(Err(ReadError::WouldBlock)), ReadEvent::WouldBlock);
    assert_eq!(read_event(Err(ReadError::Interrupted)), ReadEvent::WouldBlock);
    assert_eq!(read_event(Err(ReadError::HungUp)), ReadEvent::EndOfStream);
    assert_eq!(read_event(Err(ReadError::Other)), ReadEvent::Failed);
}
