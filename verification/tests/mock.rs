//! Mocks, one turn at a time.

use io_mock::{
    Action, Builder, Disconnected, Duration, ErrorKind, Event, Failure, Incoming, IoError, Mock,
    MockOutcome, MockOutcomeError, ScenarioError, Step,
};
use std::io;
use std::sync::Arc;
use std::task::{Context, Wake, Waker};

struct Idle;

impl Wake for Idle {
    fn wake(self: Arc<Self>) {}
}

fn look(mock: &mut Mock) -> Incoming {
    let waker = Waker::from(Arc::new(Idle));
    mock.poll_action(&mut Context::from_waker(&waker))
}

fn at(millis: u64) -> Duration {
    Duration::from_millis(millis)
}

/// A read that is answered at once.
fn read(mock: &mut Mock, room: usize) -> Result<Vec<u8>, IoError> {
    match mock.poll_read_at(Event::Begin, room, at(0)) {
        Step::Ready { result, .. } => result,
        step => panic!("{step:?}"),
    }
}

/// A write that is answered at once.
fn write(mock: &mut Mock, src: &[u8]) -> Result<usize, IoError> {
    match mock.poll_write_at(Event::Begin, src, at(0)) {
        Step::Ready { result, .. } => result,
        step => panic!("{step:?}"),
    }
}

/// A write that goes against the script.
fn bad_write(mock: &mut Mock, src: &[u8]) -> Failure {
    match mock.poll_write_at(Event::Begin, src, at(0)) {
        Step::Panic(failure) => failure,
        step => panic!("{step:?}"),
    }
}

/// A shutdown that is answered at once.
fn shutdown(mock: &mut Mock) -> Result<(), IoError> {
    match mock.poll_shutdown_at(Event::Begin, at(0)) {
        Step::Ready { result, .. } => result,
        step => panic!("{step:?}"),
    }
}

fn script_message(failure: Failure) -> String {
    match failure {
        Failure::Script { message } => message,
        failure => panic!("{failure:?}"),
    }
}

fn report(
    outcome: Result<(), MockOutcomeError>,
    total_read_bytes: u64,
    total_written_bytes: u64,
) -> MockOutcome {
    MockOutcome {
        outcome,
        total_read_bytes,
        total_written_bytes,
    }
}

//////////////////////////////////////////////////////////////////////////////
// Reading
//////////////////////////////////////////////////////////////////////////////

#[test]
fn reads_give_the_script_piece_by_piece() {
    let mut mock = Builder::new().read(b"hello").read_zeroes(3).read(b"!").build();
    let mut all = Vec::new();
    for room in [2, 2, 2, 2, 2, 2] {
        let data = read(&mut mock, room).unwrap();
        assert!(!data.is_empty() && data.len() <= room);
        all.extend(data);
    }
    assert_eq!(all, b"hello\0\0\0!");
    assert_eq!(mock.read_bytes(), 9);
    assert!(mock.finish(false).is_ok());
}

#[test]
fn a_read_stops_at_the_end_of_a_buffer() {
    let mut mock = Builder::new().read(b"a").read(b"b").build();
    assert_eq!(read(&mut mock, 10).unwrap(), b"a");
    assert_eq!(read(&mut mock, 10).unwrap(), b"b");
}

#[test]
fn zeroes_are_like_a_buffer_of_zeroes() {
    let mut counted = Builder::new().read_zeroes(5).write(b"x").build();
    let mut spelled = Builder::new().read(&[0; 5]).write(b"x").build();
    for room in [1, 3, 9] {
        assert_eq!(
            read(&mut counted, room).unwrap(),
            read(&mut spelled, room).unwrap()
        );
    }
    assert_eq!(write(&mut counted, b"x").unwrap(), 1);
    assert_eq!(write(&mut spelled, b"x").unwrap(), 1);
    assert!(counted.finish(false).is_ok());
    assert!(spelled.finish(false).is_ok());
}

#[test]
fn empty_actions_are_passed_over() {
    let mut mock = Builder::new()
        .read(b"")
        .read_zeroes(0)
        .write(b"")
        .write_zeroes(0)
        .write_ignore(0)
        .read(b"x")
        .build();
    assert_eq!(read(&mut mock, 10).unwrap(), b"x");
    assert!(mock.finish(false).is_ok());
}

#[test]
fn a_read_without_room_gives_nothing() {
    let mut mock = Builder::new().read(b"x").build();
    assert!(matches!(
        mock.poll_read_at(Event::Begin, 0, at(0)),
        Step::Poll
    ));
    assert_eq!(mock.read_bytes(), 0);
    assert_eq!(read(&mut mock, 1).unwrap(), b"x");
}

#[test]
fn a_read_at_the_end_is_the_end_of_the_file() {
    let mut mock = Builder::new().build();
    assert!(matches!(
        mock.poll_read_at(Event::Begin, 9, at(0)),
        Step::Poll
    ));
    assert!(matches!(look(&mut mock), Incoming::Closed));
    match mock.poll_read_at(Event::Incoming(Incoming::Closed), 9, at(0)) {
        Step::Ready { result, .. } => assert_eq!(result.unwrap(), b""),
        step => panic!("{step:?}"),
    }
}

#[test]
fn a_read_waits_for_the_handle() {
    let (mut mock, mut handle) = Builder::new().build_with_handle();
    assert!(matches!(
        mock.poll_read_at(Event::Begin, 9, at(0)),
        Step::Poll
    ));
    assert!(matches!(look(&mut mock), Incoming::Pending));
    assert!(matches!(
        mock.poll_read_at(Event::Incoming(Incoming::Pending), 9, at(0)),
        Step::Pending
    ));
    handle.read(b"now").unwrap();
    let incoming = look(&mut mock);
    assert!(matches!(&incoming, Incoming::Action(Action::Read(v)) if v == b"now"));
    assert!(matches!(
        mock.poll_read_at(Event::Incoming(incoming), 9, at(0)),
        Step::Proceed
    ));
    assert_eq!(read(&mut mock, 9).unwrap(), b"now");
}

#[test]
fn end_of_file_does_not_wait_for_the_handle() {
    let (mut mock, handle) = Builder::new().eof().read(b"more").build_with_handle();
    assert_eq!(read(&mut mock, 9).unwrap(), b"");
    assert_eq!(read(&mut mock, 9).unwrap(), b"more");
    drop(handle);
}

#[test]
fn a_reader_waits_for_the_writer() {
    let mut mock = Builder::new().write(b"ping").read(b"pong").build();
    assert!(matches!(
        mock.poll_read_at(Event::Begin, 9, at(0)),
        Step::AwaitWrite
    ));
    assert!(matches!(
        mock.poll_write_at(Event::Begin, b"pi", at(0)),
        Step::Ready {
            result: Ok(2),
            wake_reader: false
        }
    ));
    assert!(matches!(
        mock.poll_write_at(Event::Begin, b"ng", at(0)),
        Step::Ready {
            result: Ok(2),
            wake_reader: true
        }
    ));
    assert_eq!(read(&mut mock, 9).unwrap(), b"pong");
}

#[test]
fn a_reader_of_zeroes_or_the_end_is_woken() {
    for mut mock in [
        Builder::new().write(b"x").read_zeroes(1).build(),
        Builder::new().write(b"x").eof().build(),
        Builder::new().write(b"x").read_error(IoError::new(ErrorKind::Other)).build(),
        Builder::new().write(b"x").build(),
    ] {
        assert!(matches!(
            mock.poll_write_at(Event::Begin, b"x", at(0)),
            Step::Ready {
                result: Ok(1),
                wake_reader: true
            }
        ));
    }
}

#[test]
fn an_error_that_would_block_is_no_answer() {
    let mut mock = Builder::new()
        .read_error(IoError::new(ErrorKind::WouldBlock))
        .read(b"x")
        .build();
    assert!(matches!(
        mock.poll_read_at(Event::Begin, 9, at(0)),
        Step::AwaitWrite
    ));
    assert_eq!(read(&mut mock, 9).unwrap(), b"x");
}

//////////////////////////////////////////////////////////////////////////////
// Writing
//////////////////////////////////////////////////////////////////////////////

#[test]
fn one_write_for_several_actions() {
    let mut mock = Builder::new()
        .write(b"hello ")
        .read(b"in between")
        .write_zeroes(2)
        .write_ignore(3)
        .write(b"!")
        .build();
    assert_eq!(write(&mut mock, b"hello \0\0abc!").unwrap(), 12);
    assert_eq!(mock.written_bytes(), 12);
    assert_eq!(read(&mut mock, 99).unwrap(), b"in between");
    assert!(mock.finish(false).is_ok());
}

#[test]
fn a_write_goes_as_far_as_the_script() {
    let mut mock = Builder::new().write(b"abc").build();
    assert_eq!(write(&mut mock, b"abcdef").unwrap(), 3);
    assert!(mock.finish(false).is_ok());
}

#[test]
fn a_write_stops_before_a_wait_or_an_error() {
    let mut mock = Builder::new().write(b"abc").wait(at(5)).write(b"d").build();
    assert_eq!(write(&mut mock, b"abcd").unwrap(), 3);

    let mut mock = Builder::new()
        .write(b"abc")
        .write_error(IoError::new(ErrorKind::Other))
        .write(b"d")
        .build();
    assert_eq!(write(&mut mock, b"abcd").unwrap(), 3);
    assert_eq!(write(&mut mock, b"d").unwrap_err().kind, ErrorKind::Other);
    assert_eq!(write(&mut mock, b"d").unwrap(), 1);
}

#[test]
fn a_write_of_nothing_is_pending() {
    let mut mock = Builder::new().write(b"abc").build();
    assert!(matches!(
        mock.poll_write_at(Event::Begin, b"", at(0)),
        Step::Pending
    ));
}

#[test]
fn wrong_bytes_are_a_failure() {
    let mut mock = Builder::new()
        .name("n")
        .read(b"r")
        .write(b"abc")
        .write(b"def")
        .build();
    assert_eq!(read(&mut mock, 1).unwrap(), b"r");
    assert_eq!(write(&mut mock, b"a").unwrap(), 1);
    match bad_write(&mut mock, b"bx") {
        Failure::Bytes {
            expected,
            actual,
            message,
        } => {
            assert_eq!(expected, b"bc");
            assert_eq!(actual, b"bx");
            assert_eq!(message, "name=n r=1 w=1 remaining actions: 2");
        }
        failure => panic!("{failure:?}"),
    }
}

#[test]
fn bytes_before_the_wrong_action_are_counted() {
    let mut mock = Builder::new().write(b"ab").write(b"cd").build();
    match bad_write(&mut mock, b"abcx") {
        Failure::Bytes { message, .. } => {
            assert_eq!(message, "name= r=0 w=2 remaining actions: 1");
        }
        failure => panic!("{failure:?}"),
    }
}

#[test]
fn a_byte_that_is_not_zero_is_a_failure() {
    let mut mock = Builder::new().name("z").write_zeroes(4).build();
    match bad_write(&mut mock, b"\0\0\x07") {
        Failure::NonZero { byte, message } => {
            assert_eq!(byte, 7);
            assert_eq!(message, "byte_index=2 r=0 w=3 name=z remaining actions: 1");
        }
        failure => panic!("{failure:?}"),
    }
}

#[test]
fn an_unexpected_write_is_a_failure() {
    let mut mock = Builder::new().build();
    assert!(matches!(
        mock.poll_write_at(Event::Begin, b"x", at(0)),
        Step::Open
    ));
    match mock.poll_write_at(Event::Opening(Incoming::Closed), b"x", at(0)) {
        Step::Panic(failure) => assert_eq!(
            script_message(failure),
            "unexpected write (0 actions remain, 0 bytes was read, 0 bytes was written)"
        ),
        step => panic!("{step:?}"),
    }
}

#[test]
fn a_write_behind_the_script_is_a_failure() {
    let mut mock = Builder::new().name("e").read(b"").build();
    assert!(matches!(
        mock.poll_write_at(Event::Begin, b"x", at(0)),
        Step::Poll
    ));
    match mock.poll_write_at(Event::Incoming(Incoming::Closed), b"x", at(0)) {
        Step::Panic(failure) => assert_eq!(
            script_message(failure),
            "unexpected write (name e, 0 actions remain, 0 bytes was read, 0 bytes was written)"
        ),
        step => panic!("{step:?}"),
    }
}

#[test]
fn a_write_where_only_reads_are_left_is_a_failure() {
    let mut mock = Builder::new().read(b"x").read_zeroes(2).eof().build();
    assert!(matches!(
        mock.poll_write_at(Event::Begin, b"a", at(0)),
        Step::Poll
    ));
    match mock.poll_write_at(Event::Incoming(Incoming::Closed), b"a", at(0)) {
        Step::Panic(failure) => assert_eq!(
            script_message(failure),
            "unexpected write (3 actions remain, 0 bytes was read, 0 bytes was written)"
        ),
        step => panic!("{step:?}"),
    }

    let (mut mock, handle, mut outcome) = Builder::new().read(b"x").build_panicless();
    drop(handle);
    let waker = Waker::from(Arc::new(Idle));
    let mut context = Context::from_waker(&waker);
    match mock.poll_write(&mut context, b"a") {
        Step::Ready { result, .. } => {
            assert_eq!(result.unwrap_err().kind, ErrorKind::BrokenPipe);
        }
        step => panic!("{step:?}"),
    }
    assert_eq!(
        outcome.try_recv(),
        Ok(report(Err(MockOutcomeError::UnexpectedWrite), 0, 0))
    );
}

#[test]
fn a_write_waits_for_reads_if_it_is_empty_or_not_checked() {
    let mut mock = Builder::new().read(b"x").build();
    assert!(matches!(
        mock.poll_write_at(Event::Begin, b"", at(0)),
        Step::Pending
    ));
    let mut mock = Builder::new().stop_checking().read(b"x").build();
    assert!(matches!(
        mock.poll_write_at(Event::Begin, b"a", at(0)),
        Step::Pending
    ));
    assert_eq!(read(&mut mock, 9).unwrap(), b"x");
}

#[test]
fn a_write_waits_where_one_may_still_come() {
    for builder in [
        Builder::new().read(b"x").wait(at(1)),
        Builder::new().read(b"x").stop_checking(),
        Builder::new().read(b"x").write_error(IoError::new(ErrorKind::Other)),
    ] {
        let mut mock = builder.build();
        assert!(matches!(
            mock.poll_write_at(Event::Begin, b"a", at(0)),
            Step::Pending
        ));
    }

    let (mut mock, mut handle) = Builder::new().read(b"x").build_with_handle();
    let waker = Waker::from(Arc::new(Idle));
    let mut context = Context::from_waker(&waker);
    assert!(matches!(mock.poll_write(&mut context, b"a"), Step::Pending));
    handle.write(b"a").unwrap();
    assert!(matches!(mock.poll_write(&mut context, b"a"), Step::Proceed));
    assert_eq!(write(&mut mock, b"a").unwrap(), 1);
    assert_eq!(read(&mut mock, 9).unwrap(), b"x");
}

#[test]
fn a_write_while_the_handle_is_silent_fails() {
    let (mut mock, handle) = Builder::new().build_with_handle();
    assert!(matches!(
        mock.poll_write_at(Event::Begin, b"x", at(0)),
        Step::Open
    ));
    assert!(matches!(look(&mut mock), Incoming::Pending));
    match mock.poll_write_at(Event::Opening(Incoming::Pending), b"x", at(0)) {
        Step::Ready { result, .. } => {
            assert_eq!(result.unwrap_err().kind, ErrorKind::BrokenPipe);
        }
        step => panic!("{step:?}"),
    }
    drop(handle);
}

#[test]
fn a_write_waits_for_the_handle() {
    let (mut mock, mut handle) = Builder::new().read(b"").build_with_handle();
    assert!(matches!(
        mock.poll_write_at(Event::Begin, b"x", at(0)),
        Step::Poll
    ));
    assert!(matches!(
        mock.poll_write_at(Event::Incoming(Incoming::Pending), b"x", at(0)),
        Step::Pending
    ));
    handle.write(b"x").unwrap();
    let incoming = look(&mut mock);
    assert!(matches!(
        mock.poll_write_at(Event::Incoming(incoming), b"x", at(0)),
        Step::Proceed
    ));
    assert_eq!(write(&mut mock, b"x").unwrap(), 1);
}

#[test]
fn a_write_error_that_would_block_is_a_failure() {
    let mut mock = Builder::new()
        .write_error(IoError::new(ErrorKind::WouldBlock))
        .build();
    assert_eq!(
        script_message(bad_write(&mut mock, b"x")),
        "unexpected WouldBlock (0 actions remain, 0 bytes was read, 0 bytes was written)"
    );

    let (mut mock, _handle, mut outcome) = Builder::new()
        .write_error(IoError::new(ErrorKind::WouldBlock))
        .build_panicless();
    assert_eq!(
        write(&mut mock, b"x").unwrap_err().kind,
        ErrorKind::BrokenPipe
    );
    assert_eq!(
        outcome.try_recv(),
        Ok(report(Err(MockOutcomeError::Other), 0, 0))
    );
}

//////////////////////////////////////////////////////////////////////////////
// Waiting
//////////////////////////////////////////////////////////////////////////////

#[test]
fn a_wait_lasts_its_time() {
    let mut mock = Builder::new().wait(at(10)).read(b"x").build();
    for now in [100, 105, 109] {
        assert!(matches!(
            mock.poll_read_at(Event::Begin, 9, at(now)),
            Step::Sleep(span) if span.as_millis() == 10
        ));
        assert!(matches!(
            mock.poll_write_at(Event::Begin, b"x", at(now)),
            Step::Sleep(span) if span.as_millis() == 10
        ));
    }
    match mock.poll_read_at(Event::Begin, 9, at(110)) {
        Step::Ready { result, .. } => assert_eq!(result.unwrap(), b"x"),
        step => panic!("{step:?}"),
    }
}

#[test]
fn a_shutdown_waits_too() {
    let mut mock = Builder::new().wait(at(10)).write_shutdown().build();
    assert!(matches!(
        mock.poll_shutdown_at(Event::Begin, at(0)),
        Step::Sleep(span) if span.as_millis() == 10
    ));
    assert!(matches!(
        mock.poll_shutdown_at(Event::Begin, at(10)),
        Step::Ready { result: Ok(()), .. }
    ));
}

#[test]
fn a_wait_lasts_a_millisecond_at_least() {
    let mut mock = Builder::new().wait(at(0)).read(b"x").build();
    assert!(matches!(
        mock.poll_read_at(Event::Begin, 9, at(0)),
        Step::Sleep(span) if span.as_millis() == 1
    ));
}

#[test]
fn a_wait_of_no_time_holds_nothing_up() {
    let mut builder = Builder::new();
    builder.text_scenario("T0|R x|T0|W y").unwrap();
    let mut mock = builder.build();
    assert_eq!(read(&mut mock, 9).unwrap(), b"x");
    assert_eq!(write(&mut mock, b"y").unwrap(), 1);
    assert!(mock.finish(false).is_ok());
}

#[test]
fn the_clock_of_the_mock() {
    let mut mock = Builder::new()
        .wait(at(2))
        .read(b"x")
        .write(b"y")
        .write_shutdown()
        .build();
    let waker = Waker::from(Arc::new(Idle));
    let mut context = Context::from_waker(&waker);
    assert!(matches!(mock.poll_read(&mut context, 9), Step::Sleep(_)));
    let start = std::time::Instant::now();
    let data = loop {
        match mock.poll_read(&mut context, 9) {
            Step::Ready { result, .. } => break result.unwrap(),
            Step::Sleep(_) => {}
            step => panic!("{step:?}"),
        }
    };
    assert_eq!(data, b"x");
    assert!(start.elapsed() <= std::time::Duration::from_secs(10));
    let earlier = mock.now().as_nanos();
    assert!(earlier >= 2_000_000);
    assert!(mock.now().as_nanos() >= earlier);
    assert!(mock.now().nanos < 1_000_000_000);
    assert!(matches!(
        mock.poll_write(&mut context, b"y"),
        Step::Ready { result: Ok(1), .. }
    ));
    assert!(matches!(
        mock.poll_shutdown(&mut context),
        Step::Ready { result: Ok(()), .. }
    ));
}

#[test]
fn rounds_look_at_the_channel() {
    let waker = Waker::from(Arc::new(Idle));
    let mut context = Context::from_waker(&waker);
    let (mut mock, mut handle) = Builder::new().enable_shutdown_checking().build_with_handle();

    assert!(matches!(mock.poll_read(&mut context, 9), Step::Pending));
    handle.read(b"x").unwrap();
    assert!(matches!(mock.poll_read(&mut context, 9), Step::Proceed));
    assert!(matches!(
        mock.poll_read(&mut context, 9),
        Step::Ready { result: Ok(data), .. } if data == b"x"
    ));

    assert!(matches!(mock.poll_write(&mut context, b"y"), Step::Pending));
    handle.write(b"y").unwrap();
    assert!(matches!(mock.poll_write(&mut context, b"y"), Step::Ready { result: Ok(1), .. }));

    handle.write_shutdown().unwrap();
    assert!(matches!(
        mock.poll_shutdown(&mut context),
        Step::Ready { result: Ok(()), .. }
    ));

    drop(handle);
    assert!(matches!(
        mock.poll_read(&mut context, 9),
        Step::Ready { result: Ok(data), .. } if data.is_empty()
    ));
    assert!(matches!(mock.poll_write(&mut context, b"z"), Step::Panic(_)));
    assert!(matches!(
        mock.poll_shutdown(&mut context),
        Step::Ready { result: Ok(()), .. }
    ));
}

//////////////////////////////////////////////////////////////////////////////
// Shutting down
//////////////////////////////////////////////////////////////////////////////

#[test]
fn shutdowns_are_not_checked_by_default() {
    let mut mock = Builder::new().write(b"x").build();
    assert!(shutdown(&mut mock).is_ok());
    assert_eq!(write(&mut mock, b"x").unwrap(), 1);
    assert!(shutdown(&mut mock).is_ok());
}

#[test]
fn an_early_shutdown_is_a_failure() {
    let mut mock = Builder::new()
        .name("s")
        .read(b"r")
        .write(b"x")
        .write_shutdown()
        .build();
    match mock.poll_shutdown_at(Event::Begin, at(0)) {
        Step::Panic(failure) => assert_eq!(
            script_message(failure),
            "Unexpected shutdown (there are more pending write actions) name=s r=0 w=0 remaining actions: 2"
        ),
        step => panic!("{step:?}"),
    }
}

#[test]
fn a_write_instead_of_a_shutdown_is_a_failure() {
    let mut mock = Builder::new().name("s").write(b"x").write_shutdown().build();
    assert_eq!(
        script_message(bad_write(&mut mock, b"xy")),
        "unexpected write (a shutdown was expected) r=0 w=1 name=s remaining actions: 1"
    );
}

#[test]
fn a_shutdown_is_expected_behind_what_is_to_be_read() {
    let mut mock = Builder::new().read(b"r").write_shutdown().write(b"x").build();
    assert!(shutdown(&mut mock).is_ok());
    assert_eq!(read(&mut mock, 9).unwrap(), b"r");
    assert_eq!(write(&mut mock, b"x").unwrap(), 1);
}

#[test]
fn a_shutdown_may_be_left_out_at_the_end() {
    let mut mock = Builder::new().write(b"x").write_shutdown().build();
    assert_eq!(write(&mut mock, b"x").unwrap(), 1);
    assert!(mock.finish(false).is_ok());
}

#[test]
fn a_read_instead_of_a_shutdown_is_a_failure() {
    let mut builder = Builder::new();
    builder.name("s").write(b"123").write_shutdown().read(b"qwe");

    let mut mock = builder.build();
    assert_eq!(write(&mut mock, b"123").unwrap(), 3);
    match mock.poll_read_at(Event::Begin, 9, at(0)) {
        Step::Panic(failure) => assert_eq!(
            script_message(failure),
            "unexpected read (a shutdown was expected) r=0 w=3 name=s remaining actions: 2"
        ),
        step => panic!("{step:?}"),
    }

    let (mut mock, _handle, mut outcome) = builder.build_panicless();
    assert_eq!(write(&mut mock, b"123").unwrap(), 3);
    assert_eq!(
        read(&mut mock, 9).unwrap_err().kind,
        ErrorKind::InvalidData
    );
    assert_eq!(
        outcome.try_recv(),
        Ok(report(Err(MockOutcomeError::Other), 0, 3))
    );
    assert_eq!(read(&mut mock, 9).unwrap(), b"qwe");
    assert!(mock.finish(false).is_ok());
}

#[test]
fn a_read_waits_for_a_shutdown_that_is_not_checked() {
    let (mut mock, mut handle) = Builder::new().build_with_handle();
    handle.write_shutdown().unwrap();
    let incoming = look(&mut mock);
    mock.poll_read_at(Event::Incoming(incoming), 9, at(0));
    assert!(matches!(
        mock.poll_read_at(Event::Begin, 9, at(0)),
        Step::AwaitWrite
    ));

    let mut mock = Builder::new().stop_checking().write_shutdown().build();
    assert!(matches!(
        mock.poll_read_at(Event::Begin, 9, at(0)),
        Step::AwaitWrite
    ));
}

#[test]
fn a_write_behind_an_unread_buffer_stands_before_a_shutdown_until_the_read() {
    let mut mock = Builder::new().read(b"r").write(b"x").write_shutdown().build();
    assert_eq!(write(&mut mock, b"x").unwrap(), 1);
    match mock.poll_shutdown_at(Event::Begin, at(0)) {
        Step::Panic(failure) => assert_eq!(
            script_message(failure),
            "Unexpected shutdown (there are more pending write actions) name= r=0 w=1 remaining actions: 2"
        ),
        step => panic!("{step:?}"),
    }
    assert_eq!(read(&mut mock, 9).unwrap(), b"r");
    assert!(shutdown(&mut mock).is_ok());
}

#[test]
fn a_shutdown_behind_an_unread_buffer_stands_before_a_write_until_the_read() {
    let mut mock = Builder::new().read(b"r").write_shutdown().write(b"y").build();
    assert!(shutdown(&mut mock).is_ok());
    assert_eq!(
        script_message(bad_write(&mut mock, b"y")),
        "unexpected write (a shutdown was expected) r=0 w=0 name= remaining actions: 2"
    );
    assert_eq!(read(&mut mock, 9).unwrap(), b"r");
    assert_eq!(write(&mut mock, b"y").unwrap(), 1);
}

#[test]
fn a_shutdown_looks_at_the_channel() {
    let (mut mock, mut handle) = Builder::new().enable_shutdown_checking().build_with_handle();
    assert!(matches!(
        mock.poll_shutdown_at(Event::Begin, at(0)),
        Step::Open
    ));
    assert!(matches!(
        mock.poll_shutdown_at(Event::Opening(Incoming::Pending), at(0)),
        Step::Ready { result: Ok(()), .. }
    ));
    handle.write_shutdown().unwrap();
    let incoming = look(&mut mock);
    assert!(matches!(
        mock.poll_shutdown_at(Event::Opening(incoming), at(0)),
        Step::Ready { result: Ok(()), .. }
    ));
    handle.write(b"x").unwrap();
    let incoming = look(&mut mock);
    assert!(matches!(
        mock.poll_shutdown_at(Event::Opening(incoming), at(0)),
        Step::Panic(_)
    ));
}

#[test]
fn a_scenario_with_a_shutdown_has_shutdowns_checked() {
    let mut builder = Builder::new();
    builder.text_scenario("W x|D").unwrap();
    let mut mock = builder.build();
    assert!(matches!(
        mock.poll_shutdown_at(Event::Begin, at(0)),
        Step::Panic(_)
    ));
    assert_eq!(write(&mut mock, b"x").unwrap(), 1);
    assert!(shutdown(&mut mock).is_ok());

    let mut called = Builder::new().write(b"x").write_shutdown().build();
    assert!(matches!(
        called.poll_shutdown_at(Event::Begin, at(0)),
        Step::Panic(_)
    ));
}

//////////////////////////////////////////////////////////////////////////////
// The end of checking
//////////////////////////////////////////////////////////////////////////////

#[test]
fn reads_go_on_behind_the_end_of_checking() {
    let mut mock = Builder::new()
        .stop_checking()
        .read(b"still")
        .write(b"x")
        .build();
    assert_eq!(read(&mut mock, 9).unwrap(), b"still");
    assert_eq!(write(&mut mock, b"?").unwrap(), 1);
    assert!(mock.finish(false).is_ok());
}

#[test]
fn a_write_may_go_beyond_the_end_of_checking() {
    let mut mock = Builder::new()
        .write(b"ab")
        .stop_checking()
        .write(b"cd")
        .write_zeroes(1)
        .build();
    assert_eq!(write(&mut mock, b"abxyz").unwrap(), 5);
    assert!(mock.finish(false).is_ok());

    let mut mock = Builder::new().write(b"ab").stop_checking().write(b"cd").build();
    assert!(matches!(bad_write(&mut mock, b"axcd"), Failure::Bytes { .. }));
}

#[test]
fn the_end_of_checking_is_reached_by_a_read() {
    let mut builder = Builder::new();
    builder.read(b"a").stop_checking().write(b"zzz");

    let mut mock = builder.build();
    assert!(mock.finish(false).is_err());
    assert_eq!(read(&mut mock, 256).unwrap(), b"a");
    assert!(mock.finish(false).is_ok());

    let (mut mock, _handle, mut outcome) = builder.build_panicless();
    assert_eq!(read(&mut mock, 256).unwrap(), b"a");
    assert!(mock.finish(false).is_ok());
    assert_eq!(outcome.try_recv(), Ok(report(Ok(()), 1, 0)));

    let mut mock = Builder::new()
        .read(b"a")
        .wait(at(1))
        .stop_checking()
        .write(b"z")
        .build();
    assert_eq!(read(&mut mock, 256).unwrap(), b"a");
    assert!(mock.finish(false).is_err());
}

#[test]
fn nothing_is_objected_to_without_checks() {
    let mut mock = Builder::new()
        .stop_checking()
        .write(b"x")
        .write_shutdown()
        .build();
    assert!(shutdown(&mut mock).is_ok());
    let mut mock = Builder::new().stop_checking().write_shutdown().build();
    assert_eq!(
        write(&mut mock, b"x").unwrap_err().kind,
        ErrorKind::InvalidData
    );
    let mut mock = Builder::new().stop_checking().build();
    assert!(matches!(
        mock.poll_write_at(Event::Begin, b"x", at(0)),
        Step::Poll
    ));
    match mock.poll_write_at(Event::Incoming(Incoming::Closed), b"x", at(0)) {
        Step::Ready { result, .. } => {
            assert_eq!(result.unwrap_err().kind, ErrorKind::BrokenPipe);
        }
        step => panic!("{step:?}"),
    }
}

//////////////////////////////////////////////////////////////////////////////
// The end
//////////////////////////////////////////////////////////////////////////////

#[test]
fn what_may_not_be_left() {
    let state = "(1 actions remain, 0 bytes was read, 0 bytes was written)";
    for (builder, complaint) in [
        (Builder::new().read(b"x"), "There is still data left to read. "),
        (
            Builder::new().read_zeroes(1),
            "There is still data left to read. ",
        ),
        (
            Builder::new().eof(),
            "There is still a read EOF event that was not observed ",
        ),
        (
            Builder::new().write(b"x"),
            "There is still data left to write. ",
        ),
        (
            Builder::new().write_zeroes(1),
            "There is still data left to write. ",
        ),
        (
            Builder::new().write_ignore(1),
            "There is still data left to write (even though content is to be ignored). ",
        ),
    ] {
        let mut mock = builder.build();
        assert_eq!(
            script_message(mock.finish(false).unwrap_err()),
            format!("{complaint}{state}")
        );
        assert!(mock.finish(true).is_ok());
    }
}

#[test]
fn what_may_be_left() {
    let mut mock = Builder::new()
        .read_error(IoError::new(ErrorKind::Other))
        .write_error(IoError::new(ErrorKind::Other))
        .wait(at(1))
        .write_shutdown()
        .stop_checking()
        .build();
    assert!(mock.finish(false).is_ok());
}

#[test]
fn the_first_thing_left_is_named() {
    let mut mock = Builder::new().wait(at(1)).write(b"x").read(b"y").build();
    assert_eq!(
        script_message(mock.finish(false).unwrap_err()),
        "There is still data left to write. (3 actions remain, 0 bytes was read, 0 bytes was written)"
    );
}

#[test]
fn the_last_thing_left_is_reported() {
    let (mut mock, _handle, mut outcome) =
        Builder::new().read(b"y").write(b"x").eof().build_panicless();
    assert!(mock.finish(false).is_ok());
    assert_eq!(
        outcome.try_recv(),
        Ok(report(Err(MockOutcomeError::RemainingUnreadData), 0, 0))
    );
    let (mut mock, _handle, mut outcome) =
        Builder::new().read(b"y").write_ignore(1).build_panicless();
    assert!(mock.finish(true).is_ok());
    assert_eq!(
        outcome.try_recv(),
        Ok(report(Err(MockOutcomeError::RemainingUnwrittenData), 0, 0))
    );
}

#[test]
fn a_report_without_checks_is_a_success() {
    let (mut mock, _handle, mut outcome) =
        Builder::new().stop_checking().read(b"y").build_panicless();
    assert_eq!(read(&mut mock, 9).unwrap(), b"y");
    assert!(mock.finish(false).is_ok());
    assert_eq!(outcome.try_recv(), Ok(report(Ok(()), 1, 0)));
}

//////////////////////////////////////////////////////////////////////////////
// Reports
//////////////////////////////////////////////////////////////////////////////

#[test]
fn one_report_and_no_panic() {
    let (mut mock, _handle, mut outcome) = Builder::new()
        .write(b"abc")
        .write_zeroes(2)
        .write(b"d")
        .write_shutdown()
        .build_panicless();
    assert_eq!(write(&mut mock, b"xyz\x01\x01").unwrap(), 5);
    assert_eq!(
        outcome.try_recv(),
        Ok(report(
            Err(MockOutcomeError::WrittenByteMismatch {
                expected: b'a',
                actual: b'x'
            }),
            0,
            0
        ))
    );
    assert_eq!(write(&mut mock, b"?").unwrap(), 1);
    assert_eq!(
        write(&mut mock, b"!").unwrap_err().kind,
        ErrorKind::InvalidData
    );
    assert!(mock.finish(false).is_ok());
    assert_eq!(mock.written_bytes(), 6);
    assert!(outcome.try_recv().is_err());
}

#[test]
fn the_report_counts_what_came_before_the_wrong_byte() {
    let (mut mock, _handle, mut outcome) = Builder::new()
        .read(b"hey")
        .write_ignore(2)
        .write(b"abc")
        .build_panicless();
    assert_eq!(read(&mut mock, 9).unwrap(), b"hey");
    assert_eq!(write(&mut mock, b"??ab?").unwrap(), 5);
    assert_eq!(
        outcome.try_recv(),
        Ok(report(
            Err(MockOutcomeError::WrittenByteMismatch {
                expected: b'c',
                actual: b'?'
            }),
            3,
            4
        ))
    );
}

#[test]
fn a_report_that_nobody_waits_for() {
    let (mut mock, _handle, outcome) = Builder::new().write(b"a").build_panicless();
    drop(outcome);
    assert_eq!(write(&mut mock, b"b").unwrap(), 1);
    assert!(mock.finish(false).is_ok());
}

#[test]
fn reports_written_out() {
    assert_eq!(
        report(Ok(()), 12, 3).describe(),
        "success after reading 12 and writing 3 bytes"
    );
    assert_eq!(
        report(
            Err(MockOutcomeError::WrittenByteMismatch {
                expected: 0,
                actual: 255
            }),
            1,
            20
        )
        .describe(),
        "error (mismatching byte, expected 0, got 255) after reading 1 and writing 20 bytes"
    );
    for (error, message) in [
        (MockOutcomeError::UnexpectedWrite, "unexpected write"),
        (
            MockOutcomeError::WriteInsteadOfShutdown,
            "write where shutdown was expected",
        ),
        (
            MockOutcomeError::ShutdownInsteadOfWrite,
            "shutdown where a write was expected",
        ),
        (
            MockOutcomeError::RemainingUnreadData,
            "data remains to be read",
        ),
        (
            MockOutcomeError::RemainingUnwrittenData,
            "data remains to be written",
        ),
        (MockOutcomeError::Other, "other error"),
    ] {
        assert_eq!(error.describe(), message);
    }
}

#[test]
fn mocks_written_out() {
    let mock = Builder::new().read(b"x").build();
    assert_eq!(mock.debug_text(), "Inner {...}");
    assert_eq!(
        mock.pmsg(),
        "(1 actions remain, 0 bytes was read, 0 bytes was written)"
    );
    let mock = Builder::new().name(String::from("me")).build();
    assert_eq!(mock.debug_text(), "Inner {name=me, ...}");
    assert_eq!(
        mock.pmsg(),
        "(name me, 0 actions remain, 0 bytes was read, 0 bytes was written)"
    );
}

//////////////////////////////////////////////////////////////////////////////
// Builders and handles
//////////////////////////////////////////////////////////////////////////////

#[test]
fn a_builder_builds_more_than_once() {
    let cause = io::Error::new(io::ErrorKind::ConnectionReset, "gone");
    let mut builder = Builder::default();
    builder.read(b"x").read_error(IoError::caused(ErrorKind::Other, cause));
    let mut copy = builder.clone();
    copy.read(b"y");
    for (mut mock, more) in [
        (builder.build(), false),
        (builder.build(), false),
        (copy.build(), true),
    ] {
        assert_eq!(read(&mut mock, 9).unwrap(), b"x");
        let error = read(&mut mock, 9).unwrap_err();
        assert_eq!(error.cause.unwrap().to_string(), "gone");
        if more {
            assert_eq!(read(&mut mock, 9).unwrap(), b"y");
        }
        assert!(mock.finish(false).is_ok());
    }
}

#[test]
fn a_scenario_is_a_run_of_calls() {
    let mut spelled = Builder::new();
    spelled.text_scenario("N n|R ab|ZR2|X|W cd|ZW1|I2|EW|Q").unwrap();
    let mut called = Builder::new();
    called
        .name("n")
        .read(b"ab")
        .read_zeroes(2)
        .eof()
        .write(b"cd")
        .write_zeroes(1)
        .write_ignore(2)
        .write_error(IoError::new(ErrorKind::Other))
        .stop_checking();
    assert_eq!(format!("{spelled:?}"), format!("{called:?}"));
}

#[test]
fn a_handle_sends_every_action() {
    let (mut mock, mut handle) = Builder::new().build_with_handle();
    handle
        .read(b"a")
        .unwrap()
        .read_zeroes(1)
        .unwrap()
        .eof()
        .unwrap()
        .read_error(IoError::new(ErrorKind::Other))
        .unwrap()
        .write(b"b")
        .unwrap()
        .write_zeroes(2)
        .unwrap()
        .write_ignore(3)
        .unwrap()
        .write_error(IoError::new(ErrorKind::Other))
        .unwrap()
        .write_shutdown()
        .unwrap()
        .stop_checking()
        .unwrap()
        .text_scenario("N ignored|R c|T7")
        .unwrap();
    drop(handle);
    assert!(matches!(look(&mut mock), Incoming::Action(Action::Read(v)) if v == b"a"));
    assert!(matches!(look(&mut mock), Incoming::Action(Action::ReadZeroes(1))));
    assert!(matches!(look(&mut mock), Incoming::Action(Action::ReadEof(false))));
    assert!(matches!(look(&mut mock), Incoming::Action(Action::ReadError(Some(_)))));
    assert!(matches!(look(&mut mock), Incoming::Action(Action::Write(v)) if v == b"b"));
    assert!(matches!(look(&mut mock), Incoming::Action(Action::WriteZeroes(2))));
    assert!(matches!(look(&mut mock), Incoming::Action(Action::IgnoreWritten(3))));
    assert!(matches!(look(&mut mock), Incoming::Action(Action::WriteError(Some(_)))));
    assert!(matches!(look(&mut mock), Incoming::Action(Action::WriteShutdown(false))));
    assert!(matches!(look(&mut mock), Incoming::Action(Action::StopChecking)));
    assert!(matches!(look(&mut mock), Incoming::Action(Action::Read(v)) if v == b"c"));
    assert!(matches!(look(&mut mock), Incoming::Action(Action::Wait(t)) if t.as_millis() == 7));
    assert!(matches!(look(&mut mock), Incoming::Closed));
    assert!(matches!(look(&mut mock), Incoming::Closed));
    assert_eq!(mock.debug_text(), "Inner {...}");
}

#[test]
fn every_mock_has_its_own_channels() {
    let mut builder = Builder::new();
    builder.write(b"a");
    let (mut first, mut first_handle, mut first_outcome) = builder.build_panicless();
    let (mut second, _second_handle, mut second_outcome) = builder.build_panicless();
    first_handle.read(b"x").unwrap();
    assert!(matches!(look(&mut second), Incoming::Pending));
    assert!(matches!(look(&mut first), Incoming::Action(Action::Read(v)) if v == b"x"));
    assert_eq!(write(&mut second, b"a").unwrap(), 1);
    assert!(second.finish(false).is_ok());
    assert!(first_outcome.try_recv().is_err());
    assert_eq!(second_outcome.try_recv(), Ok(report(Ok(()), 0, 1)));
    assert!(first.finish(false).is_ok());
    assert_eq!(
        first_outcome.try_recv(),
        Ok(report(Err(MockOutcomeError::RemainingUnwrittenData), 0, 0))
    );
}

#[test]
fn a_handle_whose_mock_is_gone() {
    let (mock, mut handle) = Builder::new().build_with_handle();
    drop(mock);
    assert!(matches!(handle.read(b"x"), Err(Disconnected)));
    assert!(matches!(handle.eof(), Err(Disconnected)));
    assert!(matches!(
        handle.text_scenario("R x"),
        Err(ScenarioError::Disconnected)
    ));
    assert!(matches!(
        handle.text_scenario("?"),
        Err(ScenarioError::Parse(error)) if error.position == 0
    ));
    assert!(handle.text_scenario("").is_ok());
}

#[test]
fn spans_of_time() {
    assert_eq!(Duration::from_secs(2).as_nanos(), 2_000_000_000);
    assert_eq!(Duration::from_millis(1234).secs, 1);
    assert_eq!(Duration::from_millis(1234).nanos, 234_000_000);
    assert_eq!(Duration::from_millis(u64::MAX).as_millis(), u64::MAX as u128);
    assert_eq!(at(3).longer(at(2)).as_millis(), 3);
    assert_eq!(at(2).longer(at(3)).as_millis(), 3);
}
