//! Mocks, driven by hand: what a poll asks for is done on the spot, and time passes by the
//! length of each sleep.

use io_mock::{
    Builder, Duration, ErrorKind, Event, Incoming, IoError, Mock, MockOutcome, MockOutcomeError,
    Step,
};
use std::io;
use std::sync::Arc;
use std::task::{Context, Wake, Waker};

const FIRST_WAIT: u64 = 1;
const SECOND_WAIT: u64 = 1;

struct Idle;

impl Wake for Idle {
    fn wake(self: Arc<Self>) {}
}

fn look(mock: &mut Mock) -> Incoming {
    let waker = Waker::from(Arc::new(Idle));
    mock.poll_action(&mut Context::from_waker(&waker))
}

/// Nobody else is there to wake a task that waits.
fn wait_for_ever() -> ! {
    loop {
        std::hint::spin_loop();
    }
}

/// A mock and the time that has passed.
struct Run {
    mock: Mock,
    millis: u64,
}

impl Run {
    fn of(mock: Mock) -> Run {
        Run { mock, millis: 0 }
    }

    fn now(&self) -> Duration {
        Duration::from_millis(self.millis)
    }

    fn sleep(&mut self, span: Duration) {
        self.millis += span.as_millis() as u64;
    }

    fn read(&mut self, room: usize) -> Result<Vec<u8>, IoError> {
        let mut event = Event::Begin;
        loop {
            let now = self.now();
            match self.mock.poll_read_at(event, room, now) {
                Step::Ready { result, .. } => return result,
                Step::Sleep(span) => {
                    self.sleep(span);
                    event = Event::Begin;
                }
                Step::Open => event = Event::Opening(look(&mut self.mock)),
                Step::Poll => event = Event::Incoming(look(&mut self.mock)),
                Step::Proceed => event = Event::Begin,
                Step::Panic(failure) => panic!("{failure:?}"),
                Step::AwaitWrite | Step::Pending => wait_for_ever(),
            }
        }
    }

    fn write(&mut self, src: &[u8]) -> Result<usize, IoError> {
        let mut event = Event::Begin;
        loop {
            let now = self.now();
            match self.mock.poll_write_at(event, src, now) {
                Step::Ready { result, .. } => return result,
                Step::Sleep(span) => {
                    self.sleep(span);
                    event = Event::Begin;
                }
                Step::Open => event = Event::Opening(look(&mut self.mock)),
                Step::Poll => event = Event::Incoming(look(&mut self.mock)),
                Step::Proceed => event = Event::Begin,
                Step::Panic(failure) => panic!("{failure:?}"),
                Step::AwaitWrite | Step::Pending => wait_for_ever(),
            }
        }
    }

    fn write_all(&mut self, mut src: &[u8]) -> Result<(), IoError> {
        while !src.is_empty() {
            let n = self.write(src)?;
            src = &src[n..];
        }
        Ok(())
    }

    fn read_exact(&mut self, n: usize) -> Result<Vec<u8>, IoError> {
        let mut data = Vec::new();
        while data.len() < n {
            data.extend(self.read(n - data.len())?);
        }
        Ok(data)
    }

    fn shutdown(&mut self) -> Result<(), IoError> {
        let mut event = Event::Begin;
        loop {
            let now = self.now();
            match self.mock.poll_shutdown_at(event, now) {
                Step::Ready { result, .. } => return result,
                Step::Sleep(span) => {
                    self.sleep(span);
                    event = Event::Begin;
                }
                Step::Open => event = Event::Opening(look(&mut self.mock)),
                Step::Poll => event = Event::Incoming(look(&mut self.mock)),
                Step::Proceed => event = Event::Begin,
                Step::Panic(failure) => panic!("{failure:?}"),
                Step::AwaitWrite | Step::Pending => wait_for_ever(),
            }
        }
    }

    fn end(mut self) {
        if let Err(failure) = self.mock.finish(false) {
            panic!("{failure:?}");
        }
    }
}

fn cruel() -> IoError {
    IoError::caused(ErrorKind::Other, io::Error::new(io::ErrorKind::Other, "cruel"))
}

#[test]
fn read() {
    let mut mock = Run::of(Builder::new().read(b"hello ").read(b"world!").build());

    assert_eq!(mock.read(256).expect("read 1"), b"hello ");
    assert_eq!(mock.read(256).expect("read 2"), b"world!");
    mock.end();
}

#[test]
fn read_zeroes() {
    let mut mock = Run::of(
        Builder::new()
            .read_zeroes(3)
            .read(b"hello")
            .read_zeroes(4)
            .build(),
    );

    assert_eq!(mock.read(256).expect("read 1"), b"\0\0\0");
    assert_eq!(mock.read(256).expect("read 2"), b"hello");
    assert_eq!(mock.read(256).expect("read 3"), b"\0\0\0\0");
    mock.end();
}

#[test]
fn read_eof1() {
    let mut mock = Run::of(Builder::new().read(b"hello ").eof().build());

    assert_eq!(mock.read(256).expect("read 1"), b"hello ");
    assert_eq!(mock.read(256).expect("read 2"), b"");
    mock.end();
}

#[test]
fn read_eof2() {
    let mut mock = Run::of(Builder::new().read(b"hello ").eof().write(b"qqq").build());

    assert_eq!(mock.read(256).expect("read 1"), b"hello ");
    assert_eq!(mock.read(256).expect("read 2"), b"");
    mock.write_all(b"qqq").expect("write 1");
    mock.end();
}

#[test]
fn stop_checking1() {
    let mut mock = Run::of(
        Builder::new()
            .read(b"hello ")
            .write(b"qqq")
            .stop_checking()
            .read(b"eee")
            .write(b"444")
            .build(),
    );

    assert_eq!(mock.read(256).expect("read 1"), b"hello ");
    mock.write_all(b"qqq").expect("write 1");
    mock.end();
}

#[test]
#[should_panic]
fn stop_checking2() {
    let mut mock = Run::of(
        Builder::new()
            .read(b"hello ")
            .write(b"qqq")
            .stop_checking()
            .read(b"eee")
            .write(b"444")
            .build(),
    );

    assert_eq!(mock.read(256).expect("read 1"), b"hello ");
    mock.write_all(b"qqw").expect("write 1");
    mock.end();
}

#[test]
#[should_panic]
fn stop_checking3() {
    let mut mock = Run::of(
        Builder::new()
            .read(b"hello ")
            .write(b"qqq")
            .stop_checking()
            .read(b"eee")
            .write(b"444")
            .build(),
    );

    mock.write_all(b"qqq").expect("write 1");
    mock.end();
}

#[test]
fn read_error() {
    let mut mock = Run::of(
        Builder::new()
            .read(b"hello ")
            .read_error(cruel())
            .read(b"world!")
            .build(),
    );

    assert_eq!(mock.read(256).expect("read 1"), b"hello ");

    match mock.read(256) {
        Err(error) => {
            assert_eq!(error.kind, ErrorKind::Other);
            let cause = error.cause.expect("cause");
            assert_eq!(cause.kind(), io::ErrorKind::Other);
            assert_eq!("cruel", format!("{cause}"));
        }
        Ok(_) => panic!("error not received"),
    }

    assert_eq!(mock.read(256).expect("read 1"), b"world!");
    mock.end();
}

#[test]
fn write() {
    let mut mock = Run::of(Builder::new().write(b"hello ").write(b"world!").build());

    mock.write_all(b"hello ").expect("write 1");
    mock.write_all(b"world!").expect("write 2");
    mock.end();
}

#[test]
fn write_zeroes1() {
    let mut mock = Run::of(
        Builder::new()
            .write_zeroes(4)
            .write(b"hello ")
            .write_zeroes(3)
            .write(b"world!")
            .write_zeroes(2)
            .build(),
    );

    mock.write_all(b"\0\0\0\0").expect("write 1");
    mock.write_all(b"hello ").expect("write 2");
    mock.write_all(b"\0\0\0").expect("write 3");
    mock.write_all(b"world!").expect("write 4");
    mock.write_all(b"\0\0").expect("write 5");
    mock.end();
}

#[test]
#[should_panic]
fn write_zeroes2() {
    let mut mock = Run::of(
        Builder::new()
            .write_zeroes(4)
            .write(b"hello ")
            .write_zeroes(3)
            .write(b"world!")
            .write_zeroes(2)
            .build(),
    );

    mock.write_all(b"\0\0\0\0").expect("write 1");
    mock.write_all(b"hello ").expect("write 2");
    mock.write_all(b"\0\x44\0").expect("write 3");
    mock.write_all(b"world!").expect("write 4");
    mock.write_all(b"\0\0").expect("write 5");
    mock.end();
}

#[test]
fn write_ignore() {
    let mut mock = Run::of(
        Builder::new()
            .write_zeroes(4)
            .write(b"hello ")
            .write_ignore(3)
            .write(b"world!")
            .write_zeroes(2)
            .build(),
    );

    mock.write_all(b"\0\0\0\0").expect("write 1");
    mock.write_all(b"hello ").expect("write 2");
    mock.write_all(b"\0\x44\0").expect("write 3");
    mock.write_all(b"world!").expect("write 4");
    mock.write_all(b"\0\0").expect("write 5");
    mock.end();
}

#[test]
fn write_with_handle() {
    let (mock, mut handle) = Builder::new().build_with_handle();
    let mut mock = Run::of(mock);
    handle.write(b"hello ").expect("connected");
    handle.write(b"world!").expect("connected");

    mock.write_all(b"hello ").expect("write 1");
    mock.write_all(b"world!").expect("write 2");
    mock.end();
}

#[test]
fn read_with_handle() {
    let (mock, mut handle) = Builder::new().build_with_handle();
    let mut mock = Run::of(mock);
    handle.read(b"hello ").expect("connected");
    handle.read(b"world!").expect("connected");

    assert_eq!(mock.read_exact(6).expect("read 1"), b"hello ");
    assert_eq!(mock.read_exact(6).expect("read 2"), b"world!");
    mock.end();
}

#[test]
fn write_error() {
    let mut mock = Run::of(
        Builder::new()
            .write(b"hello ")
            .write_error(cruel())
            .write(b"world!")
            .build(),
    );
    mock.write_all(b"hello ").expect("write 1");

    match mock.write_all(b"whoa") {
        Err(error) => {
            assert_eq!(error.kind, ErrorKind::Other);
            let cause = error.cause.expect("cause");
            assert_eq!(cause.kind(), io::ErrorKind::Other);
            assert_eq!("cruel", format!("{cause}"));
        }
        Ok(_) => panic!("error not received"),
    }

    mock.write_all(b"world!").expect("write 2");
    mock.end();
}

#[test]
#[should_panic]
fn mock_panics_read_data_left() {
    Run::of(Builder::new().read(b"read").build()).end();
}

#[test]
#[should_panic]
fn mock_panics_write_data_left() {
    Run::of(Builder::new().write(b"write").build()).end();
}

#[test]
fn wait() {
    let mut mock = Run::of(
        Builder::new()
            .wait(Duration::from_secs(FIRST_WAIT))
            .read(b"hello ")
            .read(b"world!")
            .build(),
    );

    assert_eq!(mock.read(256).expect("read 1"), b"hello ");
    println!("time elapsed after first read {}ms", mock.millis);

    assert_eq!(mock.read(256).expect("read 2"), b"world!");
    println!("time elapsed after second read {}ms", mock.millis);

    assert!(
        mock.millis >= 1000 * FIRST_WAIT,
        "consuming the whole mock only took {}ms",
        mock.millis
    );
    mock.end();
}

#[test]
fn multiple_wait() {
    let mut mock = Run::of(
        Builder::new()
            .wait(Duration::from_secs(FIRST_WAIT))
            .read(b"hello ")
            .wait(Duration::from_secs(SECOND_WAIT))
            .read(b"world!")
            .build(),
    );

    assert_eq!(mock.read(256).expect("read 1"), b"hello ");
    println!("time elapsed after first read {}ms", mock.millis);

    assert_eq!(mock.read(256).expect("read 2"), b"world!");
    println!("time elapsed after second read {}ms", mock.millis);

    assert!(
        mock.millis >= 1000 * (FIRST_WAIT + SECOND_WAIT),
        "consuming the whole mock only took {}ms",
        mock.millis
    );
    mock.end();
}

#[test]
fn mock_panicless_read_data_left() {
    let (m, _, mut p) = Builder::new().read(b"read").build_panicless();
    Run::of(m).end();
    assert_eq!(
        p.try_recv(),
        Ok(MockOutcome {
            outcome: Err(MockOutcomeError::RemainingUnreadData),
            total_read_bytes: 0,
            total_written_bytes: 0
        })
    );
}

#[test]
fn mock_panicless_read_data() {
    let (mock, _, mut p) = Builder::new().read(b"read").build_panicless();
    let mut mock = Run::of(mock);

    assert_eq!(mock.read(256).expect("read 1"), b"read");

    mock.end();
    assert_eq!(
        p.try_recv(),
        Ok(MockOutcome {
            outcome: Ok(()),
            total_read_bytes: 4,
            total_written_bytes: 0,
        })
    );
}

#[test]
fn write_panicless() {
    let (mock, _, mut p) = Builder::new()
        .write(b"hello ")
        .write(b"world!")
        .build_panicless();
    let mut mock = Run::of(mock);

    mock.write_all(b"hello ").expect("write 1");
    mock.write_all(b"world!").expect("write 2");
    mock.end();

    assert_eq!(
        p.try_recv(),
        Ok(MockOutcome {
            outcome: Ok(()),
            total_read_bytes: 0,
            total_written_bytes: 12,
        })
    );
}

#[test]
fn write_panicless_err() {
    let (mock, _, mut p) = Builder::new()
        .write(b"hello ")
        .write(b"world!")
        .build_panicless();
    let mut mock = Run::of(mock);

    mock.write_all(b"hello ").expect("write 1");
    mock.write_all(b"wor4d!").expect("write 2");
    mock.end();

    assert_eq!(
        p.try_recv(),
        Ok(MockOutcome {
            outcome: Err(MockOutcomeError::WrittenByteMismatch {
                expected: b'l',
                actual: b'4'
            }),
            total_read_bytes: 0,
            total_written_bytes: 9,
        })
    );
}

#[test]
fn write_panicless_err2() {
    let (mock, _, mut p) = Builder::new()
        .write(b"hello ")
        .write(b"world!")
        .build_panicless();
    let mut mock = Run::of(mock);

    mock.write_all(b"hello ").expect("write 1");
    mock.end();

    assert_eq!(
        p.try_recv(),
        Ok(MockOutcome {
            outcome: Err(MockOutcomeError::RemainingUnwrittenData),
            total_read_bytes: 0,
            total_written_bytes: 6,
        })
    );
}

#[test]
fn write_panicless_zero() {
    let (mock, _, mut p) = Builder::new()
        .write(b"hello ")
        .write_zeroes(3)
        .build_panicless();
    let mut mock = Run::of(mock);

    mock.write_all(b"hello \0\0\0").expect("write 1");
    mock.end();

    assert_eq!(
        p.try_recv(),
        Ok(MockOutcome {
            outcome: Ok(()),
            total_read_bytes: 0,
            total_written_bytes: 9,
        })
    );
}

#[test]
fn write_panicless_zero_err() {
    let (mock, _, mut p) = Builder::new()
        .write(b"hello ")
        .write_zeroes(3)
        .build_panicless();
    let mut mock = Run::of(mock);

    mock.write_all(b"hello \0\x05\0").expect("write 1");
    mock.end();

    assert_eq!(
        p.try_recv(),
        Ok(MockOutcome {
            outcome: Err(MockOutcomeError::WrittenByteMismatch {
                expected: 0,
                actual: 5
            }),
            total_read_bytes: 0,
            total_written_bytes: 7,
        })
    );
}

#[test]
fn write_panicless_err3() {
    let (mock, _, mut p) = Builder::new()
        .write(b"hello ")
        .write_ignore(3)
        .build_panicless();
    let mut mock = Run::of(mock);

    mock.write_all(b"hello \0\x05").expect("write 1");
    mock.end();

    assert_eq!(
        p.try_recv(),
        Ok(MockOutcome {
            outcome: Err(MockOutcomeError::RemainingUnwrittenData),
            total_read_bytes: 0,
            total_written_bytes: 8,
        })
    );
}

#[test]
fn write_panicless_unexpected() {
    let (mock, _, mut p) = Builder::new().build_panicless();
    let mut mock = Run::of(mock);

    mock.write_all(b"hello").expect_err("write 1");
    mock.end();

    assert_eq!(
        p.try_recv(),
        Ok(MockOutcome {
            outcome: Err(MockOutcomeError::UnexpectedWrite),
            total_read_bytes: 0,
            total_written_bytes: 0,
        })
    );
}

#[test]
fn write_panicless_unexpected_shutdown() {
    let (mock, _, mut p) = Builder::new()
        .write(b"qqq")
        .enable_shutdown_checking()
        .build_panicless();
    let mut mock = Run::of(mock);

    mock.shutdown().expect_err("shutdown");
    mock.end();

    assert_eq!(
        p.try_recv(),
        Ok(MockOutcome {
            outcome: Err(MockOutcomeError::ShutdownInsteadOfWrite),
            total_read_bytes: 0,
            total_written_bytes: 0,
        })
    );
}

#[test]
fn write_panicless_benign_shutdown() {
    let (mock, _, mut p) = Builder::new()
        .write(b"qqq")
        .enable_shutdown_checking()
        .build_panicless();
    let mut mock = Run::of(mock);

    mock.write_all(b"qqq").expect("shutdown");
    mock.shutdown().expect("shutdown");
    mock.end();

    assert_eq!(
        p.try_recv(),
        Ok(MockOutcome {
            outcome: Ok(()),
            total_read_bytes: 0,
            total_written_bytes: 3,
        })
    );
}

#[test]
fn write_panicless_benign_shutdown2() {
    let (mock, _, mut p) = Builder::new().enable_shutdown_checking().build_panicless();
    let mut mock = Run::of(mock);

    mock.shutdown().expect("shutdown");
    mock.end();

    assert_eq!(
        p.try_recv(),
        Ok(MockOutcome {
            outcome: Ok(()),
            total_read_bytes: 0,
            total_written_bytes: 0,
        })
    );
}

#[test]
fn write_panicless_benign_shutdown3() {
    let (mock, _, mut p) = Builder::new()
        .read(b"qqq")
        .enable_shutdown_checking()
        .build_panicless();
    let mut mock = Run::of(mock);

    assert_eq!(mock.read(256).expect("read 1"), b"qqq");

    mock.shutdown().expect("shutdown");
    mock.end();

    assert_eq!(
        p.try_recv(),
        Ok(MockOutcome {
            outcome: Ok(()),
            total_read_bytes: 3,
            total_written_bytes: 0,
        })
    );
}

#[test]
fn write_panicless_benign_shutdow4() {
    let (mock, _, mut p) = Builder::new()
        .write(b"qqq")
        .write_shutdown()
        .build_panicless();
    let mut mock = Run::of(mock);

    mock.write_all(b"qqq").expect("shutdown");
    mock.shutdown().expect("shutdown");
    mock.end();

    assert_eq!(
        p.try_recv(),
        Ok(MockOutcome {
            outcome: Ok(()),
            total_read_bytes: 0,
            total_written_bytes: 3,
        })
    );
}

#[test]
fn write_panicless_benign_shutdown5() {
    let (mock, _, mut p) = Builder::new().write_shutdown().build_panicless();
    let mut mock = Run::of(mock);

    mock.shutdown().expect("shutdown");
    mock.end();

    assert_eq!(
        p.try_recv(),
        Ok(MockOutcome {
            outcome: Ok(()),
            total_read_bytes: 0,
            total_written_bytes: 0,
        })
    );
}

#[test]
fn write_panicless_benign_shutdown6() {
    let (mock, _, mut p) = Builder::new()
        .read(b"qqq")
        .write_shutdown()
        .build_panicless();
    let mut mock = Run::of(mock);

    assert_eq!(mock.read(256).expect("read 1"), b"qqq");

    mock.shutdown().expect("shutdown");
    mock.end();

    assert_eq!(
        p.try_recv(),
        Ok(MockOutcome {
            outcome: Ok(()),
            total_read_bytes: 3,
            total_written_bytes: 0,
        })
    );
}

#[test]
fn write_panicless_benign_shutdown7() {
    let (mock, _, mut p) = Builder::new()
        .write_shutdown()
        .read(b"qqq")
        .build_panicless();
    let mut mock = Run::of(mock);

    mock.shutdown().expect("shutdown");

    assert_eq!(mock.read(256).expect("read 1"), b"qqq");

    mock.end();

    assert_eq!(
        p.try_recv(),
        Ok(MockOutcome {
            outcome: Ok(()),
            total_read_bytes: 3,
            total_written_bytes: 0,
        })
    );
}

#[test]
fn write_panicless_write_instead_of_shutdown() {
    let (mock, _, mut p) = Builder::new()
        .write(b"qqq")
        .write_shutdown()
        .build_panicless();
    let mut mock = Run::of(mock);

    mock.write_all(b"qqq").expect("write 1");
    mock.write_all(b"wwww").expect_err("write 2");

    mock.end();

    assert_eq!(
        p.try_recv(),
        Ok(MockOutcome {
            outcome: Err(MockOutcomeError::WriteInsteadOfShutdown),
            total_read_bytes: 0,
            total_written_bytes: 3,
        })
    );
}

#[test]
fn write_shutdown_read() {
    let mut mock = Run::of(
        Builder::new()
            .write(b"123")
            .write_shutdown()
            .read(b"qwe")
            .build(),
    );

    mock.write(b"123").expect("write 1");

    mock.shutdown().expect("shutdown");

    assert_eq!(mock.read(256).expect("read 1"), b"qwe");
    mock.end();
}

#[test]
#[should_panic]
fn write_shutdown_read_fail() {
    let mut mock = Run::of(
        Builder::new()
            .write(b"123")
            .write_shutdown()
            .read(b"qwe")
            .build(),
    );

    mock.write(b"123").expect("write 1");
    mock.read(256).expect_err("read 1");
    mock.end();
}
