use parsio::{write_all_step, ErrorKind, ReadError, Write, WriteAllStep, WriteError, WriteResult};

#[test]
fn vec_write_appends_everything() {
    let mut v: Vec<u8> = vec![1];
    assert_eq!(Write::write(&mut v, &[2, 3]).unwrap(), 2);
    Write::write_all(&mut v, &[4]).unwrap();
    Write::flush(&mut v).unwrap();
    assert_eq!(v, vec![1, 2, 3, 4]);
}

#[test]
fn vec_write_vectored_returns_total_length() {
    let mut v: Vec<u8> = Vec::new();
    let bufs: [&[u8]; 3] = [&[1, 2], &[], &[3, 4, 5]];
    assert_eq!(Write::write_vectored(&mut v, &bufs).unwrap(), 5);
    assert_eq!(v, vec![1, 2, 3, 4, 5]);
}

#[test]
fn slice_write_fills_front() {
    let mut storage = [0u8; 4];
    {
        let mut out: &mut [u8] = &mut storage;
        assert_eq!(out.write(&[1, 2]).unwrap(), 2);
        assert_eq!(out.len(), 2);
        assert_eq!(out.write(&[3, 4, 5]).unwrap(), 2);
        assert_eq!(out.len(), 0);
        assert_eq!(out.write(&[6]).unwrap(), 0);
        out.flush().unwrap();
    }
    assert_eq!(storage, [1, 2, 3, 4]);
}

#[test]
fn slice_write_all_fails_without_room() {
    let mut storage = [0u8; 3];
    {
        let mut out: &mut [u8] = &mut storage;
        out.write_all(&[1, 2]).unwrap();
        assert_eq!(
            out.write_all(&[3, 4]).unwrap_err(),
            WriteError::IoError(ErrorKind::WriteZero)
        );
        assert_eq!(out.len(), 0);
    }
    // What fitted was written nevertheless.
    assert_eq!(storage, [1, 2, 3]);
}

#[test]
fn slice_write_vectored_stops_when_full() {
    let mut storage = [0u8; 4];
    {
        let mut out: &mut [u8] = &mut storage;
        let bufs: [&[u8]; 3] = [&[1], &[2, 3, 4, 5], &[6]];
        assert_eq!(out.write_vectored(&bufs).unwrap(), 4);
        assert!(out.is_empty());
    }
    assert_eq!(storage, [1, 2, 3, 4]);
}

#[test]
fn reference_and_box_write_to_what_they_hold() {
    let mut v: Vec<u8> = Vec::new();
    {
        let mut r = &mut v;
        Write::write_all(&mut r, &[1, 2]).unwrap();
        assert_eq!(Write::write_vectored(&mut r, &[&[3][..]]).unwrap(), 1);
        Write::flush(&mut r).unwrap();
    }
    let mut b: Box<Vec<u8>> = Box::new(v);
    assert_eq!(Write::write(&mut b, &[4]).unwrap(), 1);
    Write::write_all(&mut b, &[5]).unwrap();
    assert_eq!(Write::write_vectored(&mut b, &[&[6][..], &[7][..]]).unwrap(), 2);
    Write::flush(&mut b).unwrap();
    assert_eq!(*b, vec![1, 2, 3, 4, 5, 6, 7]);
}

/// A writer that takes at most `step` bytes per call, after answering the
/// calls listed in `script` with the errors or counts given there.
struct Trickle {
    out: Vec<u8>,
    step: usize,
    script: Vec<Option<ErrorKind>>,
}

impl Write for Trickle {
    fn write(&mut self, buf: &[u8]) -> WriteResult<usize> {
        if !self.script.is_empty() {
            if let Some(kind) = self.script.remove(0) {
                return Err(WriteError::IoError(kind));
            }
        }
        let n = buf.len().min(self.step);
        self.out.extend_from_slice(&buf[..n]);
        Ok(n)
    }

    fn flush(&mut self) -> WriteResult<()> {
        Ok(())
    }

    fn write_vectored(&mut self, bufs: &[&[u8]]) -> WriteResult<usize> {
        match bufs.first() {
            Some(b) => self.write(b),
            None => Ok(0),
        }
    }
}

#[test]
fn write_all_loops_until_written() {
    let mut w = Trickle { out: Vec::new(), step: 2, script: Vec::new() };
    w.write_all(&[1, 2, 3, 4, 5]).unwrap();
    assert_eq!(w.out, vec![1, 2, 3, 4, 5]);
}

#[test]
fn write_all_retries_interrupted() {
    let mut w = Trickle {
        out: Vec::new(),
        step: 3,
        script: vec![Some(ErrorKind::Interrupted), None, Some(ErrorKind::Interrupted)],
    };
    w.write_all(&[1, 2, 3, 4, 5]).unwrap();
    assert_eq!(w.out, vec![1, 2, 3, 4, 5]);
}

#[test]
fn write_all_fails_on_zero_write() {
    let mut w = Trickle { out: Vec::new(), step: 0, script: Vec::new() };
    assert_eq!(
        w.write_all(&[1]).unwrap_err(),
        WriteError::IoError(ErrorKind::WriteZero)
    );
    // An empty buffer needs no call.
    w.write_all(&[]).unwrap();
}

#[test]
fn write_all_passes_other_errors_on() {
    let kind = match WriteError::from(std::io::ErrorKind::BrokenPipe) {
        WriteError::IoError(kind) => kind,
    };
    assert!(matches!(kind, ErrorKind::Io(o) if o.io_kind() == std::io::ErrorKind::BrokenPipe));
    let mut w = Trickle { out: Vec::new(), step: 1, script: vec![None, Some(kind)] };
    assert_eq!(w.write_all(&[1, 2, 3]).unwrap_err(), WriteError::IoError(kind));
    assert_eq!(w.out, vec![1]);
}

#[test]
fn errors_convert_from_kinds() {
    assert_eq!(
        ReadError::from(ErrorKind::UnexpectedEof),
        ReadError::IoError(ErrorKind::UnexpectedEof)
    );
    assert_eq!(
        WriteError::from(ErrorKind::Interrupted),
        WriteError::IoError(ErrorKind::Interrupted)
    );
    assert_eq!(
        ReadError::from(std::io::ErrorKind::UnexpectedEof),
        ReadError::IoError(ErrorKind::UnexpectedEof)
    );
    assert!(matches!(
        ReadError::from(std::io::ErrorKind::NotFound),
        ReadError::IoError(ErrorKind::Io(o)) if o.io_kind() == std::io::ErrorKind::NotFound
    ));
    assert_eq!(
        ReadError::from(std::io::ErrorKind::Interrupted),
        ReadError::IoError(ErrorKind::Interrupted)
    );
    assert_eq!(
        WriteError::from(std::io::ErrorKind::UnexpectedEof),
        WriteError::IoError(ErrorKind::UnexpectedEof)
    );
    assert_eq!(
        WriteError::from(std::io::ErrorKind::WriteZero),
        WriteError::IoError(ErrorKind::WriteZero)
    );
    assert_eq!(
        WriteError::from(std::io::Error::from(std::io::ErrorKind::Interrupted)),
        WriteError::IoError(ErrorKind::Interrupted)
    );
    assert!(matches!(
        ReadError::from(std::io::Error::other("boom")),
        ReadError::IoError(ErrorKind::Io(o)) if o.io_kind() == std::io::ErrorKind::Other
    ));
    assert_eq!(
        ReadError::from(std::io::Error::from(std::io::ErrorKind::UnexpectedEof)),
        ReadError::IoError(ErrorKind::UnexpectedEof)
    );
}

/// A writer that logs each buffer it is given and answers from a script.
struct Logged {
    calls: Vec<Vec<u8>>,
    answers: Vec<WriteResult<usize>>,
}

impl Write for Logged {
    fn write(&mut self, buf: &[u8]) -> WriteResult<usize> {
        self.calls.push(buf.to_vec());
        self.answers.remove(0)
    }

    fn flush(&mut self) -> WriteResult<()> {
        panic!("flush is not called by write_all")
    }

    fn write_vectored(&mut self, _bufs: &[&[u8]]) -> WriteResult<usize> {
        panic!("write_vectored is not called by write_all")
    }
}

#[test]
fn write_all_hands_out_what_is_left_and_retries_the_same() {
    let mut w = Logged {
        calls: Vec::new(),
        answers: vec![Ok(2), Err(WriteError::IoError(ErrorKind::Interrupted)), Ok(1)],
    };
    assert_eq!(w.write_all(&[1u8, 2, 3][..]), Ok(()));
    assert_eq!(w.calls, vec![vec![1, 2, 3], vec![3], vec![3]]);
}

#[test]
fn write_all_on_empty_buffer_makes_no_call() {
    let mut w = Logged { calls: Vec::new(), answers: Vec::new() };
    assert_eq!(w.write_all(&[]), Ok(()));
    assert!(w.calls.is_empty());
}

#[test]
fn write_all_step_decides_each_result() {
    assert_eq!(write_all_step(Ok(3), 5), WriteAllStep::Advance(3));
    assert_eq!(
        write_all_step(Ok(0), 5),
        WriteAllStep::Fail(WriteError::IoError(ErrorKind::WriteZero))
    );
    assert_eq!(
        write_all_step(Err(WriteError::IoError(ErrorKind::Interrupted)), 5),
        WriteAllStep::Retry
    );
    assert_eq!(
        write_all_step(Err(WriteError::IoError(ErrorKind::Interrupted)), 0),
        WriteAllStep::Fail(WriteError::IoError(ErrorKind::Interrupted))
    );
    assert_eq!(
        write_all_step(Err(WriteError::IoError(ErrorKind::UnexpectedEof)), 5),
        WriteAllStep::Fail(WriteError::IoError(ErrorKind::UnexpectedEof))
    );
}

#[test]
fn kinds_convert_back_to_std() {
    assert_eq!(ErrorKind::UnexpectedEof.to_io_kind(), std::io::ErrorKind::UnexpectedEof);
    assert_eq!(ErrorKind::WriteZero.to_io_kind(), std::io::ErrorKind::WriteZero);
    assert_eq!(ErrorKind::Interrupted.to_io_kind(), std::io::ErrorKind::Interrupted);
    for kind in [
        std::io::ErrorKind::NotFound,
        std::io::ErrorKind::UnexpectedEof,
        std::io::ErrorKind::WriteZero,
        std::io::ErrorKind::Interrupted,
        std::io::ErrorKind::BrokenPipe,
    ] {
        match ReadError::from(kind) {
            ReadError::IoError(k) => assert_eq!(k.to_io_kind(), kind),
            other => panic!("unexpected {:?}", other),
        }
        match WriteError::from(std::io::Error::from(kind)) {
            WriteError::IoError(k) => assert_eq!(k.to_io_kind(), kind),
        }
    }
}
