use starry::errno::SysError;
use starry::pipe::{Pipe, PipeRead, PipeRingBuffer, PipeWrite, PollState, RING_BUFFER_SIZE};

#[test]
fn ring_buffer_starts_empty() {
    let rb = PipeRingBuffer::new();
    assert_eq!(rb.available_read(), 0);
    assert_eq!(rb.available_write(), RING_BUFFER_SIZE);
}

#[test]
fn ring_buffer_is_fifo() {
    let mut rb = PipeRingBuffer::new();
    for b in [1u8, 2, 3] {
        rb.write_byte(b);
    }
    assert_eq!(rb.available_read(), 3);
    assert_eq!(rb.read_byte(), 1);
    assert_eq!(rb.read_byte(), 2);
    assert_eq!(rb.read_byte(), 3);
    assert_eq!(rb.available_read(), 0);
}

#[test]
fn ring_buffer_full_and_wraps() {
    let mut rb = PipeRingBuffer::new();
    for i in 0..RING_BUFFER_SIZE {
        rb.write_byte(i as u8);
    }
    assert_eq!(rb.available_read(), RING_BUFFER_SIZE);
    assert_eq!(rb.available_write(), 0);
    for i in 0..10 {
        assert_eq!(rb.read_byte(), i as u8);
    }
    for i in 0..10 {
        rb.write_byte(200 + i as u8);
    }
    assert_eq!(rb.available_write(), 0);
    for i in 10..RING_BUFFER_SIZE {
        assert_eq!(rb.read_byte(), i as u8);
    }
    for i in 0..10 {
        assert_eq!(rb.read_byte(), 200 + i as u8);
    }
    assert_eq!(rb.available_read(), 0);
    assert_eq!(rb.available_write(), RING_BUFFER_SIZE);
}

#[test]
fn read_and_write_counts_add_up() {
    let mut rb = PipeRingBuffer::new();
    for n in 0..RING_BUFFER_SIZE {
        assert_eq!(rb.available_read() + rb.available_write(), RING_BUFFER_SIZE);
        assert_eq!(rb.available_read(), n);
        rb.write_byte(7);
    }
}

#[test]
fn pipe_ends() {
    let (r, w) = Pipe::new();
    assert!(r.readable() && !r.writable());
    assert!(w.writable() && !w.readable());
}

#[test]
fn write_then_read_gives_the_bytes_back() {
    let (r, w) = Pipe::new();
    let mut rb = PipeRingBuffer::new();
    let data = b"hello pipe";
    assert_eq!(w.write_check(data.len(), false), None);
    assert_eq!(w.write_step(&mut rb, data, 0, false), PipeWrite::Done(data.len()));
    match r.read_step(&mut rb, 64, false) {
        PipeRead::Ready(Ok(bytes)) => assert_eq!(bytes, data.to_vec()),
        other => panic!("unexpected {:?}", other),
    }
    assert_eq!(rb.available_read(), 0);
}

#[test]
fn read_takes_at_most_the_request() {
    let (r, w) = Pipe::new();
    let mut rb = PipeRingBuffer::new();
    assert_eq!(w.write_step(&mut rb, b"abcdef", 0, false), PipeWrite::Done(6));
    assert_eq!(r.read_step(&mut rb, 4, false), PipeRead::Ready(Ok(b"abcd".to_vec())));
    assert_eq!(r.read_step(&mut rb, 4, false), PipeRead::Ready(Ok(b"ef".to_vec())));
}

#[test]
fn read_end_refuses_to_write_and_write_end_to_read() {
    let (r, w) = Pipe::new();
    let mut rb = PipeRingBuffer::new();
    assert_eq!(r.write_check(3, false), Some(Err(SysError::EPERM)));
    assert_eq!(w.read_step(&mut rb, 3, false), PipeRead::Ready(Err(SysError::EPERM)));
}

#[test]
fn write_to_closed_pipe_is_epipe() {
    let (_, w) = Pipe::new();
    assert_eq!(w.write_check(3, true), Some(Err(SysError::EPIPE)));
    assert_eq!(w.write_check(0, false), Some(Ok(0)));
}

#[test]
fn empty_read_blocks_until_closed() {
    let (r, _) = Pipe::new();
    let mut rb = PipeRingBuffer::new();
    assert_eq!(r.read_step(&mut rb, 0, false), PipeRead::Ready(Ok(Vec::new())));
    assert_eq!(r.read_step(&mut rb, 5, false), PipeRead::Blocked);
    assert_eq!(r.read_step(&mut rb, 5, true), PipeRead::Ready(Ok(Vec::new())));
}

#[test]
fn write_larger_than_buffer_goes_on_in_steps() {
    let (r, w) = Pipe::new();
    let mut rb = PipeRingBuffer::new();
    let data: Vec<u8> = (0..300u32).map(|i| i as u8).collect();
    assert_eq!(w.write_step(&mut rb, &data, 0, false), PipeWrite::Again(256));
    assert_eq!(w.write_step(&mut rb, &data, 256, false), PipeWrite::Blocked(256));
    assert_eq!(w.write_step(&mut rb, &data, 256, true), PipeWrite::Done(256));
    let first = r.read_step(&mut rb, 100, false);
    assert_eq!(first, PipeRead::Ready(Ok(data[..100].to_vec())));
    assert_eq!(w.write_step(&mut rb, &data, 256, false), PipeWrite::Done(300));
    let mut got = Vec::new();
    while let PipeRead::Ready(Ok(b)) = r.read_step(&mut rb, 1000, true) {
        if b.is_empty() {
            break;
        }
        got.extend(b);
    }
    assert_eq!(got, data[100..].to_vec());
}

#[test]
fn exact_fill_loops_once_more() {
    let (_, w) = Pipe::new();
    let mut rb = PipeRingBuffer::new();
    let data = vec![9u8; RING_BUFFER_SIZE];
    assert_eq!(w.write_step(&mut rb, &data, 0, false), PipeWrite::Again(RING_BUFFER_SIZE));
    assert_eq!(w.write_step(&mut rb, &data, RING_BUFFER_SIZE, false), PipeWrite::Blocked(RING_BUFFER_SIZE));
}

#[test]
fn poll_and_stat() {
    let (r, w) = Pipe::new();
    let mut rb = PipeRingBuffer::new();
    assert_eq!(r.poll(&rb), PollState { readable: false, writable: false });
    assert_eq!(w.poll(&rb), PollState { readable: false, writable: true });
    rb.write_byte(1);
    assert_eq!(r.poll(&rb), PollState { readable: true, writable: false });
    let st = r.stat();
    assert_eq!(st.mode, 0o010600);
    assert_eq!(st.blksize, 4096);
    assert_eq!(st.ino, 1);
}

#[test]
fn a_long_write_reaches_the_reader_whole_and_in_order() {
    let (r, w) = Pipe::new();
    let mut rb = PipeRingBuffer::new();
    // Bytes already held when the write begins.
    let start = vec![7u8, 8, 9];
    assert_eq!(w.write_step(&mut rb, &start, 0, false), PipeWrite::Done(3));
    let buf: Vec<u8> = (0..700u32).map(|i| (i % 251) as u8).collect();
    let mut read = Vec::new();
    let mut written = 0;
    loop {
        match w.write_step(&mut rb, &buf, written, false) {
            PipeWrite::Done(n) => {
                assert_eq!(n, buf.len());
                break;
            }
            PipeWrite::Again(n) | PipeWrite::Blocked(n) => written = n,
        }
        // The reader takes what it can between the writer's steps.
        if let PipeRead::Ready(Ok(bytes)) = r.read_step(&mut rb, 100, false) {
            read.extend(bytes);
        }
    }
    while let PipeRead::Ready(Ok(bytes)) = r.read_step(&mut rb, 100, true) {
        if bytes.is_empty() {
            break;
        }
        read.extend(bytes);
    }
    let mut expected = start.clone();
    expected.extend(&buf);
    assert_eq!(read, expected);
}
