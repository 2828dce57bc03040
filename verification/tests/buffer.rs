use zip_extractor::buffer::WriteBuffer;
use zip_extractor::error::classify;
use zip_extractor::error::ExtractError;
use zip_extractor::error::Fault;
use zip_extractor::sink::Sink;

#[test]
fn new_sink_is_empty_and_unbounded() {
    let sink = Sink::new();
    assert_eq!(sink.len(), 0);
    assert_eq!(sink.capacity(), usize::MAX);
    assert_eq!(sink.as_slice(), b"");
    assert_eq!(sink.into_bytes(), Vec::<u8>::new());
}

#[test]
fn bounded_sink_is_empty() {
    let sink = Sink::bounded(3);
    assert_eq!(sink.len(), 0);
    assert_eq!(sink.capacity(), 3);
}

#[test]
fn sink_takes_what_it_has_room_for() {
    let mut sink = Sink::bounded(7);
    assert_eq!(sink.write(b"abc"), 3);
    assert_eq!(sink.as_slice(), b"abc");
    assert_eq!(sink.write(b""), 0);
    assert_eq!(sink.write(b"defgh"), 4);
    assert_eq!(sink.as_slice(), b"abcdefg");
    assert_eq!(sink.len(), 7);
    assert_eq!(sink.write(b"i"), 0);
    assert_eq!(sink.write(b""), 0);
    assert_eq!(sink.as_slice(), b"abcdefg");
    assert_eq!(sink.capacity(), 7);
    assert_eq!(sink.into_bytes(), b"abcdefg".to_vec());
}

#[test]
fn unbounded_sink_takes_all() {
    let mut sink = Sink::new();
    let data = vec![7u8; 100_000];
    assert_eq!(sink.write(&data), 100_000);
    assert_eq!(sink.write(&data), 100_000);
    assert_eq!(sink.len(), 200_000);
}

#[test]
fn short_writes_wait_in_the_buffer() {
    let mut sink = Sink::new();
    let mut buffer = WriteBuffer::new(4);
    assert_eq!(buffer.capacity(), 4);
    assert_eq!(buffer.write(b"ab", &mut sink), Ok(()));
    assert_eq!(sink.as_slice(), b"");
    assert_eq!(buffer.write(b"cd", &mut sink), Ok(()));
    assert_eq!(sink.as_slice(), b"");
    assert_eq!(buffer.write(b"e", &mut sink), Ok(()));
    assert_eq!(sink.as_slice(), b"abcd");
    assert_eq!(buffer.flush(&mut sink), Ok(()));
    assert_eq!(sink.as_slice(), b"abcde");
    assert_eq!(buffer.flush(&mut sink), Ok(()));
    assert_eq!(sink.as_slice(), b"abcde");
}

#[test]
fn long_writes_pass_the_buffer_by() {
    let mut sink = Sink::new();
    let mut buffer = WriteBuffer::new(4);
    assert_eq!(buffer.write(b"a", &mut sink), Ok(()));
    assert_eq!(buffer.write(b"bcde", &mut sink), Ok(()));
    assert_eq!(sink.as_slice(), b"abcde");
    assert_eq!(buffer.write(b"fghijklm", &mut sink), Ok(()));
    assert_eq!(sink.as_slice(), b"abcdefghijklm");
    assert_eq!(buffer.write(b"nop", &mut sink), Ok(()));
    assert_eq!(sink.as_slice(), b"abcdefghijklm");
    assert_eq!(buffer.flush(&mut sink), Ok(()));
    assert_eq!(sink.as_slice(), b"abcdefghijklmnop");
}

#[test]
fn buffer_without_capacity_holds_nothing_back() {
    let mut sink = Sink::bounded(2);
    let mut buffer = WriteBuffer::new(0);
    assert_eq!(buffer.write(b"a", &mut sink), Ok(()));
    assert_eq!(sink.as_slice(), b"a");
    assert_eq!(buffer.write(b"", &mut sink), Ok(()));
    assert_eq!(buffer.write(b"b", &mut sink), Ok(()));
    assert_eq!(sink.as_slice(), b"ab");
    assert_eq!(buffer.write(b"c", &mut sink), Err(ExtractError::Write));
    assert_eq!(sink.as_slice(), b"ab");
}

#[test]
fn overflow_shows_when_the_sink_is_offered_the_bytes() {
    let mut sink = Sink::bounded(3);
    let mut buffer = WriteBuffer::new(8);
    assert_eq!(buffer.write(b"outer", &mut sink), Ok(()));
    assert_eq!(sink.len(), 0);
    assert_eq!(buffer.flush(&mut sink), Err(ExtractError::Write));
    assert_eq!(sink.as_slice(), b"out");
    assert_eq!(buffer.flush(&mut sink), Ok(()));
    assert_eq!(sink.as_slice(), b"out");

    let mut sink = Sink::bounded(3);
    let mut buffer = WriteBuffer::new(2);
    assert_eq!(buffer.write(b"o", &mut sink), Ok(()));
    assert_eq!(buffer.write(b"u", &mut sink), Ok(()));
    assert_eq!(sink.as_slice(), b"");
    assert_eq!(buffer.write(b"t", &mut sink), Ok(()));
    assert_eq!(sink.as_slice(), b"ou");
    assert_eq!(buffer.write(b"e", &mut sink), Ok(()));
    assert_eq!(sink.as_slice(), b"ou");
    assert_eq!(buffer.write(b"r", &mut sink), Err(ExtractError::Write));
    assert_eq!(sink.as_slice(), b"out");

    let mut sink = Sink::bounded(3);
    let mut buffer = WriteBuffer::new(2);
    assert_eq!(buffer.write(b"ou", &mut sink), Ok(()));
    assert_eq!(sink.as_slice(), b"ou");
    assert_eq!(buffer.write(b"te", &mut sink), Err(ExtractError::Write));
    assert_eq!(sink.as_slice(), b"out");

    let mut sink = Sink::bounded(3);
    let mut buffer = WriteBuffer::new(2);
    assert_eq!(buffer.write(b"o", &mut sink), Ok(()));
    assert_eq!(buffer.write(b"uter", &mut sink), Err(ExtractError::Write));
    assert_eq!(sink.as_slice(), b"out");
}

/// Writes `data` in chunks of `chunk` bytes through a buffer of `capacity`
/// bytes to a sink that takes `limit` bytes, and flushes.
fn deliver(data: &[u8], chunk: usize, capacity: usize, limit: usize) -> (Result<(), ExtractError>, Vec<u8>) {
    let mut sink = Sink::bounded(limit);
    let mut buffer = WriteBuffer::new(capacity);
    for piece in data.chunks(chunk) {
        if let Err(error) = buffer.write(piece, &mut sink) {
            return (Err(error), sink.into_bytes());
        }
    }
    let result = buffer.flush(&mut sink);
    (result, sink.into_bytes())
}

#[test]
fn delivery_does_not_depend_on_buffer_size_or_chunks() {
    let data: Vec<u8> = (0..40u8).collect();
    for limit in [0usize, 1, 7, 39, 40, 41, 100] {
        let kept = limit.min(data.len());
        let expected = if limit >= data.len() { Ok(()) } else { Err(ExtractError::Write) };
        for capacity in 0..12usize {
            for chunk in 1..45usize {
                let (result, held) = deliver(&data, chunk, capacity, limit);
                assert_eq!(result, expected, "limit {limit} capacity {capacity} chunk {chunk}");
                assert_eq!(held, &data[..kept], "limit {limit} capacity {capacity} chunk {chunk}");
            }
        }
    }
}

#[test]
fn faults_are_classified() {
    assert_eq!(classify(Fault::FileNotFound), ExtractError::NotFound);
    assert_eq!(classify(Fault::Io), ExtractError::Read);
    assert_eq!(classify(Fault::InvalidArchive), ExtractError::Format);
    assert_eq!(classify(Fault::UnsupportedArchive), ExtractError::Format);
    assert_eq!(classify(Fault::InvalidPassword), ExtractError::Format);
    assert_eq!(classify(Fault::CompressionMethodNotSupported), ExtractError::Format);
    assert_eq!(classify(Fault::Unknown), ExtractError::Format);
}
