use rustflush::sink::Sink;
use rustflush::trial::TrialEvent;

fn not_open() -> TrialEvent {
    TrialEvent::Failed("file is not open".to_string())
}

#[test]
fn sink_without_a_file_refuses_writes() {
    let mut sink = Sink::new(8);
    assert_eq!(sink.write(b"abc"), not_open());
    assert_eq!(sink.flush(), not_open());
    assert!(sink.file().is_empty());
    assert!(sink.buffer().is_empty());
}

#[test]
fn unbuffered_write_goes_to_the_file() {
    let mut sink = Sink::new(8);
    assert_eq!(sink.create(false), TrialEvent::Done);
    assert_eq!(sink.write(b"abc"), TrialEvent::Done);
    assert_eq!(sink.file(), &b"abc".to_vec());
    assert!(sink.buffer().is_empty());
    assert_eq!(sink.write(b"defghijklmnop"), TrialEvent::Done);
    assert_eq!(sink.file(), &b"abcdefghijklmnop".to_vec());
    assert!(sink.buffer().is_empty());
    assert_eq!(sink.flush(), TrialEvent::Done);
    assert_eq!(sink.file(), &b"abcdefghijklmnop".to_vec());
}

#[test]
fn buffered_write_waits_for_the_flush() {
    let mut sink = Sink::new(8);
    sink.create(true);
    assert_eq!(sink.write(b"abc"), TrialEvent::Done);
    assert!(sink.file().is_empty());
    assert_eq!(sink.buffer(), &b"abc".to_vec());
    assert_eq!(sink.write(b"de"), TrialEvent::Done);
    assert!(sink.file().is_empty());
    assert_eq!(sink.buffer(), &b"abcde".to_vec());
    assert_eq!(sink.flush(), TrialEvent::Done);
    assert_eq!(sink.file(), &b"abcde".to_vec());
    assert!(sink.buffer().is_empty());
}

#[test]
fn write_that_does_not_fit_forces_the_buffer_out() {
    let mut sink = Sink::new(8);
    sink.create(true);
    sink.write(b"abc");
    sink.write(b"def");
    assert!(sink.file().is_empty());
    assert_eq!(sink.buffer(), &b"abcdef".to_vec());
    sink.write(b"ghi");
    assert_eq!(sink.file(), &b"abcdef".to_vec());
    assert_eq!(sink.buffer(), &b"ghi".to_vec());
}

#[test]
fn write_that_fills_the_buffer_exactly_is_kept() {
    let mut sink = Sink::new(6);
    sink.create(true);
    sink.write(b"abc");
    sink.write(b"def");
    assert!(sink.file().is_empty());
    assert_eq!(sink.buffer(), &b"abcdef".to_vec());
    sink.write(b"g");
    assert_eq!(sink.file(), &b"abcdef".to_vec());
    assert_eq!(sink.buffer(), &b"g".to_vec());
}

#[test]
fn write_as_large_as_the_buffer_goes_past_it() {
    let mut sink = Sink::new(4);
    sink.create(true);
    sink.write(b"ab");
    sink.write(b"cdefg");
    assert_eq!(sink.file(), &b"abcdefg".to_vec());
    assert!(sink.buffer().is_empty());
    sink.write(b"hijk");
    assert_eq!(sink.file(), &b"abcdefghijk".to_vec());
    assert!(sink.buffer().is_empty());
    sink.write(b"lmn");
    assert_eq!(sink.file(), &b"abcdefghijk".to_vec());
    assert_eq!(sink.buffer(), &b"lmn".to_vec());
}

#[test]
fn buffer_without_room_keeps_nothing() {
    let mut sink = Sink::new(0);
    sink.create(true);
    sink.write(b"abc");
    assert_eq!(sink.file(), &b"abc".to_vec());
    assert!(sink.buffer().is_empty());
    sink.write(b"");
    assert_eq!(sink.file(), &b"abc".to_vec());
    assert!(sink.buffer().is_empty());
}

#[test]
fn create_empties_the_file() {
    let mut sink = Sink::new(8);
    sink.create(true);
    sink.write(b"abc");
    sink.flush();
    sink.write(b"de");
    assert_eq!(sink.create(false), TrialEvent::Done);
    assert!(sink.file().is_empty());
    assert!(sink.buffer().is_empty());
    sink.write(b"xy");
    assert_eq!(sink.file(), &b"xy".to_vec());
}

#[test]
fn order_of_bytes_survives_the_buffer() {
    for capacity in 0..20usize {
        let mut sink = Sink::new(capacity);
        sink.create(true);
        let mut all = Vec::new();
        for piece in [&b"a"[..], b"bc", b"def", b"", b"ghij", b"klmnopqrst", b"u", b"vwxyz"] {
            sink.write(piece);
            all.extend_from_slice(piece);
            let mut seen = sink.file().clone();
            seen.extend_from_slice(sink.buffer());
            assert_eq!(seen, all);
            assert!(sink.buffer().len() <= capacity);
        }
        sink.flush();
        assert_eq!(sink.file(), &b"abcdefghijklmnopqrstuvwxyz".to_vec());
        assert!(sink.buffer().is_empty());
    }
}
