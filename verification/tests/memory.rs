use tm20::error::IoErrorKind;
use tm20::{Error, Memory, MemoryRead, Transport, encode, hello};

#[test]
fn memory_records_hello() {
    let mut mem = Memory::new();
    let bytes = encode(&hello()).unwrap();
    mem.write(&bytes).unwrap();
    assert_eq!(mem.written, bytes);
}

#[test]
fn segments_cap_a_single_read() {
    let mut mem = Memory::with_segments(vec![b"ab".to_vec(), b"cd".to_vec()]);
    let mut buf = [0u8; 8];
    assert_eq!(mem.read(&mut buf).unwrap(), 2);
    assert_eq!(&buf[..2], b"ab");
    assert_eq!(mem.read(&mut buf).unwrap(), 2);
    assert_eq!(&buf[..2], b"cd");
    assert_eq!(mem.read(&mut buf).unwrap(), 0);
}

#[test]
fn interrupt_is_a_distinct_read() {
    let mut mem = Memory::with_reads(vec![MemoryRead::Interrupt, MemoryRead::Bytes(b"x".to_vec())]);
    match mem.read(&mut [0u8; 1]) {
        Err(Error::Io(IoErrorKind::Interrupted)) => {}
        other => panic!("expected Interrupted, got {other:?}"),
    }
    let mut buf = [0u8; 1];
    assert_eq!(mem.read(&mut buf).unwrap(), 1);
    assert_eq!(buf[0], b'x');
}

#[test]
fn reads_pass_over_empty_segments_and_never_merge_two() {
    let mut mem = Memory::with_segments(vec![b"ab".to_vec(), Vec::new(), b"cde".to_vec()]);
    let mut buf = [0u8; 2];
    assert_eq!(mem.read(&mut buf).unwrap(), 2);
    assert_eq!(&buf, b"ab");
    let mut big = [9u8; 8];
    assert_eq!(mem.read(&mut buf).unwrap(), 2);
    assert_eq!(&buf, b"cd");
    assert_eq!(mem.read(&mut big).unwrap(), 1);
    assert_eq!(big, [b'e', 9, 9, 9, 9, 9, 9, 9]);
    assert_eq!(mem.read(&mut big).unwrap(), 0);
}
