use rustflush::bytes::{append_bytes, copy_bytes, repeat_bytes, same_bytes};

#[test]
fn append_puts_bytes_at_the_end() {
    let mut dst = b"te".to_vec();
    append_bytes(&mut dst, b"st");
    assert_eq!(dst, b"test".to_vec());
    append_bytes(&mut dst, b"");
    assert_eq!(dst, b"test".to_vec());
}

#[test]
fn copy_is_equal_and_independent() {
    let src = b"hello world\n".to_vec();
    let mut copy = copy_bytes(&src);
    assert_eq!(copy, src);
    copy.push(0);
    assert_eq!(src.len(), 12);
    assert_eq!(copy.len(), 13);
}

#[test]
fn same_bytes_compares_length_and_content() {
    assert!(same_bytes(b"test", b"test"));
    assert!(same_bytes(b"", b""));
    assert!(!same_bytes(b"test", b"tesT"));
    assert!(!same_bytes(b"test", b"tes"));
    assert!(!same_bytes(b"tes", b"test"));
    assert!(!same_bytes(b"", b"t"));
}

#[test]
fn repeat_bytes_joins_the_records() {
    assert_eq!(repeat_bytes(b"test", 3), Some(b"testtesttest".to_vec()));
    assert_eq!(repeat_bytes(b"test", 1), Some(b"test".to_vec()));
    assert_eq!(repeat_bytes(b"test", 0), Some(Vec::new()));
}

#[test]
fn repeat_bytes_has_the_exact_length() {
    let block = repeat_bytes(b"hello world\n", 1000).unwrap();
    assert_eq!(block.len(), 12_000);
    assert_eq!(&block[11_988..], b"hello world\n");
    assert_eq!(&block[..12], b"hello world\n");
}

#[test]
fn repeat_bytes_of_nothing_is_nothing() {
    assert_eq!(repeat_bytes(b"", 0), Some(Vec::new()));
    assert_eq!(repeat_bytes(b"", 5), Some(Vec::new()));
    assert_eq!(repeat_bytes(b"", u64::MAX), Some(Vec::new()));
}

#[test]
fn repeat_bytes_refuses_what_cannot_fit() {
    assert_eq!(repeat_bytes(b"ab", u64::MAX), None);
    assert_eq!(repeat_bytes(b"hello world\n", u64::MAX / 2), None);
}
