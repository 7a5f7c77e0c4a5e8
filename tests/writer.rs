use longan_nano_playground::ByteMutWriter;

#[test]
fn writer_starts_empty() {
    let mut buf = [0u8; 8];
    let w = ByteMutWriter::new(&mut buf);
    assert_eq!(w.capacity(), 8);
    assert_eq!(w.len(), 0);
    assert!(w.empty());
    assert!(!w.full());
}

#[test]
fn writer_appends_and_truncates() {
    let mut buf = [0u8; 8];
    let mut w = ByteMutWriter::new(&mut buf);
    w.write_str("abc");
    assert_eq!(w.len(), 3);
    w.write_str("defghij");
    assert_eq!(w.len(), 8);
    assert!(w.full());
    w.write_str("k");
    assert_eq!(w.len(), 8);
    drop(w);
    assert_eq!(&buf, b"abcdefgh");
}

#[test]
fn writer_clear_restarts() {
    let mut buf = [0u8; 4];
    let mut w = ByteMutWriter::new(&mut buf);
    w.write_str("xyz");
    w.clear();
    assert!(w.empty());
    w.write_str("q");
    assert_eq!(w.len(), 1);
    drop(w);
    assert_eq!(buf[0], b'q');
}
