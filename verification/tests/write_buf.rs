use pico_httpd::write_buf::{WriteBuf, WriteError};

#[test]
fn writes_are_kept_in_order() {
    let mut bytes = [0u8; 8];
    let mut w = WriteBuf::new(&mut bytes);
    assert_eq!(w.write_bytes(b"abc"), Ok(()));
    assert_eq!(w.write_str("de"), Ok(()));
    assert_eq!(w.as_slice(), b"abcde");
    assert_eq!(&bytes, b"abcde\0\0\0");
}

#[test]
fn a_write_that_does_not_fit_changes_nothing() {
    let mut bytes = [7u8; 4];
    let mut w = WriteBuf::new(&mut bytes);
    assert_eq!(w.write_bytes(b"abc"), Ok(()));
    assert_eq!(w.write_bytes(b"de"), Err(WriteError));
    assert_eq!(w.write_str("de"), Err(WriteError));
    assert_eq!(w.len, 3);
    assert_eq!(w.write_bytes(b"d"), Ok(()));
    assert_eq!(w.write_bytes(b""), Ok(()));
    assert_eq!(w.write_bytes(b"e"), Err(WriteError));
    assert_eq!(w.as_slice(), b"abcd");
}

#[test]
fn a_new_writer_has_written_nothing() {
    let mut bytes = [1u8, 2];
    let mut w = WriteBuf::new(&mut bytes);
    assert!(w.as_slice().is_empty());
    assert_eq!(bytes, [1, 2]);
}

#[test]
fn the_slice_can_be_changed() {
    let mut bytes = [0u8; 3];
    let mut w = WriteBuf::new(&mut bytes);
    assert_eq!(w.write_bytes(b"ab"), Ok(()));
    w.as_slice()[1] = b'x';
    assert_eq!(&bytes, b"ax\0");
}

#[test]
fn text_is_written_as_utf8() {
    let mut bytes = [0u8; 3];
    let mut w = WriteBuf::new(&mut bytes);
    assert_eq!(w.write_str("\u{e9}"), Ok(()));
    assert_eq!(w.write_str("\u{e9}"), Err(WriteError));
    assert_eq!(w.as_slice(), [0xc3, 0xa9]);
}
