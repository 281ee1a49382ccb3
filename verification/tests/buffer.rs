use empire::models::error::ErrorKind;
use empire::net::buffer::{
    read_byte, read_integer, read_long, read_short, read_string, write_byte, write_integer,
    write_long, write_short, write_string, Buffer,
};

#[test]
fn test_write_byte() {
    let mut buffer = Buffer::new();
    let value = 12u8;
    write_byte(&mut buffer, &value).unwrap();

    assert_eq!(buffer.get_write_data(), [12]);

    write_byte(&mut buffer, &value).unwrap();

    let read_value = read_byte(&mut buffer).unwrap();
    assert_eq!(read_value, value);
    assert_eq!(buffer.get_index(), 1);
    assert_eq!(buffer.get_size(), 2);
}

#[test]
fn new_buffer_is_empty() {
    let buffer = Buffer::new();
    assert_eq!(buffer.get_size(), 0);
    assert_eq!(buffer.get_index(), 0);
    assert!(buffer.get_write_data().is_empty());
}

#[test]
fn from_takes_all_bytes_as_written() {
    let buffer = Buffer::from(vec![1, 2, 3]);
    assert_eq!(buffer.get_size(), 3);
    assert_eq!(buffer.get_index(), 0);
    assert_eq!(buffer.get_write_data(), [1, 2, 3]);
}

#[test]
fn numbers_are_little_endian_and_read_back() {
    let mut buffer = Buffer::new();
    write_short(&mut buffer, &0x0102).unwrap();
    write_integer(&mut buffer, &0x01020304).unwrap();
    write_long(&mut buffer, &0x0102030405060708).unwrap();
    assert_eq!(
        buffer.get_write_data(),
        [2, 1, 4, 3, 2, 1, 8, 7, 6, 5, 4, 3, 2, 1]
    );
    assert_eq!(read_short(&mut buffer).unwrap(), 0x0102);
    assert_eq!(read_integer(&mut buffer).unwrap(), 0x01020304);
    assert_eq!(read_long(&mut buffer).unwrap(), 0x0102030405060708);
    assert_eq!(buffer.get_index(), 14);
}

#[test]
fn strings_are_length_prefixed() {
    let mut buffer = Buffer::new();
    assert_eq!(write_string(&mut buffer, "héllo").unwrap(), 6);
    assert_eq!(buffer.get_write_data()[0..2], [6, 0]);
    assert_eq!(read_string(&mut buffer).unwrap(), "héllo");
    assert_eq!(buffer.get_index(), 8);
}

#[test]
fn invalid_utf8_is_replaced() {
    let mut buffer = Buffer::from(vec![3, 0, b'a', 0xff, b'b']);
    assert_eq!(read_string(&mut buffer).unwrap(), "a\u{fffd}b");
}

#[test]
fn reading_past_the_end_fails_without_moving() {
    let mut buffer = Buffer::from(vec![7]);
    let err = read_short(&mut buffer).unwrap_err();
    assert_eq!(err.kind, ErrorKind::UnreadBytesError);
    assert_eq!(buffer.get_index(), 0);
    assert_eq!(read_byte(&mut buffer).unwrap(), 7);
    assert_eq!(read_byte(&mut buffer).unwrap_err().kind, ErrorKind::UnreadBytesError);
    assert_eq!(buffer.get_index(), 1);
}

#[test]
fn reset_read_rewinds() {
    let mut buffer = Buffer::from(vec![9, 8]);
    assert_eq!(read_byte(&mut buffer).unwrap(), 9);
    buffer.reset_read();
    assert_eq!(buffer.get_index(), 0);
    assert_eq!(read_byte(&mut buffer).unwrap(), 9);
}
