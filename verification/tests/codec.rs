use gnunet::error::Error;
use gnunet::service::{
    u16_from_be, u16_to_be, u32_from_be, u32_to_be, MessageHeader, Stream, MAX_BODY_LEN,
};
use std::io::ErrorKind;

fn kind(e: Error) -> ErrorKind {
    e.io_kind().expect("an I/O error")
}

#[test]
fn integers_are_big_endian() {
    assert_eq!(u16_to_be(0x1234), [0x12, 0x34]);
    assert_eq!(u16_to_be(1), [0, 1]);
    assert_eq!(u32_to_be(0x8000_0001), [0x80, 0x00, 0x00, 0x01]);
    assert_eq!(u32_to_be(0x0102_0304), [1, 2, 3, 4]);
    assert_eq!(u16_from_be([0x02, 0x70]), 624);
    assert_eq!(u32_from_be([0x00, 0x01, 0x86, 0x9f]), 99999);
}

#[test]
fn integer_round_trip_at_the_edges() {
    for x in [0u16, 1, 255, 256, 0x7fff, 0x8000, u16::MAX] {
        assert_eq!(u16_from_be(u16_to_be(x)), x);
        assert_eq!(u16_to_be(x), x.to_be_bytes());
    }
    for x in [0u32, 1, 255, 256, 65535, 65536, 0x7fff_ffff, 0x8000_0000, u32::MAX] {
        assert_eq!(u32_from_be(u32_to_be(x)), x);
        assert_eq!(u32_to_be(x), x.to_be_bytes());
    }
}

#[test]
fn stream_gives_back_what_was_written_in_order() {
    let mut s = Stream::new();
    assert_eq!(s.remaining(), 0);
    s.write_byte(9);
    s.write_u16(0x0102);
    s.write_u32(0x0304_0506);
    s.write(&[7, 8]);
    assert_eq!(s.to_bytes(), vec![9, 1, 2, 3, 4, 5, 6, 7, 8]);
    assert_eq!(s.remaining(), 9);
    assert_eq!(s.read_bytes(1).unwrap(), vec![9]);
    assert_eq!(s.read_u16().unwrap(), 0x0102);
    assert_eq!(s.read_u32().unwrap(), 0x0304_0506);
    assert_eq!(s.read_bytes(2).unwrap(), vec![7, 8]);
    assert_eq!(s.remaining(), 0);
}

#[test]
fn reads_fail_at_the_end_and_take_nothing() {
    let mut s = Stream::from_bytes(vec![1, 2, 3]);
    assert_eq!(kind(s.read_u32().unwrap_err()), ErrorKind::UnexpectedEof);
    assert_eq!(kind(s.read_bytes(4).unwrap_err()), ErrorKind::UnexpectedEof);
    assert_eq!(kind(s.skip(4).unwrap_err()), ErrorKind::UnexpectedEof);
    assert_eq!(kind(s.read_header().unwrap_err()), ErrorKind::UnexpectedEof);
    assert_eq!(s.to_bytes(), vec![1, 2, 3]);
    s.skip(2).unwrap();
    assert_eq!(kind(s.read_u16().unwrap_err()), ErrorKind::UnexpectedEof);
    assert_eq!(s.to_bytes(), vec![3]);
    assert_eq!(s.read_bytes(0).unwrap(), Vec::<u8>::new());
}

#[test]
fn header_has_the_size_first() {
    let mut s = Stream::new();
    s.write_header(626, 45);
    assert_eq!(s.to_bytes(), vec![0, 45, 0x02, 0x72]);
    let h = s.read_header().unwrap();
    assert_eq!(h, MessageHeader { size: 45, type_: 626 });
}

#[test]
fn strings_with_and_without_terminator() {
    let mut s = Stream::new();
    s.write_str("ab");
    s.write_str_zt("cd");
    assert_eq!(s.to_bytes(), vec![b'a', b'b', b'c', b'd', 0]);
    assert_eq!(s.read_str(2).unwrap(), "ab");
    assert_eq!(s.read_str_zt(2).unwrap(), "cd");
    assert_eq!(s.remaining(), 0);
}

#[test]
fn string_of_several_bytes_a_character() {
    let text = "gr\u{fc}\u{df}e \u{2713}";
    let mut s = Stream::new();
    s.write_str_zt(text);
    let len = text.len() as u16;
    assert_eq!(s.remaining(), text.len() + 1);
    assert_eq!(s.read_str_zt(len).unwrap(), text);
}

#[test]
fn terminated_string_needs_its_terminator() {
    let mut s = Stream::from_bytes(vec![b'a', b'b']);
    assert_eq!(kind(s.read_str_zt(2).unwrap_err()), ErrorKind::UnexpectedEof);
    assert_eq!(s.to_bytes(), vec![b'a', b'b']);
    assert_eq!(s.read_str(2).unwrap(), "ab");
}

#[test]
fn string_that_is_no_utf8() {
    let mut s = Stream::from_bytes(vec![0xff, 0xfe, 0]);
    assert_eq!(kind(s.read_str(2).unwrap_err()), ErrorKind::InvalidData);
    assert_eq!(kind(s.read_str_zt(2).unwrap_err()), ErrorKind::InvalidData);
    assert_eq!(s.to_bytes(), vec![0xff, 0xfe, 0]);
}

#[test]
fn message_round_trip() {
    let mut s = Stream::new();
    s.write_message(1020, &[1, 2, 3]).unwrap();
    assert_eq!(s.to_bytes(), vec![0, 7, 0x03, 0xfc, 1, 2, 3]);
    let (type_, body) = s.read_message().unwrap();
    assert_eq!(type_, 1020);
    assert_eq!(body, vec![1, 2, 3]);
    assert_eq!(s.remaining(), 0);
}

#[test]
fn message_round_trip_empty_and_largest_body() {
    let mut s = Stream::new();
    s.write_message(624, &[]).unwrap();
    let big: Vec<u8> = (0..MAX_BODY_LEN).map(|i| (i % 251) as u8).collect();
    s.write_message(7, &big).unwrap();
    s.write_message(65535, &[42]).unwrap();
    assert_eq!(s.read_message().unwrap(), (624, vec![]));
    assert_eq!(s.read_message().unwrap(), (7, big));
    assert_eq!(s.read_message().unwrap(), (65535, vec![42]));
    assert_eq!(s.remaining(), 0);
}

#[test]
fn body_that_fits_in_no_message() {
    let mut s = Stream::new();
    s.write_byte(1);
    let big = vec![0u8; MAX_BODY_LEN + 1];
    assert_eq!(kind(s.write_message(7, &big).unwrap_err()), ErrorKind::InvalidInput);
    assert_eq!(s.to_bytes(), vec![1]);
}

#[test]
fn message_that_is_not_whole() {
    let mut s = Stream::from_bytes(vec![0, 8, 0, 1, 9, 9]);
    assert_eq!(kind(s.read_message().unwrap_err()), ErrorKind::UnexpectedEof);
    assert_eq!(s.remaining(), 6);
    let mut s = Stream::from_bytes(vec![0, 3, 0, 1, 9, 9]);
    assert_eq!(kind(s.read_message().unwrap_err()), ErrorKind::InvalidData);
    assert_eq!(s.remaining(), 6);
    let mut s = Stream::from_bytes(vec![0, 4]);
    assert_eq!(kind(s.read_message().unwrap_err()), ErrorKind::UnexpectedEof);
}

#[test]
fn result_of_success_takes_the_whole_body() {
    let mut s = Stream::from_bytes(vec![0, 0, 0, 0, b'o', b'k', 0, 77]);
    s.read_result(11).unwrap();
    assert_eq!(s.to_bytes(), vec![77]);
    let mut s = Stream::from_bytes(vec![0, 0, 0, 0, 0]);
    s.read_result(9).unwrap();
    assert_eq!(s.remaining(), 0);
    let mut s = Stream::from_bytes(vec![0, 0, 0, 0, 1, 2]);
    s.read_result(8).unwrap();
    assert_eq!(s.to_bytes(), vec![1, 2]);
    let mut s = Stream::from_bytes(vec![0, 0, 0, 0, 0xff, 0xfe, 0]);
    s.read_result(11).unwrap();
    assert_eq!(s.remaining(), 0);
}

#[test]
fn result_of_success_that_cannot_be_read() {
    let mut s = Stream::from_bytes(vec![0, 0, 0, 0, b'o']);
    assert_eq!(kind(s.read_result(11).unwrap_err()), ErrorKind::UnexpectedEof);
    assert_eq!(s.remaining(), 5);
    assert_eq!(kind(s.read_result(7).unwrap_err()), ErrorKind::InvalidData);
    assert_eq!(kind(s.read_result(0).unwrap_err()), ErrorKind::InvalidData);
    assert_eq!(s.remaining(), 5);
}

#[test]
fn results_one_after_the_other() {
    let mut s = Stream::new();
    s.write_message(625, &[0, 0, 0, 0, b'f', b'i', b'n', b'e', 0]).unwrap();
    s.write_message(625, &[0, 0, 0, 3, b'n', b'o', 0]).unwrap();
    s.write_message(625, &[0, 0, 0, 0, 0]).unwrap();
    let h = s.read_header().unwrap();
    s.read_result(h.size).unwrap();
    let h = s.read_header().unwrap();
    assert_eq!(h, MessageHeader { size: 11, type_: 625 });
    assert!(matches!(s.read_result(h.size), Err(Error::Result(e)) if e.code == 3 && e.msg == "no"));
    let h = s.read_header().unwrap();
    assert_eq!(h, MessageHeader { size: 9, type_: 625 });
    s.read_result(h.size).unwrap();
    assert_eq!(s.remaining(), 0);
}

#[test]
fn result_with_a_code_and_a_text() {
    let mut s = Stream::from_bytes(vec![0, 0, 0, 5, b'n', b'o', 0, 77]);
    match s.read_result(11) {
        Err(Error::Result(e)) => {
            assert_eq!(e.code, 5);
            assert_eq!(e.msg, "no");
            assert_eq!(e.message(), "no");
        }
        other => panic!("unexpected: {:?}", other),
    }
    assert_eq!(s.to_bytes(), vec![77]);
}

#[test]
fn result_that_cannot_be_read() {
    let mut s = Stream::from_bytes(vec![0, 0, 0]);
    assert_eq!(kind(s.read_result(11).unwrap_err()), ErrorKind::UnexpectedEof);
    let mut s = Stream::from_bytes(vec![0, 0, 0, 5]);
    assert_eq!(kind(s.read_result(8).unwrap_err()), ErrorKind::InvalidData);
    let mut s = Stream::from_bytes(vec![0, 0, 0, 5, b'n']);
    assert_eq!(kind(s.read_result(11).unwrap_err()), ErrorKind::UnexpectedEof);
    let mut s = Stream::from_bytes(vec![0, 0, 0, 5, 0xff, 0xff, 0]);
    assert_eq!(kind(s.read_result(11).unwrap_err()), ErrorKind::InvalidData);
    assert_eq!(s.remaining(), 7);
}

#[test]
fn result_with_an_empty_text() {
    let mut s = Stream::from_bytes(vec![0, 0, 0, 1, 0]);
    match s.read_result(9) {
        Err(Error::Result(e)) => {
            assert_eq!(e.code, 1);
            assert_eq!(e.msg, "");
        }
        other => panic!("unexpected: {:?}", other),
    }
    assert_eq!(s.remaining(), 0);
}

#[test]
fn peeks_leave_the_stream_as_it_is() {
    let s = Stream::from_bytes(vec![1, 2, b'h', b'i', 5]);
    assert_eq!(s.peek_bytes(1, 3).unwrap(), vec![2, b'h', b'i']);
    assert_eq!(s.peek_bytes(5, 0).unwrap(), Vec::<u8>::new());
    assert_eq!(kind(s.peek_bytes(3, 3).unwrap_err()), ErrorKind::UnexpectedEof);
    assert_eq!(kind(s.peek_bytes(6, 0).unwrap_err()), ErrorKind::UnexpectedEof);
    assert_eq!(kind(s.peek_bytes(usize::MAX, 2).unwrap_err()), ErrorKind::UnexpectedEof);
    assert_eq!(s.peek_str(2, 2).unwrap(), "hi");
    assert_eq!(kind(s.peek_str(2, 4).unwrap_err()), ErrorKind::UnexpectedEof);
    let bad = Stream::from_bytes(vec![0xc3, 0x28]);
    assert_eq!(kind(bad.peek_str(0, 2).unwrap_err()), ErrorKind::InvalidData);
    assert_eq!(s.to_bytes(), vec![1, 2, b'h', b'i', 5]);
    assert_eq!(s.remaining(), 5);
}
