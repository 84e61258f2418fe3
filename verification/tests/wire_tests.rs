//! The big-endian primitives against hand-written bytes and against the
//! byteorder crate's encoders.

use byteorder::{BigEndian, WriteBytesExt};
use zkclient::types::{push_stat, Stat};
use zkclient::wire::{
    push_be_i32, push_be_i64, push_be_u32, push_be_u64, push_buffer, push_bytes, push_string,
    read_be_i32, read_be_i64, read_buffer, read_string, read_u8, tail_copy, ReadFrom, WriteTo,
};

#[test]
fn be_u32_known_bytes() {
    let mut out: Vec<u8> = Vec::new();
    push_be_u32(&mut out, 0x01020304);
    assert_eq!(out, vec![1, 2, 3, 4]);
}

#[test]
fn be_i32_matches_byteorder() {
    for v in [0i32, 1, -1, -2, 8, 11, -10, -11, i32::MAX, i32::MIN, 0x1234_5678] {
        let mut ours: Vec<u8> = Vec::new();
        push_be_i32(&mut ours, v);
        let mut theirs: Vec<u8> = Vec::new();
        theirs.write_i32::<BigEndian>(v).unwrap();
        assert_eq!(ours, theirs);
    }
}

#[test]
fn be_i64_matches_byteorder() {
    for v in [0i64, 1, -1, i64::MAX, i64::MIN, 0x0102_0304_0506_0708] {
        let mut ours: Vec<u8> = Vec::new();
        push_be_i64(&mut ours, v);
        let mut theirs: Vec<u8> = Vec::new();
        theirs.write_i64::<BigEndian>(v).unwrap();
        assert_eq!(ours, theirs);
    }
}

#[test]
fn be_u64_known_bytes() {
    let mut out: Vec<u8> = Vec::new();
    push_be_u64(&mut out, 0x0102030405060708);
    assert_eq!(out, vec![1, 2, 3, 4, 5, 6, 7, 8]);
}

#[test]
fn read_back_what_was_written() {
    let mut buf: Vec<u8> = Vec::new();
    push_be_i32(&mut buf, -42);
    push_be_i64(&mut buf, 1_000_000_000_000);
    buf.push(7);
    let mut pos = 0usize;
    assert_eq!(read_be_i32(&buf, &mut pos), Ok(-42));
    assert_eq!(read_be_i64(&buf, &mut pos), Ok(1_000_000_000_000));
    assert_eq!(read_u8(&buf, &mut pos), Ok(7));
    assert_eq!(pos, 13);
}

#[test]
fn reads_fail_on_underrun_and_keep_position() {
    let buf = vec![0u8, 1, 2];
    let mut pos = 0usize;
    assert!(read_be_i32(&buf, &mut pos).is_err());
    assert_eq!(pos, 0);
    assert!(read_be_i64(&buf, &mut pos).is_err());
    assert_eq!(pos, 0);
}

#[test]
fn buffer_round_trip() {
    let mut buf: Vec<u8> = Vec::new();
    push_buffer(&mut buf, b"hello");
    assert_eq!(&buf[..4], &[0, 0, 0, 5]);
    let mut pos = 0usize;
    assert_eq!(read_buffer(&buf, &mut pos), Ok(b"hello".to_vec()));
    assert_eq!(pos, 9);
}

#[test]
fn negative_buffer_length_reads_as_empty() {
    let mut buf: Vec<u8> = Vec::new();
    push_be_i32(&mut buf, -1);
    let mut pos = 0usize;
    assert_eq!(read_buffer(&buf, &mut pos), Ok(Vec::new()));
    assert_eq!(pos, 4);
}

#[test]
fn buffer_underrun_fails() {
    let mut buf: Vec<u8> = Vec::new();
    push_be_i32(&mut buf, 10);
    buf.extend_from_slice(b"abc");
    let mut pos = 0usize;
    assert!(read_buffer(&buf, &mut pos).is_err());
    assert_eq!(pos, 0);
}

#[test]
fn string_round_trip() {
    let mut buf: Vec<u8> = Vec::new();
    push_string(&mut buf, "/foo");
    assert_eq!(buf, vec![0, 0, 0, 4, b'/', b'f', b'o', b'o']);
    let mut pos = 0usize;
    assert_eq!(read_string(&buf, &mut pos), Ok(String::from("/foo")));
    assert_eq!(pos, 8);
}

#[test]
fn non_ascii_string_round_trip() {
    let mut buf: Vec<u8> = Vec::new();
    push_string(&mut buf, "héllo");
    let mut pos = 0usize;
    assert_eq!(read_string(&buf, &mut pos), Ok(String::from("héllo")));
}

#[test]
fn invalid_utf8_string_fails() {
    let mut buf: Vec<u8> = Vec::new();
    push_buffer(&mut buf, &[0xff, 0xfe]);
    let mut pos = 0usize;
    assert!(read_string(&buf, &mut pos).is_err());
    assert_eq!(pos, 0);
}

#[test]
fn push_bytes_appends_verbatim() {
    let mut out = vec![9u8];
    push_bytes(&mut out, &[1, 2, 3]);
    assert_eq!(out, vec![9, 1, 2, 3]);
}

#[test]
fn tail_copy_takes_suffix() {
    let buf = vec![1u8, 2, 3, 4, 5];
    assert_eq!(tail_copy(&buf, 2), vec![3, 4, 5]);
    assert_eq!(tail_copy(&buf, 5), Vec::<u8>::new());
}

#[test]
fn write_to_u8_and_string_and_list() {
    let mut out: Vec<u8> = Vec::new();
    7u8.write_to(&mut out);
    assert_eq!(out, vec![7]);

    let mut out: Vec<u8> = Vec::new();
    String::from("ab").write_to(&mut out);
    assert_eq!(out, vec![0, 0, 0, 2, b'a', b'b']);

    // a byte list written element by element is the length-prefixed buffer
    let mut listed: Vec<u8> = Vec::new();
    vec![1u8, 2, 3].write_to(&mut listed);
    let mut buffered: Vec<u8> = Vec::new();
    push_buffer(&mut buffered, &[1, 2, 3]);
    assert_eq!(listed, buffered);
}

#[test]
fn string_list_reads_count_then_strings() {
    let mut buf: Vec<u8> = Vec::new();
    push_be_i32(&mut buf, 2);
    push_string(&mut buf, "ab");
    push_string(&mut buf, "c");
    let mut pos = 0usize;
    let items = <Vec<String>>::read_from(&buf, &mut pos).unwrap();
    assert_eq!(items, vec![String::from("ab"), String::from("c")]);
    assert_eq!(pos, buf.len());
}

#[test]
fn string_list_negative_count_reads_as_empty() {
    let mut buf: Vec<u8> = Vec::new();
    push_be_i32(&mut buf, -3);
    let mut pos = 0usize;
    let items = <Vec<String>>::read_from(&buf, &mut pos).unwrap();
    assert_eq!(items, Vec::<String>::new());
    assert_eq!(pos, 4);
}

#[test]
fn string_list_fails_when_short_and_restores_position() {
    let mut buf: Vec<u8> = Vec::new();
    push_be_i32(&mut buf, 2);
    push_string(&mut buf, "only one");
    let mut pos = 0usize;
    assert!(<Vec<String>>::read_from(&buf, &mut pos).is_err());
    assert_eq!(pos, 0);
}

#[test]
fn stat_reads_through_the_trait() {
    let st = Stat {
        czxid: 1,
        mzxid: 2,
        ctime: 3,
        mtime: 4,
        version: 5,
        cversion: 6,
        aversion: 7,
        ephemeral_owner: 8,
        data_length: 9,
        num_children: 10,
        pzxid: 11,
    };
    let mut buf: Vec<u8> = Vec::new();
    push_stat(&mut buf, &st);
    let mut pos = 0usize;
    assert_eq!(Stat::read_from(&buf, &mut pos), Ok(st));
    assert_eq!(pos, 68);
    // one byte short: no partial Stat comes out
    let mut pos = 0usize;
    assert!(Stat::read_from(&buf[..67], &mut pos).is_err());
    assert_eq!(pos, 0);
}
