use assh::wire::{
    copy_range, mpint_body_of, put_bool, put_bytes, put_mpint, put_string, put_u32, u32_at, Reader,
};

#[test]
fn u32_is_big_endian() {
    let mut out = vec![0xff];
    put_u32(&mut out, 0x0102_0304);
    assert_eq!(out, vec![0xff, 1, 2, 3, 4]);
    let mut out = Vec::new();
    put_u32(&mut out, u32::MAX);
    put_u32(&mut out, 0);
    assert_eq!(out, vec![255, 255, 255, 255, 0, 0, 0, 0]);
    assert_eq!(u32_at(&out, 0), u32::MAX);
    assert_eq!(u32_at(&out, 3), 0xff00_0000);
}

#[test]
fn string_is_length_then_bytes() {
    let mut out = Vec::new();
    put_string(&mut out, b"abc");
    put_string(&mut out, b"");
    assert_eq!(out, vec![0, 0, 0, 3, b'a', b'b', b'c', 0, 0, 0, 0]);
}

#[test]
fn boolean_is_one_byte() {
    let mut out = Vec::new();
    put_bool(&mut out, true);
    put_bool(&mut out, false);
    assert_eq!(out, vec![1, 0]);
}

#[test]
fn mpint_examples() {
    assert_eq!(mpint_body_of(&[]), Vec::<u8>::new());
    assert_eq!(mpint_body_of(&[0, 0]), Vec::<u8>::new());
    assert_eq!(mpint_body_of(&[0x80]), vec![0, 0x80]);
    assert_eq!(mpint_body_of(&[0x7f]), vec![0x7f]);
    assert_eq!(mpint_body_of(&[0, 0, 0x12, 0x00]), vec![0x12, 0]);
    assert_eq!(mpint_body_of(&[0, 0xff, 1]), vec![0, 0xff, 1]);
    let mut out = Vec::new();
    put_mpint(&mut out, &[0x09, 0xa3, 0x78, 0xf9, 0xb2, 0xe3, 0x32, 0xa7]);
    assert_eq!(out, vec![0, 0, 0, 8, 0x09, 0xa3, 0x78, 0xf9, 0xb2, 0xe3, 0x32, 0xa7]);
    let mut out = Vec::new();
    put_mpint(&mut out, &[0x80]);
    assert_eq!(out, vec![0, 0, 0, 2, 0, 0x80]);
    let mut out = Vec::new();
    put_mpint(&mut out, &[0, 0]);
    assert_eq!(out, vec![0, 0, 0, 0]);
}

#[test]
fn copies() {
    assert_eq!(copy_range(&[1, 2, 3, 4], 1, 3), vec![2, 3]);
    assert_eq!(copy_range(&[1, 2, 3, 4], 4, 4), Vec::<u8>::new());
    let mut out = vec![9];
    put_bytes(&mut out, &[1, 2]);
    assert_eq!(out, vec![9, 1, 2]);
}

#[test]
fn reader_reads_fields_in_order() {
    let buf = [7u8, 1, 0, 0, 1, 0, 0, 0, 0, 2, b'h', b'i', 9, 9];
    let mut reader = Reader::new(&buf);
    assert_eq!(reader.len(), 14);
    assert_eq!(reader.read_u8(), Some(7));
    assert_eq!(reader.read_bool(), Some(true));
    assert_eq!(reader.read_u32(), Some(256));
    assert_eq!(reader.read_string(), Some(b"hi".to_vec()));
    assert_eq!(reader.read_bytes(1), Some(vec![9]));
    assert_eq!(reader.read_rest(), vec![9]);
    assert_eq!(reader.len(), 0);
    assert_eq!(reader.read_u8(), None);
    assert_eq!(reader.read_bool(), None);
}

#[test]
fn reader_stays_in_place_on_a_short_field() {
    let buf = [0u8, 0, 0, 5, 1, 2];
    let mut reader = Reader::new(&buf);
    assert_eq!(reader.read_string(), None);
    assert_eq!(reader.len(), 6);
    assert_eq!(reader.read_bytes(7), None);
    assert_eq!(reader.read_u32(), Some(5));
    assert_eq!(reader.read_u32(), None);
    assert_eq!(reader.len(), 2);
    assert_eq!(reader.read_bool(), Some(true));
    assert_eq!(reader.read_bool(), Some(true));
}

#[test]
fn every_byte_but_zero_reads_as_true() {
    let buf = [0u8, 1, 2, 255];
    let mut reader = Reader::new(&buf);
    assert_eq!(reader.read_bool(), Some(false));
    assert_eq!(reader.read_bool(), Some(true));
    assert_eq!(reader.read_bool(), Some(true));
    assert_eq!(reader.read_bool(), Some(true));
}
