use canary::error::ErrorKindSer;
use canary::wire::{send_slice, send_str, Wire};

fn encode<T: Wire>(v: &T) -> Vec<u8> {
    let mut out = Vec::new();
    v.send(&mut out);
    out
}

#[test]
fn integers_are_big_endian() {
    assert_eq!(encode(&0x12u8), vec![0x12]);
    assert_eq!(encode(&0x1234u16), vec![0x12, 0x34]);
    assert_eq!(encode(&0x1234_5678u32), vec![0x12, 0x34, 0x56, 0x78]);
    assert_eq!(
        encode(&0x0102_0304_0506_0708u64),
        vec![1, 2, 3, 4, 5, 6, 7, 8]
    );
    assert_eq!(encode(&-1i16), vec![0xff, 0xff]);
    assert_eq!(encode(&-2i32), vec![0xff, 0xff, 0xff, 0xfe]);
    assert_eq!(encode(&-128i8), vec![0x80]);
    let big = encode(&1u128);
    assert_eq!(big.len(), 16);
    assert_eq!(big[15], 1);
    assert!(big[..15].iter().all(|b| *b == 0));
}

#[test]
fn integers_round_trip() {
    let v = encode(&0xdead_beefu32);
    assert_eq!(u32::pull(&v, 0).unwrap(), (0xdead_beef, 4));
    let v = encode(&i64::MIN);
    assert_eq!(i64::pull(&v, 0).unwrap(), (i64::MIN, 8));
    let v = encode(&(-12345678901234567890i128));
    assert_eq!(i128::pull(&v, 0).unwrap(), (-12345678901234567890i128, 16));
    let v = encode(&u16::MAX);
    assert_eq!(u16::pull(&v, 0).unwrap(), (u16::MAX, 2));
    let v = encode(&-5i8);
    assert_eq!(i8::pull(&v, 0).unwrap(), (-5, 1));
}

#[test]
fn pull_reads_at_a_position() {
    let bytes = vec![9, 9, 0, 0, 1, 0, 7];
    assert_eq!(u32::pull(&bytes, 2).unwrap(), (256, 6));
    assert_eq!(u8::pull(&bytes, 6).unwrap(), (7, 7));
}

#[test]
fn short_input_is_unexpected_eof() {
    let bytes = vec![1, 2, 3];
    assert_eq!(u32::pull(&bytes, 0).unwrap_err().kind, ErrorKindSer::UnexpectedEof);
    assert_eq!(u16::pull(&bytes, 2).unwrap_err().kind, ErrorKindSer::UnexpectedEof);
    assert_eq!(u8::pull(&bytes, 3).unwrap_err().kind, ErrorKindSer::UnexpectedEof);
    assert_eq!(bool::pull(&[], 0).unwrap_err().kind, ErrorKindSer::UnexpectedEof);
}

#[test]
fn booleans_are_one_byte() {
    assert_eq!(encode(&true), vec![1]);
    assert_eq!(encode(&false), vec![0]);
    assert_eq!(bool::pull(&[1], 0).unwrap(), (true, 1));
    assert_eq!(bool::pull(&[0], 0).unwrap(), (false, 1));
    // any byte other than 1 reads as false
    assert_eq!(bool::pull(&[2], 0).unwrap(), (false, 1));
}

#[test]
fn vectors_carry_their_length() {
    let v: Vec<u16> = vec![1, 0x0203];
    let bytes = encode(&v);
    assert_eq!(bytes, vec![0, 0, 0, 0, 0, 0, 0, 2, 0, 1, 2, 3]);
    let (back, end) = Vec::<u16>::pull(&bytes, 0).unwrap();
    assert_eq!(back, v);
    assert_eq!(end, 12);
    let empty: Vec<u8> = Vec::new();
    assert_eq!(encode(&empty), vec![0; 8]);
}

#[test]
fn vector_with_missing_items_is_unexpected_eof() {
    let bytes = vec![0, 0, 0, 0, 0, 0, 0, 3, 1, 2];
    assert_eq!(Vec::<u8>::pull(&bytes, 0).unwrap_err().kind, ErrorKindSer::UnexpectedEof);
}

#[test]
fn nested_vectors_round_trip() {
    let v: Vec<Vec<bool>> = vec![vec![true], vec![], vec![false, true]];
    let bytes = encode(&v);
    let (back, end) = Vec::<Vec<bool>>::pull(&bytes, 0).unwrap();
    assert_eq!(back, v);
    assert_eq!(end, bytes.len());
}

#[test]
fn slices_encode_like_vectors() {
    let items = [7u32, 8u32];
    let mut out = Vec::new();
    send_slice(&items, &mut out);
    assert_eq!(out, encode(&items.to_vec()));
}

#[test]
fn strings_carry_their_byte_length() {
    let s = String::from("hé");
    let bytes = encode(&s);
    assert_eq!(bytes, vec![0, 0, 0, 0, 0, 0, 0, 3, b'h', 0xc3, 0xa9]);
    assert_eq!(String::pull(&bytes, 0).unwrap(), (s, 11));
    let mut out = Vec::new();
    send_str("hé", &mut out);
    assert_eq!(out, bytes);
}

#[test]
fn string_encodes_like_its_bytes() {
    let s = String::from("canary");
    assert_eq!(encode(&s), encode(&s.as_bytes().to_vec()));
}

#[test]
fn invalid_utf8_is_refused() {
    let bytes = vec![0, 0, 0, 0, 0, 0, 0, 2, 0xff, 0xfe];
    assert_eq!(String::pull(&bytes, 0).unwrap_err().kind, ErrorKindSer::Other);
}

#[test]
fn tuples_are_their_items_in_order() {
    let t = (1u8, String::from("a"));
    let bytes = encode(&t);
    assert_eq!(bytes, vec![1, 0, 0, 0, 0, 0, 0, 0, 1, b'a']);
    assert_eq!(<(u8, String)>::pull(&bytes, 0).unwrap(), (t, 10));
    let t3 = (true, 2u16, -1i32);
    let bytes = encode(&t3);
    assert_eq!(bytes, vec![1, 0, 2, 0xff, 0xff, 0xff, 0xff]);
    assert_eq!(<(bool, u16, i32)>::pull(&bytes, 0).unwrap(), (t3, 7));
}

#[test]
fn arrays_are_their_items_without_a_count() {
    let a: [u16; 3] = [1, 2, 0x0304];
    let bytes = encode(&a);
    assert_eq!(bytes, vec![0, 1, 0, 2, 3, 4]);
    assert_eq!(<[u16; 3]>::pull(&bytes, 0).unwrap(), (a, 6));
    let empty: [u8; 0] = [];
    assert!(encode(&empty).is_empty());
    assert_eq!(<[u8; 0]>::pull(&[], 0).unwrap(), (empty, 0));
}

#[test]
fn short_array_is_unexpected_eof() {
    assert_eq!(<[u32; 2]>::pull(&[0, 0, 0, 1, 0], 0).unwrap_err().kind, ErrorKindSer::UnexpectedEof);
}

#[test]
fn arrays_of_strings_round_trip() {
    let a = [String::from("x"), String::from("yz")];
    let bytes = encode(&a);
    assert_eq!(<[String; 2]>::pull(&bytes, 0).unwrap(), (a, bytes.len()));
}
