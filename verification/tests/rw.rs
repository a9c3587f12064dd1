use tryfol::ipc::packet::{Clientbound, Serverbound, StreamPacket};
use tryfol::ipc::rw::{decode, encode, InvalidDiscriminantError, Read, ReadError, Write};

#[test]
fn test_read_unit() {
    let data: [u8; 0] = [];
    let result = <()>::read(&data, 0).unwrap();
    assert_eq!(result, ((), 0));
}

#[test]
fn test_write_unit() {
    let mut out = Vec::new();
    ().write(&mut out);
    assert_eq!(out, Vec::<u8>::new());
}

#[test]
fn test_read_u8() {
    let data = [42u8];
    let (result, _) = u8::read(&data, 0).unwrap();
    assert_eq!(result, 42);
}

#[test]
fn test_write_u8() {
    let mut out = Vec::new();
    42u8.write(&mut out);
    assert_eq!(out, vec![42]);
}

#[test]
fn test_read_i8() {
    let data = [255u8];
    let (result, _) = i8::read(&data, 0).unwrap();
    assert_eq!(result, -1);
}

#[test]
fn test_write_i8() {
    let mut out = Vec::new();
    (-1i8).write(&mut out);
    assert_eq!(out, vec![255]);
}

#[test]
fn test_read_string() {
    let data = [0u8, 0, 0, 0, 0, 0, 0, 5, 72, 101, 108, 108, 111];
    let (result, used) = String::read(&data, 0).unwrap();
    assert_eq!(result, "Hello");
    assert_eq!(used, 13);
}

#[test]
fn test_write_str() {
    let mut out = Vec::new();
    "Hello".write(&mut out);
    assert_eq!(out, vec![0, 0, 0, 0, 0, 0, 0, 5, 72, 101, 108, 108, 111]);
}

#[test]
fn test_write_string() {
    let mut out = Vec::new();
    "Hello".to_string().write(&mut out);
    assert_eq!(out, vec![0, 0, 0, 0, 0, 0, 0, 5, 72, 101, 108, 108, 111]);
}

#[test]
fn test_read_vec_u8() {
    let data = [0u8, 0, 0, 0, 0, 0, 0, 3, 1, 2, 3];
    let (result, _): (Vec<u8>, usize) = Vec::read(&data, 0).unwrap();
    assert_eq!(result, vec![1, 2, 3]);
}

#[test]
fn test_write_slice() {
    let mut out = Vec::new();
    let items: &[u8] = &[1u8, 2, 3];
    items.write(&mut out);
    assert_eq!(out, vec![0, 0, 0, 0, 0, 0, 0, 3, 1, 2, 3]);
}

#[test]
fn test_write_ref_slice() {
    let mut out = Vec::new();
    (&[1u8, 2, 3] as &[u8]).write(&mut out);
    assert_eq!(out, vec![0, 0, 0, 0, 0, 0, 0, 3, 1, 2, 3]);
}

#[test]
fn test_write_vec_u8() {
    let mut out = Vec::new();
    vec![1u8, 2, 3].write(&mut out);
    assert_eq!(out, vec![0, 0, 0, 0, 0, 0, 0, 3, 1, 2, 3]);
}

#[test]
fn test_read_result_ok() {
    let data = [0u8, 0, 0, 0, 0, 0, 0, 0, 42];
    let (result, _) = <Result<u8, u8>>::read(&data, 0).unwrap();
    assert_eq!(result, Ok(42));
}

#[test]
fn test_read_result_err() {
    let data = [0u8, 0, 0, 0, 0, 0, 0, 1, 24];
    let (result, _) = <Result<u8, u8>>::read(&data, 0).unwrap();
    assert_eq!(result, Err(24));
}

#[test]
fn test_write_result_ok() {
    let mut out = Vec::new();
    let val: Result<u8, u8> = Ok(99);
    val.write(&mut out);
    assert_eq!(out, vec![0, 0, 0, 0, 0, 0, 0, 0, 99]);
}

#[test]
fn test_write_result_err() {
    let mut out = Vec::new();
    let val: Result<u8, u8> = Err(101);
    val.write(&mut out);
    assert_eq!(out, vec![0, 0, 0, 0, 0, 0, 0, 1, 101]);
}

#[test]
fn test_read_option_some() {
    let data = [0u8, 0, 0, 0, 0, 0, 0, 0, 42];
    let (result, _) = <Option<u8>>::read(&data, 0).unwrap();
    assert_eq!(result, Some(42));
}

#[test]
fn test_read_option_none() {
    let data = [0u8, 0, 0, 0, 0, 0, 0, 1];
    let (result, _) = <Option<u8>>::read(&data, 0).unwrap();
    assert_eq!(result, None);
}

#[test]
fn test_write_option_some() {
    let mut out = Vec::new();
    let val: Option<u8> = Some(99);
    val.write(&mut out);
    assert_eq!(out, vec![0, 0, 0, 0, 0, 0, 0, 0, 99]);
}

#[test]
fn test_write_option_none() {
    let mut out = Vec::new();
    let val: Option<u8> = None;
    val.write(&mut out);
    assert_eq!(out, vec![0, 0, 0, 0, 0, 0, 0, 1]);
}

#[test]
fn integers_are_big_endian() {
    assert_eq!(encode(&0x0102u16), vec![1, 2]);
    assert_eq!(encode(&0x0102_0304u32), vec![1, 2, 3, 4]);
    assert_eq!(encode(&0x0102_0304_0506_0708u64), vec![1, 2, 3, 4, 5, 6, 7, 8]);
    assert_eq!(encode(&-2i16), vec![0xff, 0xfe]);
    assert_eq!(encode(&-1i32), vec![0xff; 4]);
    assert_eq!(encode(&i64::MIN), vec![0x80, 0, 0, 0, 0, 0, 0, 0]);
}

#[test]
fn integers_read_back() {
    for v in [0u32, 1, 255, 256, 0xdead_beef, u32::MAX] {
        let bytes = encode(&v);
        assert_eq!(decode::<u32>(&bytes), Ok((v, 4)));
    }
    for v in [i64::MIN, -1, 0, 1, i64::MAX] {
        let bytes = encode(&v);
        assert_eq!(decode::<i64>(&bytes), Ok((v, 8)));
    }
}

#[test]
fn read_at_position_and_trailing_bytes() {
    let data = [9u8, 9, 0, 7, 1, 1];
    assert_eq!(u16::read(&data, 2), Ok((7, 4)));
}

#[test]
fn short_input_is_unexpected_eof() {
    assert_eq!(decode::<u32>(&[1, 2, 3]), Err(ReadError::UnexpectedEof));
    assert_eq!(decode::<String>(&[0, 0, 0, 0, 0, 0, 0, 5, 72]), Err(ReadError::UnexpectedEof));
    assert_eq!(decode::<u8>(&[]), Err(ReadError::UnexpectedEof));
}

#[test]
fn invalid_utf8_text_is_refused() {
    assert_eq!(decode::<String>(&[0, 0, 0, 0, 0, 0, 0, 1, 0xff]), Err(ReadError::InvalidUtf8));
}

#[test]
fn huge_length_is_refused() {
    let data = [0xffu8, 0xff, 0xff, 0xff, 0xff, 0xff, 0xff, 0xff];
    let r = decode::<Vec<u8>>(&data);
    assert!(r == Err(ReadError::LengthOverflow) || r == Err(ReadError::UnexpectedEof));
}

#[test]
fn invalid_discriminants_are_refused() {
    let data = [0u8, 0, 0, 0, 0, 0, 0, 2, 1];
    match decode::<Option<u8>>(&data) {
        Err(ReadError::InvalidDiscriminant(InvalidDiscriminantError { enum_name, value })) => {
            assert_eq!(enum_name, "Option");
            assert_eq!(value, 2);
        }
        other => panic!("unexpected {other:?}"),
    }
    match decode::<Result<u8, u8>>(&[0, 0, 0, 0, 0, 0, 0, 7, 1]) {
        Err(ReadError::InvalidDiscriminant(e)) => assert_eq!(e.value, 7),
        other => panic!("unexpected {other:?}"),
    }
}

#[test]
fn nested_values_round_trip() {
    let v: Vec<Option<String>> = vec![Some("a".to_string()), None, Some(String::new())];
    let bytes = encode(&v);
    let (back, used): (Vec<Option<String>>, usize) = decode(&bytes).unwrap();
    assert_eq!(back, v);
    assert_eq!(used, bytes.len());
}

#[test]
fn clientbound_packet_bytes() {
    let p = Clientbound { call_id: 3, payload: 7u8 };
    assert_eq!(encode(&p), vec![0, 0, 0, 0, 0, 0, 0, 3, 7]);
    let (back, used): (Clientbound<u8>, usize) = decode(&encode(&p)).unwrap();
    assert_eq!(back, p);
    assert_eq!(used, 9);
}

#[test]
fn serverbound_packet_round_trip() {
    let p = Serverbound { call_id: u64::MAX, payload: "ok".to_string() };
    let bytes = encode(&p);
    assert_eq!(&bytes[..8], &[0xff; 8]);
    let (back, _): (Serverbound<String>, usize) = decode(&bytes).unwrap();
    assert_eq!(back, p);
}

#[test]
fn stream_packet_discriminants() {
    let v: StreamPacket<u8, u8> = StreamPacket::Value(5);
    let e: StreamPacket<u8, u8> = StreamPacket::Error(6);
    let end: StreamPacket<u8, u8> = StreamPacket::EndOfStream;
    assert_eq!(encode(&v), vec![0, 0, 0, 0, 0, 0, 0, 0, 5]);
    assert_eq!(encode(&e), vec![0, 0, 0, 0, 0, 0, 0, 1, 6]);
    assert_eq!(encode(&end), vec![0, 0, 0, 0, 0, 0, 0, 2]);
    for p in [v, e, end] {
        let (back, _): (StreamPacket<u8, u8>, usize) = decode(&encode(&p)).unwrap();
        assert_eq!(back, p);
    }
    assert!(matches!(
        decode::<StreamPacket<u8, u8>>(&[0, 0, 0, 0, 0, 0, 0, 3]),
        Err(ReadError::InvalidDiscriminant(_))
    ));
}

#[test]
fn invalid_discriminant_message() {
    let e = InvalidDiscriminantError { enum_name: "Option", value: 42 };
    assert_eq!(e.message(), "Invalid discriminant for Option: 42");
}

#[test]
fn test_read_cow_str() {
    let data = [0u8, 0, 0, 0, 0, 0, 0, 5, 72, 101, 108, 108, 111];
    let (result, used): (std::borrow::Cow<str>, usize) = std::borrow::Cow::read(&data, 0).unwrap();
    assert_eq!(result, "Hello");
    assert!(matches!(result, std::borrow::Cow::Owned(_)));
    assert_eq!(used, 13);
}

#[test]
fn test_write_cow_str_borrowed() {
    let mut out = Vec::new();
    let cow: std::borrow::Cow<str> = std::borrow::Cow::Borrowed("Hello");
    cow.write(&mut out);
    assert_eq!(out, vec![0, 0, 0, 0, 0, 0, 0, 5, 72, 101, 108, 108, 111]);
}

#[test]
fn test_write_cow_str_owned() {
    let mut out = Vec::new();
    let cow: std::borrow::Cow<str> = std::borrow::Cow::Owned("Hello".to_string());
    cow.write(&mut out);
    assert_eq!(out, vec![0, 0, 0, 0, 0, 0, 0, 5, 72, 101, 108, 108, 111]);
}
