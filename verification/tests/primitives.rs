use kafka_broker::messages::primitives::{
    CompactArray, CompactString, Deserialize, NullableString, ParseError, Serialize, TaggedFields,
    UnsignedVarint, Uuid,
};

#[test]
fn test_deserialize_unsigned_varint() {
    let org = [0b10010110, 0b00000001];
    let exp = Ok((UnsignedVarint { val: 150 }, 2));
    let got = UnsignedVarint::parse(&org);
    assert_eq!(exp, got);
}

#[test]
fn test_serialize_unsigned_varint_a() {
    let org = UnsignedVarint { val: 150 };

    let mut buf = [0; 4];
    let exp = [0b10010110, 0b00000001];
    let got = org.write(&mut buf);
    assert_eq!(Ok(2), got);
    assert_eq!(exp, buf[..2]);
}

#[test]
fn test_serialize_unsigned_varint_b() {
    let org = UnsignedVarint { val: 0x01_00_00_01 };

    let mut buf = [0; 4];
    let exp = [0b1000_0001, 0b1000_0000, 0b1000_0000, 0b0000_1000];

    let got = org.write(&mut buf);
    assert_eq!(Ok(4), got);
    assert_eq!(exp, buf);
}

#[test]
fn varint_roundtrip_on_group_boundaries() {
    for v in [0u32, 1, 127, 128, 16383, 16384, 0x1f_ffff, 0x20_0000, 0x0fff_ffff, 0x1000_0000, u32::MAX] {
        let mut buf = [0xaau8; 8];
        let n = UnsignedVarint { val: v }.write(&mut buf).unwrap();
        assert_eq!(Some(n), UnsignedVarint { val: v }.encoded_len());
        // a byte that follows the encoding is not read
        let got = UnsignedVarint::parse(&buf).unwrap();
        assert_eq!(got, (UnsignedVarint { val: v }, n));
        assert_eq!(buf[n], 0xaa);
    }
}

#[test]
fn varint_lengths() {
    let mut buf = [0u8; 8];
    assert_eq!(UnsignedVarint { val: 127 }.write(&mut buf), Ok(1));
    assert_eq!(UnsignedVarint { val: 128 }.write(&mut buf), Ok(2));
    assert_eq!(buf[..2], [0x80, 0x01]);
    assert_eq!(UnsignedVarint { val: u32::MAX }.write(&mut buf), Ok(5));
    assert_eq!(buf[..5], [0xff, 0xff, 0xff, 0xff, 0x0f]);
}

#[test]
fn varint_without_end_has_no_outcome() {
    // every byte announces another one
    assert!(UnsignedVarint::try_parse(&[0x80, 0x80]).is_none());
    assert!(UnsignedVarint::try_parse(&[]).is_none());
    // more than five bytes do not fit in 32 bits
    assert!(UnsignedVarint::try_parse(&[0x80, 0x80, 0x80, 0x80, 0x80, 0x01]).is_none());
    // five bytes do, with the bits past the 32nd dropped
    assert_eq!(
        UnsignedVarint::try_parse(&[0xff, 0xff, 0xff, 0xff, 0x7f]),
        Some(Ok((UnsignedVarint { val: u32::MAX }, 5)))
    );
}

#[test]
fn non_minimal_varint_is_read() {
    assert_eq!(UnsignedVarint::parse(&[0x80, 0x00]), Ok((UnsignedVarint { val: 0 }, 2)));
}

#[test]
fn uuid_roundtrip_with_a_following_byte() {
    let u = Uuid { uuid: 0x0011_2233_4455_6677_8899_aabb_ccdd_eeff };
    let mut buf = [0u8; 17];
    assert_eq!(u.write(&mut buf), Ok(16));
    assert_eq!(buf[0], 0x00);
    assert_eq!(buf[15], 0xff);
    let (got, n) = Uuid::parse(&buf).unwrap();
    assert_eq!(got.uuid, u.uuid);
    assert_eq!(n, 16);
}

#[test]
fn uuid_of_sixteen_bytes_is_refused() {
    let buf = [1u8; 16];
    assert_eq!(Uuid::parse(&buf).err(), Some(ParseError::InvalidSize(16, 16)));
    assert_eq!(Uuid::parse(&buf[..3]).err(), Some(ParseError::InvalidSize(3, 16)));
}

#[test]
fn nullable_string_cases() {
    let (s, n) = NullableString::parse(&[0xff, 0xff, 9]).unwrap();
    assert_eq!(s.str, None);
    assert_eq!(n, 2);
    // any negative length is null, not only -1
    let (s, n) = NullableString::parse(&[0xff, 0xfe, b'x']).unwrap();
    assert_eq!(s.str, None);
    assert_eq!(n, 2);
    // a length of zero is the empty string, not null
    let (s, n) = NullableString::parse(&[0x00, 0x00]).unwrap();
    assert_eq!(s.str, Some(String::new()));
    assert_eq!(n, 2);
    let (s, n) = NullableString::parse(&[0x00, 0x02, b'h', b'i', b'!']).unwrap();
    assert_eq!(s.str.as_deref(), Some("hi"));
    assert_eq!(n, 4);
    assert!(matches!(
        NullableString::parse(&[0x00, 0x01, 0xff]),
        Err(ParseError::InvalidUtf8Str(_))
    ));
    // a length past the end of the buffer has no outcome
    assert!(NullableString::try_parse(&[0x00, 0x05, b'a']).is_none());
    assert!(NullableString::try_parse(&[0x00]).is_none());
}

#[test]
fn compact_string_cases() {
    let (s, n) = CompactString::parse(&[0x04, b'0', b'.', b'1', 0x00]).unwrap();
    assert_eq!(s.str, "0.1");
    assert_eq!(n, 4);
    let (s, n) = CompactString::parse(&[0x00]).unwrap();
    assert_eq!(s.str, "");
    assert_eq!(n, 1);
    assert!(matches!(CompactString::parse(&[0x02, 0xc3]), Err(ParseError::InvalidUtf8(_))));
}

#[test]
fn compact_array_of_i32() {
    let buf = [0x03, 0, 0, 0, 7, 0xff, 0xff, 0xff, 0xfe, 0x55];
    let (arr, n) = CompactArray::<i32>::parse(&buf).unwrap();
    assert_eq!(arr.vec, vec![7, -2]);
    assert_eq!(n, 9);
    // a null array (length field 0) is read as empty
    let (arr, n) = CompactArray::<i32>::parse(&[0x00]).unwrap();
    assert!(arr.vec.is_empty());
    assert_eq!(n, 1);
    // an element past the end has no outcome
    assert!(CompactArray::<i32>::try_parse(&[0x02, 0, 0]).is_none());
}

#[test]
fn compact_array_error_of_an_element() {
    // one UUID element with sixteen bytes only
    let mut buf = vec![0x02];
    buf.extend_from_slice(&[0u8; 16]);
    assert_eq!(CompactArray::<Uuid>::parse(&buf).err(), Some(ParseError::InvalidSize(16, 16)));
}

#[test]
fn compact_array_write() {
    let arr = CompactArray { vec: vec![Uuid { uuid: 1 }, Uuid { uuid: 2 }] };
    let mut buf = [0u8; 40];
    assert_eq!(arr.write(&mut buf), Ok(33));
    assert_eq!(arr.encoded_len(), Some(33));
    assert_eq!(buf[0], 0x03);
    assert_eq!(buf[16], 1);
    assert_eq!(buf[32], 2);
}

#[test]
fn tagged_fields_cases() {
    assert_eq!(TaggedFields::parse(&[0x00, 0x05]).map(|(_, n)| n), Ok(1));
    assert!(TaggedFields::try_parse(&[0x01]).is_none());
    assert!(TaggedFields::try_parse(&[]).is_none());
    let mut buf = [9u8; 2];
    assert_eq!(TaggedFields.write(&mut buf), Ok(1));
    assert_eq!(buf, [0, 9]);
}

#[test]
fn compact_array_roundtrip_of_varints() {
    let arr = CompactArray {
        vec: vec![UnsignedVarint { val: 1 }, UnsignedVarint { val: 300 }, UnsignedVarint { val: 0 }],
    };
    let mut buf = [0xeeu8; 8];
    let n = arr.write(&mut buf).unwrap();
    assert_eq!(n, 5);
    assert_eq!(buf[..5], [0x04, 0x01, 0xac, 0x02, 0x00]);
    let (back, m) = CompactArray::<UnsignedVarint>::parse(&buf).unwrap();
    assert_eq!(m, 5);
    assert_eq!(back.vec, arr.vec);
}
