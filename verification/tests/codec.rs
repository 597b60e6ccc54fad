use spoa::{
    FrameFlags, NBArgs, FrameFlagsParseError, FrameType, FrameTypeParseError, SupportVersion, TypedData,
    TypedDataParseError, Varint, VarintBinary, VarintString,
};

#[test]
fn test_new() {
    let val = FrameFlags::new(false, false).val();
    assert_eq!(val, 0);

    let val = FrameFlags::new(true, false).val();
    assert_eq!(val, 0x00000001u32);

    let val = FrameFlags::new(true, true).val();
    assert_eq!(val, 0x00000003u32);

    let val = FrameFlags::new(false, true).val();
    assert_eq!(val, 0x00000002u32);
}

#[test]
fn frame_flags_test_from() {
    let bytes = b"\0\0\0\x00".to_vec();
    let (frame_flags, _) = FrameFlags::decode(&bytes, 0).unwrap();
    assert_eq!(frame_flags.is_fin(), false);
    assert_eq!(frame_flags.is_abort(), false);

    let bytes = b"\0\0\0\x01".to_vec();
    let (frame_flags, _) = FrameFlags::decode(&bytes, 0).unwrap();
    assert_eq!(frame_flags.is_fin(), true);
    assert_eq!(frame_flags.is_abort(), false);

    let bytes = b"\0\0\0\x02".to_vec();
    if let Err(e) = FrameFlags::decode(&bytes, 0) {
        assert_eq!(e, FrameFlagsParseError::FINNotSet);
    } else {
        assert!(false, "should err");
    }

    let bytes = b"\0\0\0\x03".to_vec();
    let (frame_flags, _) = FrameFlags::decode(&bytes, 0).unwrap();
    assert_eq!(frame_flags.is_fin(), true);
    assert_eq!(frame_flags.is_abort(), true);
}

#[test]
fn frame_type_test_from() {
    let bytes = b"\x01".to_vec();
    let (frame_type, _) = FrameType::decode(&bytes, 0).unwrap();
    assert_eq!(frame_type, FrameType::HAPROXY_HELLO);

    let bytes = b"\x00".to_vec();
    let (frame_type, _) = FrameType::decode(&bytes, 0).unwrap();
    assert_eq!(frame_type, FrameType::UNSET);

    let bytes = b"\x65".to_vec();
    let (frame_type, _) = FrameType::decode(&bytes, 0).unwrap();
    assert_eq!(frame_type, FrameType::AGENT_HELLO);

    let bytes = b"\xff".to_vec();
    if let Err(e) = FrameType::decode(&bytes, 0) {
        assert_eq!(e, FrameTypeParseError::Invalid);
    } else {
        assert!(false, "should err");
    }
}

#[test]
fn test_x_val() {
    let varint: Varint = u32::MAX.into();
    assert_eq!(varint.u32_val(), Some(u32::MAX));
    assert_eq!(varint.i32_val(), Some(u32::MAX as i32));
    assert_eq!(varint.u64_val(), u32::MAX as u64);
    assert_eq!(varint.i64_val(), u32::MAX as i64);

    let varint: Varint = u64::MAX.into();
    assert_eq!(varint.u32_val(), None);
    assert_eq!(varint.i32_val(), None);
    assert_eq!(varint.u64_val(), u64::MAX);
    assert_eq!(varint.i64_val(), u64::MAX as i64);

    let varint: Varint = 1u32.into();
    assert_eq!(varint.u32_val(), Some(1));
    assert_eq!(varint.i32_val(), Some(1));
    assert_eq!(varint.u64_val(), 1);
    assert_eq!(varint.i64_val(), 1);

    let varint: Varint = 1u64.into();
    assert_eq!(varint.u32_val(), Some(1));
    assert_eq!(varint.i32_val(), Some(1));
    assert_eq!(varint.u64_val(), 1);
    assert_eq!(varint.i64_val(), 1);
}

#[test]
fn varint_test_from() {
    let results: Vec<(u64, Vec<u8>)> = vec![
        (0, vec![0]),
        (240, vec![0b_1111_0000_u8, 0]),
        (2288, vec![0b_1111_0000_u8, 0b_1000_0000_u8, 0]),
        (264432, vec![0b_1111_0000_u8, 0b_1000_0000_u8, 0b_1000_0000_u8, 0]),
        (
            33818864,
            vec![
                0b_1111_0000_u8,
                0b_1000_0000_u8,
                0b_1000_0000_u8,
                0b_1000_0000_u8,
                0,
            ],
        ),
        (240 - 1, vec![0b_1110_1111_u8]),
        (2288 - 1, vec![0b_1111_1111_u8, 0b_0111_1111_u8]),
        (264432 - 1, vec![0b_1111_1111_u8, 0b_1111_1111_u8, 0b_0111_1111_u8]),
        (
            33818864 - 1,
            vec![
                0b_1111_1111_u8,
                0b_1111_1111_u8,
                0b_1111_1111_u8,
                0b_0111_1111_u8,
            ],
        ),
        (
            4328786160 - 1,
            vec![
                0b_1111_1111_u8,
                0b_1111_1111_u8,
                0b_1111_1111_u8,
                0b_1111_1111_u8,
                0b_0111_1111_u8,
            ],
        ),
        (u8::MAX as u64, vec![0b_1111_1111_u8, 0]),
        (u16::MAX as u64, vec![0b_1111_1111_u8, 0b_1111_0000_u8, 30]),
        (
            u32::MAX as u64,
            vec![0b_1111_1111_u8, 0b_1111_0000_u8, 254, 254, 126],
        ),
        (
            u64::MAX,
            vec![
                0b_1111_1111_u8,
                0b_1111_0000_u8,
                254,
                254,
                254,
                254,
                254,
                254,
                254,
                14,
            ],
        ),
    ];

    for (val, bytes) in results {
        let (varint, end) = Varint::decode(&bytes, 0).unwrap();
        assert_eq!(varint.u64_val(), val);
        assert_eq!(end, bytes.len());
    }
}

#[test]
fn varint_encode_round_trip() {
    let values: Vec<u64> = vec![
        0,
        239,
        240,
        2287,
        2288,
        264431,
        264432,
        33818863,
        33818864,
        u32::MAX as u64,
        u64::MAX,
    ];
    for v in values {
        let mut buf: Vec<u8> = Vec::new();
        let varint: Varint = v.into();
        varint.write_to(&mut buf);
        let (decoded, end) = Varint::decode(&buf, 0).unwrap();
        assert_eq!(decoded.u64_val(), v);
        assert_eq!(end, buf.len());
    }
}

#[test]
fn varint_encode_exact_bytes() {
    let mut buf: Vec<u8> = Vec::new();
    let varint: Varint = 0u64.into();
    varint.write_to(&mut buf);
    assert_eq!(buf, vec![0u8]);

    let mut buf: Vec<u8> = Vec::new();
    let varint: Varint = 239u64.into();
    varint.write_to(&mut buf);
    assert_eq!(buf, vec![0xefu8]);

    let mut buf: Vec<u8> = Vec::new();
    let varint: Varint = 240u64.into();
    varint.write_to(&mut buf);
    assert_eq!(buf, vec![0xf0u8, 0]);

    let mut buf: Vec<u8> = Vec::new();
    let varint: Varint = 2287u64.into();
    varint.write_to(&mut buf);
    assert_eq!(buf, vec![0xffu8, 0x7f]);

    let mut buf: Vec<u8> = Vec::new();
    let varint: Varint = 2288u64.into();
    varint.write_to(&mut buf);
    assert_eq!(buf, vec![0xf0u8, 0x80, 0]);

    let mut buf: Vec<u8> = Vec::new();
    let varint: Varint = u32::MAX.into();
    varint.write_to(&mut buf);
    assert_eq!(buf, vec![0xffu8, 0xf0, 254, 254, 126]);
}

#[test]
fn varint_insufficient_bytes() {
    let bytes: Vec<u8> = vec![0xf0, 0x80];
    assert!(Varint::decode(&bytes, 0).is_err());
    let bytes: Vec<u8> = vec![];
    assert!(Varint::decode(&bytes, 0).is_err());
}

#[test]
fn typed_data_test_from() {
    let bytes = vec![0b_0000_0000_u8];
    let (typed_data, _) = TypedData::decode(&bytes, 0).unwrap();
    assert_eq!(typed_data, TypedData::NULL);

    let bytes = vec![0b_0000_0001_u8];
    let (typed_data, _) = TypedData::decode(&bytes, 0).unwrap();
    assert_eq!(typed_data, TypedData::BOOL(false));

    let bytes = vec![0b_1000_0001_u8];
    let (typed_data, _) = TypedData::decode(&bytes, 0).unwrap();
    assert_eq!(typed_data, TypedData::BOOL(true));

    let bytes = vec![0b_0000_0010_u8, 0x01];
    let (typed_data, _) = TypedData::decode(&bytes, 0).unwrap();
    assert_eq!(typed_data, TypedData::INT32(1));

    let bytes = vec![0b_0000_0011_u8, 0x01];
    let (typed_data, _) = TypedData::decode(&bytes, 0).unwrap();
    assert_eq!(typed_data, TypedData::UINT32(1));

    let bytes = vec![0b_0000_0100_u8, 0x01];
    let (typed_data, _) = TypedData::decode(&bytes, 0).unwrap();
    assert_eq!(typed_data, TypedData::INT64(1));

    let bytes = vec![0b_0000_0101_u8, 0x01];
    let (typed_data, _) = TypedData::decode(&bytes, 0).unwrap();
    assert_eq!(typed_data, TypedData::UINT64(1));

    let bytes = vec![0b_0000_0110_u8, 0x01, 0x01, 0x01, 0x01];
    let (typed_data, _) = TypedData::decode(&bytes, 0).unwrap();
    assert_eq!(typed_data, TypedData::IPV4([1, 1, 1, 1]));

    let bytes = vec![
        0b_0000_0111_u8,
        0x00,
        0x01,
        0x00,
        0x01,
        0x00,
        0x01,
        0x00,
        0x01,
        0x00,
        0x01,
        0x00,
        0x01,
        0x00,
        0x01,
        0x00,
        0x01,
    ];
    let (typed_data, _) = TypedData::decode(&bytes, 0).unwrap();
    assert_eq!(
        typed_data,
        TypedData::IPV6([0, 1, 0, 1, 0, 1, 0, 1, 0, 1, 0, 1, 0, 1, 0, 1])
    );

    let bytes = vec![0b_0000_1000_u8, 0x01, b'a'];
    let (typed_data, _) = TypedData::decode(&bytes, 0).unwrap();
    assert_eq!(typed_data, TypedData::STRING(VarintString::new("a")));

    let bytes = vec![0b_0000_1001_u8, 0x01, b'a'];
    let (typed_data, _) = TypedData::decode(&bytes, 0).unwrap();
    assert_eq!(typed_data, TypedData::BINARY(VarintBinary::new(&vec![b'a'])));
}

#[test]
fn typed_data_invalid_type() {
    let bytes = vec![0xffu8];
    assert_eq!(
        TypedData::decode(&bytes, 0).unwrap_err(),
        TypedDataParseError::InvalidType
    );

    let bytes = vec![0x0au8];
    assert_eq!(
        TypedData::decode(&bytes, 0).unwrap_err(),
        TypedDataParseError::InvalidType
    );
}

#[test]
fn typed_data_round_trip() {
    let values = vec![
        TypedData::NULL,
        TypedData::BOOL(true),
        TypedData::BOOL(false),
        TypedData::INT32(-1),
        TypedData::INT32(7),
        TypedData::UINT32(4_000_000_000),
        TypedData::INT64(-5),
        TypedData::UINT64(u64::MAX),
        TypedData::IPV4([127, 0, 0, 1]),
        TypedData::IPV6([0, 0, 0, 0, 0, 0, 0, 0, 0, 0, 0, 0, 0, 0, 0, 1]),
        TypedData::STRING(VarintString::new("hello world")),
        TypedData::BINARY(VarintBinary::new(&vec![0, 1, 2, 255])),
    ];
    for value in values {
        let mut buf: Vec<u8> = Vec::new();
        value.write_to(&mut buf);
        let (decoded, end) = TypedData::decode(&buf, 0).unwrap();
        assert_eq!(decoded, value);
        assert_eq!(end, buf.len());
    }
}

#[test]
fn string_round_trip() {
    for s in ["", "a", "demo", "espa\u{f1}ol", "\u{1f600}"] {
        let v = VarintString::new(s);
        let mut buf: Vec<u8> = Vec::new();
        v.write_to(&mut buf);
        let (decoded, end) = VarintString::decode(&buf, 0).unwrap();
        assert_eq!(decoded.val(), s);
        assert_eq!(end, buf.len());
    }
}

#[test]
fn string_rejects_invalid_utf8() {
    // length 1, then a lone continuation byte
    let bytes: Vec<u8> = vec![0x01, 0x80];
    assert!(VarintString::decode(&bytes, 0).is_err());
}

#[test]
fn version_parse_forms() {
    assert_eq!(SupportVersion::parse("2.0"), Some(SupportVersion::new(2, 0, 0)));
    assert_eq!(SupportVersion::parse(" 2.0 "), Some(SupportVersion::new(2, 0, 0)));
    assert_eq!(SupportVersion::parse("1.12.3"), Some(SupportVersion::new(1, 12, 3)));
    assert_eq!(SupportVersion::parse("2"), None);
    assert_eq!(SupportVersion::parse(""), None);
    assert_eq!(SupportVersion::parse("2."), None);
    assert_eq!(SupportVersion::parse("a.b"), None);
    assert_eq!(SupportVersion::parse("2.0.0.0"), None);
    assert_eq!(SupportVersion::parse("99999999999999999999999.0"), None);
}

#[test]
fn version_to_string() {
    assert_eq!(SupportVersion::new(2, 0, 0).to_string(), "2.0");
    assert_eq!(SupportVersion::new(10, 25, 3).to_string(), "10.25");
}

#[test]
fn varint_encode_exact_bytes_long() {
    let cases: Vec<(u64, Vec<u8>)> = vec![
        (264431, vec![0xff, 0xff, 0x7f]),
        (264432, vec![0xf0, 0x80, 0x80, 0]),
        (33818863, vec![0xff, 0xff, 0xff, 0x7f]),
        (33818864, vec![0xf0, 0x80, 0x80, 0x80, 0]),
        (u64::MAX, vec![0xff, 0xf0, 254, 254, 254, 254, 254, 254, 254, 14]),
    ];
    for (v, expected) in cases {
        let mut buf: Vec<u8> = Vec::new();
        let varint: Varint = v.into();
        varint.write_to(&mut buf);
        assert_eq!(buf, expected);
    }
}

#[test]
fn nb_args_codec() {
    let nb = NBArgs::new(7);
    assert_eq!(nb.val(), 7);
    let mut buf: Vec<u8> = Vec::new();
    nb.write_to(&mut buf);
    assert_eq!(buf, vec![7u8]);
    let (decoded, end) = NBArgs::decode(&buf, 0).unwrap();
    assert_eq!(decoded.val(), 7);
    assert_eq!(end, 1);
    let empty: Vec<u8> = Vec::new();
    assert!(NBArgs::decode(&empty, 0).is_err());
}

#[test]
fn binary_round_trip() {
    let blob = VarintBinary::new(&vec![0u8, 255, 3]);
    assert_eq!(blob.val(), &[0u8, 255, 3]);
    let mut buf: Vec<u8> = Vec::new();
    blob.write_to(&mut buf);
    assert_eq!(buf, vec![3u8, 0, 255, 3]);
    let (decoded, end) = VarintBinary::decode(&buf, 0).unwrap();
    assert_eq!(decoded, blob);
    assert_eq!(end, buf.len());
}
