use beam_harness::coders::{
    BytesCoder, Context, DecodeError, StrUtf8Coder, VarIntCoder, BYTES_CODER_URN,
    NULLABLE_CODER_URN, STR_UTF8_CODER_URN, VARINT_CODER_URN,
};
use beam_harness::element::{
    coder_from_urn, decode_element, encode_element, Element, NullableCoder, StandardCoder,
};
use bytes::Bytes;

fn varint_of(v: u64) -> Vec<u8> {
    let mut out = Vec::new();
    let n = VarIntCoder::default().encode(v, &mut out, Context::Delimited);
    assert_eq!(n, out.len());
    out
}

#[test]
fn varint_known_encodings() {
    assert_eq!(varint_of(0), vec![0x00]);
    assert_eq!(varint_of(1), vec![0x01]);
    assert_eq!(varint_of(127), vec![0x7f]);
    assert_eq!(varint_of(128), vec![0x80, 0x01]);
    assert_eq!(varint_of(300), vec![0xac, 0x02]);
    assert_eq!(
        varint_of(u64::MAX),
        vec![0xff, 0xff, 0xff, 0xff, 0xff, 0xff, 0xff, 0xff, 0xff, 0x01]
    );
}

#[test]
fn varint_round_trip_values() {
    let coder = VarIntCoder::default();
    for v in [0u64, 1, 127, 128, 300, 1 << 35, u64::MAX - 1, u64::MAX] {
        let enc = varint_of(v);
        assert_eq!(coder.decode(&enc, Context::Delimited), Ok((v, enc.len())));
        assert_eq!(coder.decode(&enc, Context::WholeStream), Ok((v, enc.len())));
    }
}

#[test]
fn varint_two_values_in_sequence() {
    let coder = VarIntCoder::default();
    let mut buf = Vec::new();
    coder.encode(300, &mut buf, Context::Delimited);
    coder.encode(7, &mut buf, Context::Delimited);
    let (a, n) = coder.decode(&buf, Context::Delimited).unwrap();
    assert_eq!((a, n), (300, 2));
    let (b, m) = coder.decode(&buf[n..], Context::Delimited).unwrap();
    assert_eq!((b, m), (7, 1));
    assert_eq!(n + m, buf.len());
}

#[test]
fn varint_signed_shares_unsigned_bits() {
    let coder = VarIntCoder::default();
    let mut neg = Vec::new();
    coder.encode_signed(-1, &mut neg, Context::Delimited);
    assert_eq!(neg, varint_of(u64::MAX));
    assert_eq!(coder.decode_signed(&neg, Context::Delimited), Ok((-1i64, 10)));
    assert_eq!(coder.decode(&neg, Context::Delimited), Ok((u64::MAX, 10)));
    let mut pos = Vec::new();
    coder.encode_signed(i64::MAX, &mut pos, Context::Delimited);
    assert_eq!(coder.decode_signed(&pos, Context::Delimited), Ok((i64::MAX, 9)));
}

#[test]
fn varint_decode_errors() {
    let coder = VarIntCoder::default();
    assert_eq!(coder.decode(&[], Context::Delimited), Err(DecodeError::Truncated));
    assert_eq!(coder.decode(&[0x80, 0x80], Context::Delimited), Err(DecodeError::Truncated));
    assert_eq!(coder.decode(&[0x80; 10], Context::Delimited), Err(DecodeError::VarIntOverflow));
    let mut too_big = vec![0xff; 9];
    too_big.push(0x02);
    assert_eq!(coder.decode(&too_big, Context::Delimited), Err(DecodeError::VarIntOverflow));
}

#[test]
fn varint_accepts_padded_zero() {
    let coder = VarIntCoder::default();
    assert_eq!(coder.decode(&[0x80, 0x00, 0x05], Context::Delimited), Ok((0, 2)));
}

#[test]
fn bytes_encodings_by_context() {
    let coder = BytesCoder::default();
    let b = Bytes::from(vec![1u8, 2, 3]);
    let mut d = Vec::new();
    assert_eq!(coder.encode(&b, &mut d, Context::Delimited), 4);
    assert_eq!(d, vec![3, 1, 2, 3]);
    let mut w = Vec::new();
    assert_eq!(coder.encode(&b, &mut w, Context::WholeStream), 3);
    assert_eq!(w, vec![1, 2, 3]);
    let (back, n) = coder.decode(&w, Context::WholeStream).unwrap();
    assert_eq!(back.as_ref(), &[1u8, 2, 3]);
    assert_eq!(n, 3);
}

#[test]
fn bytes_delimited_leaves_trailing_bytes() {
    let coder = BytesCoder::default();
    let b = Bytes::from(vec![9u8, 8, 7, 6]);
    let mut buf = Vec::new();
    coder.encode(&b, &mut buf, Context::Delimited);
    buf.extend_from_slice(&[0xaa, 0xbb]);
    let (back, n) = coder.decode(&buf, Context::Delimited).unwrap();
    assert_eq!(back.as_ref(), &[9u8, 8, 7, 6]);
    assert_eq!(n, 5);
    assert_eq!(&buf[n..], &[0xaa, 0xbb]);
}

#[test]
fn bytes_empty_and_truncated() {
    let coder = BytesCoder::default();
    let mut buf = Vec::new();
    coder.encode(&Bytes::new(), &mut buf, Context::Delimited);
    assert_eq!(buf, vec![0]);
    let (back, n) = coder.decode(&buf, Context::Delimited).unwrap();
    assert!(back.is_empty());
    assert_eq!(n, 1);
    assert_eq!(coder.decode(&[5, 1, 2], Context::Delimited).map(|(b, n)| (b.to_vec(), n)), Err(DecodeError::Truncated));
}

#[test]
fn string_round_trip() {
    let coder = StrUtf8Coder::default();
    let s = String::from("h\u{e9}llo \u{1f600}");
    for ctx in [Context::Delimited, Context::WholeStream] {
        let mut buf = Vec::new();
        let n = coder.encode(&s, &mut buf, ctx);
        assert_eq!(n, buf.len());
        assert_eq!(coder.decode(&buf, ctx), Ok((s.clone(), n)));
    }
    let mut buf = Vec::new();
    coder.encode(&String::from("ab"), &mut buf, Context::Delimited);
    assert_eq!(buf, vec![2, b'a', b'b']);
}

#[test]
fn string_rejects_invalid_utf8() {
    let coder = StrUtf8Coder::default();
    assert_eq!(coder.decode(&[2, 0xff, 0xfe], Context::Delimited), Err(DecodeError::InvalidUtf8));
    assert_eq!(coder.decode(&[0xc3], Context::WholeStream), Err(DecodeError::InvalidUtf8));
}

#[test]
fn nullable_encodings() {
    let coder = NullableCoder::new(StandardCoder::VarInt);
    let mut buf = Vec::new();
    assert_eq!(coder.encode(&Element::Null, &mut buf, Context::Delimited), 1);
    assert_eq!(buf, vec![0]);
    let mut buf = Vec::new();
    let present = Element::Present(Box::new(Element::VarInt(300)));
    assert_eq!(coder.encode(&present, &mut buf, Context::Delimited), 3);
    assert_eq!(buf, vec![1, 0xac, 0x02]);
    match coder.decode(&buf, Context::Delimited) {
        Ok((Element::Present(x), 3)) => assert!(matches!(*x, Element::VarInt(300))),
        other => panic!("unexpected {:?}", other),
    }
    assert!(matches!(coder.decode(&[0], Context::Delimited), Ok((Element::Null, 1))));
}

#[test]
fn nullable_decode_errors() {
    let coder = NullableCoder::new(StandardCoder::StrUtf8);
    assert!(matches!(coder.decode(&[], Context::Delimited), Err(DecodeError::Truncated)));
    assert!(matches!(coder.decode(&[2, 0], Context::Delimited), Err(DecodeError::InvalidPresenceByte)));
    assert!(matches!(coder.decode(&[1, 3, b'a'], Context::Delimited), Err(DecodeError::Truncated)));
}

#[test]
fn standard_coders_round_trip() {
    let cases: Vec<(StandardCoder, Element)> = vec![
        (StandardCoder::Bytes, Element::Bytes(Bytes::from(vec![0u8, 255, 3]))),
        (StandardCoder::StrUtf8, Element::Str(String::from("grape"))),
        (StandardCoder::VarInt, Element::VarInt(1 << 40)),
        (StandardCoder::Nullable(Box::new(StandardCoder::StrUtf8)), Element::Null),
        (
            StandardCoder::Nullable(Box::new(StandardCoder::StrUtf8)),
            Element::Present(Box::new(Element::Str(String::from("kiwi")))),
        ),
    ];
    for (coder, elem) in cases.iter() {
        for ctx in [Context::Delimited, Context::WholeStream] {
            let mut buf = Vec::new();
            let n = encode_element(coder, elem, &mut buf, ctx);
            assert_eq!(n, buf.len());
            let (back, m) = decode_element(coder, &buf, ctx).unwrap();
            assert_eq!(m, n);
            assert_eq!(format!("{:?}", back), format!("{:?}", elem));
        }
    }
}

#[test]
fn coder_urns() {
    assert_eq!(BytesCoder::default().urn(), "beam:coder:bytes:v1");
    assert_eq!(StrUtf8Coder::default().urn(), STR_UTF8_CODER_URN);
    assert_eq!(VarIntCoder::default().urn(), VARINT_CODER_URN);
    let nullable = NullableCoder::new(StandardCoder::Bytes);
    assert_eq!(nullable.urn(), NULLABLE_CODER_URN);
    assert_eq!(nullable.component_coder_urns(), vec![BYTES_CODER_URN]);
    let nested = StandardCoder::Nullable(Box::new(StandardCoder::VarInt));
    assert_eq!(nested.urn(), NULLABLE_CODER_URN);
    assert_eq!(nested.component_coder_urns(), vec![VARINT_CODER_URN]);
    assert!(StandardCoder::StrUtf8.component_coder_urns().is_empty());
    assert!(StrUtf8Coder::default().component_coder_urns().is_empty());
    assert!(VarIntCoder::default().component_coder_urns().is_empty());
    assert!(BytesCoder::default().component_coder_urns().is_empty());
}

#[test]
fn registry_resolves_standard_urns() {
    assert!(matches!(coder_from_urn(BYTES_CODER_URN, Vec::new()), Some(StandardCoder::Bytes)));
    assert!(matches!(coder_from_urn("beam:coder:string_utf8:v1", Vec::new()), Some(StandardCoder::StrUtf8)));
    assert!(matches!(coder_from_urn(VARINT_CODER_URN, Vec::new()), Some(StandardCoder::VarInt)));
    match coder_from_urn(NULLABLE_CODER_URN, vec![StandardCoder::VarInt]) {
        Some(StandardCoder::Nullable(inner)) => assert!(matches!(*inner, StandardCoder::VarInt)),
        other => panic!("unexpected {:?}", other),
    }
}

#[test]
fn registry_rejects_unknown_or_misshapen() {
    assert!(coder_from_urn("beam:coder:unknown:v1", Vec::new()).is_none());
    assert!(coder_from_urn(NULLABLE_CODER_URN, Vec::new()).is_none());
    assert!(coder_from_urn(BYTES_CODER_URN, vec![StandardCoder::VarInt]).is_none());
    assert!(coder_from_urn("beam:coder:bytes:v2", Vec::new()).is_none());
}

#[test]
fn varint_32_bit_boundaries() {
    let coder = VarIntCoder::default();
    let mut neg = Vec::new();
    coder.encode_i32(-1, &mut neg, Context::Delimited);
    let mut max = Vec::new();
    coder.encode_u32(u32::MAX, &mut max, Context::Delimited);
    assert_eq!(neg, vec![0xff, 0xff, 0xff, 0xff, 0x0f]);
    assert_eq!(neg, max);
    assert_eq!(coder.decode_i32(&neg, Context::Delimited), Ok((-1i32, 5)));
    assert_eq!(coder.decode_u32(&max, Context::Delimited), Ok((u32::MAX, 5)));
    let wide = varint_of(1u64 << 32);
    assert_eq!(coder.decode_u32(&wide, Context::Delimited), Err(DecodeError::VarIntOverflow));
    assert_eq!(coder.decode_i32(&wide, Context::Delimited), Err(DecodeError::VarIntOverflow));
    assert_eq!(coder.decode_u32(&[0x80], Context::Delimited), Err(DecodeError::Truncated));
}
