use rational_codec::{CodecError, RationalNumberReader, RationalNumberWriter, WidthClass};

fn num_bytes(x: i64) -> Vec<u8> {
    let mut v = Vec::new();
    x.write_num(&mut v);
    v
}

fn frac_bytes(n: i64, d: i64) -> Vec<u8> {
    let mut v = Vec::new();
    n.write_frac(d, &mut v);
    v
}

#[test]
fn write_num_negative_five() {
    assert_eq!(num_bytes(-5), vec![0x81, 0x05]);
}

#[test]
fn write_frac_three_quarters() {
    let v = frac_bytes(3, 4);
    assert_eq!(v, vec![0x11, 0x03, 0x04]);
    let (n, d, rest) = v.as_slice().get_frac_i64().unwrap();
    assert_eq!((n, d), (3, 4));
    assert!(rest.is_empty());
}

#[test]
fn write_num_three_hundred() {
    assert_eq!(num_bytes(300), vec![0x02, 0x2C, 0x01]);
}

#[test]
fn numerator_class_boundaries() {
    assert_eq!(num_bytes(254), vec![0x01, 0xFE]);
    assert_eq!(num_bytes(255), vec![0x02, 0xFF, 0x00]);
    assert_eq!(num_bytes(65534), vec![0x02, 0xFE, 0xFF]);
    assert_eq!(num_bytes(65535), vec![0x03, 0xFF, 0xFF, 0x00, 0x00]);
    assert_eq!(num_bytes(4294967294), vec![0x03, 0xFE, 0xFF, 0xFF, 0xFF]);
    assert_eq!(
        num_bytes(4294967295),
        vec![0x04, 0xFF, 0xFF, 0xFF, 0xFF, 0x00, 0x00, 0x00, 0x00]
    );
    assert_eq!(num_bytes(-255), vec![0x82, 0xFF, 0x00]);
}

#[test]
fn denominator_class_boundaries() {
    assert_eq!(frac_bytes(1, 254), vec![0x11, 0x01, 0xFE]);
    assert_eq!(frac_bytes(1, 255), vec![0x21, 0x01, 0xFF, 0x00]);
    assert_eq!(frac_bytes(1, 65534), vec![0x21, 0x01, 0xFE, 0xFF]);
    assert_eq!(frac_bytes(1, 65535), vec![0x31, 0x01, 0xFF, 0xFF, 0x00, 0x00]);
    assert_eq!(
        frac_bytes(1, 4294967295),
        vec![0x41, 0x01, 0xFF, 0xFF, 0xFF, 0xFF, 0x00, 0x00, 0x00, 0x00]
    );
}

#[test]
fn four_byte_denominator_has_no_extra_byte() {
    let v = frac_bytes(1, 70000);
    assert_eq!(v, vec![0x31, 0x01, 0x70, 0x11, 0x01, 0x00]);
    assert_eq!(v.as_slice().get_frac_i64().unwrap().1, 70000);
}

#[test]
fn implicit_denominator_is_omitted() {
    for n in [0i64, 1, -1, 254, 255, 70000, -70000, i64::MAX, i64::MIN] {
        let v = frac_bytes(n, 1);
        assert_eq!(v[0] & 0b0111_0000, 0);
        assert_eq!(v, num_bytes(n));
        let (dn, dd, rest) = v.as_slice().get_frac_i64().unwrap();
        assert_eq!((dn, dd), (n, 1));
        assert!(rest.is_empty());
    }
}

#[test]
fn round_trip_moves_sign_to_numerator() {
    let cases: [(i64, i64); 10] = [
        (3, 4),
        (-3, 4),
        (3, -4),
        (-3, -4),
        (0, -7),
        (i64::MAX, i64::MAX),
        (i64::MIN, 1),
        (i64::MIN, 3),
        (i64::MAX, -i64::MAX),
        (-70000, 4294967296),
    ];
    for (n, d) in cases {
        let mut v = frac_bytes(n, d);
        v.extend_from_slice(&[0xAA, 0xBB]);
        let (dn, dd, rest) = v.as_slice().get_frac_i64().unwrap();
        let expected_n = if d < 0 { -(n as i128) } else { n as i128 };
        assert_eq!(dn as i128, expected_n);
        assert_eq!(dd as i128, (d as i128).abs());
        assert_eq!(rest, &[0xAA, 0xBB]);
    }
}

#[test]
fn unrepresentable_results_are_out_of_range() {
    let v = frac_bytes(1, i64::MIN);
    assert_eq!(v.as_slice().get_frac_i64(), Err(CodecError::OutOfRange));
    let v = frac_bytes(i64::MIN, -1);
    assert_eq!(v.as_slice().get_frac_i64(), Err(CodecError::OutOfRange));
    let mut v = Vec::new();
    u64::MAX.write_num(&mut v);
    assert_eq!(v.as_slice().get_frac_i64(), Err(CodecError::OutOfRange));
}

#[test]
fn skip_lands_on_next_value_for_every_class() {
    let values: [(i64, i64); 6] = [
        (5, 1),
        (300, 7),
        (70000, 70000),
        (-5000000000, 3),
        (1, 5000000000),
        (i64::MIN, 4294967295),
    ];
    let mut stream = Vec::new();
    for (n, d) in values {
        n.write_frac(d, &mut stream);
    }
    stream.push(0x42);
    let mut cursor: &[u8] = &stream;
    for (n, d) in values {
        let after_skip = cursor.skip_rational().unwrap();
        let (dn, dd, after_decode) = cursor.get_frac_i64().unwrap();
        assert_eq!((dn, dd), (n, d));
        assert_eq!(after_skip, after_decode);
        cursor = after_skip;
    }
    assert_eq!(cursor, &[0x42]);
}

#[test]
fn zero_and_one_checks_follow_the_decoded_value() {
    assert!(num_bytes(0).as_slice().is_zero_rat());
    assert!(frac_bytes(0, 5).as_slice().is_zero_rat());
    assert!(frac_bytes(0, -5).as_slice().is_zero_rat());
    assert!(!frac_bytes(0, 0).as_slice().is_zero_rat());
    assert!(!num_bytes(1).as_slice().is_zero_rat());
    assert!(!frac_bytes(1, 0).as_slice().is_zero_rat());

    assert!(num_bytes(1).as_slice().is_one_rat());
    assert!(frac_bytes(7, 7).as_slice().is_one_rat());
    assert!(frac_bytes(-7, -7).as_slice().is_one_rat());
    assert!(!frac_bytes(-7, 7).as_slice().is_one_rat());
    assert!(!num_bytes(-1).as_slice().is_one_rat());
    assert!(!num_bytes(0).as_slice().is_one_rat());
    assert!(!frac_bytes(1, 0).as_slice().is_one_rat());

    let empty: &[u8] = &[];
    assert!(!empty.is_zero_rat());
    assert!(!empty.is_one_rat());
}

#[test]
fn unsupported_classes_are_format_errors() {
    let zero_numerator_class: &[u8] = &[0x00, 0x01];
    assert_eq!(zero_numerator_class.get_frac_i64(), Err(CodecError::FormatError));
    assert_eq!(zero_numerator_class.skip_rational(), Err(CodecError::FormatError));
    let wide_numerator_class: &[u8] = &[0x05, 0x01, 0x01, 0x01, 0x01, 0x01, 0x01, 0x01, 0x01];
    assert_eq!(wide_numerator_class.get_frac_i64(), Err(CodecError::FormatError));
    let wide_denominator_class: &[u8] = &[0x51, 0x01, 0x01];
    assert_eq!(wide_denominator_class.skip_rational(), Err(CodecError::FormatError));
}

#[test]
fn short_buffers_are_underruns() {
    let empty: &[u8] = &[];
    assert_eq!(empty.get_frac_i64(), Err(CodecError::BufferUnderrun));
    assert_eq!(empty.skip_rational(), Err(CodecError::BufferUnderrun));
    let cut: &[u8] = &[0x02, 0x2C];
    assert_eq!(cut.get_frac_i64(), Err(CodecError::BufferUnderrun));
    let cut_den: &[u8] = &[0x21, 0x01, 0xFF];
    assert_eq!(cut_den.skip_rational(), Err(CodecError::BufferUnderrun));
}

#[test]
fn fixed_buffer_write() {
    let mut buf = [0xEEu8; 5];
    assert_eq!((-3i64).write_frac_fixed(4, &mut buf), Ok(3));
    assert_eq!(buf, [0x91, 0x03, 0x04, 0xEE, 0xEE]);

    let mut exact = [0u8; 3];
    assert_eq!(300i64.write_frac_fixed(1, &mut exact), Ok(3));
    assert_eq!(exact, [0x02, 0x2C, 0x01]);

    let mut small = [0x11u8; 2];
    assert_eq!(3i64.write_frac_fixed(4, &mut small), Err(CodecError::BufferOverflow));
    assert_eq!(small, [0x11, 0x11]);
}

#[test]
fn unsigned_writer() {
    let mut v = Vec::new();
    300u64.write_num(&mut v);
    assert_eq!(v, vec![0x02, 0x2C, 0x01]);

    let mut v = Vec::new();
    3u64.write_frac(4, &mut v);
    assert_eq!(v, vec![0x11, 0x03, 0x04]);

    let mut v = Vec::new();
    5u64.write_frac(1, &mut v);
    assert_eq!(v, vec![0x01, 0x05]);

    let mut buf = [0u8; 4];
    assert_eq!(65535u64.write_frac_fixed(2, &mut buf), Err(CodecError::BufferOverflow));
    let mut buf = [0u8; 6];
    assert_eq!(65535u64.write_frac_fixed(2, &mut buf), Ok(6));
    assert_eq!(buf, [0x13, 0xFF, 0xFF, 0x00, 0x00, 0x02]);
}

#[test]
fn width_classes() {
    assert_eq!(WidthClass::for_magnitude(0), WidthClass::OneByte);
    assert_eq!(WidthClass::for_magnitude(254), WidthClass::OneByte);
    assert_eq!(WidthClass::for_magnitude(255), WidthClass::TwoBytes);
    assert_eq!(WidthClass::for_magnitude(65534), WidthClass::TwoBytes);
    assert_eq!(WidthClass::for_magnitude(65535), WidthClass::FourBytes);
    assert_eq!(WidthClass::for_magnitude(4294967294), WidthClass::FourBytes);
    assert_eq!(WidthClass::for_magnitude(4294967295), WidthClass::EightBytes);
    assert_eq!(WidthClass::for_magnitude(u64::MAX), WidthClass::EightBytes);
    assert_eq!(WidthClass::from_code(3), Some(WidthClass::FourBytes));
    assert_eq!(WidthClass::from_code(5), None);
    assert_eq!(WidthClass::FourBytes.byte_width(), 4);
    assert_eq!(WidthClass::EightBytes.code(), 4);
    assert_eq!(WidthClass::Absent.byte_width(), 0);
}
