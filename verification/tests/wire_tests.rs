use kafwire::errors::EncodingError;
use kafwire::wire::{
    encode_unsigned_varint, read_exact, read_i16_be, read_i32_be, read_nullable_string,
    read_string_exact, read_u8_be, read_unsigned_varint,
};

#[test]
fn encodes_examples() {
    // 0 -> [0x00]
    assert_eq!(encode_unsigned_varint(0), vec![0x00]);

    // 1 -> [0x01]
    assert_eq!(encode_unsigned_varint(1), vec![0x01]);

    // 127 -> [0x7F]
    assert_eq!(encode_unsigned_varint(127), vec![0x7F]);

    // 128 -> [0x80, 0x01]
    assert_eq!(encode_unsigned_varint(128), vec![0x80, 0x01]);

    // 300 -> [0xAC, 0x02]
    assert_eq!(encode_unsigned_varint(300), vec![0xAC, 0x02]);
}

#[test]
fn varint_round_trips_and_is_minimal() {
    for &u in &[0u32, 1, 127, 128, 300, 16383, 16384, 2097151, 2097152, u32::MAX] {
        let enc = encode_unsigned_varint(u);
        assert!(enc.len() <= 5);
        // minimal length: no trailing zero continuation group
        assert!(*enc.last().unwrap() < 0x80);
        if enc.len() > 1 {
            assert_ne!(*enc.last().unwrap(), 0);
        }
        let mut off = 0usize;
        let decoded = read_unsigned_varint(&enc, &mut off).unwrap();
        assert_eq!(decoded, u);
        assert_eq!(off, enc.len());
    }
}

#[test]
fn varint_accepts_non_minimal_encodings() {
    // 0 encoded with a redundant continuation group
    let mut off = 0usize;
    assert_eq!(read_unsigned_varint(&[0x80, 0x00], &mut off).unwrap(), 0);
    assert_eq!(off, 2);

    // 1 encoded in two groups
    let mut off = 0usize;
    assert_eq!(read_unsigned_varint(&[0x81, 0x00], &mut off).unwrap(), 1);
}

#[test]
fn varint_rejects_too_long_and_overflow() {
    // fifth byte still carries the continuation bit
    let mut off = 0usize;
    assert_eq!(
        read_unsigned_varint(&[0xFF, 0xFF, 0xFF, 0xFF, 0xFF], &mut off),
        Err(EncodingError::VarIntTooLong)
    );

    // decodes to 2^33 - 1, which exceeds the 32-bit range
    let mut off = 0usize;
    assert_eq!(
        read_unsigned_varint(&[0xFF, 0xFF, 0xFF, 0xFF, 0x1F], &mut off),
        Err(EncodingError::VarIntOverflow)
    );

    // runs out of input mid-varint
    let mut off = 0usize;
    assert_eq!(
        read_unsigned_varint(&[0x80], &mut off),
        Err(EncodingError::Eof)
    );
}

#[test]
fn fixed_width_readers_are_big_endian() {
    let buf = [0x01u8, 0x02, 0x03, 0x04, 0x05, 0x06];
    let mut off = 0usize;
    assert_eq!(read_i16_be(&buf, &mut off).unwrap(), 0x0102);
    assert_eq!(off, 2);
    assert_eq!(read_i32_be(&buf, &mut off).unwrap(), 0x03040506);
    assert_eq!(off, 6);

    let neg = [0xFFu8, 0xFE];
    let mut off = 0usize;
    assert_eq!(read_i16_be(&neg, &mut off).unwrap(), -2);

    let mut off = 0usize;
    assert_eq!(read_u8_be(&[0xAB], &mut off).unwrap(), 0xAB);
}

#[test]
fn readers_fail_cleanly_at_end_of_input() {
    let buf = [0x01u8, 0x02];
    let mut off = 0usize;
    assert_eq!(read_i32_be(&buf, &mut off), Err(EncodingError::Eof));
    let mut off = 2usize;
    assert_eq!(read_i16_be(&buf, &mut off), Err(EncodingError::Eof));
    let mut off = 0usize;
    assert_eq!(read_exact(&buf, &mut off, 3), Err(EncodingError::Eof));
    let mut off = 0usize;
    assert_eq!(read_exact(&buf, &mut off, 2).unwrap(), &[0x01, 0x02]);
    assert_eq!(off, 2);
}

#[test]
fn nullable_string_reads_null_text_and_errors() {
    // length -1 means null
    let mut off = 0usize;
    assert_eq!(read_nullable_string(&[0xFF, 0xFF], &mut off).unwrap(), None);
    assert_eq!(off, 2);

    // ordinary text
    let buf = [0x00u8, 0x03, b'a', b'b', b'c'];
    let mut off = 0usize;
    assert_eq!(
        read_nullable_string(&buf, &mut off).unwrap(),
        Some("abc".to_string())
    );
    assert_eq!(off, 5);

    // a negative length other than -1 is rejected
    let mut off = 0usize;
    assert_eq!(
        read_nullable_string(&[0xFF, 0xFE], &mut off),
        Err(EncodingError::InvalidLength(-2))
    );

    // invalid UTF-8 is rejected
    let bad = [0x00u8, 0x02, 0xC0, 0xC0];
    let mut off = 0usize;
    assert_eq!(
        read_nullable_string(&bad, &mut off),
        Err(EncodingError::Utf8)
    );

    // declared length runs past the buffer
    let short = [0x00u8, 0x05, b'a'];
    let mut off = 0usize;
    assert_eq!(
        read_nullable_string(&short, &mut off),
        Err(EncodingError::Eof)
    );
}

#[test]
fn string_exact_reads_utf8() {
    let buf = "héllo".as_bytes();
    let mut off = 0usize;
    let s = read_string_exact(buf, &mut off, buf.len()).unwrap();
    assert_eq!(s, "héllo");
    assert_eq!(off, buf.len());
}
