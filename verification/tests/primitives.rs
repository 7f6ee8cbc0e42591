use flour::bytestream_addon::{
    read_list, write_array, write_bool, write_i16, write_i32, write_list, write_u16, write_u32,
    write_u8, ByteOrder, ByteStream, Reader,
};
use flour::error::Error;
use flour::{Color, FloatBits, VarLenString};

#[test]
fn read_u16_big_endian() {
    let bytes = [0x02u8, 0x05, 0x03];
    let mut reader = Reader::new(&bytes);
    assert_eq!(reader.read_u16(ByteOrder::BigEndian).unwrap(), 517);
    assert_eq!(reader.pos, 2);
    assert!(reader.read_u16(ByteOrder::BigEndian).is_err());
    assert_eq!(reader.pos, 2);
}

#[test]
fn read_u16_little_endian() {
    let bytes = [0x02u8, 0x05];
    let mut reader = Reader::new(&bytes);
    assert_eq!(reader.read_u16(ByteOrder::LittleEndian).unwrap(), 0x0502);
    assert_eq!(reader.pos, 2);
}

#[test]
fn read_u32_in_both_orders() {
    let bytes = [0x01u8, 0x32, 0xb4, 0xd8];
    let mut reader = Reader::new(&bytes);
    assert_eq!(reader.read_u32(ByteOrder::BigEndian).unwrap(), 20100312);
    reader.pos = 0;
    assert_eq!(reader.read_u32(ByteOrder::LittleEndian).unwrap(), 0xd8b4_3201);
    assert_eq!(reader.pos, 4);
}

#[test]
fn read_signed_numbers() {
    let bytes = [0xffu8, 0xfe, 0xff, 0xff, 0xff, 0x85];
    let mut reader = Reader::new(&bytes);
    assert_eq!(reader.read_i16(ByteOrder::BigEndian).unwrap(), -2);
    assert_eq!(reader.read_i32(ByteOrder::BigEndian).unwrap(), -123);
    reader.pos = 0;
    assert_eq!(reader.read_i16(ByteOrder::LittleEndian).unwrap(), -257);
    assert_eq!(reader.read_i32(ByteOrder::LittleEndian).unwrap(), -2046820353);
}

#[test]
fn read_bool_is_true_for_one_only() {
    let bytes = [0u8, 1, 2, 255];
    let mut reader = Reader::new(&bytes);
    assert_eq!(reader.read_bool(ByteOrder::BigEndian).unwrap(), false);
    assert_eq!(reader.read_bool(ByteOrder::BigEndian).unwrap(), true);
    assert_eq!(reader.read_bool(ByteOrder::BigEndian).unwrap(), false);
    assert_eq!(reader.read_bool(ByteOrder::LittleEndian).unwrap(), false);
    assert!(matches!(reader.read_bool(ByteOrder::LittleEndian), Err(Error::IOError(_))));
    assert_eq!(reader.pos, 4);
}

#[test]
fn read_u8_and_array() {
    let bytes = [7u8, 1, 2, 3, 4];
    let mut reader = Reader::new(&bytes);
    assert_eq!(reader.read_u8(ByteOrder::BigEndian).unwrap(), 7);
    assert_eq!(reader.read_array::<3>(ByteOrder::BigEndian).unwrap(), [1, 2, 3]);
    assert_eq!(reader.pos, 4);
    assert!(matches!(reader.read_array::<2>(ByteOrder::BigEndian), Err(Error::IOError(_))));
    assert_eq!(reader.pos, 4);
    assert_eq!(reader.read_u8(ByteOrder::BigEndian).unwrap(), 4);
    assert!(matches!(reader.read_u8(ByteOrder::BigEndian), Err(Error::IOError(_))));
}

#[test]
fn short_reads_fail_and_stay() {
    let bytes = [1u8, 2, 3];
    let mut reader = Reader::new(&bytes);
    assert!(matches!(reader.read_u32(ByteOrder::BigEndian), Err(Error::IOError(_))));
    assert!(matches!(reader.read_i32(ByteOrder::LittleEndian), Err(Error::IOError(_))));
    assert_eq!(reader.pos, 0);
    reader.pos = 2;
    assert!(matches!(reader.read_u16(ByteOrder::BigEndian), Err(Error::IOError(_))));
    assert!(matches!(reader.read_i16(ByteOrder::BigEndian), Err(Error::IOError(_))));
    assert_eq!(reader.pos, 2);
}

#[test]
fn reader_behind_its_data_reads_nothing() {
    let bytes = [1u8, 2, 3];
    let mut reader = Reader::new(&bytes);
    reader.pos = 10;
    assert!(reader.read_u8(ByteOrder::BigEndian).is_err());
    assert_eq!(reader.pos, 10);
}

#[test]
fn write_numbers_in_both_orders() {
    let mut out = vec![0xaau8];
    write_u16(0x0102, &mut out, ByteOrder::BigEndian).unwrap();
    write_u16(0x0102, &mut out, ByteOrder::LittleEndian).unwrap();
    write_u32(20131007, &mut out, ByteOrder::LittleEndian).unwrap();
    write_u32(20100312, &mut out, ByteOrder::BigEndian).unwrap();
    write_i16(-2, &mut out, ByteOrder::BigEndian).unwrap();
    write_i32(-123, &mut out, ByteOrder::LittleEndian).unwrap();
    write_u8(9, &mut out, ByteOrder::BigEndian).unwrap();
    write_bool(true, &mut out, ByteOrder::BigEndian).unwrap();
    write_bool(false, &mut out, ByteOrder::LittleEndian).unwrap();
    write_array(&[5u8, 6, 7], &mut out, ByteOrder::BigEndian).unwrap();
    assert_eq!(
        out,
        vec![
            0xaa, 0x01, 0x02, 0x02, 0x01, 0xbf, 0x2c, 0x33, 0x01, 0x01, 0x32, 0xb4, 0xd8, 0xff,
            0xfe, 0x85, 0xff, 0xff, 0xff, 9, 1, 0, 5, 6, 7
        ]
    );
}

#[test]
fn written_numbers_are_read_back() {
    for order in [ByteOrder::BigEndian, ByteOrder::LittleEndian] {
        let mut out = Vec::new();
        write_u16(0xbeef, &mut out, order).unwrap();
        write_u32(0xdead_beef, &mut out, order).unwrap();
        write_i16(i16::MIN, &mut out, order).unwrap();
        write_i32(i32::MIN, &mut out, order).unwrap();
        write_i16(i16::MAX, &mut out, order).unwrap();
        write_i32(i32::MAX, &mut out, order).unwrap();
        let mut reader = Reader::new(&out);
        assert_eq!(reader.read_u16(order).unwrap(), 0xbeef);
        assert_eq!(reader.read_u32(order).unwrap(), 0xdead_beef);
        assert_eq!(reader.read_i16(order).unwrap(), i16::MIN);
        assert_eq!(reader.read_i32(order).unwrap(), i32::MIN);
        assert_eq!(reader.read_i16(order).unwrap(), i16::MAX);
        assert_eq!(reader.read_i32(order).unwrap(), i32::MAX);
        assert_eq!(reader.pos, out.len());
    }
}

#[test]
fn float_bits_are_kept() {
    let bytes = 1.5f32.to_be_bytes();
    let mut reader = Reader::new(&bytes);
    let value = FloatBits::read_from(&mut reader, ByteOrder::BigEndian).unwrap();
    assert_eq!(f32::from_bits(value.bits), 1.5);
    let mut out = Vec::new();
    value.write_to(&mut out, ByteOrder::LittleEndian).unwrap();
    assert_eq!(out, 1.5f32.to_le_bytes().to_vec());
    let nan = FloatBits { bits: 0x7fc1_2345 };
    let mut out = Vec::new();
    nan.write_to(&mut out, ByteOrder::BigEndian).unwrap();
    let mut reader = Reader::new(&out);
    assert_eq!(FloatBits::read_from(&mut reader, ByteOrder::BigEndian).unwrap(), nan);
}

#[test]
fn color_is_red_green_blue() {
    let bytes = [10u8, 20, 30, 40];
    let mut reader = Reader::new(&bytes);
    let color = Color::read_from(&mut reader, ByteOrder::LittleEndian).unwrap();
    assert_eq!(color, Color { red: 10, green: 20, blue: 30 });
    assert_eq!(reader.pos, 3);
    let mut out = Vec::new();
    color.write_to(&mut out, ByteOrder::BigEndian).unwrap();
    assert_eq!(out, vec![10, 20, 30]);
    assert!(matches!(
        Color::read_from(&mut reader, ByteOrder::LittleEndian),
        Err(Error::IOError(_))
    ));
}

fn encode_string(text: &str) -> Vec<u8> {
    let mut out = Vec::new();
    VarLenString(text.to_string()).write_to(&mut out, ByteOrder::LittleEndian).unwrap();
    out
}

#[test]
fn padded_string_bytes() {
    assert_eq!(encode_string(""), vec![0, 0, 0, 0]);
    assert_eq!(encode_string("a"), vec![1, b'a', 0, 0]);
    assert_eq!(encode_string("ab"), vec![2, b'a', b'b', 0]);
    assert_eq!(encode_string("abc"), vec![3, b'a', b'b', b'c']);
    assert_eq!(encode_string("abcd"), vec![4, b'a', b'b', b'c', b'd', 0, 0, 0]);
    assert_eq!(encode_string("é"), vec![2, 0xc3, 0xa9, 0]);
}

#[test]
fn padded_string_round_trip() {
    let mut text = String::new();
    for n in 0..=255usize {
        let bytes = encode_string(&text);
        assert_eq!(bytes.len() % 4, 0, "length {}", n);
        assert_eq!(bytes.len(), (n + 1 + 3) / 4 * 4);
        assert_eq!(bytes[0] as usize, n);
        let mut reader = Reader::new(&bytes);
        let back = VarLenString::read_from(&mut reader, ByteOrder::LittleEndian).unwrap();
        assert_eq!(back.0, text);
        assert_eq!(reader.pos, bytes.len());
        text.push((b'a' + (n % 26) as u8) as char);
    }
}

#[test]
fn padded_string_of_255_bytes_has_no_padding() {
    let text = "x".repeat(255);
    let bytes = encode_string(&text);
    assert_eq!(bytes.len(), 256);
    assert_eq!(bytes[0], 255);
}

#[test]
fn padded_string_unicode_round_trip() {
    let text = "アニメ anim 🎵";
    let bytes = encode_string(text);
    assert_eq!(bytes.len() % 4, 0);
    let mut reader = Reader::new(&bytes);
    let back = VarLenString::read_from(&mut reader, ByteOrder::BigEndian).unwrap();
    assert_eq!(back.0, text);
}

#[test]
fn padded_string_too_long_keeps_the_low_byte_of_its_length() {
    let text = "y".repeat(258);
    let bytes = encode_string(&text);
    assert_eq!(bytes[0], 2);
    assert_eq!(bytes.len(), 1 + 258 + 1);
    assert_eq!(bytes[259], 0);
}

#[test]
fn padded_string_skips_its_padding() {
    let bytes = [2u8, b'h', b'i', 0x77, 9];
    let mut reader = Reader::new(&bytes);
    let text = VarLenString::read_from(&mut reader, ByteOrder::LittleEndian).unwrap();
    assert_eq!(text.0, "hi");
    assert_eq!(reader.pos, 4);
}

#[test]
fn padded_string_invalid_utf8() {
    let bytes = [2u8, 0xff, 0xfe, 0];
    let mut reader = Reader::new(&bytes);
    assert!(matches!(
        VarLenString::read_from(&mut reader, ByteOrder::LittleEndian),
        Err(Error::StringUtf8Error(_))
    ));
}

#[test]
fn padded_string_truncated() {
    let empty: [u8; 0] = [];
    let mut reader = Reader::new(&empty);
    assert!(matches!(
        VarLenString::read_from(&mut reader, ByteOrder::LittleEndian),
        Err(Error::IOError(_))
    ));
    let bytes = [3u8, b'a', b'b'];
    let mut reader = Reader::new(&bytes);
    assert!(matches!(
        VarLenString::read_from(&mut reader, ByteOrder::LittleEndian),
        Err(Error::IOError(_))
    ));
    // the padding is part of the string: invalid text whose padding is cut
    // off is reported as cut off
    let bytes = [2u8, 0xff, 0xfe];
    let mut reader = Reader::new(&bytes);
    assert!(matches!(
        VarLenString::read_from(&mut reader, ByteOrder::LittleEndian),
        Err(Error::IOError(_))
    ));
}

#[test]
fn lists_are_read_and_written_in_order() {
    let colors = vec![
        Color { red: 1, green: 2, blue: 3 },
        Color { red: 4, green: 5, blue: 6 },
    ];
    let mut out = vec![0xffu8];
    write_list(&colors, &mut out, ByteOrder::BigEndian).unwrap();
    assert_eq!(out, vec![0xff, 1, 2, 3, 4, 5, 6]);
    let mut reader = Reader::new(&out);
    reader.pos = 1;
    let back: Vec<Color> = read_list(&mut reader, 2, ByteOrder::BigEndian).unwrap();
    assert_eq!(back, colors);
    assert_eq!(reader.pos, 7);
    reader.pos = 1;
    let more: Result<Vec<Color>, Error> = read_list(&mut reader, 3, ByteOrder::BigEndian);
    assert!(matches!(more, Err(Error::IOError(_))));
    let none: Vec<Color> = read_list(&mut reader, 0, ByteOrder::BigEndian).unwrap();
    assert!(none.is_empty());
}
