use flour::bxcad::bccad::{Animation, AnimationStep, Sprite, SpritePart, StereoDepth, BCCAD};
use flour::bxcad::{PosInTexture, BXCAD};
use flour::bytestream_addon::{ByteOrder, ByteStream, Reader};
use flour::error::Error;
use flour::{Color, FloatBits};

fn float(x: f32) -> FloatBits {
    FloatBits { bits: x.to_bits() }
}

fn sample_part() -> SpritePart {
    SpritePart {
        texture_pos: PosInTexture { x: 1, y: 2, width: 32, height: 64 },
        pos_x: 512,
        pos_y: -7,
        scale_x: float(1.0),
        scale_y: float(0.5),
        rotation: float(90.0),
        flip_x: true,
        flip_y: false,
        multiply_color: Color { red: 255, green: 254, blue: 253 },
        screen_color: Color { red: 1, green: 2, blue: 3 },
        opacity: 200,
        unk1: [1, 2, 3, 4, 5, 6, 7, 8, 9, 10, 11, 12],
        designation_id: 5,
        unk2: 6,
        depth: StereoDepth {
            top_left: float(0.25),
            bottom_left: float(0.5),
            top_right: float(0.75),
            bottom_right: float(1.0),
        },
    }
}

fn sample_part_bytes() -> Vec<u8> {
    let mut b = Vec::new();
    b.extend_from_slice(&[1, 0, 2, 0, 32, 0, 64, 0]);
    b.extend_from_slice(&512i16.to_le_bytes());
    b.extend_from_slice(&(-7i16).to_le_bytes());
    b.extend_from_slice(&1.0f32.to_le_bytes());
    b.extend_from_slice(&0.5f32.to_le_bytes());
    b.extend_from_slice(&90.0f32.to_le_bytes());
    b.extend_from_slice(&[1, 0]);
    b.extend_from_slice(&[255, 254, 253]);
    b.extend_from_slice(&[1, 2, 3]);
    b.push(200);
    b.extend_from_slice(&[1, 2, 3, 4, 5, 6, 7, 8, 9, 10, 11, 12]);
    b.extend_from_slice(&[5, 6]);
    b.extend_from_slice(&0.25f32.to_le_bytes());
    b.extend_from_slice(&0.5f32.to_le_bytes());
    b.extend_from_slice(&0.75f32.to_le_bytes());
    b.extend_from_slice(&1.0f32.to_le_bytes());
    b.push(0);
    b
}

fn sample_step() -> AnimationStep {
    AnimationStep {
        sprite: 3,
        duration: 10,
        pos_x: -1,
        pos_y: 2,
        depth: float(0.0),
        scale_x: float(1.0),
        scale_y: float(2.0),
        rotation: float(-45.0),
        multiply_color: Color { red: 9, green: 8, blue: 7 },
        unk: [0xa, 0xb, 0xc],
        opacity: 0x1234,
    }
}

fn sample_step_bytes() -> Vec<u8> {
    let mut b = Vec::new();
    b.extend_from_slice(&[3, 0, 10, 0]);
    b.extend_from_slice(&(-1i16).to_le_bytes());
    b.extend_from_slice(&2i16.to_le_bytes());
    b.extend_from_slice(&0.0f32.to_le_bytes());
    b.extend_from_slice(&1.0f32.to_le_bytes());
    b.extend_from_slice(&2.0f32.to_le_bytes());
    b.extend_from_slice(&(-45.0f32).to_le_bytes());
    b.extend_from_slice(&[9, 8, 7]);
    b.extend_from_slice(&[0xa, 0xb, 0xc]);
    b.extend_from_slice(&[0x34, 0x12]);
    b
}

fn sample() -> BCCAD {
    BCCAD {
        timestamp: None,
        texture_width: 1024,
        texture_height: 512,
        sprites: vec![
            Sprite { parts: vec![sample_part(), sample_part()] },
            Sprite { parts: vec![] },
        ],
        animations: vec![
            Animation { name: "idle".to_string(), interpolation: -1, steps: vec![sample_step()] },
            Animation { name: "go".to_string(), interpolation: 7, steps: vec![] },
        ],
    }
}

fn sample_bytes() -> Vec<u8> {
    let mut b = Vec::new();
    b.extend_from_slice(&20131007u32.to_le_bytes());
    b.extend_from_slice(&1024u16.to_le_bytes());
    b.extend_from_slice(&512u16.to_le_bytes());
    b.extend_from_slice(&2u32.to_le_bytes());
    b.extend_from_slice(&2u32.to_le_bytes());
    b.extend_from_slice(&sample_part_bytes());
    b.extend_from_slice(&sample_part_bytes());
    b.extend_from_slice(&0u32.to_le_bytes());
    b.extend_from_slice(&2u32.to_le_bytes());
    b.extend_from_slice(&[4, b'i', b'd', b'l', b'e', 0, 0, 0]);
    b.extend_from_slice(&(-1i32).to_le_bytes());
    b.extend_from_slice(&1u32.to_le_bytes());
    b.extend_from_slice(&sample_step_bytes());
    b.extend_from_slice(&[2, b'g', b'o', 0]);
    b.extend_from_slice(&7i32.to_le_bytes());
    b.extend_from_slice(&0u32.to_le_bytes());
    b.push(0);
    b
}

fn encode(bccad: &BCCAD) -> Vec<u8> {
    let mut out = Vec::new();
    bccad.to_binary(&mut out).unwrap();
    out
}

#[test]
fn bccad_part_has_64_bytes_and_step_32() {
    assert_eq!(sample_part_bytes().len(), 64);
    assert_eq!(sample_step_bytes().len(), 32);
    let mut out = Vec::new();
    sample_part().write_to(&mut out, ByteOrder::LittleEndian).unwrap();
    assert_eq!(out, sample_part_bytes());
    let mut out = Vec::new();
    sample_step().write_to(&mut out, ByteOrder::LittleEndian).unwrap();
    assert_eq!(out, sample_step_bytes());
}

#[test]
fn bccad_part_and_step_are_read() {
    let bytes = sample_part_bytes();
    let mut reader = Reader::new(&bytes);
    let part = SpritePart::read_from(&mut reader, ByteOrder::LittleEndian).unwrap();
    assert_eq!(part, sample_part());
    assert_eq!(reader.pos, 64);
    let bytes = sample_step_bytes();
    let mut reader = Reader::new(&bytes);
    let step = AnimationStep::read_from(&mut reader, ByteOrder::LittleEndian).unwrap();
    assert_eq!(step, sample_step());
    assert_eq!(reader.pos, 32);
}

#[test]
fn bccad_decode() {
    let bytes = sample_bytes();
    let mut reader = Reader::new(&bytes);
    let bccad = BCCAD::from_binary(&mut reader).unwrap();
    assert_eq!(bccad, sample());
    // the zero byte that ends the file is not read
    assert_eq!(reader.pos, bytes.len() - 1);
}

#[test]
fn bccad_encode() {
    assert_eq!(encode(&sample()), sample_bytes());
}

#[test]
fn bccad_encode_appends() {
    let mut out = vec![1u8, 2, 3];
    sample().to_binary(&mut out).unwrap();
    assert_eq!(&out[..3], &[1, 2, 3]);
    assert_eq!(&out[3..], &sample_bytes()[..]);
}

#[test]
fn bccad_round_trip() {
    let bytes = sample_bytes();
    let mut reader = Reader::new(&bytes);
    let bccad = BCCAD::from_binary(&mut reader).unwrap();
    assert_eq!(encode(&bccad), bytes);
}

#[test]
fn bccad_decode_of_encode() {
    let mut bccad = sample();
    bccad.timestamp = Some(20200101);
    let bytes = encode(&bccad);
    let mut reader = Reader::new(&bytes);
    assert_eq!(BCCAD::from_binary(&mut reader).unwrap(), bccad);
}

#[test]
fn bccad_known_timestamp_is_none() {
    let mut bccad = sample();
    bccad.timestamp = Some(20131007);
    let bytes = encode(&bccad);
    assert_eq!(bytes, sample_bytes());
    let mut reader = Reader::new(&bytes);
    assert_eq!(BCCAD::from_binary(&mut reader).unwrap().timestamp, None);
}

#[test]
fn bccad_other_timestamp_is_kept() {
    let mut bytes = sample_bytes();
    bytes[0..4].copy_from_slice(&20120101u32.to_le_bytes());
    let mut reader = Reader::new(&bytes);
    let bccad = BCCAD::from_binary(&mut reader).unwrap();
    assert_eq!(bccad.timestamp, Some(20120101));
    assert_eq!(encode(&bccad), bytes);
}

#[test]
fn bccad_empty_document() {
    let bccad = BCCAD {
        timestamp: None,
        texture_width: 0,
        texture_height: 0,
        sprites: vec![],
        animations: vec![],
    };
    let bytes = encode(&bccad);
    assert_eq!(bytes, vec![0xbf, 0x2c, 0x33, 0x01, 0, 0, 0, 0, 0, 0, 0, 0, 0, 0, 0, 0, 0]);
    let mut reader = Reader::new(&bytes);
    assert_eq!(BCCAD::from_binary(&mut reader).unwrap(), bccad);
    assert_eq!(reader.pos, 16);
}

#[test]
fn bccad_truncated_anywhere_fails_and_stays() {
    let bytes = sample_bytes();
    // without its last byte the document is still whole
    for len in 0..bytes.len() - 1 {
        let mut data = vec![0xeeu8, 0xee];
        data.extend_from_slice(&bytes[..len]);
        let mut reader = Reader::new(&data);
        reader.pos = 2;
        let r = BCCAD::from_binary(&mut reader);
        assert!(matches!(r, Err(Error::IOError(_))), "length {}", len);
        assert_eq!(reader.pos, 2);
    }
    let mut reader = Reader::new(&bytes[..bytes.len() - 1]);
    assert!(BCCAD::from_binary(&mut reader).is_ok());
}

#[test]
fn bccad_reads_from_where_the_reader_stands() {
    let mut data = vec![9u8; 5];
    data.extend_from_slice(&sample_bytes());
    data.extend_from_slice(&[7, 7, 7]);
    let mut reader = Reader::new(&data);
    reader.pos = 5;
    assert_eq!(BCCAD::from_binary(&mut reader).unwrap(), sample());
    assert_eq!(reader.pos, 5 + sample_bytes().len() - 1);
}

#[test]
fn bccad_invalid_name() {
    let mut bytes = sample_bytes();
    let at = bytes.len() - 1 - 12 - 32 - 8 - 8;
    assert_eq!(&bytes[at..at + 5], &[4, b'i', b'd', b'l', b'e']);
    bytes[at + 1] = 0xff;
    let mut reader = Reader::new(&bytes);
    assert!(matches!(BCCAD::from_binary(&mut reader), Err(Error::StringUtf8Error(_))));
    assert_eq!(reader.pos, 0);
}

#[test]
fn bccad_flag_bytes_other_than_one_are_false() {
    let mut bytes = sample_bytes();
    // flip_x of the first part
    let at = 4 + 4 + 4 + 4 + 24;
    assert_eq!(bytes[at], 1);
    bytes[at] = 2;
    let mut reader = Reader::new(&bytes);
    let bccad = BCCAD::from_binary(&mut reader).unwrap();
    assert_eq!(bccad.sprites[0].parts[0].flip_x, false);
    // and are written as zero
    assert_eq!(encode(&bccad)[at], 0);
}

#[test]
fn bccad_padding_and_terminators_are_written_as_zero() {
    let mut bytes = sample_bytes();
    // the byte that ends the first part
    let at = 16 + 63;
    bytes[at] = 0x55;
    let mut reader = Reader::new(&bytes);
    let bccad = BCCAD::from_binary(&mut reader).unwrap();
    assert_eq!(bccad, sample());
    assert_eq!(encode(&bccad), sample_bytes());
}

#[test]
fn bccad_older_names() {
    let bytes = sample_bytes();
    let mut reader = Reader::new(&bytes);
    let bccad = BCCAD::from_bccad(&mut reader).unwrap();
    assert_eq!(bccad, sample());
    let mut out = Vec::new();
    bccad.to_bccad(&mut out).unwrap();
    assert_eq!(out, bytes);
}

#[test]
fn bccad_constants() {
    assert!(matches!(BCCAD::BYTE_ORDER, ByteOrder::LittleEndian));
    assert_eq!(BCCAD::TIMESTAMP, 20131007);
    assert_eq!(BCCAD::BXCAD_TYPE, flour::bxcad::BXCADType::BCCAD);
}

#[test]
fn bccad_is_format() {
    let bytes = sample_bytes();
    let mut reader = Reader::new(&bytes);
    assert_eq!(BCCAD::is_format(&mut reader).unwrap(), true);
    assert_eq!(reader.pos, 0);
    reader.pos = 4;
    assert_eq!(BCCAD::is_format(&mut reader).unwrap(), false);
    assert_eq!(reader.pos, 4);
    reader.pos = bytes.len() - 3;
    assert!(matches!(BCCAD::is_format(&mut reader), Err(Error::IOError(_))));
    assert_eq!(reader.pos, bytes.len() - 3);
}

#[test]
fn bccad_sprite_clone() {
    let sprite = Sprite { parts: vec![sample_part(), sample_part()] };
    assert_eq!(sprite.clone(), sprite);
}
