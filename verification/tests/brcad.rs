use flour::bxcad::brcad::{Animation, AnimationStep, Sprite, SpritePart, BRCAD};
use flour::bxcad::{PosInTexture, BXCAD};
use flour::bytestream_addon::{ByteOrder, ByteStream, Reader};
use flour::error::Error;
use flour::FloatBits;

fn float(x: f32) -> FloatBits {
    FloatBits { bits: x.to_bits() }
}

fn sample_part() -> SpritePart {
    SpritePart {
        texture_pos: PosInTexture { x: 1, y: 2, width: 32, height: 64 },
        unk: 0x0002_0000,
        pos_x: 512,
        pos_y: 0xfff9,
        scale_x: float(1.0),
        scale_y: float(0.5),
        rotation: float(90.0),
        flip_x: false,
        flip_y: true,
        opacity: 200,
    }
}

fn sample_part_bytes() -> Vec<u8> {
    let mut b = Vec::new();
    b.extend_from_slice(&[0, 1, 0, 2, 0, 32, 0, 64]);
    b.extend_from_slice(&[0, 2, 0, 0]);
    b.extend_from_slice(&512u16.to_be_bytes());
    b.extend_from_slice(&[0xff, 0xf9]);
    b.extend_from_slice(&1.0f32.to_be_bytes());
    b.extend_from_slice(&0.5f32.to_be_bytes());
    b.extend_from_slice(&90.0f32.to_be_bytes());
    b.extend_from_slice(&[0, 1, 200, 0]);
    b
}

fn sample_step() -> AnimationStep {
    AnimationStep {
        sprite: 3,
        duration: 10,
        unk0: 0xffff_0002,
        scale_x: float(1.0),
        scale_y: float(2.0),
        rotation: float(-45.0),
        opacity: 255,
        unk1: [0xa, 0xb, 0xc],
    }
}

fn sample_step_bytes() -> Vec<u8> {
    let mut b = Vec::new();
    b.extend_from_slice(&[0, 3, 0, 10]);
    b.extend_from_slice(&[0xff, 0xff, 0x00, 0x02]);
    b.extend_from_slice(&1.0f32.to_be_bytes());
    b.extend_from_slice(&2.0f32.to_be_bytes());
    b.extend_from_slice(&(-45.0f32).to_be_bytes());
    b.extend_from_slice(&[255, 0xa, 0xb, 0xc]);
    b
}

fn sample() -> BRCAD {
    BRCAD {
        timestamp: None,
        unk0: 0x0100_0000,
        spritesheet_num: 4,
        spritesheet_control: 0xfeff,
        texture_width: 1024,
        texture_height: 512,
        unk1: 0x1111,
        sprites: vec![
            Sprite { unk: 0x2222, parts: vec![sample_part()] },
            Sprite { unk: 0, parts: vec![] },
        ],
        unk2: 0x3333,
        animations: vec![
            Animation { name: None, unk: 0x4444, steps: vec![sample_step(), sample_step()] },
            Animation { name: None, unk: 0, steps: vec![] },
        ],
    }
}

fn sample_bytes() -> Vec<u8> {
    let mut b = Vec::new();
    b.extend_from_slice(&20100312u32.to_be_bytes());
    b.extend_from_slice(&0x0100_0000u32.to_be_bytes());
    b.extend_from_slice(&4u16.to_be_bytes());
    b.extend_from_slice(&0xfeffu16.to_be_bytes());
    b.extend_from_slice(&1024u16.to_be_bytes());
    b.extend_from_slice(&512u16.to_be_bytes());
    b.extend_from_slice(&2u16.to_be_bytes());
    b.extend_from_slice(&0x1111u16.to_be_bytes());
    b.extend_from_slice(&1u16.to_be_bytes());
    b.extend_from_slice(&0x2222u16.to_be_bytes());
    b.extend_from_slice(&sample_part_bytes());
    b.extend_from_slice(&0u16.to_be_bytes());
    b.extend_from_slice(&0u16.to_be_bytes());
    b.extend_from_slice(&2u16.to_be_bytes());
    b.extend_from_slice(&0x3333u16.to_be_bytes());
    b.extend_from_slice(&2u16.to_be_bytes());
    b.extend_from_slice(&0x4444u16.to_be_bytes());
    b.extend_from_slice(&sample_step_bytes());
    b.extend_from_slice(&sample_step_bytes());
    b.extend_from_slice(&0u16.to_be_bytes());
    b.extend_from_slice(&0u16.to_be_bytes());
    b
}

fn encode(brcad: &BRCAD) -> Vec<u8> {
    let mut out = Vec::new();
    brcad.to_binary(&mut out).unwrap();
    out
}

#[test]
fn brcad_part_has_32_bytes_and_step_24() {
    assert_eq!(sample_part_bytes().len(), 32);
    assert_eq!(sample_step_bytes().len(), 24);
    let mut out = Vec::new();
    sample_part().write_to(&mut out, ByteOrder::BigEndian).unwrap();
    assert_eq!(out, sample_part_bytes());
    let mut out = Vec::new();
    sample_step().write_to(&mut out, ByteOrder::BigEndian).unwrap();
    assert_eq!(out, sample_step_bytes());
}

#[test]
fn brcad_part_and_step_are_read() {
    let bytes = sample_part_bytes();
    let mut reader = Reader::new(&bytes);
    assert_eq!(SpritePart::read_from(&mut reader, ByteOrder::BigEndian).unwrap(), sample_part());
    assert_eq!(reader.pos, 32);
    let bytes = sample_step_bytes();
    let mut reader = Reader::new(&bytes);
    assert_eq!(AnimationStep::read_from(&mut reader, ByteOrder::BigEndian).unwrap(), sample_step());
    assert_eq!(reader.pos, 24);
}

#[test]
fn brcad_decode() {
    let bytes = sample_bytes();
    let mut reader = Reader::new(&bytes);
    assert_eq!(BRCAD::from_binary(&mut reader).unwrap(), sample());
    assert_eq!(reader.pos, bytes.len());
}

#[test]
fn brcad_encode() {
    assert_eq!(encode(&sample()), sample_bytes());
}

#[test]
fn brcad_round_trip() {
    let bytes = sample_bytes();
    let mut reader = Reader::new(&bytes);
    let brcad = BRCAD::from_binary(&mut reader).unwrap();
    assert_eq!(encode(&brcad), bytes);
}

#[test]
fn brcad_names_are_not_written() {
    let mut brcad = sample();
    brcad.animations[0].name = Some("walk".to_string());
    let bytes = encode(&brcad);
    assert_eq!(bytes, sample_bytes());
    let mut reader = Reader::new(&bytes);
    assert_eq!(BRCAD::from_binary(&mut reader).unwrap().animations[0].name, None);
}

#[test]
fn brcad_known_timestamp_is_none() {
    let mut brcad = sample();
    brcad.timestamp = Some(20100312);
    assert_eq!(encode(&brcad), sample_bytes());
    brcad.timestamp = Some(20090101);
    let bytes = encode(&brcad);
    assert_eq!(&bytes[..4], &20090101u32.to_be_bytes());
    let mut reader = Reader::new(&bytes);
    assert_eq!(BRCAD::from_binary(&mut reader).unwrap().timestamp, Some(20090101));
}

#[test]
fn brcad_empty_document() {
    let brcad = BRCAD {
        timestamp: None,
        unk0: 0,
        spritesheet_num: 0,
        spritesheet_control: 0,
        texture_width: 0,
        texture_height: 0,
        unk1: 0,
        sprites: vec![],
        unk2: 0,
        animations: vec![],
    };
    let bytes = encode(&brcad);
    assert_eq!(bytes.len(), 24);
    assert_eq!(&bytes[..4], &[0x01, 0x32, 0xb4, 0xd8]);
    assert!(bytes[4..].iter().all(|b| *b == 0));
    let mut reader = Reader::new(&bytes);
    assert_eq!(BRCAD::from_binary(&mut reader).unwrap(), brcad);
}

#[test]
fn brcad_truncated_anywhere_fails_and_stays() {
    let bytes = sample_bytes();
    for len in 0..bytes.len() {
        let mut reader = Reader::new(&bytes[..len]);
        let r = BRCAD::from_binary(&mut reader);
        assert!(matches!(r, Err(Error::IOError(_))), "length {}", len);
        assert_eq!(reader.pos, 0);
    }
}

#[test]
fn brcad_terminator_is_written_as_zero() {
    let mut bytes = sample_bytes();
    let at = 20 + 4 + 31;
    assert_eq!(bytes[at], 0);
    bytes[at] = 9;
    let mut reader = Reader::new(&bytes);
    let brcad = BRCAD::from_binary(&mut reader).unwrap();
    assert_eq!(brcad, sample());
    assert_eq!(encode(&brcad)[at], 0);
}

#[test]
fn brcad_counts_keep_their_low_16_bits() {
    let part = sample_part();
    let sprite = Sprite { unk: 0, parts: vec![part; 65537] };
    let mut out = Vec::new();
    sprite.write_to(&mut out, ByteOrder::BigEndian).unwrap();
    assert_eq!(&out[..4], &[0, 1, 0, 0]);
    assert_eq!(out.len(), 4 + 65537 * 32);
}

#[test]
fn brcad_constants() {
    assert!(matches!(BRCAD::BYTE_ORDER, ByteOrder::BigEndian));
    assert_eq!(BRCAD::TIMESTAMP, 20100312);
    assert_eq!(BRCAD::BXCAD_TYPE, flour::bxcad::BXCADType::BRCAD);
}

#[test]
fn brcad_is_format() {
    let bytes = sample_bytes();
    let mut reader = Reader::new(&bytes);
    assert_eq!(BRCAD::is_format(&mut reader).unwrap(), true);
    assert_eq!(reader.pos, 0);
    reader.pos = 1;
    assert_eq!(BRCAD::is_format(&mut reader).unwrap(), false);
    assert_eq!(reader.pos, 1);
}

#[test]
fn step_position_halves() {
    let step = sample_step();
    assert_eq!(step.pos_x(), -1);
    assert_eq!(step.pos_y(), 2);
    assert_eq!(AnimationStep::get_pos(&0x8000_7fff, false), i16::MIN);
    assert_eq!(AnimationStep::get_pos(&0x8000_7fff, true), i16::MAX);
    assert_eq!(AnimationStep::get_pos(&0x0001_0000, false), 1);
    assert_eq!(AnimationStep::get_pos(&0x0001_0000, true), 0);
}

#[test]
fn step_position_is_set() {
    let mut step = sample_step();
    step.pos_x_mut(100);
    assert_eq!(step.unk0, 0x0064_0002);
    step.pos_y_mut(-100);
    assert_eq!(step.unk0, 0x0064_ff9c);
    assert_eq!(step.pos_x(), 100);
    assert_eq!(step.pos_y(), -100);
    let mut other = sample_step();
    other.unk0 = step.unk0;
    assert_eq!(step, other);
}

#[test]
fn step_position_pack_and_unpack() {
    let values = [i16::MIN, -512, -1, 0, 1, 2, 255, 256, 512, i16::MAX];
    for x in values {
        for y in values {
            let mut word = 0xdead_beefu32;
            AnimationStep::set_pos(&mut word, false, x);
            AnimationStep::set_pos(&mut word, true, y);
            assert_eq!(word, ((x as u16 as u32) << 16) | (y as u16 as u32));
            assert_eq!(AnimationStep::get_pos(&word, false), x);
            assert_eq!(AnimationStep::get_pos(&word, true), y);
        }
    }
}

#[test]
fn step_position_is_the_memory_view_of_the_host() {
    // the two numbers that a host finds when it looks at the word in its
    // memory as two 16-bit numbers
    let word = 0x1234_fedcu32;
    let bytes = word.to_ne_bytes();
    let first = i16::from_ne_bytes([bytes[0], bytes[1]]);
    let second = i16::from_ne_bytes([bytes[2], bytes[3]]);
    let (x, y) = if u16::from_ne_bytes([1, 0]) == 1 { (second, first) } else { (first, second) };
    assert_eq!(AnimationStep::get_pos(&word, false), x);
    assert_eq!(AnimationStep::get_pos(&word, true), y);
}

#[test]
fn brcad_sprite_clone() {
    let sprite = Sprite { unk: 3, parts: vec![sample_part(), sample_part()] };
    assert_eq!(sprite.clone(), sprite);
}
