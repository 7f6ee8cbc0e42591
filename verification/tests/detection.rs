use flour::bxcad::{get_bxcad_type, BXCADType};
use flour::bytestream_addon::Reader;
use flour::error::Error;

#[test]
fn identifies_bccad() {
    let bytes = [0xbfu8, 0x2c, 0x33, 0x01, 9, 9];
    let mut reader = Reader::new(&bytes);
    assert_eq!(get_bxcad_type(&mut reader).unwrap(), Some(BXCADType::BCCAD));
    assert_eq!(reader.pos, 0);
}

#[test]
fn identifies_brcad() {
    let bytes = [0x01u8, 0x32, 0xb4, 0xd8];
    let mut reader = Reader::new(&bytes);
    assert_eq!(get_bxcad_type(&mut reader).unwrap(), Some(BXCADType::BRCAD));
    assert_eq!(reader.pos, 0);
}

#[test]
fn identifies_at_the_position_of_the_reader() {
    let bytes = [0u8, 0, 0x01, 0x32, 0xb4, 0xd8, 0];
    let mut reader = Reader::new(&bytes);
    assert_eq!(get_bxcad_type(&mut reader).unwrap(), None);
    assert_eq!(reader.pos, 0);
    reader.pos = 2;
    assert_eq!(get_bxcad_type(&mut reader).unwrap(), Some(BXCADType::BRCAD));
    assert_eq!(reader.pos, 2);
}

#[test]
fn timestamps_in_the_other_byte_order_are_unknown() {
    let bytes = [0x01u8, 0x33, 0x2c, 0xbf];
    let mut reader = Reader::new(&bytes);
    assert_eq!(get_bxcad_type(&mut reader).unwrap(), None);
    let bytes = [0xd8u8, 0xb4, 0x32, 0x01];
    let mut reader = Reader::new(&bytes);
    assert_eq!(get_bxcad_type(&mut reader).unwrap(), None);
    assert_eq!(reader.pos, 0);
}

#[test]
fn short_data_is_an_error() {
    let bytes = [0xbfu8, 0x2c, 0x33];
    let mut reader = Reader::new(&bytes);
    assert!(matches!(get_bxcad_type(&mut reader), Err(Error::IOError(_))));
    assert_eq!(reader.pos, 0);
    reader.pos = 3;
    assert!(matches!(get_bxcad_type(&mut reader), Err(Error::IOError(_))));
    assert_eq!(reader.pos, 3);
}
