use flour::bxcad::bccad;
use flour::bxcad::brcad;
use flour::bxcad::qol::{Indexizable, IndexizedBCCAD, IndexizedBRCAD};
use flour::bxcad::PosInTexture;
use flour::error::Error;
use flour::{Color, FloatBits, BCCAD, BRCAD};
use std::collections::BTreeMap;

fn zero() -> FloatBits {
    FloatBits { bits: 0 }
}

fn compact_part(tag: u8) -> bccad::SpritePart {
    bccad::SpritePart {
        texture_pos: PosInTexture { x: tag as u16, y: 0, width: 1, height: 1 },
        pos_x: 0,
        pos_y: 0,
        scale_x: zero(),
        scale_y: zero(),
        rotation: zero(),
        flip_x: false,
        flip_y: false,
        multiply_color: Color { red: 0, green: 0, blue: 0 },
        screen_color: Color { red: 0, green: 0, blue: 0 },
        opacity: tag,
        unk1: [0; 12],
        designation_id: 0,
        unk2: 0,
        depth: bccad::StereoDepth {
            top_left: zero(),
            bottom_left: zero(),
            top_right: zero(),
            bottom_right: zero(),
        },
    }
}

fn raster_part(tag: u8) -> brcad::SpritePart {
    brcad::SpritePart {
        texture_pos: PosInTexture { x: tag as u16, y: 0, width: 1, height: 1 },
        unk: 0,
        pos_x: 0,
        pos_y: 0,
        scale_x: zero(),
        scale_y: zero(),
        rotation: zero(),
        flip_x: false,
        flip_y: false,
        opacity: tag,
    }
}

fn compact(sprites: usize) -> BCCAD {
    BCCAD {
        timestamp: Some(1),
        texture_width: 2,
        texture_height: 3,
        sprites: (0..sprites)
            .map(|i| bccad::Sprite { parts: vec![compact_part(i as u8); i % 3] })
            .collect(),
        animations: vec![bccad::Animation {
            name: "a".to_string(),
            interpolation: 4,
            steps: vec![],
        }],
    }
}

fn raster(sprites: usize) -> BRCAD {
    BRCAD {
        timestamp: Some(1),
        unk0: 2,
        spritesheet_num: 3,
        spritesheet_control: 4,
        texture_width: 5,
        texture_height: 6,
        unk1: 7,
        sprites: (0..sprites)
            .map(|i| brcad::Sprite { unk: i as u16 + 1, parts: vec![raster_part(i as u8); i % 3] })
            .collect(),
        unk2: 8,
        animations: vec![brcad::Animation { name: None, unk: 9, steps: vec![] }],
    }
}

#[test]
fn bccad_sprites_stand_under_their_index() {
    let indexized = compact(4).to_indexized();
    assert_eq!(indexized.timestamp, Some(1));
    assert_eq!(indexized.texture_width, 2);
    assert_eq!(indexized.texture_height, 3);
    assert_eq!(indexized.animations, compact(4).animations);
    assert_eq!(indexized.sprites.keys().copied().collect::<Vec<u16>>(), vec![0, 1, 2, 3]);
    for (key, sprite) in &indexized.sprites {
        assert_eq!(*sprite, compact(4).sprites[*key as usize]);
    }
}

#[test]
fn bccad_indexization_inverse_on_dense_input() {
    for n in [1usize, 2, 3, 10, 300] {
        let back = BCCAD::from_indexized(compact(n).to_indexized()).unwrap();
        assert_eq!(back, compact(n), "{} sprites", n);
    }
}

#[test]
fn brcad_indexization_inverse_on_dense_input() {
    for n in [1usize, 2, 3, 10, 300] {
        let indexized = raster(n).to_indexized();
        assert_eq!(indexized.sprites.len(), n);
        assert_eq!(indexized.unk1, 7);
        assert_eq!(indexized.unk2, 8);
        let back = BRCAD::from_indexized(indexized).unwrap();
        assert_eq!(back, raster(n), "{} sprites", n);
    }
}

#[test]
fn bccad_gaps_are_filled_with_empty_sprites() {
    let mut sprites = BTreeMap::new();
    sprites.insert(1u16, bccad::Sprite { parts: vec![compact_part(1)] });
    sprites.insert(4u16, bccad::Sprite { parts: vec![compact_part(4), compact_part(5)] });
    let indexized = IndexizedBCCAD {
        timestamp: None,
        texture_width: 9,
        texture_height: 8,
        sprites,
        animations: vec![],
    };
    let bccad = BCCAD::from_indexized(indexized).unwrap();
    assert_eq!(bccad.texture_width, 9);
    assert_eq!(bccad.texture_height, 8);
    assert_eq!(bccad.sprites.len(), 5);
    assert!(bccad.sprites[0].parts.is_empty());
    assert_eq!(bccad.sprites[1].parts, vec![compact_part(1)]);
    assert!(bccad.sprites[2].parts.is_empty());
    assert!(bccad.sprites[3].parts.is_empty());
    assert_eq!(bccad.sprites[4].parts, vec![compact_part(4), compact_part(5)]);
}

#[test]
fn brcad_gaps_are_filled_with_empty_sprites() {
    let mut sprites = BTreeMap::new();
    sprites.insert(2u16, brcad::Sprite { unk: 7, parts: vec![raster_part(1)] });
    let indexized = IndexizedBRCAD {
        timestamp: None,
        unk0: 1,
        spritesheet_num: 2,
        spritesheet_control: 3,
        texture_width: 4,
        texture_height: 5,
        unk1: 6,
        sprites,
        unk2: 7,
        animations: vec![],
    };
    let brcad = BRCAD::from_indexized(indexized).unwrap();
    assert_eq!(brcad.sprites.len(), 3);
    assert_eq!(brcad.sprites[0], brcad::Sprite { unk: 0, parts: vec![] });
    assert_eq!(brcad.sprites[1], brcad::Sprite { unk: 0, parts: vec![] });
    assert_eq!(brcad.sprites[2], brcad::Sprite { unk: 7, parts: vec![raster_part(1)] });
    assert_eq!(brcad.unk0, 1);
    assert_eq!(brcad.spritesheet_num, 2);
    assert_eq!(brcad.spritesheet_control, 3);
}

#[test]
fn highest_key_sizes_the_list() {
    let mut sprites = BTreeMap::new();
    sprites.insert(u16::MAX, bccad::Sprite { parts: vec![] });
    let indexized = IndexizedBCCAD {
        timestamp: None,
        texture_width: 0,
        texture_height: 0,
        sprites,
        animations: vec![],
    };
    assert_eq!(BCCAD::from_indexized(indexized).unwrap().sprites.len(), 65536);
    let mut sprites = BTreeMap::new();
    sprites.insert(0u16, bccad::Sprite { parts: vec![] });
    let indexized = IndexizedBCCAD {
        timestamp: None,
        texture_width: 0,
        texture_height: 0,
        sprites,
        animations: vec![],
    };
    assert_eq!(BCCAD::from_indexized(indexized).unwrap().sprites.len(), 1);
}

#[test]
fn empty_map_is_an_error() {
    let indexized = compact(0).to_indexized();
    assert!(indexized.sprites.is_empty());
    assert!(matches!(BCCAD::from_indexized(indexized), Err(Error::EmptyIndexized)));
    assert!(matches!(
        BRCAD::from_indexized(raster(0).to_indexized()),
        Err(Error::EmptyIndexized)
    ));
}

#[test]
fn an_index_that_does_not_fit_keeps_its_low_16_bits() {
    let mut bccad = compact(0);
    bccad.sprites = (0..65538usize)
        .map(|i| bccad::Sprite { parts: vec![compact_part((i % 251) as u8)] })
        .collect();
    let indexized = bccad.to_indexized();
    assert_eq!(indexized.sprites.len(), 65536);
    // the later sprite stays
    assert_eq!(indexized.sprites[&0].parts[0].opacity, (65536 % 251) as u8);
    assert_eq!(indexized.sprites[&1].parts[0].opacity, (65537 % 251) as u8);
    assert_eq!(indexized.sprites[&2].parts[0].opacity, 2);
}
