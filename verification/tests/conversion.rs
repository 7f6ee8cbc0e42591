use flour::bxcad::bccad;
use flour::bxcad::brcad;
use flour::bxcad::PosInTexture;
use flour::bxcad::BXCAD;
use flour::bytestream_addon::Reader;
use flour::conversion::{ccad_to_rcad, index_name, rcad_to_ccad};
use flour::{Color, FloatBits, BCCAD, BRCAD};

fn float(x: f32) -> FloatBits {
    FloatBits { bits: x.to_bits() }
}

fn raster_part() -> brcad::SpritePart {
    brcad::SpritePart {
        texture_pos: PosInTexture { x: 0, y: 0, width: 32, height: 32 },
        unk: 0,
        pos_x: 512,
        pos_y: 512,
        scale_x: float(1.0),
        scale_y: float(1.0),
        rotation: float(30.0),
        flip_x: true,
        flip_y: false,
        opacity: 77,
    }
}

fn raster_step(x: i16, y: i16) -> brcad::AnimationStep {
    let mut step = brcad::AnimationStep {
        sprite: 2,
        duration: 9,
        unk0: 0,
        scale_x: float(1.5),
        scale_y: float(2.5),
        rotation: float(3.5),
        opacity: 200,
        unk1: [0; 3],
    };
    step.pos_x_mut(x);
    step.pos_y_mut(y);
    step
}

fn raster(part: brcad::SpritePart) -> BRCAD {
    BRCAD {
        timestamp: Some(5),
        unk0: 1,
        spritesheet_num: 2,
        spritesheet_control: 3,
        texture_width: 1024,
        texture_height: 512,
        unk1: 4,
        sprites: vec![brcad::Sprite { unk: 5, parts: vec![part] }],
        unk2: 6,
        animations: vec![
            brcad::Animation { name: None, unk: 7, steps: vec![raster_step(512, 516)] },
            brcad::Animation { name: Some("jump".to_string()), unk: 8, steps: vec![] },
        ],
    }
}

#[test]
fn conversion_scenario() {
    let compact = rcad_to_ccad(&raster(raster_part()), true);
    let part = compact.sprites[0].parts[0];
    assert_eq!(part.texture_pos, PosInTexture { x: 0, y: 0, width: 16, height: 16 });
    assert_eq!((part.pos_x, part.pos_y), (512, 512));
    assert_eq!(f32::from_bits(part.scale_x.bits), 0.5);
    assert_eq!(f32::from_bits(part.scale_y.bits), 0.5);
    let back = ccad_to_rcad(&compact, true);
    let part = back.sprites[0].parts[0];
    assert_eq!(part.texture_pos, PosInTexture { x: 0, y: 0, width: 32, height: 32 });
    assert_eq!((part.pos_x, part.pos_y), (512, 512));
    assert_eq!(f32::from_bits(part.scale_x.bits), 1.0);
    assert_eq!(f32::from_bits(part.scale_y.bits), 1.0);
}

#[test]
fn raster_to_compact_without_scaling() {
    let compact = rcad_to_ccad(&raster(raster_part()), false);
    assert_eq!(compact.timestamp, None);
    assert_eq!(compact.texture_width, 1024);
    assert_eq!(compact.texture_height, 512);
    assert_eq!(compact.sprites.len(), 1);
    let part = compact.sprites[0].parts[0];
    assert_eq!(
        part,
        bccad::SpritePart {
            texture_pos: PosInTexture { x: 0, y: 0, width: 32, height: 32 },
            pos_x: 512,
            pos_y: 512,
            scale_x: float(1.0),
            scale_y: float(1.0),
            rotation: float(30.0),
            flip_x: true,
            flip_y: false,
            multiply_color: Color { red: 255, green: 255, blue: 255 },
            screen_color: Color { red: 0, green: 0, blue: 0 },
            opacity: 77,
            unk1: [0; 12],
            designation_id: 0,
            unk2: 0,
            depth: bccad::StereoDepth {
                top_left: float(0.0),
                bottom_left: float(0.0),
                top_right: float(0.0),
                bottom_right: float(0.0),
            },
        }
    );
    assert_eq!(compact.animations.len(), 2);
    assert_eq!(compact.animations[0].name, "anim_0");
    assert_eq!(compact.animations[0].interpolation, 0);
    assert_eq!(compact.animations[1].name, "jump");
    assert_eq!(
        compact.animations[0].steps,
        vec![bccad::AnimationStep {
            sprite: 2,
            duration: 9,
            pos_x: 512,
            pos_y: 516,
            depth: float(0.0),
            scale_x: float(1.5),
            scale_y: float(2.5),
            rotation: float(3.5),
            multiply_color: Color { red: 255, green: 255, blue: 255 },
            unk: [0; 3],
            opacity: 200,
        }]
    );
}

#[test]
fn raster_to_compact_with_scaling() {
    let mut part = raster_part();
    part.texture_pos = PosInTexture { x: 11, y: 20, width: 33, height: 64 };
    part.pos_x = 612;
    part.pos_y = 411;
    part.scale_x = float(3.0);
    let compact = rcad_to_ccad(&raster(part), true);
    assert_eq!(compact.texture_width, 512);
    assert_eq!(compact.texture_height, 256);
    let part = compact.sprites[0].parts[0];
    assert_eq!(part.texture_pos, PosInTexture { x: 5, y: 10, width: 16, height: 32 });
    // (612 - 512) / 2 + 512 and (411 - 512) / 2 + 512, rounded toward zero
    assert_eq!(part.pos_x, 562);
    assert_eq!(part.pos_y, 462);
    assert_eq!(f32::from_bits(part.scale_x.bits), 1.5);
    assert_eq!(f32::from_bits(part.rotation.bits), 30.0);
    // the positions of the steps are halved about the origin too
    let step = compact.animations[0].steps[0];
    assert_eq!((step.pos_x, step.pos_y), (512, 514));
    assert_eq!(f32::from_bits(step.scale_x.bits), 1.5);
}

#[test]
fn raster_positions_are_signed() {
    let mut part = raster_part();
    part.pos_x = 0xffff;
    part.pos_y = 0x8000;
    let compact = rcad_to_ccad(&raster(part), false);
    assert_eq!(compact.sprites[0].parts[0].pos_x, -1);
    assert_eq!(compact.sprites[0].parts[0].pos_y, i16::MIN);
    let compact = rcad_to_ccad(&raster(part), true);
    // (-1 - 512) / 2 + 512 and (-32768 - 512) / 2 + 512
    assert_eq!(compact.sprites[0].parts[0].pos_x, 256);
    assert_eq!(compact.sprites[0].parts[0].pos_y, -16128);
}

fn compact() -> BCCAD {
    BCCAD {
        timestamp: Some(1),
        texture_width: 512,
        texture_height: 256,
        sprites: vec![
            bccad::Sprite {
                parts: vec![bccad::SpritePart {
                    texture_pos: PosInTexture { x: 5, y: 10, width: 16, height: 32 },
                    pos_x: 562,
                    pos_y: -3,
                    scale_x: float(1.5),
                    scale_y: float(0.25),
                    rotation: float(30.0),
                    flip_x: false,
                    flip_y: true,
                    multiply_color: Color { red: 1, green: 2, blue: 3 },
                    screen_color: Color { red: 4, green: 5, blue: 6 },
                    opacity: 99,
                    unk1: [7; 12],
                    designation_id: 8,
                    unk2: 9,
                    depth: bccad::StereoDepth {
                        top_left: float(1.0),
                        bottom_left: float(2.0),
                        top_right: float(3.0),
                        bottom_right: float(4.0),
                    },
                }],
            },
            bccad::Sprite { parts: vec![] },
        ],
        animations: vec![bccad::Animation {
            name: "run".to_string(),
            interpolation: 3,
            steps: vec![bccad::AnimationStep {
                sprite: 1,
                duration: 2,
                pos_x: -4,
                pos_y: 600,
                depth: float(5.0),
                scale_x: float(6.0),
                scale_y: float(7.0),
                rotation: float(8.0),
                multiply_color: Color { red: 9, green: 9, blue: 9 },
                unk: [1, 2, 3],
                opacity: 0x1ff,
            }],
        }],
    }
}

#[test]
fn compact_to_raster_without_scaling() {
    let raster = ccad_to_rcad(&compact(), false);
    assert_eq!(raster.timestamp, None);
    assert_eq!(raster.unk0, 0);
    assert_eq!(raster.spritesheet_num, 0);
    assert_eq!(raster.spritesheet_control, 0);
    assert_eq!(raster.texture_width, 512);
    assert_eq!(raster.texture_height, 256);
    assert_eq!(raster.unk1, 0);
    assert_eq!(raster.unk2, 0);
    assert_eq!(raster.sprites.len(), 2);
    assert_eq!(
        raster.sprites[0],
        brcad::Sprite {
            unk: 0,
            parts: vec![brcad::SpritePart {
                texture_pos: PosInTexture { x: 5, y: 10, width: 16, height: 32 },
                unk: 0,
                pos_x: 562,
                pos_y: 0xfffd,
                scale_x: float(1.5),
                scale_y: float(0.25),
                rotation: float(30.0),
                flip_x: false,
                flip_y: true,
                opacity: 99,
            }],
        }
    );
    assert_eq!(raster.sprites[1], brcad::Sprite { unk: 0, parts: vec![] });
    assert_eq!(raster.animations.len(), 1);
    assert_eq!(raster.animations[0].name, Some("run".to_string()));
    assert_eq!(raster.animations[0].unk, 0);
    let step = raster.animations[0].steps[0];
    assert_eq!(step.sprite, 1);
    assert_eq!(step.duration, 2);
    assert_eq!(step.pos_x(), -4);
    assert_eq!(step.pos_y(), 600);
    assert_eq!(step.unk0, 0xfffc_0258);
    assert_eq!(step.scale_x, float(6.0));
    assert_eq!(step.scale_y, float(7.0));
    assert_eq!(step.rotation, float(8.0));
    assert_eq!(step.opacity, 0xff);
    assert_eq!(step.unk1, [0; 3]);
}

#[test]
fn compact_to_raster_with_scaling() {
    let raster = ccad_to_rcad(&compact(), true);
    assert_eq!(raster.texture_width, 1024);
    assert_eq!(raster.texture_height, 512);
    let part = raster.sprites[0].parts[0];
    assert_eq!(part.texture_pos, PosInTexture { x: 10, y: 20, width: 32, height: 64 });
    // (562 - 512) * 2 + 512 and (-3 - 512) * 2 + 512
    assert_eq!(part.pos_x, 612);
    assert_eq!(part.pos_y, (-518i16) as u16);
    assert_eq!(f32::from_bits(part.scale_x.bits), 3.0);
    assert_eq!(f32::from_bits(part.scale_y.bits), 0.5);
    let step = raster.animations[0].steps[0];
    assert_eq!(step.pos_x(), -520);
    assert_eq!(step.pos_y(), 688);
}

#[test]
fn doubling_keeps_the_low_16_bits() {
    let mut bccad = compact();
    bccad.texture_width = 40000;
    bccad.sprites[0].parts[0].texture_pos.x = 0x8001;
    bccad.sprites[0].parts[0].pos_x = i16::MAX;
    bccad.sprites[0].parts[0].pos_y = i16::MIN;
    let raster = ccad_to_rcad(&bccad, true);
    assert_eq!(raster.texture_width, (80000u32 % 65536) as u16);
    assert_eq!(raster.sprites[0].parts[0].texture_pos.x, 2);
    // (32767 - 512) * 2 + 512 = 65022 and (-32768 - 512) * 2 + 512 = -66048
    assert_eq!(raster.sprites[0].parts[0].pos_x, 65022);
    assert_eq!(raster.sprites[0].parts[0].pos_y, (-66048i32).rem_euclid(65536) as u16);
}

#[test]
fn names_by_index() {
    assert_eq!(index_name(0), "anim_0");
    assert_eq!(index_name(7), "anim_7");
    assert_eq!(index_name(10), "anim_10");
    assert_eq!(index_name(409), "anim_409");
    assert_eq!(index_name(65535), "anim_65535");
    assert_eq!(index_name(usize::MAX), format!("anim_{}", usize::MAX));
    let mut brcad = raster(raster_part());
    brcad.animations = (0..12)
        .map(|_| brcad::Animation { name: None, unk: 0, steps: vec![] })
        .collect();
    let compact = rcad_to_ccad(&brcad, false);
    for (i, animation) in compact.animations.iter().enumerate() {
        assert_eq!(animation.name, format!("anim_{}", i));
    }
}

#[test]
fn converted_documents_can_be_written() {
    let compact = rcad_to_ccad(&raster(raster_part()), true);
    let mut bytes = Vec::new();
    compact.to_binary(&mut bytes).unwrap();
    let mut reader = Reader::new(&bytes);
    assert_eq!(BCCAD::from_binary(&mut reader).unwrap(), compact);
}
