//! Conversion between the two formats.
//!
//! What both formats hold is copied, and what only the target holds gets a
//! default. Where the texture is scaled, a BCCAD has half the resolution of a
//! BRCAD: rectangles in the texture and the texture's size are halved or
//! doubled, positions are halved or doubled about the origin at (512, 512),
//! and the scale of a part makes up for the new size of its texture.
use vstd::prelude::*;
use vstd::string::*;
use crate::bxcad::bccad;
use crate::bxcad::brcad;
use crate::bxcad::brcad::packed_pos;
use crate::bxcad::brcad::pos_half;
use crate::bxcad::PosInTexture;
use crate::bytestream_addon::views;
use crate::bytestream_addon::ByteOrder;
use crate::Color;
use crate::FloatBits;

verus! {

/// Half of a number, rounded toward zero.
pub open spec fn half_toward_zero(d: int) -> int {
    if d >= 0 {
        d / 2
    } else {
        -((-d) / 2)
    }
}

/// A position at half its distance from the origin at 512: `(old - 512) / 2 +
/// 512`, with the half rounded toward zero.
pub open spec fn halved_pos(old: i16) -> i16 {
    (half_toward_zero(old - 512) + 512) as i16
}

/// A position at twice its distance from the origin at 512: `(old - 512) * 2
/// + 512`, cut to its low 16 bits where it does not fit.
pub open spec fn doubled_pos(old: i16) -> i16 {
    ((old - 512) * 2 + 512) as i16
}

/// A rectangle of the texture at half the resolution.
pub open spec fn halved_rect(rect: PosInTexture) -> PosInTexture {
    PosInTexture {
        x: rect.x / 2,
        y: rect.y / 2,
        width: rect.width / 2,
        height: rect.height / 2,
    }
}

/// A length in the texture at twice the resolution, cut to its low 16 bits
/// where it does not fit.
pub open spec fn doubled_length(length: u16) -> u16 {
    (length * 2) as u16
}

/// A rectangle of the texture at twice the resolution.
pub open spec fn doubled_rect(rect: PosInTexture) -> PosInTexture {
    PosInTexture {
        x: doubled_length(rect.x),
        y: doubled_length(rect.y),
        width: doubled_length(rect.width),
        height: doubled_length(rect.height),
    }
}

/// The color that leaves what it is multiplied with as it is.
pub open spec fn white() -> Color {
    Color { red: 255, green: 255, blue: 255 }
}

/// The color that leaves what it is screened with as it is.
pub open spec fn black() -> Color {
    Color { red: 0, green: 0, blue: 0 }
}

/// The character of a decimal digit.
pub open spec fn digit(d: nat) -> char {
    if d == 0 {
        '0'
    } else if d == 1 {
        '1'
    } else if d == 2 {
        '2'
    } else if d == 3 {
        '3'
    } else if d == 4 {
        '4'
    } else if d == 5 {
        '5'
    } else if d == 6 {
        '6'
    } else if d == 7 {
        '7'
    } else if d == 8 {
        '8'
    } else {
        '9'
    }
}

/// A number in decimal digits.
pub open spec fn decimal(n: nat) -> Seq<char>
    decreases n,
{
    if n < 10 {
        seq![digit(n)]
    } else {
        decimal(n / 10).push(digit(n % 10))
    }
}

/// The name that an animation without a name gets in a BCCAD: `anim_` and
/// its index.
pub open spec fn default_name(index: nat) -> Seq<char> {
    "anim_"@ + decimal(index)
}

/// The part of a BCCAD that stands for a part of a BRCAD.
pub open spec fn compact_part(part: brcad::SpritePart, scale_texture: bool) -> bccad::SpritePart {
    bccad::SpritePart {
        texture_pos: if scale_texture {
            halved_rect(part.texture_pos)
        } else {
            part.texture_pos
        },
        pos_x: if scale_texture {
            halved_pos(part.pos_x as i16)
        } else {
            part.pos_x as i16
        },
        pos_y: if scale_texture {
            halved_pos(part.pos_y as i16)
        } else {
            part.pos_y as i16
        },
        scale_x: if scale_texture {
            part.scale_x.halved()
        } else {
            part.scale_x
        },
        scale_y: if scale_texture {
            part.scale_y.halved()
        } else {
            part.scale_y
        },
        rotation: part.rotation,
        flip_x: part.flip_x,
        flip_y: part.flip_y,
        multiply_color: white(),
        screen_color: black(),
        opacity: part.opacity,
        unk1: [0u8, 0, 0, 0, 0, 0, 0, 0, 0, 0, 0, 0],
        designation_id: 0,
        unk2: 0,
        depth: bccad::StereoDepth {
            top_left: FloatBits { bits: 0 },
            bottom_left: FloatBits { bits: 0 },
            top_right: FloatBits { bits: 0 },
            bottom_right: FloatBits { bits: 0 },
        },
    }
}

/// The step of a BCCAD that stands for a step of a BRCAD.
pub open spec fn compact_step(
    step: brcad::AnimationStep,
    scale_texture: bool,
) -> bccad::AnimationStep {
    bccad::AnimationStep {
        sprite: step.sprite,
        duration: step.duration,
        pos_x: if scale_texture {
            halved_pos(pos_half(step.unk0, false))
        } else {
            pos_half(step.unk0, false)
        },
        pos_y: if scale_texture {
            halved_pos(pos_half(step.unk0, true))
        } else {
            pos_half(step.unk0, true)
        },
        depth: FloatBits { bits: 0 },
        scale_x: step.scale_x,
        scale_y: step.scale_y,
        rotation: step.rotation,
        multiply_color: white(),
        unk: [0u8, 0, 0],
        opacity: step.opacity as u16,
    }
}

/// The animation of a BCCAD that stands for the animation of a BRCAD at
/// `index`: one without a name is named by its index.
pub open spec fn compact_animation(
    animation: brcad::AnimationModel,
    index: int,
    scale_texture: bool,
) -> bccad::AnimationModel {
    bccad::AnimationModel {
        name: match animation.name {
            Some(name) => name,
            None => default_name(index as nat),
        },
        interpolation: 0,
        steps: animation.steps.map_values(
            |step: brcad::AnimationStep| compact_step(step, scale_texture),
        ),
    }
}

/// The BCCAD that stands for a BRCAD.
pub open spec fn compact(value: brcad::BrcadModel, scale_texture: bool) -> bccad::BccadModel {
    bccad::BccadModel {
        timestamp: None,
        texture_width: if scale_texture {
            value.texture_width / 2
        } else {
            value.texture_width
        },
        texture_height: if scale_texture {
            value.texture_height / 2
        } else {
            value.texture_height
        },
        sprites: value.sprites.map_values(
            |sprite: brcad::SpriteModel|
                sprite.parts.map_values(
                    |part: brcad::SpritePart| compact_part(part, scale_texture),
                ),
        ),
        animations: Seq::new(
            value.animations.len(),
            |i: int| compact_animation(value.animations[i], i, scale_texture),
        ),
    }
}

/// The part of a BRCAD that stands for a part of a BCCAD.
pub open spec fn raster_part(part: bccad::SpritePart, scale_texture: bool) -> brcad::SpritePart {
    brcad::SpritePart {
        texture_pos: if scale_texture {
            doubled_rect(part.texture_pos)
        } else {
            part.texture_pos
        },
        unk: 0,
        pos_x: if scale_texture {
            doubled_pos(part.pos_x) as u16
        } else {
            part.pos_x as u16
        },
        pos_y: if scale_texture {
            doubled_pos(part.pos_y) as u16
        } else {
            part.pos_y as u16
        },
        scale_x: if scale_texture {
            part.scale_x.doubled()
        } else {
            part.scale_x
        },
        scale_y: if scale_texture {
            part.scale_y.doubled()
        } else {
            part.scale_y
        },
        rotation: part.rotation,
        flip_x: part.flip_x,
        flip_y: part.flip_y,
        opacity: part.opacity,
    }
}

/// The step of a BRCAD that stands for a step of a BCCAD.
pub open spec fn raster_step(
    step: bccad::AnimationStep,
    scale_texture: bool,
) -> brcad::AnimationStep {
    brcad::AnimationStep {
        sprite: step.sprite,
        duration: step.duration,
        unk0: if scale_texture {
            packed_pos(doubled_pos(step.pos_x), doubled_pos(step.pos_y))
        } else {
            packed_pos(step.pos_x, step.pos_y)
        },
        scale_x: step.scale_x,
        scale_y: step.scale_y,
        rotation: step.rotation,
        opacity: step.opacity as u8,
        unk1: [0u8, 0, 0],
    }
}

/// The animation of a BRCAD that stands for an animation of a BCCAD.
pub open spec fn raster_animation(
    animation: bccad::AnimationModel,
    scale_texture: bool,
) -> brcad::AnimationModel {
    brcad::AnimationModel {
        name: Some(animation.name),
        unk: 0,
        steps: animation.steps.map_values(
            |step: bccad::AnimationStep| raster_step(step, scale_texture),
        ),
    }
}

/// The BRCAD that stands for a BCCAD.
pub open spec fn raster(value: bccad::BccadModel, scale_texture: bool) -> brcad::BrcadModel {
    brcad::BrcadModel {
        timestamp: None,
        unk0: 0,
        spritesheet_num: 0,
        spritesheet_control: 0,
        texture_width: if scale_texture {
            doubled_length(value.texture_width)
        } else {
            value.texture_width
        },
        texture_height: if scale_texture {
            doubled_length(value.texture_height)
        } else {
            value.texture_height
        },
        unk1: 0,
        sprites: value.sprites.map_values(
            |parts: Seq<bccad::SpritePart>|
                brcad::SpriteModel {
                    unk: 0,
                    parts: parts.map_values(
                        |part: bccad::SpritePart| raster_part(part, scale_texture),
                    ),
                },
        ),
        unk2: 0,
        animations: value.animations.map_values(
            |animation: bccad::AnimationModel| raster_animation(animation, scale_texture),
        ),
    }
}

/// Halves a position about the origin.
fn halve_pos(old: i16) -> (r: i16)
    ensures
        r == halved_pos(old),
{
    let d: i32 = old as i32 - 512;
    let half: i32 = if d >= 0 {
        d / 2
    } else {
        -((-d) / 2)
    };
    (half + 512) as i16
}

/// Doubles a position about the origin.
fn double_pos(old: i16) -> (r: i16)
    ensures
        r == doubled_pos(old),
{
    let wide: i32 = (old as i32 - 512) * 2 + 512;
    #[verifier::truncate]
    (wide as i16)
}

/// Doubles a length.
fn double_length(length: u16) -> (r: u16)
    ensures
        r == doubled_length(length),
{
    let wide: u32 = length as u32 * 2;
    #[verifier::truncate]
    (wide as u16)
}

/// Halves a rectangle.
fn halve_rect(rect: PosInTexture) -> (r: PosInTexture)
    ensures
        r == halved_rect(rect),
{
    PosInTexture { x: rect.x / 2, y: rect.y / 2, width: rect.width / 2, height: rect.height / 2 }
}

/// Doubles a rectangle.
fn double_rect(rect: PosInTexture) -> (r: PosInTexture)
    ensures
        r == doubled_rect(rect),
{
    PosInTexture {
        x: double_length(rect.x),
        y: double_length(rect.y),
        width: double_length(rect.width),
        height: double_length(rect.height),
    }
}

/// The one-letter text of a decimal digit.
fn digit_text(d: usize) -> (r: &'static str)
    requires
        d < 10,
    ensures
        r@ == seq![digit(d as nat)],
{
    proof {
        reveal_strlit("0");
        reveal_strlit("1");
        reveal_strlit("2");
        reveal_strlit("3");
        reveal_strlit("4");
        reveal_strlit("5");
        reveal_strlit("6");
        reveal_strlit("7");
        reveal_strlit("8");
        reveal_strlit("9");
    }
    let text = if d == 0 {
        "0"
    } else if d == 1 {
        "1"
    } else if d == 2 {
        "2"
    } else if d == 3 {
        "3"
    } else if d == 4 {
        "4"
    } else if d == 5 {
        "5"
    } else if d == 6 {
        "6"
    } else if d == 7 {
        "7"
    } else if d == 8 {
        "8"
    } else {
        "9"
    };
    assert(text@ =~= seq![digit(d as nat)]);
    text
}

/// Appends a number in decimal digits to a text.
fn push_decimal(text: &mut String, n: usize)
    ensures
        final(text)@ == old(text)@ + decimal(n as nat),
    decreases n,
{
    if n >= 10 {
        push_decimal(text, n / 10);
    }
    text.append(digit_text(n % 10));
    assert(text@ =~= old(text)@ + decimal(n as nat));
}

/// Writes the name that the animation at `index` gets where it has none.
pub fn index_name(index: usize) -> (r: String)
    ensures
        r@ == default_name(index as nat),
{
    let mut name = "anim_".to_owned();
    push_decimal(&mut name, index);
    name
}

/// Converts a part of a BRCAD.
fn part_to_ccad(part: &brcad::SpritePart, scale_texture: bool) -> (r: bccad::SpritePart)
    ensures
        r == compact_part(*part, scale_texture),
{
    let pos_x = #[verifier::truncate] (part.pos_x as i16);
    let pos_y = #[verifier::truncate] (part.pos_y as i16);
    let unk1 = [0u8; 12];
    assert(unk1 =~= [0u8, 0, 0, 0, 0, 0, 0, 0, 0, 0, 0, 0]);
    bccad::SpritePart {
        texture_pos: if scale_texture {
            halve_rect(part.texture_pos)
        } else {
            part.texture_pos
        },
        pos_x: if scale_texture {
            halve_pos(pos_x)
        } else {
            pos_x
        },
        pos_y: if scale_texture {
            halve_pos(pos_y)
        } else {
            pos_y
        },
        scale_x: if scale_texture {
            part.scale_x.half()
        } else {
            part.scale_x
        },
        scale_y: if scale_texture {
            part.scale_y.half()
        } else {
            part.scale_y
        },
        rotation: part.rotation,
        flip_x: part.flip_x,
        flip_y: part.flip_y,
        multiply_color: Color { red: 255, green: 255, blue: 255 },
        screen_color: Color { red: 0, green: 0, blue: 0 },
        opacity: part.opacity,
        unk1,
        designation_id: 0,
        unk2: 0,
        depth: bccad::StereoDepth {
            top_left: FloatBits { bits: 0 },
            bottom_left: FloatBits { bits: 0 },
            top_right: FloatBits { bits: 0 },
            bottom_right: FloatBits { bits: 0 },
        },
    }
}

/// Converts a step of a BRCAD.
fn step_to_ccad(step: &brcad::AnimationStep, scale_texture: bool) -> (r: bccad::AnimationStep)
    ensures
        r == compact_step(*step, scale_texture),
{
    let pos_x = step.pos_x();
    let pos_y = step.pos_y();
    let unk = [0u8; 3];
    assert(unk =~= [0u8, 0, 0]);
    bccad::AnimationStep {
        sprite: step.sprite,
        duration: step.duration,
        pos_x: if scale_texture {
            halve_pos(pos_x)
        } else {
            pos_x
        },
        pos_y: if scale_texture {
            halve_pos(pos_y)
        } else {
            pos_y
        },
        depth: FloatBits { bits: 0 },
        scale_x: step.scale_x,
        scale_y: step.scale_y,
        rotation: step.rotation,
        multiply_color: Color { red: 255, green: 255, blue: 255 },
        unk,
        opacity: step.opacity as u16,
    }
}

/// Converts a sprite of a BRCAD.
fn sprite_to_ccad(sprite: &brcad::Sprite, scale_texture: bool) -> (r: bccad::Sprite)
    ensures
        r@ == sprite@.parts.map_values(|part: brcad::SpritePart| compact_part(part, scale_texture)),
{
    let ghost wanted = sprite@.parts.map_values(
        |part: brcad::SpritePart| compact_part(part, scale_texture),
    );
    let mut parts: Vec<bccad::SpritePart> = Vec::new();
    let mut i: usize = 0;
    while i < sprite.parts.len()
        invariant
            i <= sprite.parts.len(),
            wanted == sprite@.parts.map_values(
                |part: brcad::SpritePart| compact_part(part, scale_texture),
            ),
            parts@.len() == i,
            forall|k: int| 0 <= k < i ==> parts@[k] == wanted[k],
        decreases sprite.parts.len() - i,
    {
        parts.push(part_to_ccad(&sprite.parts[i], scale_texture));
        i = i + 1;
    }
    assert(views(parts@) =~= wanted);
    bccad::Sprite { parts }
}

/// Converts the animation of a BRCAD at `index`.
fn animation_to_ccad(animation: &brcad::Animation, index: usize, scale_texture: bool) -> (r:
    bccad::Animation)
    ensures
        r@ == compact_animation(animation@, index as int, scale_texture),
{
    let ghost wanted = animation@.steps.map_values(
        |step: brcad::AnimationStep| compact_step(step, scale_texture),
    );
    let mut steps: Vec<bccad::AnimationStep> = Vec::new();
    let mut i: usize = 0;
    while i < animation.steps.len()
        invariant
            i <= animation.steps.len(),
            wanted == animation@.steps.map_values(
                |step: brcad::AnimationStep| compact_step(step, scale_texture),
            ),
            steps@.len() == i,
            forall|k: int| 0 <= k < i ==> steps@[k] == wanted[k],
        decreases animation.steps.len() - i,
    {
        steps.push(step_to_ccad(&animation.steps[i], scale_texture));
        i = i + 1;
    }
    assert(views(steps@) =~= wanted);
    let name = match &animation.name {
        Some(name) => name.clone(),
        None => index_name(index),
    };
    bccad::Animation { name, interpolation: 0, steps }
}

/// Converts a BRCAD to the BCCAD that stands for it. Where `scale_texture`
/// is set, the texture of the BCCAD is taken to have half the resolution.
pub fn rcad_to_ccad(og: &brcad::BRCAD, scale_texture: bool) -> (out: bccad::BCCAD)
    ensures
        out@ == compact(og@, scale_texture),
{
    let ghost wanted = compact(og@, scale_texture);
    let mut sprites: Vec<bccad::Sprite> = Vec::new();
    let mut i: usize = 0;
    while i < og.sprites.len()
        invariant
            i <= og.sprites.len(),
            wanted == compact(og@, scale_texture),
            sprites@.len() == i,
            forall|k: int| 0 <= k < i ==> (#[trigger] sprites@[k])@ == wanted.sprites[k],
        decreases og.sprites.len() - i,
    {
        sprites.push(sprite_to_ccad(&og.sprites[i], scale_texture));
        i = i + 1;
    }
    let mut animations: Vec<bccad::Animation> = Vec::new();
    let mut j: usize = 0;
    while j < og.animations.len()
        invariant
            j <= og.animations.len(),
            wanted == compact(og@, scale_texture),
            animations@.len() == j,
            forall|k: int| 0 <= k < j ==> (#[trigger] animations@[k])@ == wanted.animations[k],
        decreases og.animations.len() - j,
    {
        animations.push(animation_to_ccad(&og.animations[j], j, scale_texture));
        j = j + 1;
    }
    assert(views(sprites@) =~= wanted.sprites);
    assert(views(animations@) =~= wanted.animations);
    bccad::BCCAD {
        timestamp: None,
        texture_width: if scale_texture {
            og.texture_width / 2
        } else {
            og.texture_width
        },
        texture_height: if scale_texture {
            og.texture_height / 2
        } else {
            og.texture_height
        },
        sprites,
        animations,
    }
}

/// Converts a part of a BCCAD.
fn part_to_rcad(part: &bccad::SpritePart, scale_texture: bool) -> (r: brcad::SpritePart)
    ensures
        r == raster_part(*part, scale_texture),
{
    let pos_x = if scale_texture {
        double_pos(part.pos_x)
    } else {
        part.pos_x
    };
    let pos_y = if scale_texture {
        double_pos(part.pos_y)
    } else {
        part.pos_y
    };
    brcad::SpritePart {
        texture_pos: if scale_texture {
            double_rect(part.texture_pos)
        } else {
            part.texture_pos
        },
        unk: 0,
        pos_x: #[verifier::truncate] (pos_x as u16),
        pos_y: #[verifier::truncate] (pos_y as u16),
        scale_x: if scale_texture {
            part.scale_x.double()
        } else {
            part.scale_x
        },
        scale_y: if scale_texture {
            part.scale_y.double()
        } else {
            part.scale_y
        },
        rotation: part.rotation,
        flip_x: part.flip_x,
        flip_y: part.flip_y,
        opacity: part.opacity,
    }
}

/// Converts a step of a BCCAD.
fn step_to_rcad(step: &bccad::AnimationStep, scale_texture: bool) -> (r: brcad::AnimationStep)
    ensures
        r == raster_step(*step, scale_texture),
{
    let pos_x = if scale_texture {
        double_pos(step.pos_x)
    } else {
        step.pos_x
    };
    let pos_y = if scale_texture {
        double_pos(step.pos_y)
    } else {
        step.pos_y
    };
    let unk1 = [0u8; 3];
    assert(unk1 =~= [0u8, 0, 0]);
    let mut out = brcad::AnimationStep {
        sprite: step.sprite,
        duration: step.duration,
        unk0: 0,
        scale_x: step.scale_x,
        scale_y: step.scale_y,
        rotation: step.rotation,
        opacity: #[verifier::truncate] (step.opacity as u8),
        unk1,
    };
    out.pos_x_mut(pos_x);
    out.pos_y_mut(pos_y);
    proof {
        brcad::lemma_packed_pos(pos_x, pos_half(0, true), ByteOrder::BigEndian);
    }
    out
}

/// Converts a sprite of a BCCAD.
fn sprite_to_rcad(sprite: &bccad::Sprite, scale_texture: bool) -> (r: brcad::Sprite)
    ensures
        r@ == (brcad::SpriteModel {
            unk: 0,
            parts: sprite@.map_values(|part: bccad::SpritePart| raster_part(part, scale_texture)),
        }),
{
    let ghost wanted = sprite@.map_values(
        |part: bccad::SpritePart| raster_part(part, scale_texture),
    );
    let mut parts: Vec<brcad::SpritePart> = Vec::new();
    let mut i: usize = 0;
    while i < sprite.parts.len()
        invariant
            i <= sprite.parts.len(),
            wanted == sprite@.map_values(
                |part: bccad::SpritePart| raster_part(part, scale_texture),
            ),
            parts@.len() == i,
            forall|k: int| 0 <= k < i ==> parts@[k] == wanted[k],
        decreases sprite.parts.len() - i,
    {
        parts.push(part_to_rcad(&sprite.parts[i], scale_texture));
        i = i + 1;
    }
    assert(views(parts@) =~= wanted);
    brcad::Sprite { unk: 0, parts }
}

/// Converts an animation of a BCCAD.
fn animation_to_rcad(animation: &bccad::Animation, scale_texture: bool) -> (r: brcad::Animation)
    ensures
        r@ == raster_animation(animation@, scale_texture),
{
    let ghost wanted = animation@.steps.map_values(
        |step: bccad::AnimationStep| raster_step(step, scale_texture),
    );
    let mut steps: Vec<brcad::AnimationStep> = Vec::new();
    let mut i: usize = 0;
    while i < animation.steps.len()
        invariant
            i <= animation.steps.len(),
            wanted == animation@.steps.map_values(
                |step: bccad::AnimationStep| raster_step(step, scale_texture),
            ),
            steps@.len() == i,
            forall|k: int| 0 <= k < i ==> steps@[k] == wanted[k],
        decreases animation.steps.len() - i,
    {
        steps.push(step_to_rcad(&animation.steps[i], scale_texture));
        i = i + 1;
    }
    assert(views(steps@) =~= wanted);
    brcad::Animation { name: Some(animation.name.clone()), unk: 0, steps }
}

/// Converts a BCCAD to the BRCAD that stands for it. Where `scale_texture`
/// is set, the texture of the BRCAD is taken to have twice the resolution.
pub fn ccad_to_rcad(og: &bccad::BCCAD, scale_texture: bool) -> (out: brcad::BRCAD)
    ensures
        out@ == raster(og@, scale_texture),
{
    let ghost wanted = raster(og@, scale_texture);
    let mut sprites: Vec<brcad::Sprite> = Vec::new();
    let mut i: usize = 0;
    while i < og.sprites.len()
        invariant
            i <= og.sprites.len(),
            wanted == raster(og@, scale_texture),
            sprites@.len() == i,
            forall|k: int| 0 <= k < i ==> (#[trigger] sprites@[k])@ == wanted.sprites[k],
        decreases og.sprites.len() - i,
    {
        sprites.push(sprite_to_rcad(&og.sprites[i], scale_texture));
        i = i + 1;
    }
    let mut animations: Vec<brcad::Animation> = Vec::new();
    let mut j: usize = 0;
    while j < og.animations.len()
        invariant
            j <= og.animations.len(),
            wanted == raster(og@, scale_texture),
            animations@.len() == j,
            forall|k: int| 0 <= k < j ==> (#[trigger] animations@[k])@ == wanted.animations[k],
        decreases og.animations.len() - j,
    {
        animations.push(animation_to_rcad(&og.animations[j], scale_texture));
        j = j + 1;
    }
    assert(views(sprites@) =~= wanted.sprites);
    assert(views(animations@) =~= wanted.animations);
    brcad::BRCAD {
        timestamp: None,
        unk0: 0,
        spritesheet_num: 0,
        spritesheet_control: 0,
        texture_width: if scale_texture {
            double_length(og.texture_width)
        } else {
            og.texture_width
        },
        texture_height: if scale_texture {
            double_length(og.texture_height)
        } else {
            og.texture_height
        },
        unk1: 0,
        sprites,
        unk2: 0,
        animations,
    }
}

} // verus!
