//! The BCCAD format: little-endian, with named animations, blend colors and
//! stereoscopic depth.
use vstd::prelude::*;
use crate::bxcad::BXCADType;
use crate::bxcad::PosInTexture;
use crate::bxcad::BXCAD;
use crate::bytestream_addon::bool_at;
use crate::bytestream_addon::bool_bytes;
use crate::bytestream_addon::bytes12_at;
use crate::bytestream_addon::bytes3_at;
use crate::bytestream_addon::color_at;
use crate::bytestream_addon::color_bytes;
use crate::bytestream_addon::holds_at;
use crate::bytestream_addon::i16_at;
use crate::bytestream_addon::i16_bytes;
use crate::bytestream_addon::i32_at;
use crate::bytestream_addon::i32_bytes;
use crate::bytestream_addon::lemma_bool_at_bytes;
use crate::bytestream_addon::lemma_bytes12_at_bytes;
use crate::bytestream_addon::lemma_bytes3_at_bytes;
use crate::bytestream_addon::lemma_color_at_bytes;
use crate::bytestream_addon::lemma_concat_assoc;
use crate::bytestream_addon::lemma_holds_at_bounds;
use crate::bytestream_addon::lemma_holds_at_concat;
use crate::bytestream_addon::lemma_holds_at_start;
use crate::bytestream_addon::lemma_i16_at_bytes;
use crate::bytestream_addon::lemma_i32_at_bytes;
use crate::bytestream_addon::lemma_list_encoding_seq;
use crate::bytestream_addon::lemma_parse_list_encoding;
use crate::bytestream_addon::lemma_parse_list_seq;
use crate::bytestream_addon::lemma_u16_at_bytes;
use crate::bytestream_addon::lemma_u32_at_bytes;
use crate::bytestream_addon::lemma_u8_at_bytes;
use crate::bytestream_addon::list_canonical;
use crate::bytestream_addon::read_outcome;
use crate::bytestream_addon::parse_seq;
use crate::bytestream_addon::read_list;
use crate::bytestream_addon::seq_encoding;
use crate::bytestream_addon::u16_at;
use crate::bytestream_addon::u16_bytes;
use crate::bytestream_addon::u32_at;
use crate::bytestream_addon::u32_bytes;
use crate::bytestream_addon::views;
use crate::bytestream_addon::write_array;
use crate::bytestream_addon::write_bool;
use crate::bytestream_addon::write_i16;
use crate::bytestream_addon::write_i32;
use crate::bytestream_addon::write_list;
use crate::bytestream_addon::write_u16;
use crate::bytestream_addon::write_u32;
use crate::bytestream_addon::write_u8;
use crate::bytestream_addon::ByteOrder;
use crate::bytestream_addon::ByteStream;
use crate::bytestream_addon::Reader;
use crate::error::Error;
use crate::error::Failure;
use crate::Color;
use crate::FloatBits;
use crate::VarLenString;

verus! {

/// The known timestamp of the format: Oct 7 2013.
pub const BCCAD_TIMESTAMP: u32 = 20131007;

/// A representation of the contents of a BCCAD file
#[derive(Clone, Debug, PartialEq, Eq)]
pub struct BCCAD {
    /// Date of latest format revision, in YYYYMMDD format (decimal).
    /// Known timestamp is 20131007 (Oct 7 2013); `None` stands for it.
    pub timestamp: Option<u32>,
    /// Width of the associated texture in pixels. 1024 maximum by hardware limitation
    pub texture_width: u16,
    /// Height of the associated texture in pixels. 1024 maximum by hardware limitation
    pub texture_height: u16,
    /// [`Sprite`]s this BCCAD contains
    pub sprites: Vec<Sprite>,
    /// [`Animation`]s that can be called for this BCCAD
    pub animations: Vec<Animation>,
}

/// What a [`BCCAD`] holds.
pub struct BccadModel {
    pub timestamp: Option<u32>,
    pub texture_width: u16,
    pub texture_height: u16,
    pub sprites: Seq<Seq<SpritePart>>,
    pub animations: Seq<AnimationModel>,
}

impl View for BCCAD {
    type V = BccadModel;

    open spec fn view(&self) -> BccadModel {
        BccadModel {
            timestamp: self.timestamp,
            texture_width: self.texture_width,
            texture_height: self.texture_height,
            sprites: views(self.sprites@),
            animations: views(self.animations@),
        }
    }
}

/// A frame of a BCCAD animation, composed of several [`SpritePart`]s or cells
/// aligned together to create a full picture
#[derive(Debug, PartialEq, Eq)]
pub struct Sprite {
    /// [`SpritePart`]s that form this Sprite
    pub parts: Vec<SpritePart>,
}

impl View for Sprite {
    type V = Seq<SpritePart>;

    open spec fn view(&self) -> Seq<SpritePart> {
        views(self.parts@)
    }
}

impl Clone for Sprite {
    fn clone(&self) -> (r: Self)
        ensures
            r@ == self@,
    {
        let mut parts: Vec<SpritePart> = Vec::new();
        let mut i: usize = 0;
        while i < self.parts.len()
            invariant
                i <= self.parts.len(),
                parts@ == self.parts@.take(i as int),
            decreases self.parts.len() - i,
        {
            parts.push(self.parts[i]);
            assert(parts@ =~= self.parts@.take(i + 1));
            i = i + 1;
        }
        assert(parts@ =~= self.parts@);
        Sprite { parts }
    }
}

/// A small image taken directly from the texture sheet, which grouped with others
/// creates a full frame of the animation, that is, a [`Sprite`]
#[derive(Clone, Copy, Debug, PartialEq, Eq)]
pub struct SpritePart {
    /// Struct that defines the bounds of the SpritePart in the texture itself
    pub texture_pos: PosInTexture,
    /// X position where the part should be placed relative to the sprite
    pub pos_x: i16,
    /// Y position where the part should be placed relative to the sprite
    pub pos_y: i16,
    /// Scaling factor for the X axis
    pub scale_x: FloatBits,
    /// Scaling factor for the Y axis
    pub scale_y: FloatBits,
    /// Part rotation in degrees
    pub rotation: FloatBits,
    /// Whether to flip the part on the X axis
    pub flip_x: bool,
    /// Whether to flip the part on the Y axis
    pub flip_y: bool,
    /// A color to apply the multiply blending mode with for the
    /// part in order to darken or tint it
    pub multiply_color: Color,
    /// A color to apply the screen blending mode with for the
    /// part in order to lighten it
    pub screen_color: Color,
    /// Opacity for the part
    pub opacity: u8,
    pub unk1: [u8; 12],
    /// Seems to identify certain parts for the code to apply effects or other
    /// textures too, or use them as interactive pieces (see: Feed Goat game)
    pub designation_id: u8,
    pub unk2: u8,
    /// Stereoscopic depth for the part
    pub depth: StereoDepth,
}

impl View for SpritePart {
    type V = SpritePart;

    open spec fn view(&self) -> SpritePart {
        *self
    }
}

/// Stereoscopic depth in the four corners of a rectangle (on which a [`SpritePart`]
/// is rendered)
#[derive(Clone, Copy, Debug, PartialEq, Eq, Structural)]
pub struct StereoDepth {
    /// Top-left corner
    pub top_left: FloatBits,
    /// Bottom-left corner
    pub bottom_left: FloatBits,
    /// Top-right corner
    pub top_right: FloatBits,
    /// Bottom-right corner
    pub bottom_right: FloatBits,
}

/// A cell animation for BCCAD, composed of different frames/[`Sprite`]s
#[derive(Clone, Debug, PartialEq, Eq)]
pub struct Animation {
    /// The name of the animation. This is what the game refers to it by
    pub name: String,
    /// Amount of interpolation used ???
    pub interpolation: i32,
    /// List of [`AnimationStep`]s that constitute this Animation
    pub steps: Vec<AnimationStep>,
}

/// What an [`Animation`] holds.
pub struct AnimationModel {
    pub name: Seq<char>,
    pub interpolation: i32,
    pub steps: Seq<AnimationStep>,
}

impl View for Animation {
    type V = AnimationModel;

    open spec fn view(&self) -> AnimationModel {
        AnimationModel {
            name: self.name@,
            interpolation: self.interpolation,
            steps: views(self.steps@),
        }
    }
}

/// These constitute an [`Animation`], and are a reference to
/// a [`Sprite`] plus more information about it relative to the
/// whole animation
#[derive(Clone, Copy, Debug, PartialEq, Eq)]
pub struct AnimationStep {
    /// A reference to the index number of the [`Sprite`] this AnimationStep uses
    pub sprite: u16,
    /// Duration of the frame (in unknown units, seems to have changeable speed)
    pub duration: u16,
    /// X position the sprite is rendered to, relative to the animation
    pub pos_x: i16,
    /// Y position the sprite is rendered to, relative to the animation
    pub pos_y: i16,
    /// Stereoscopic depth applied to the whole [`Sprite`]
    pub depth: FloatBits,
    /// Scaling factor for the X axis
    pub scale_x: FloatBits,
    /// Scaling factor for the Y axis
    pub scale_y: FloatBits,
    /// Rotation in degrees
    pub rotation: FloatBits,
    /// A color to apply the multiply blending mode with for the
    /// [`Sprite`] in order to darken or tint it
    pub multiply_color: Color,
    pub unk: [u8; 3],
    /// Opacity for the sprite
    pub opacity: u16,
}

impl View for AnimationStep {
    type V = AnimationStep;

    open spec fn view(&self) -> AnimationStep {
        *self
    }
}

impl SpritePart {
    /// The part that the bytes of `data` from `pos` on denote in `order`.
    pub open spec fn at(data: Seq<u8>, pos: int, order: ByteOrder) -> SpritePart {
        SpritePart {
            texture_pos: PosInTexture {
                x: u16_at(data, pos, order),
                y: u16_at(data, pos + 2, order),
                width: u16_at(data, pos + 4, order),
                height: u16_at(data, pos + 6, order),
            },
            pos_x: i16_at(data, pos + 8, order),
            pos_y: i16_at(data, pos + 10, order),
            scale_x: FloatBits { bits: u32_at(data, pos + 12, order) },
            scale_y: FloatBits { bits: u32_at(data, pos + 16, order) },
            rotation: FloatBits { bits: u32_at(data, pos + 20, order) },
            flip_x: bool_at(data, pos + 24),
            flip_y: bool_at(data, pos + 25),
            multiply_color: color_at(data, pos + 26),
            screen_color: color_at(data, pos + 29),
            opacity: data[pos + 32],
            unk1: bytes12_at(data, pos + 33),
            designation_id: data[pos + 45],
            unk2: data[pos + 46],
            depth: StereoDepth {
                top_left: FloatBits { bits: u32_at(data, pos + 47, order) },
                bottom_left: FloatBits { bits: u32_at(data, pos + 51, order) },
                top_right: FloatBits { bits: u32_at(data, pos + 55, order) },
                bottom_right: FloatBits { bits: u32_at(data, pos + 59, order) },
            },
        }
    }

    /// What a read of a part at `pos` of `data` gives: the part, where
    /// all its bytes are there.
    pub open spec fn decoded(data: Seq<u8>, pos: int, order: ByteOrder) -> Result<
        (SpritePart, int),
        Failure,
    > {
        if pos + 64 <= data.len() {
            Ok((Self::at(data, pos, order), pos + 64))
        } else {
            Err(Failure::Truncated)
        }
    }

    /// The bytes that are written for a part, field by field.
    pub open spec fn encoded(value: SpritePart, order: ByteOrder) -> Seq<u8> {
        u16_bytes(value.texture_pos.x, order)
            + u16_bytes(value.texture_pos.y, order)
            + u16_bytes(value.texture_pos.width, order)
            + u16_bytes(value.texture_pos.height, order)
            + i16_bytes(value.pos_x, order)
            + i16_bytes(value.pos_y, order)
            + u32_bytes(value.scale_x.bits, order)
            + u32_bytes(value.scale_y.bits, order)
            + u32_bytes(value.rotation.bits, order)
            + bool_bytes(value.flip_x)
            + bool_bytes(value.flip_y)
            + color_bytes(value.multiply_color)
            + color_bytes(value.screen_color)
            + seq![value.opacity]
            + value.unk1@
            + seq![value.designation_id]
            + seq![value.unk2]
            + u32_bytes(value.depth.top_left.bits, order)
            + u32_bytes(value.depth.bottom_left.bits, order)
            + u32_bytes(value.depth.top_right.bits, order)
            + u32_bytes(value.depth.bottom_right.bits, order)
            + seq![0u8]
    }

    /// The function that reads a part in `order`.
    pub open spec fn reader(order: ByteOrder) -> spec_fn(Seq<u8>, int) -> Result<
        (SpritePart, int),
        Failure,
    > {
        |data: Seq<u8>, pos: int| Self::decoded(data, pos, order)
    }

    /// The function that gives the bytes of a part in `order`.
    pub open spec fn writer(order: ByteOrder) -> spec_fn(SpritePart) -> Seq<u8> {
        |value: SpritePart| Self::encoded(value, order)
    }

    /// The bytes written for a part are read back as that part.
    pub proof fn lemma_decoded_encoded(
        value: SpritePart,
        order: ByteOrder,
        data: Seq<u8>,
        pos: int,
    )
        requires
            holds_at(data, pos, Self::encoded(value, order)),
        ensures
            Self::decoded(data, pos, order) == Ok::<(SpritePart, int), Failure>(
                (value, pos + 64),
            ),
            Self::encoded(value, order).len() == 64,
    {
        let seg0 = u16_bytes(value.texture_pos.x, order);
        let seg1 = u16_bytes(value.texture_pos.y, order);
        let seg2 = u16_bytes(value.texture_pos.width, order);
        let seg3 = u16_bytes(value.texture_pos.height, order);
        let seg4 = i16_bytes(value.pos_x, order);
        let seg5 = i16_bytes(value.pos_y, order);
        let seg6 = u32_bytes(value.scale_x.bits, order);
        let seg7 = u32_bytes(value.scale_y.bits, order);
        let seg8 = u32_bytes(value.rotation.bits, order);
        let seg9 = bool_bytes(value.flip_x);
        let seg10 = bool_bytes(value.flip_y);
        let seg11 = color_bytes(value.multiply_color);
        let seg12 = color_bytes(value.screen_color);
        let seg13 = seq![value.opacity];
        let seg14 = value.unk1@;
        let seg15 = seq![value.designation_id];
        let seg16 = seq![value.unk2];
        let seg17 = u32_bytes(value.depth.top_left.bits, order);
        let seg18 = u32_bytes(value.depth.bottom_left.bits, order);
        let seg19 = u32_bytes(value.depth.top_right.bits, order);
        let seg20 = u32_bytes(value.depth.bottom_right.bits, order);
        let seg21 = seq![0u8];
        let upto0 = seg0;
        let upto1 = upto0 + seg1;
        let upto2 = upto1 + seg2;
        let upto3 = upto2 + seg3;
        let upto4 = upto3 + seg4;
        let upto5 = upto4 + seg5;
        let upto6 = upto5 + seg6;
        let upto7 = upto6 + seg7;
        let upto8 = upto7 + seg8;
        let upto9 = upto8 + seg9;
        let upto10 = upto9 + seg10;
        let upto11 = upto10 + seg11;
        let upto12 = upto11 + seg12;
        let upto13 = upto12 + seg13;
        let upto14 = upto13 + seg14;
        let upto15 = upto14 + seg15;
        let upto16 = upto15 + seg16;
        let upto17 = upto16 + seg17;
        let upto18 = upto17 + seg18;
        let upto19 = upto18 + seg19;
        let upto20 = upto19 + seg20;
        let upto21 = upto20 + seg21;
        assert(seg0.len() == 2);
        assert(seg1.len() == 2);
        assert(seg2.len() == 2);
        assert(seg3.len() == 2);
        assert(seg4.len() == 2);
        assert(seg5.len() == 2);
        assert(seg6.len() == 4);
        assert(seg7.len() == 4);
        assert(seg8.len() == 4);
        assert(seg9.len() == 1);
        assert(seg10.len() == 1);
        assert(seg11.len() == 3);
        assert(seg12.len() == 3);
        assert(seg13.len() == 1);
        assert(seg14.len() == 12);
        assert(seg15.len() == 1);
        assert(seg16.len() == 1);
        assert(seg17.len() == 4);
        assert(seg18.len() == 4);
        assert(seg19.len() == 4);
        assert(seg20.len() == 4);
        assert(seg21.len() == 1);
        lemma_holds_at_bounds(data, pos, upto21);
        lemma_holds_at_concat(data, pos, upto20, seg21);
        lemma_holds_at_concat(data, pos, upto19, seg20);
        lemma_holds_at_concat(data, pos, upto18, seg19);
        lemma_holds_at_concat(data, pos, upto17, seg18);
        lemma_holds_at_concat(data, pos, upto16, seg17);
        lemma_holds_at_concat(data, pos, upto15, seg16);
        lemma_holds_at_concat(data, pos, upto14, seg15);
        lemma_holds_at_concat(data, pos, upto13, seg14);
        lemma_holds_at_concat(data, pos, upto12, seg13);
        lemma_holds_at_concat(data, pos, upto11, seg12);
        lemma_holds_at_concat(data, pos, upto10, seg11);
        lemma_holds_at_concat(data, pos, upto9, seg10);
        lemma_holds_at_concat(data, pos, upto8, seg9);
        lemma_holds_at_concat(data, pos, upto7, seg8);
        lemma_holds_at_concat(data, pos, upto6, seg7);
        lemma_holds_at_concat(data, pos, upto5, seg6);
        lemma_holds_at_concat(data, pos, upto4, seg5);
        lemma_holds_at_concat(data, pos, upto3, seg4);
        lemma_holds_at_concat(data, pos, upto2, seg3);
        lemma_holds_at_concat(data, pos, upto1, seg2);
        lemma_holds_at_concat(data, pos, upto0, seg1);
        lemma_u16_at_bytes(value.texture_pos.x, order, data, pos);
        lemma_u16_at_bytes(value.texture_pos.y, order, data, pos + 2);
        lemma_u16_at_bytes(value.texture_pos.width, order, data, pos + 4);
        lemma_u16_at_bytes(value.texture_pos.height, order, data, pos + 6);
        lemma_i16_at_bytes(value.pos_x, order, data, pos + 8);
        lemma_i16_at_bytes(value.pos_y, order, data, pos + 10);
        lemma_u32_at_bytes(value.scale_x.bits, order, data, pos + 12);
        lemma_u32_at_bytes(value.scale_y.bits, order, data, pos + 16);
        lemma_u32_at_bytes(value.rotation.bits, order, data, pos + 20);
        lemma_bool_at_bytes(value.flip_x, data, pos + 24);
        lemma_bool_at_bytes(value.flip_y, data, pos + 25);
        lemma_color_at_bytes(value.multiply_color, data, pos + 26);
        lemma_color_at_bytes(value.screen_color, data, pos + 29);
        lemma_u8_at_bytes(value.opacity, data, pos + 32);
        lemma_bytes12_at_bytes(value.unk1, data, pos + 33);
        lemma_u8_at_bytes(value.designation_id, data, pos + 45);
        lemma_u8_at_bytes(value.unk2, data, pos + 46);
        lemma_u32_at_bytes(value.depth.top_left.bits, order, data, pos + 47);
        lemma_u32_at_bytes(value.depth.bottom_left.bits, order, data, pos + 51);
        lemma_u32_at_bytes(value.depth.top_right.bits, order, data, pos + 55);
        lemma_u32_at_bytes(value.depth.bottom_right.bits, order, data, pos + 59);
    }
}

impl ByteStream for SpritePart {
    open spec fn parse(data: Seq<u8>, pos: int, order: ByteOrder) -> Result<
        (SpritePart, int),
        Failure,
    > {
        Self::decoded(data, pos, order)
    }

    open spec fn encoding(value: SpritePart, order: ByteOrder) -> Seq<u8> {
        Self::encoded(value, order)
    }

    open spec fn representable(value: SpritePart) -> bool {
        true
    }

    open spec fn canonical(value: SpritePart) -> SpritePart {
        value
    }

    proof fn lemma_parse_encoding(value: SpritePart, order: ByteOrder, data: Seq<u8>, pos: int) {
        Self::lemma_decoded_encoded(value, order, data, pos);
    }

    fn read_from(reader: &mut Reader<'_>, order: ByteOrder) -> (r: Result<Self, Error>) {
        let ghost data = reader.data@;
        let ghost pos = reader.pos as int;
        let texture_pos_x = reader.read_u16(order)?;
        let texture_pos_y = reader.read_u16(order)?;
        let texture_pos_width = reader.read_u16(order)?;
        let texture_pos_height = reader.read_u16(order)?;
        let pos_x = reader.read_i16(order)?;
        let pos_y = reader.read_i16(order)?;
        let scale_x = FloatBits::read_from(reader, order)?;
        let scale_y = FloatBits::read_from(reader, order)?;
        let rotation = FloatBits::read_from(reader, order)?;
        let flip_x = reader.read_bool(order)?;
        let flip_y = reader.read_bool(order)?;
        let multiply_color = Color::read_from(reader, order)?;
        let screen_color = Color::read_from(reader, order)?;
        let opacity = reader.read_u8(order)?;
        let unk1 = reader.read_array::<12>(order)?;
        assert(unk1 =~= bytes12_at(data, pos + 33));
        let designation_id = reader.read_u8(order)?;
        let unk2 = reader.read_u8(order)?;
        let depth_top_left = FloatBits::read_from(reader, order)?;
        let depth_bottom_left = FloatBits::read_from(reader, order)?;
        let depth_top_right = FloatBits::read_from(reader, order)?;
        let depth_bottom_right = FloatBits::read_from(reader, order)?;
        let _ = reader.read_u8(order)?;
        Ok(
            SpritePart {
                texture_pos: PosInTexture {
                    x: texture_pos_x,
                    y: texture_pos_y,
                    width: texture_pos_width,
                    height: texture_pos_height,
                },
                pos_x,
                pos_y,
                scale_x,
                scale_y,
                rotation,
                flip_x,
                flip_y,
                multiply_color,
                screen_color,
                opacity,
                unk1,
                designation_id,
                unk2,
                depth: StereoDepth {
                    top_left: depth_top_left,
                    bottom_left: depth_bottom_left,
                    top_right: depth_top_right,
                    bottom_right: depth_bottom_right,
                },
            },
        )
    }

    fn write_to(&self, out: &mut Vec<u8>, order: ByteOrder) -> (r: Result<(), Error>) {
        write_u16(self.texture_pos.x, out, order)?;
        let ghost written = u16_bytes(self.texture_pos.x, order);
        write_u16(self.texture_pos.y, out, order)?;
        proof {
            lemma_concat_assoc(old(out)@, written, u16_bytes(self.texture_pos.y, order));
        }
        let ghost written = written + u16_bytes(self.texture_pos.y, order);
        write_u16(self.texture_pos.width, out, order)?;
        proof {
            lemma_concat_assoc(old(out)@, written, u16_bytes(self.texture_pos.width, order));
        }
        let ghost written = written + u16_bytes(self.texture_pos.width, order);
        write_u16(self.texture_pos.height, out, order)?;
        proof {
            lemma_concat_assoc(old(out)@, written, u16_bytes(self.texture_pos.height, order));
        }
        let ghost written = written + u16_bytes(self.texture_pos.height, order);
        write_i16(self.pos_x, out, order)?;
        proof {
            lemma_concat_assoc(old(out)@, written, i16_bytes(self.pos_x, order));
        }
        let ghost written = written + i16_bytes(self.pos_x, order);
        write_i16(self.pos_y, out, order)?;
        proof {
            lemma_concat_assoc(old(out)@, written, i16_bytes(self.pos_y, order));
        }
        let ghost written = written + i16_bytes(self.pos_y, order);
        self.scale_x.write_to(out, order)?;
        proof {
            lemma_concat_assoc(old(out)@, written, u32_bytes(self.scale_x.bits, order));
        }
        let ghost written = written + u32_bytes(self.scale_x.bits, order);
        self.scale_y.write_to(out, order)?;
        proof {
            lemma_concat_assoc(old(out)@, written, u32_bytes(self.scale_y.bits, order));
        }
        let ghost written = written + u32_bytes(self.scale_y.bits, order);
        self.rotation.write_to(out, order)?;
        proof {
            lemma_concat_assoc(old(out)@, written, u32_bytes(self.rotation.bits, order));
        }
        let ghost written = written + u32_bytes(self.rotation.bits, order);
        write_bool(self.flip_x, out, order)?;
        proof {
            lemma_concat_assoc(old(out)@, written, bool_bytes(self.flip_x));
        }
        let ghost written = written + bool_bytes(self.flip_x);
        write_bool(self.flip_y, out, order)?;
        proof {
            lemma_concat_assoc(old(out)@, written, bool_bytes(self.flip_y));
        }
        let ghost written = written + bool_bytes(self.flip_y);
        self.multiply_color.write_to(out, order)?;
        proof {
            lemma_concat_assoc(old(out)@, written, color_bytes(self.multiply_color));
        }
        let ghost written = written + color_bytes(self.multiply_color);
        self.screen_color.write_to(out, order)?;
        proof {
            lemma_concat_assoc(old(out)@, written, color_bytes(self.screen_color));
        }
        let ghost written = written + color_bytes(self.screen_color);
        write_u8(self.opacity, out, order)?;
        proof {
            lemma_concat_assoc(old(out)@, written, seq![self.opacity]);
        }
        let ghost written = written + seq![self.opacity];
        write_array(&self.unk1, out, order)?;
        proof {
            lemma_concat_assoc(old(out)@, written, self.unk1@);
        }
        let ghost written = written + self.unk1@;
        write_u8(self.designation_id, out, order)?;
        proof {
            lemma_concat_assoc(old(out)@, written, seq![self.designation_id]);
        }
        let ghost written = written + seq![self.designation_id];
        write_u8(self.unk2, out, order)?;
        proof {
            lemma_concat_assoc(old(out)@, written, seq![self.unk2]);
        }
        let ghost written = written + seq![self.unk2];
        self.depth.top_left.write_to(out, order)?;
        proof {
            lemma_concat_assoc(old(out)@, written, u32_bytes(self.depth.top_left.bits, order));
        }
        let ghost written = written + u32_bytes(self.depth.top_left.bits, order);
        self.depth.bottom_left.write_to(out, order)?;
        proof {
            lemma_concat_assoc(old(out)@, written, u32_bytes(self.depth.bottom_left.bits, order));
        }
        let ghost written = written + u32_bytes(self.depth.bottom_left.bits, order);
        self.depth.top_right.write_to(out, order)?;
        proof {
            lemma_concat_assoc(old(out)@, written, u32_bytes(self.depth.top_right.bits, order));
        }
        let ghost written = written + u32_bytes(self.depth.top_right.bits, order);
        self.depth.bottom_right.write_to(out, order)?;
        proof {
            lemma_concat_assoc(old(out)@, written, u32_bytes(self.depth.bottom_right.bits, order));
        }
        let ghost written = written + u32_bytes(self.depth.bottom_right.bits, order);
        write_u8(0, out, order)?;
        proof {
            lemma_concat_assoc(old(out)@, written, seq![0u8]);
        }
        let ghost written = written + seq![0u8];
        Ok(())
    }
}


impl AnimationStep {
    /// The step that the bytes of `data` from `pos` on denote in `order`.
    pub open spec fn at(data: Seq<u8>, pos: int, order: ByteOrder) -> AnimationStep {
        AnimationStep {
            sprite: u16_at(data, pos, order),
            duration: u16_at(data, pos + 2, order),
            pos_x: i16_at(data, pos + 4, order),
            pos_y: i16_at(data, pos + 6, order),
            depth: FloatBits { bits: u32_at(data, pos + 8, order) },
            scale_x: FloatBits { bits: u32_at(data, pos + 12, order) },
            scale_y: FloatBits { bits: u32_at(data, pos + 16, order) },
            rotation: FloatBits { bits: u32_at(data, pos + 20, order) },
            multiply_color: color_at(data, pos + 24),
            unk: bytes3_at(data, pos + 27),
            opacity: u16_at(data, pos + 30, order),
        }
    }

    /// What a read of a step at `pos` of `data` gives: the step, where
    /// all its bytes are there.
    pub open spec fn decoded(data: Seq<u8>, pos: int, order: ByteOrder) -> Result<
        (AnimationStep, int),
        Failure,
    > {
        if pos + 32 <= data.len() {
            Ok((Self::at(data, pos, order), pos + 32))
        } else {
            Err(Failure::Truncated)
        }
    }

    /// The bytes that are written for a step, field by field.
    pub open spec fn encoded(value: AnimationStep, order: ByteOrder) -> Seq<u8> {
        u16_bytes(value.sprite, order)
            + u16_bytes(value.duration, order)
            + i16_bytes(value.pos_x, order)
            + i16_bytes(value.pos_y, order)
            + u32_bytes(value.depth.bits, order)
            + u32_bytes(value.scale_x.bits, order)
            + u32_bytes(value.scale_y.bits, order)
            + u32_bytes(value.rotation.bits, order)
            + color_bytes(value.multiply_color)
            + value.unk@
            + u16_bytes(value.opacity, order)
    }

    /// The function that reads a step in `order`.
    pub open spec fn reader(order: ByteOrder) -> spec_fn(Seq<u8>, int) -> Result<
        (AnimationStep, int),
        Failure,
    > {
        |data: Seq<u8>, pos: int| Self::decoded(data, pos, order)
    }

    /// The function that gives the bytes of a step in `order`.
    pub open spec fn writer(order: ByteOrder) -> spec_fn(AnimationStep) -> Seq<u8> {
        |value: AnimationStep| Self::encoded(value, order)
    }

    /// The bytes written for a step are read back as that step.
    pub proof fn lemma_decoded_encoded(
        value: AnimationStep,
        order: ByteOrder,
        data: Seq<u8>,
        pos: int,
    )
        requires
            holds_at(data, pos, Self::encoded(value, order)),
        ensures
            Self::decoded(data, pos, order) == Ok::<(AnimationStep, int), Failure>(
                (value, pos + 32),
            ),
            Self::encoded(value, order).len() == 32,
    {
        let seg0 = u16_bytes(value.sprite, order);
        let seg1 = u16_bytes(value.duration, order);
        let seg2 = i16_bytes(value.pos_x, order);
        let seg3 = i16_bytes(value.pos_y, order);
        let seg4 = u32_bytes(value.depth.bits, order);
        let seg5 = u32_bytes(value.scale_x.bits, order);
        let seg6 = u32_bytes(value.scale_y.bits, order);
        let seg7 = u32_bytes(value.rotation.bits, order);
        let seg8 = color_bytes(value.multiply_color);
        let seg9 = value.unk@;
        let seg10 = u16_bytes(value.opacity, order);
        let upto0 = seg0;
        let upto1 = upto0 + seg1;
        let upto2 = upto1 + seg2;
        let upto3 = upto2 + seg3;
        let upto4 = upto3 + seg4;
        let upto5 = upto4 + seg5;
        let upto6 = upto5 + seg6;
        let upto7 = upto6 + seg7;
        let upto8 = upto7 + seg8;
        let upto9 = upto8 + seg9;
        let upto10 = upto9 + seg10;
        assert(seg0.len() == 2);
        assert(seg1.len() == 2);
        assert(seg2.len() == 2);
        assert(seg3.len() == 2);
        assert(seg4.len() == 4);
        assert(seg5.len() == 4);
        assert(seg6.len() == 4);
        assert(seg7.len() == 4);
        assert(seg8.len() == 3);
        assert(seg9.len() == 3);
        assert(seg10.len() == 2);
        lemma_holds_at_bounds(data, pos, upto10);
        lemma_holds_at_concat(data, pos, upto9, seg10);
        lemma_holds_at_concat(data, pos, upto8, seg9);
        lemma_holds_at_concat(data, pos, upto7, seg8);
        lemma_holds_at_concat(data, pos, upto6, seg7);
        lemma_holds_at_concat(data, pos, upto5, seg6);
        lemma_holds_at_concat(data, pos, upto4, seg5);
        lemma_holds_at_concat(data, pos, upto3, seg4);
        lemma_holds_at_concat(data, pos, upto2, seg3);
        lemma_holds_at_concat(data, pos, upto1, seg2);
        lemma_holds_at_concat(data, pos, upto0, seg1);
        lemma_u16_at_bytes(value.sprite, order, data, pos);
        lemma_u16_at_bytes(value.duration, order, data, pos + 2);
        lemma_i16_at_bytes(value.pos_x, order, data, pos + 4);
        lemma_i16_at_bytes(value.pos_y, order, data, pos + 6);
        lemma_u32_at_bytes(value.depth.bits, order, data, pos + 8);
        lemma_u32_at_bytes(value.scale_x.bits, order, data, pos + 12);
        lemma_u32_at_bytes(value.scale_y.bits, order, data, pos + 16);
        lemma_u32_at_bytes(value.rotation.bits, order, data, pos + 20);
        lemma_color_at_bytes(value.multiply_color, data, pos + 24);
        lemma_bytes3_at_bytes(value.unk, data, pos + 27);
        lemma_u16_at_bytes(value.opacity, order, data, pos + 30);
    }
}

impl ByteStream for AnimationStep {
    open spec fn parse(data: Seq<u8>, pos: int, order: ByteOrder) -> Result<
        (AnimationStep, int),
        Failure,
    > {
        Self::decoded(data, pos, order)
    }

    open spec fn encoding(value: AnimationStep, order: ByteOrder) -> Seq<u8> {
        Self::encoded(value, order)
    }

    open spec fn representable(value: AnimationStep) -> bool {
        true
    }

    open spec fn canonical(value: AnimationStep) -> AnimationStep {
        value
    }

    proof fn lemma_parse_encoding(value: AnimationStep, order: ByteOrder, data: Seq<u8>, pos: int) {
        Self::lemma_decoded_encoded(value, order, data, pos);
    }

    fn read_from(reader: &mut Reader<'_>, order: ByteOrder) -> (r: Result<Self, Error>) {
        let ghost data = reader.data@;
        let ghost pos = reader.pos as int;
        let sprite = reader.read_u16(order)?;
        let duration = reader.read_u16(order)?;
        let pos_x = reader.read_i16(order)?;
        let pos_y = reader.read_i16(order)?;
        let depth = FloatBits::read_from(reader, order)?;
        let scale_x = FloatBits::read_from(reader, order)?;
        let scale_y = FloatBits::read_from(reader, order)?;
        let rotation = FloatBits::read_from(reader, order)?;
        let multiply_color = Color::read_from(reader, order)?;
        let unk = reader.read_array::<3>(order)?;
        assert(unk =~= bytes3_at(data, pos + 27));
        let opacity = reader.read_u16(order)?;
        Ok(
            AnimationStep {
                sprite,
                duration,
                pos_x,
                pos_y,
                depth,
                scale_x,
                scale_y,
                rotation,
                multiply_color,
                unk,
                opacity,
            },
        )
    }

    fn write_to(&self, out: &mut Vec<u8>, order: ByteOrder) -> (r: Result<(), Error>) {
        write_u16(self.sprite, out, order)?;
        let ghost written = u16_bytes(self.sprite, order);
        write_u16(self.duration, out, order)?;
        proof {
            lemma_concat_assoc(old(out)@, written, u16_bytes(self.duration, order));
        }
        let ghost written = written + u16_bytes(self.duration, order);
        write_i16(self.pos_x, out, order)?;
        proof {
            lemma_concat_assoc(old(out)@, written, i16_bytes(self.pos_x, order));
        }
        let ghost written = written + i16_bytes(self.pos_x, order);
        write_i16(self.pos_y, out, order)?;
        proof {
            lemma_concat_assoc(old(out)@, written, i16_bytes(self.pos_y, order));
        }
        let ghost written = written + i16_bytes(self.pos_y, order);
        self.depth.write_to(out, order)?;
        proof {
            lemma_concat_assoc(old(out)@, written, u32_bytes(self.depth.bits, order));
        }
        let ghost written = written + u32_bytes(self.depth.bits, order);
        self.scale_x.write_to(out, order)?;
        proof {
            lemma_concat_assoc(old(out)@, written, u32_bytes(self.scale_x.bits, order));
        }
        let ghost written = written + u32_bytes(self.scale_x.bits, order);
        self.scale_y.write_to(out, order)?;
        proof {
            lemma_concat_assoc(old(out)@, written, u32_bytes(self.scale_y.bits, order));
        }
        let ghost written = written + u32_bytes(self.scale_y.bits, order);
        self.rotation.write_to(out, order)?;
        proof {
            lemma_concat_assoc(old(out)@, written, u32_bytes(self.rotation.bits, order));
        }
        let ghost written = written + u32_bytes(self.rotation.bits, order);
        self.multiply_color.write_to(out, order)?;
        proof {
            lemma_concat_assoc(old(out)@, written, color_bytes(self.multiply_color));
        }
        let ghost written = written + color_bytes(self.multiply_color);
        write_array(&self.unk, out, order)?;
        proof {
            lemma_concat_assoc(old(out)@, written, self.unk@);
        }
        let ghost written = written + self.unk@;
        write_u16(self.opacity, out, order)?;
        proof {
            lemma_concat_assoc(old(out)@, written, u16_bytes(self.opacity, order));
        }
        let ghost written = written + u16_bytes(self.opacity, order);
        Ok(())
    }
}


impl Sprite {
    /// What a read of a sprite at `pos` of `data` gives: a count, and that
    /// many parts.
    #[verifier::opaque]
    pub open spec fn decoded(data: Seq<u8>, pos: int, order: ByteOrder) -> Result<
        (Seq<SpritePart>, int),
        Failure,
    > {
        if pos + 4 > data.len() {
            Err(Failure::Truncated)
        } else {
            parse_seq(data, pos + 4, u32_at(data, pos, order) as nat, SpritePart::reader(order))
        }
    }

    /// The bytes that are written for a sprite: the low 32 bits of the number
    /// of its parts, and the parts.
    #[verifier::opaque]
    pub open spec fn encoded(value: Seq<SpritePart>, order: ByteOrder) -> Seq<u8> {
        u32_bytes(value.len() as u32, order) + seq_encoding(value, SpritePart::writer(order))
    }

    /// Whether the number of parts fits the count.
    pub open spec fn fits(value: Seq<SpritePart>) -> bool {
        value.len() <= u32::MAX
    }

    /// The function that reads a sprite in `order`.
    pub open spec fn reader(order: ByteOrder) -> spec_fn(Seq<u8>, int) -> Result<
        (Seq<SpritePart>, int),
        Failure,
    > {
        |data: Seq<u8>, pos: int| Self::decoded(data, pos, order)
    }

    /// The function that gives the bytes of a sprite in `order`.
    pub open spec fn writer(order: ByteOrder) -> spec_fn(Seq<SpritePart>) -> Seq<u8> {
        |value: Seq<SpritePart>| Self::encoded(value, order)
    }
}

impl ByteStream for Sprite {
    open spec fn parse(data: Seq<u8>, pos: int, order: ByteOrder) -> Result<
        (Seq<SpritePart>, int),
        Failure,
    > {
        Self::decoded(data, pos, order)
    }

    open spec fn encoding(value: Seq<SpritePart>, order: ByteOrder) -> Seq<u8> {
        Self::encoded(value, order)
    }

    open spec fn representable(value: Seq<SpritePart>) -> bool {
        Self::fits(value)
    }

    open spec fn canonical(value: Seq<SpritePart>) -> Seq<SpritePart> {
        value
    }

    proof fn lemma_parse_encoding(
        value: Seq<SpritePart>,
        order: ByteOrder,
        data: Seq<u8>,
        pos: int,
    ) {
        reveal(Sprite::decoded);
        reveal(Sprite::encoded);
        let count = u32_bytes(value.len() as u32, order);
        let parts = seq_encoding(value, SpritePart::writer(order));
        assert(count.len() == 4);
        lemma_holds_at_bounds(data, pos, count + parts);
        lemma_holds_at_concat(data, pos, count, parts);
        lemma_u32_at_bytes(value.len() as u32, order, data, pos);
        lemma_list_encoding_seq::<SpritePart>(value, order, SpritePart::writer(order));
        lemma_parse_list_encoding::<SpritePart>(value, order, data, pos + 4);
        lemma_parse_list_seq::<SpritePart>(
            data,
            pos + 4,
            value.len(),
            order,
            SpritePart::reader(order),
        );
        assert(list_canonical::<SpritePart>(value) =~= value);
    }

    fn read_from(reader: &mut Reader<'_>, order: ByteOrder) -> (r: Result<Self, Error>) {
        proof {
            reveal(Sprite::decoded);
        }
        let parts_count = reader.read_u32(order)?;
        proof {
            lemma_parse_list_seq::<SpritePart>(
                reader.data@,
                reader.pos as int,
                parts_count as nat,
                order,
                SpritePart::reader(order),
            );
        }
        let parts = read_list::<SpritePart>(reader, parts_count as usize, order)?;
        Ok(Sprite { parts })
    }

    fn write_to(&self, out: &mut Vec<u8>, order: ByteOrder) -> (r: Result<(), Error>) {
        proof {
            reveal(Sprite::encoded);
        }
        let count = #[verifier::truncate] (self.parts.len() as u32);
        write_u32(count, out, order)?;
        write_list(&self.parts, out, order)?;
        proof {
            let parts = seq_encoding(self@, SpritePart::writer(order));
            lemma_list_encoding_seq::<SpritePart>(self@, order, SpritePart::writer(order));
            lemma_concat_assoc(old(out)@, u32_bytes(count, order), parts);
        }
        Ok(())
    }
}

impl Animation {
    /// What a read of an animation at `pos` of `data` gives: a name, the
    /// interpolation, a count, and that many steps.
    #[verifier::opaque]
    pub open spec fn decoded(data: Seq<u8>, pos: int, order: ByteOrder) -> Result<
        (AnimationModel, int),
        Failure,
    > {
        match VarLenString::decoded(data, pos) {
            Err(failure) => Err(failure),
            Ok((name, mid)) => if mid + 8 > data.len() {
                Err(Failure::Truncated)
            } else {
                match parse_seq(
                    data,
                    mid + 8,
                    u32_at(data, mid + 4, order) as nat,
                    AnimationStep::reader(order),
                ) {
                    Err(failure) => Err(failure),
                    Ok((steps, end)) => Ok(
                        (
                            AnimationModel {
                                name,
                                interpolation: i32_at(data, mid, order),
                                steps,
                            },
                            end,
                        ),
                    ),
                }
            },
        }
    }

    /// The bytes that are written for an animation: its name, the
    /// interpolation, the low 32 bits of the number of its steps, and the
    /// steps.
    #[verifier::opaque]
    pub open spec fn encoded(value: AnimationModel, order: ByteOrder) -> Seq<u8> {
        VarLenString::encoded(value.name) + i32_bytes(value.interpolation, order) + u32_bytes(
            value.steps.len() as u32,
            order,
        ) + seq_encoding(value.steps, AnimationStep::writer(order))
    }

    /// Whether the name fits its length byte and the number of steps the
    /// count.
    pub open spec fn fits(value: AnimationModel) -> bool {
        VarLenString::fits(value.name) && value.steps.len() <= u32::MAX
    }

    /// The function that reads an animation in `order`.
    pub open spec fn reader(order: ByteOrder) -> spec_fn(Seq<u8>, int) -> Result<
        (AnimationModel, int),
        Failure,
    > {
        |data: Seq<u8>, pos: int| Self::decoded(data, pos, order)
    }

    /// The function that gives the bytes of an animation in `order`.
    pub open spec fn writer(order: ByteOrder) -> spec_fn(AnimationModel) -> Seq<u8> {
        |value: AnimationModel| Self::encoded(value, order)
    }

    /// Where `data` holds the bytes of an animation, it holds the bytes of
    /// each of its fields at the field's place.
    proof fn lemma_fields_held(value: AnimationModel, order: ByteOrder, data: Seq<u8>, pos: int)
        requires
            holds_at(data, pos, Self::encoded(value, order)),
        ensures
            holds_at(data, pos, VarLenString::encoded(value.name)),
            holds_at(
                data,
                pos + VarLenString::encoded(value.name).len(),
                i32_bytes(value.interpolation, order),
            ),
            holds_at(
                data,
                pos + VarLenString::encoded(value.name).len() + 4,
                u32_bytes(value.steps.len() as u32, order),
            ),
            holds_at(
                data,
                pos + VarLenString::encoded(value.name).len() + 8,
                seq_encoding(value.steps, AnimationStep::writer(order)),
            ),
            Self::encoded(value, order).len() == VarLenString::encoded(value.name).len() + 8
                + seq_encoding(value.steps, AnimationStep::writer(order)).len(),
            pos + Self::encoded(value, order).len() <= data.len(),
    {
        reveal(Animation::encoded);
        let name = VarLenString::encoded(value.name);
        let interpolation = i32_bytes(value.interpolation, order);
        let count = u32_bytes(value.steps.len() as u32, order);
        let steps = seq_encoding(value.steps, AnimationStep::writer(order));
        assert(interpolation.len() == 4);
        assert(count.len() == 4);
        lemma_holds_at_bounds(data, pos, name + interpolation + count + steps);
        lemma_holds_at_concat(data, pos, name + interpolation + count, steps);
        lemma_holds_at_concat(data, pos, name + interpolation, count);
        lemma_holds_at_concat(data, pos, name, interpolation);
    }

    /// Where `data` holds the bytes of a list of steps, a read of as many
    /// steps there gives the list.
    pub proof fn lemma_steps_decoded(
        steps: Seq<AnimationStep>,
        order: ByteOrder,
        data: Seq<u8>,
        pos: int,
    )
        requires
            holds_at(data, pos, seq_encoding(steps, AnimationStep::writer(order))),
        ensures
            parse_seq(data, pos, steps.len(), AnimationStep::reader(order)) == Ok::<
                (Seq<AnimationStep>, int),
                Failure,
            >((steps, pos + seq_encoding(steps, AnimationStep::writer(order)).len())),
    {
        lemma_list_encoding_seq::<AnimationStep>(steps, order, AnimationStep::writer(order));
        lemma_parse_list_encoding::<AnimationStep>(steps, order, data, pos);
        lemma_parse_list_seq::<AnimationStep>(
            data,
            pos,
            steps.len(),
            order,
            AnimationStep::reader(order),
        );
        assert(list_canonical::<AnimationStep>(steps) =~= steps);
    }

    /// The bytes written for an animation that fits are read back as that
    /// animation.
    pub proof fn lemma_decoded_encoded(
        value: AnimationModel,
        order: ByteOrder,
        data: Seq<u8>,
        pos: int,
    )
        requires
            Self::fits(value),
            holds_at(data, pos, Self::encoded(value, order)),
        ensures
            Self::decoded(data, pos, order) == Ok::<(AnimationModel, int), Failure>(
                (value, pos + Self::encoded(value, order).len()),
            ),
    {
        reveal(Animation::decoded);
        let mid = pos + VarLenString::encoded(value.name).len();
        Self::lemma_fields_held(value, order, data, pos);
        VarLenString::lemma_parse_encoding(value.name, order, data, pos);
        lemma_i32_at_bytes(value.interpolation, order, data, mid);
        lemma_u32_at_bytes(value.steps.len() as u32, order, data, mid + 4);
        Self::lemma_steps_decoded(value.steps, order, data, mid + 8);
    }
}

impl ByteStream for Animation {
    open spec fn parse(data: Seq<u8>, pos: int, order: ByteOrder) -> Result<
        (AnimationModel, int),
        Failure,
    > {
        Self::decoded(data, pos, order)
    }

    open spec fn encoding(value: AnimationModel, order: ByteOrder) -> Seq<u8> {
        Self::encoded(value, order)
    }

    open spec fn representable(value: AnimationModel) -> bool {
        Self::fits(value)
    }

    open spec fn canonical(value: AnimationModel) -> AnimationModel {
        value
    }

    proof fn lemma_parse_encoding(
        value: AnimationModel,
        order: ByteOrder,
        data: Seq<u8>,
        pos: int,
    ) {
        Self::lemma_decoded_encoded(value, order, data, pos);
    }

    fn read_from(reader: &mut Reader<'_>, order: ByteOrder) -> (r: Result<Self, Error>) {
        proof {
            reveal(Animation::decoded);
        }
        let name = VarLenString::read_from(reader, order)?.0;
        let interpolation = reader.read_i32(order)?;
        let step_count = reader.read_u32(order)?;
        proof {
            lemma_parse_list_seq::<AnimationStep>(
                reader.data@,
                reader.pos as int,
                step_count as nat,
                order,
                AnimationStep::reader(order),
            );
        }
        let steps = read_list::<AnimationStep>(reader, step_count as usize, order)?;
        Ok(Animation { name, interpolation, steps })
    }

    fn write_to(&self, out: &mut Vec<u8>, order: ByteOrder) -> (r: Result<(), Error>) {
        proof {
            reveal(Animation::encoded);
        }
        let count = #[verifier::truncate] (self.steps.len() as u32);
        VarLenString(self.name.clone()).write_to(out, order)?;
        let ghost written = VarLenString::encoded(self.name@);
        write_i32(self.interpolation, out, order)?;
        proof {
            lemma_concat_assoc(old(out)@, written, i32_bytes(self.interpolation, order));
        }
        let ghost written = written + i32_bytes(self.interpolation, order);
        write_u32(count, out, order)?;
        proof {
            lemma_concat_assoc(old(out)@, written, u32_bytes(count, order));
        }
        let ghost written = written + u32_bytes(count, order);
        write_list(&self.steps, out, order)?;
        proof {
            let steps = seq_encoding(self@.steps, AnimationStep::writer(order));
            lemma_list_encoding_seq::<AnimationStep>(
                self@.steps,
                order,
                AnimationStep::writer(order),
            );
            lemma_concat_assoc(old(out)@, written, steps);
        }
        Ok(())
    }
}

impl BCCAD {
    /// What a read of a document at `pos` of `data` gives: the header, a
    /// count and that many sprites, a count and that many animations. A
    /// timestamp that is the known one is read as `None`.
    pub open spec fn decoded(data: Seq<u8>, pos: int, order: ByteOrder) -> Result<
        (BccadModel, int),
        Failure,
    > {
        if pos + 12 > data.len() {
            Err(Failure::Truncated)
        } else {
            match parse_seq(
                data,
                pos + 12,
                u32_at(data, pos + 8, order) as nat,
                Sprite::reader(order),
            ) {
                Err(failure) => Err(failure),
                Ok((sprites, mid)) => if mid + 4 > data.len() {
                    Err(Failure::Truncated)
                } else {
                    match parse_seq(
                        data,
                        mid + 4,
                        u32_at(data, mid, order) as nat,
                        Animation::reader(order),
                    ) {
                        Err(failure) => Err(failure),
                        Ok((animations, end)) => Ok(
                            (
                                BccadModel {
                                    timestamp: if u32_at(data, pos, order) == BCCAD_TIMESTAMP {
                                        None
                                    } else {
                                        Some(u32_at(data, pos, order))
                                    },
                                    texture_width: u16_at(data, pos + 4, order),
                                    texture_height: u16_at(data, pos + 6, order),
                                    sprites,
                                    animations,
                                },
                                end,
                            ),
                        ),
                    }
                },
            }
        }
    }

    /// The timestamp that is written for a document: its own, or the known
    /// one where it has none.
    pub open spec fn written_timestamp(timestamp: Option<u32>) -> u32 {
        match timestamp {
            Some(timestamp) => timestamp,
            None => BCCAD_TIMESTAMP,
        }
    }

    /// The bytes that are written for a document: the header, the sprites
    /// and the animations behind their counts, of which the low 32 bits are
    /// written, and a zero byte that ends the file.
    pub open spec fn encoded(value: BccadModel, order: ByteOrder) -> Seq<u8> {
        u32_bytes(Self::written_timestamp(value.timestamp), order) + u16_bytes(
            value.texture_width,
            order,
        ) + u16_bytes(value.texture_height, order) + u32_bytes(value.sprites.len() as u32, order)
            + seq_encoding(value.sprites, Sprite::writer(order)) + u32_bytes(
            value.animations.len() as u32,
            order,
        ) + seq_encoding(value.animations, Animation::writer(order)) + seq![0u8]
    }

    /// Whether the bytes can hold all of the document: each count and each
    /// name fits its field.
    pub open spec fn fits(value: BccadModel) -> bool {
        &&& value.sprites.len() <= u32::MAX
        &&& value.animations.len() <= u32::MAX
        &&& forall|i: int|
            0 <= i < value.sprites.len() ==> Sprite::fits(#[trigger] value.sprites[i])
        &&& forall|i: int|
            0 <= i < value.animations.len() ==> Animation::fits(#[trigger] value.animations[i])
    }

    /// The document as it is read back from its own bytes: with no timestamp
    /// where it had the known one.
    pub open spec fn normal(value: BccadModel) -> BccadModel {
        BccadModel {
            timestamp: if value.timestamp == Some(BCCAD_TIMESTAMP) {
                None
            } else {
                value.timestamp
            },
            texture_width: value.texture_width,
            texture_height: value.texture_height,
            sprites: value.sprites,
            animations: value.animations,
        }
    }

    /// Where `data` holds the bytes of a document, it holds the bytes of each
    /// of its fields at the field's place.
    proof fn lemma_fields_held(value: BccadModel, order: ByteOrder, data: Seq<u8>, pos: int)
        requires
            holds_at(data, pos, Self::encoded(value, order)),
        ensures
            holds_at(data, pos, u32_bytes(Self::written_timestamp(value.timestamp), order)),
            holds_at(data, pos + 4, u16_bytes(value.texture_width, order)),
            holds_at(data, pos + 6, u16_bytes(value.texture_height, order)),
            holds_at(data, pos + 8, u32_bytes(value.sprites.len() as u32, order)),
            holds_at(data, pos + 12, seq_encoding(value.sprites, Sprite::writer(order))),
            holds_at(
                data,
                pos + 12 + seq_encoding(value.sprites, Sprite::writer(order)).len(),
                u32_bytes(value.animations.len() as u32, order),
            ),
            holds_at(
                data,
                pos + 16 + seq_encoding(value.sprites, Sprite::writer(order)).len(),
                seq_encoding(value.animations, Animation::writer(order)),
            ),
            Self::encoded(value, order).len() == 17 + seq_encoding(
                value.sprites,
                Sprite::writer(order),
            ).len() + seq_encoding(value.animations, Animation::writer(order)).len(),
            pos + Self::encoded(value, order).len() <= data.len(),
    {
        let seg0 = u32_bytes(Self::written_timestamp(value.timestamp), order);
        let seg1 = u16_bytes(value.texture_width, order);
        let seg2 = u16_bytes(value.texture_height, order);
        let seg3 = u32_bytes(value.sprites.len() as u32, order);
        let seg4 = seq_encoding(value.sprites, Sprite::writer(order));
        let seg5 = u32_bytes(value.animations.len() as u32, order);
        let seg6 = seq_encoding(value.animations, Animation::writer(order));
        let seg7 = seq![0u8];
        assert(seg0.len() == 4);
        assert(seg1.len() == 2);
        assert(seg2.len() == 2);
        assert(seg3.len() == 4);
        assert(seg5.len() == 4);
        lemma_holds_at_bounds(data, pos, seg0 + seg1 + seg2 + seg3 + seg4 + seg5 + seg6 + seg7);
        lemma_holds_at_concat(data, pos, seg0 + seg1 + seg2 + seg3 + seg4 + seg5 + seg6, seg7);
        lemma_holds_at_concat(data, pos, seg0 + seg1 + seg2 + seg3 + seg4 + seg5, seg6);
        lemma_holds_at_concat(data, pos, seg0 + seg1 + seg2 + seg3 + seg4, seg5);
        lemma_holds_at_concat(data, pos, seg0 + seg1 + seg2 + seg3, seg4);
        lemma_holds_at_concat(data, pos, seg0 + seg1 + seg2, seg3);
        lemma_holds_at_concat(data, pos, seg0 + seg1, seg2);
        lemma_holds_at_concat(data, pos, seg0, seg1);
    }

    /// Where `data` holds the bytes of a list of sprites that fit, a read of
    /// as many sprites there gives the list.
    pub proof fn lemma_sprites_decoded(
        sprites: Seq<Seq<SpritePart>>,
        order: ByteOrder,
        data: Seq<u8>,
        pos: int,
    )
        requires
            forall|i: int| 0 <= i < sprites.len() ==> Sprite::fits(#[trigger] sprites[i]),
            holds_at(data, pos, seq_encoding(sprites, Sprite::writer(order))),
        ensures
            parse_seq(data, pos, sprites.len(), Sprite::reader(order)) == Ok::<
                (Seq<Seq<SpritePart>>, int),
                Failure,
            >((sprites, pos + seq_encoding(sprites, Sprite::writer(order)).len())),
    {
        lemma_list_encoding_seq::<Sprite>(sprites, order, Sprite::writer(order));
        lemma_parse_list_encoding::<Sprite>(sprites, order, data, pos);
        lemma_parse_list_seq::<Sprite>(data, pos, sprites.len(), order, Sprite::reader(order));
        assert(list_canonical::<Sprite>(sprites) =~= sprites);
    }

    /// Where `data` holds the bytes of a list of animations that fit, a read
    /// of as many animations there gives the list.
    pub proof fn lemma_animations_decoded(
        animations: Seq<AnimationModel>,
        order: ByteOrder,
        data: Seq<u8>,
        pos: int,
    )
        requires
            forall|i: int|
                0 <= i < animations.len() ==> Animation::fits(#[trigger] animations[i]),
            holds_at(data, pos, seq_encoding(animations, Animation::writer(order))),
        ensures
            parse_seq(data, pos, animations.len(), Animation::reader(order)) == Ok::<
                (Seq<AnimationModel>, int),
                Failure,
            >((animations, pos + seq_encoding(animations, Animation::writer(order)).len())),
    {
        lemma_list_encoding_seq::<Animation>(animations, order, Animation::writer(order));
        lemma_parse_list_encoding::<Animation>(animations, order, data, pos);
        lemma_parse_list_seq::<Animation>(
            data,
            pos,
            animations.len(),
            order,
            Animation::reader(order),
        );
        assert(list_canonical::<Animation>(animations) =~= animations);
    }

    /// The bytes that are written for a document start with its timestamp.
    pub proof fn lemma_timestamp_first(value: BccadModel, order: ByteOrder)
        ensures
            u32_at(Self::encoded(value, order), 0, order) == Self::written_timestamp(
                value.timestamp,
            ),
            Self::encoded(value, order).len() >= 4,
    {
        let bytes = Self::encoded(value, order);
        lemma_holds_at_start(bytes);
        Self::lemma_fields_held(value, order, bytes, 0);
        lemma_u32_at_bytes(Self::written_timestamp(value.timestamp), order, bytes, 0);
    }

    /// The normal form of a document is written as the same bytes as the
    /// document, and fits where the document fits.
    pub proof fn lemma_normal_encoded(value: BccadModel, order: ByteOrder)
        ensures
            Self::encoded(Self::normal(value), order) == Self::encoded(value, order),
            Self::fits(value) ==> Self::fits(Self::normal(value)),
    {
        assert(Self::written_timestamp(Self::normal(value).timestamp) == Self::written_timestamp(
            value.timestamp,
        ));
    }

    /// A read of a document gives what its fields are read as.
    proof fn lemma_decoded_from_fields(
        value: BccadModel,
        order: ByteOrder,
        data: Seq<u8>,
        pos: int,
        mid: int,
        end: int,
    )
        requires
            end + 1 <= data.len(),
            u32_at(data, pos, order) == Self::written_timestamp(value.timestamp),
            u16_at(data, pos + 4, order) == value.texture_width,
            u16_at(data, pos + 6, order) == value.texture_height,
            u32_at(data, pos + 8, order) == value.sprites.len(),
            parse_seq(data, pos + 12, value.sprites.len(), Sprite::reader(order)) == Ok::<
                (Seq<Seq<SpritePart>>, int),
                Failure,
            >((value.sprites, mid)),
            pos + 12 <= mid,
            u32_at(data, mid, order) == value.animations.len(),
            parse_seq(data, mid + 4, value.animations.len(), Animation::reader(order)) == Ok::<
                (Seq<AnimationModel>, int),
                Failure,
            >((value.animations, end)),
            mid + 4 <= end,
        ensures
            Self::decoded(data, pos, order) == Ok::<(BccadModel, int), Failure>(
                (Self::normal(value), end),
            ),
    {
    }

    /// Where `data` holds the bytes written for a document that fits, a read
    /// there gives the normal form of the document and ends before the zero
    /// byte that ends the file.
    pub proof fn lemma_decoded_encoded(
        value: BccadModel,
        order: ByteOrder,
        data: Seq<u8>,
        pos: int,
    )
        requires
            Self::fits(value),
            holds_at(data, pos, Self::encoded(value, order)),
        ensures
            Self::decoded(data, pos, order) == Ok::<(BccadModel, int), Failure>(
                (Self::normal(value), pos + Self::encoded(value, order).len() - 1),
            ),
    {
        let mid = pos + 12 + seq_encoding(value.sprites, Sprite::writer(order)).len();
        let end = mid + 4 + seq_encoding(value.animations, Animation::writer(order)).len();
        Self::lemma_fields_held(value, order, data, pos);
        lemma_u32_at_bytes(Self::written_timestamp(value.timestamp), order, data, pos);
        lemma_u16_at_bytes(value.texture_width, order, data, pos + 4);
        lemma_u16_at_bytes(value.texture_height, order, data, pos + 6);
        lemma_u32_at_bytes(value.sprites.len() as u32, order, data, pos + 8);
        Self::lemma_sprites_decoded(value.sprites, order, data, pos + 12);
        lemma_u32_at_bytes(value.animations.len() as u32, order, data, mid);
        Self::lemma_animations_decoded(value.animations, order, data, mid + 4);
        Self::lemma_decoded_from_fields(value, order, data, pos, mid, end);
    }

    /// Reads a document in `order` from where `reader` stands.
    fn read_from(reader: &mut Reader<'_>, order: ByteOrder) -> (r: Result<Self, Error>)
        ensures
            final(reader).data == old(reader).data,
            read_outcome(
                r,
                Self::decoded(old(reader).data@, old(reader).pos as int, order),
                final(reader).pos,
            ),
    {
        let timestamp = reader.read_u32(order)?;
        let texture_width = reader.read_u16(order)?;
        let texture_height = reader.read_u16(order)?;
        let sprite_count = reader.read_u32(order)?;
        proof {
            lemma_parse_list_seq::<Sprite>(
                reader.data@,
                reader.pos as int,
                sprite_count as nat,
                order,
                Sprite::reader(order),
            );
        }
        let sprites = read_list::<Sprite>(reader, sprite_count as usize, order)?;
        let anim_count = reader.read_u32(order)?;
        proof {
            lemma_parse_list_seq::<Animation>(
                reader.data@,
                reader.pos as int,
                anim_count as nat,
                order,
                Animation::reader(order),
            );
        }
        let animations = read_list::<Animation>(reader, anim_count as usize, order)?;
        let timestamp = if timestamp == BCCAD_TIMESTAMP {
            None
        } else {
            Some(timestamp)
        };
        Ok(BCCAD { timestamp, texture_width, texture_height, sprites, animations })
    }

    /// Appends the bytes of the document in `order` to `out`.
    fn write_to(&self, out: &mut Vec<u8>, order: ByteOrder) -> (r: Result<(), Error>)
        ensures
            r is Ok,
            final(out)@ == old(out)@ + Self::encoded(self@, order),
    {
        let timestamp = match self.timestamp {
            Some(timestamp) => timestamp,
            None => BCCAD_TIMESTAMP,
        };
        let sprite_count = #[verifier::truncate] (self.sprites.len() as u32);
        let anim_count = #[verifier::truncate] (self.animations.len() as u32);
        write_u32(timestamp, out, order)?;
        let ghost written = u32_bytes(timestamp, order);
        write_u16(self.texture_width, out, order)?;
        proof {
            lemma_concat_assoc(old(out)@, written, u16_bytes(self.texture_width, order));
        }
        let ghost written = written + u16_bytes(self.texture_width, order);
        write_u16(self.texture_height, out, order)?;
        proof {
            lemma_concat_assoc(old(out)@, written, u16_bytes(self.texture_height, order));
        }
        let ghost written = written + u16_bytes(self.texture_height, order);
        write_u32(sprite_count, out, order)?;
        proof {
            lemma_concat_assoc(old(out)@, written, u32_bytes(sprite_count, order));
        }
        let ghost written = written + u32_bytes(sprite_count, order);
        write_list(&self.sprites, out, order)?;
        let ghost sprites = seq_encoding(self@.sprites, Sprite::writer(order));
        proof {
            lemma_list_encoding_seq::<Sprite>(self@.sprites, order, Sprite::writer(order));
            lemma_concat_assoc(old(out)@, written, sprites);
        }
        let ghost written = written + sprites;
        write_u32(anim_count, out, order)?;
        proof {
            lemma_concat_assoc(old(out)@, written, u32_bytes(anim_count, order));
        }
        let ghost written = written + u32_bytes(anim_count, order);
        write_list(&self.animations, out, order)?;
        let ghost animations = seq_encoding(self@.animations, Animation::writer(order));
        proof {
            lemma_list_encoding_seq::<Animation>(self@.animations, order, Animation::writer(order));
            lemma_concat_assoc(old(out)@, written, animations);
        }
        let ghost written = written + animations;
        write_u8(0, out, order)?;
        proof {
            lemma_concat_assoc(old(out)@, written, seq![0u8]);
        }
        Ok(())
    }
}

impl BXCAD for BCCAD {
    const BYTE_ORDER: ByteOrder = ByteOrder::LittleEndian;

    const TIMESTAMP: u32 = BCCAD_TIMESTAMP;

    const BXCAD_TYPE: BXCADType = BXCADType::BCCAD;

    open spec fn parse(data: Seq<u8>, pos: int) -> Result<(BccadModel, int), Failure> {
        Self::decoded(data, pos, ByteOrder::LittleEndian)
    }

    open spec fn encoding(value: BccadModel) -> Seq<u8> {
        Self::encoded(value, ByteOrder::LittleEndian)
    }

    fn from_binary(f: &mut Reader<'_>) -> (r: Result<Self, Error>) {
        let start = f.pos;
        match Self::read_from(f, ByteOrder::LittleEndian) {
            Ok(bccad) => Ok(bccad),
            Err(e) => {
                f.pos = start;
                Err(e)
            },
        }
    }

    fn to_binary(&self, f: &mut Vec<u8>) -> (r: Result<(), Error>) {
        self.write_to(f, ByteOrder::LittleEndian)
    }
}

impl BCCAD {
    /// Reads a document as [`BXCAD::from_binary`] does, which took the place
    /// of this function.
    pub fn from_bccad(f: &mut Reader<'_>) -> (r: Result<Self, Error>)
        ensures
            final(f).data == old(f).data,
            read_outcome(r, Self::parse(old(f).data@, old(f).pos as int), final(f).pos),
            r is Err ==> final(f).pos == old(f).pos,
    {
        Self::from_binary(f)
    }

    /// Writes a document as [`BXCAD::to_binary`] does, which took the place
    /// of this function.
    pub fn to_bccad(&self, f: &mut Vec<u8>) -> (r: Result<(), Error>)
        ensures
            r is Ok,
            final(f)@ == old(f)@ + Self::encoding(self@),
    {
        self.to_binary(f)
    }
}

/// What the constants of the format are: the byte order, the timestamp and
/// the type of a BCCAD.
pub proof fn lemma_bccad_constants()
    ensures
        BCCAD::BYTE_ORDER == ByteOrder::LittleEndian,
        BCCAD::TIMESTAMP == BCCAD_TIMESTAMP,
        BCCAD::BXCAD_TYPE == BXCADType::BCCAD,
{
}

/// A stream of bytes that was written for a document is read back and
/// written again as the same bytes, byte for byte, with its padding and the
/// zero bytes that end its parts and the file.
pub proof fn lemma_bccad_round_trip(value: BccadModel, bytes: Seq<u8>)
    requires
        BCCAD::fits(value),
        bytes == BCCAD::encoding(value),
    ensures
        BCCAD::parse(bytes, 0) matches Ok((read, end)) && BCCAD::encoding(read) == bytes && end
            == bytes.len() - 1,
{
    lemma_holds_at_start(bytes);
    BCCAD::lemma_decoded_encoded(value, ByteOrder::LittleEndian, bytes, 0);
    BCCAD::lemma_normal_encoded(value, ByteOrder::LittleEndian);
}

} // verus!
