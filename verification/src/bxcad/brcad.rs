//! The BRCAD format: big-endian, with animations that have no name in the
//! file and a step position that is packed into one 32-bit word.
use vstd::prelude::*;
use crate::bxcad::BXCADType;
use crate::bxcad::PosInTexture;
use crate::bxcad::BXCAD;
use crate::bytestream_addon::bool_at;
use crate::bytestream_addon::bool_bytes;
use crate::bytestream_addon::bytes3_at;
use crate::bytestream_addon::holds_at;
use crate::bytestream_addon::i16_at;
use crate::bytestream_addon::lemma_bool_at_bytes;
use crate::bytestream_addon::lemma_bytes3_at_bytes;
use crate::bytestream_addon::lemma_concat_assoc;
use crate::bytestream_addon::lemma_holds_at_bounds;
use crate::bytestream_addon::lemma_holds_at_concat;
use crate::bytestream_addon::lemma_holds_at_start;
use crate::bytestream_addon::lemma_list_encoding_seq;
use crate::bytestream_addon::lemma_parse_list_encoding;
use crate::bytestream_addon::lemma_parse_list_seq;
use crate::bytestream_addon::lemma_u16_at_bytes;
use crate::bytestream_addon::lemma_u32_at_bytes;
use crate::bytestream_addon::lemma_u8_at_bytes;
use crate::bytestream_addon::list_canonical;
use crate::bytestream_addon::parse_seq;
use crate::bytestream_addon::read_list;
use crate::bytestream_addon::read_outcome;
use crate::bytestream_addon::seq_encoding;
use crate::bytestream_addon::u16_at;
use crate::bytestream_addon::u16_bytes;
use crate::bytestream_addon::u32_at;
use crate::bytestream_addon::u32_bytes;
use crate::bytestream_addon::views;
use crate::bytestream_addon::write_array;
use crate::bytestream_addon::write_bool;
use crate::bytestream_addon::write_list;
use crate::bytestream_addon::write_u16;
use crate::bytestream_addon::write_u32;
use crate::bytestream_addon::write_u8;
use crate::bytestream_addon::ByteOrder;
use crate::bytestream_addon::ByteStream;
use crate::bytestream_addon::Reader;
use crate::error::Error;
use crate::error::Failure;
use crate::FloatBits;

verus! {

/// The known timestamp of the format: Mar 12 2010.
pub const BRCAD_TIMESTAMP: u32 = 20100312;

/// A representation of the contents of a BRCAD file
#[derive(Clone, Debug, PartialEq, Eq)]
pub struct BRCAD {
    /// Date of latest format revision, in YYYYMMDD format (decimal).
    /// Known timestamp is 20100312 (Mar 12 2010); `None` stands for it.
    pub timestamp: Option<u32>,
    /// A word whose most significant byte says whether the parts use texture
    /// variations.
    pub unk0: u32,
    /// Number of the spritesheet to use
    pub spritesheet_num: u16,
    /// Might be a BOM?
    pub spritesheet_control: u16,
    /// Width of the associated texture in pixels
    pub texture_width: u16,
    /// Height of the associated texture in pixels
    pub texture_height: u16,
    pub unk1: u16,
    /// [`Sprite`]s this BRCAD contains
    pub sprites: Vec<Sprite>,
    pub unk2: u16,
    /// [`Animation`]s that can be called for this BRCAD
    pub animations: Vec<Animation>,
}

/// What a [`BRCAD`] holds.
pub struct BrcadModel {
    pub timestamp: Option<u32>,
    pub unk0: u32,
    pub spritesheet_num: u16,
    pub spritesheet_control: u16,
    pub texture_width: u16,
    pub texture_height: u16,
    pub unk1: u16,
    pub sprites: Seq<SpriteModel>,
    pub unk2: u16,
    pub animations: Seq<AnimationModel>,
}

impl View for BRCAD {
    type V = BrcadModel;

    open spec fn view(&self) -> BrcadModel {
        BrcadModel {
            timestamp: self.timestamp,
            unk0: self.unk0,
            spritesheet_num: self.spritesheet_num,
            spritesheet_control: self.spritesheet_control,
            texture_width: self.texture_width,
            texture_height: self.texture_height,
            unk1: self.unk1,
            sprites: views(self.sprites@),
            unk2: self.unk2,
            animations: views(self.animations@),
        }
    }
}

/// Struct that represents a labels file for a BRCAD file - just a bunch of #defines
#[derive(Clone, Debug, PartialEq, Eq)]
pub struct BRCADLabels(pub Vec<String>);

/// A frame of a BRCAD animation, composed of several [`SpritePart`]s or cells
/// aligned together to create a full picture
#[derive(Debug, PartialEq, Eq)]
pub struct Sprite {
    pub unk: u16,
    /// [`SpritePart`]s that form this Sprite
    pub parts: Vec<SpritePart>,
}

/// What a [`Sprite`] holds.
pub struct SpriteModel {
    pub unk: u16,
    pub parts: Seq<SpritePart>,
}

impl View for Sprite {
    type V = SpriteModel;

    open spec fn view(&self) -> SpriteModel {
        SpriteModel { unk: self.unk, parts: views(self.parts@) }
    }
}

impl Clone for Sprite {
    fn clone(&self) -> (r: Self)
        ensures
            r@ == self@,
    {
        let mut parts: Vec<SpritePart> = Vec::new();
        let mut i: usize = 0;
        while i < self.parts.len()
            invariant
                i <= self.parts.len(),
                parts@ == self.parts@.take(i as int),
            decreases self.parts.len() - i,
        {
            parts.push(self.parts[i]);
            assert(parts@ =~= self.parts@.take(i + 1));
            i = i + 1;
        }
        assert(parts@ =~= self.parts@);
        Sprite { unk: self.unk, parts }
    }
}

/// A small image taken directly from the texture sheet, which grouped with others
/// creates a full frame of the animation, that is, a [`Sprite`]
#[derive(Clone, Copy, Debug, PartialEq, Eq)]
pub struct SpritePart {
    /// Struct that defines the bounds of the SpritePart in the texture itself
    pub texture_pos: PosInTexture,
    /// A word whose upper half selects the texture variation of the part.
    pub unk: u32,
    /// X position where the part should be placed relative to the sprite
    pub pos_x: u16,
    /// Y position where the part should be placed relative to the sprite
    pub pos_y: u16,
    /// Scaling factor for the X axis
    pub scale_x: FloatBits,
    /// Scaling factor for the Y axis
    pub scale_y: FloatBits,
    /// Part rotation in degrees
    pub rotation: FloatBits,
    /// Whether to flip the part on the X axis
    pub flip_x: bool,
    /// Whether to flip the part on the Y axis
    pub flip_y: bool,
    /// Opacity for the part
    pub opacity: u8,
}

impl View for SpritePart {
    type V = SpritePart;

    open spec fn view(&self) -> SpritePart {
        *self
    }
}

/// A cell animation for BRCAD, composed of different frames/[`Sprite`]s
#[derive(Clone, Debug, PartialEq, Eq)]
pub struct Animation {
    /// The name of the animation. Defined in the labels file, this may be
    /// missing from the struct if said file is not provided. **Do NOT change
    /// the order of the animations, the name is just there for development
    /// purposes**
    pub name: Option<String>,
    pub unk: u16,
    /// List of [`AnimationStep`]s that constitute this Animation
    pub steps: Vec<AnimationStep>,
}

/// What an [`Animation`] holds.
pub struct AnimationModel {
    pub name: Option<Seq<char>>,
    pub unk: u16,
    pub steps: Seq<AnimationStep>,
}

impl View for Animation {
    type V = AnimationModel;

    open spec fn view(&self) -> AnimationModel {
        AnimationModel {
            name: match self.name {
                Some(name) => Some(name@),
                None => None,
            },
            unk: self.unk,
            steps: views(self.steps@),
        }
    }
}

/// These constitute an [`Animation`], and are a reference to
/// a [`Sprite`] plus more information about it relative to the
/// whole animation
#[derive(Clone, Copy, Debug, PartialEq, Eq)]
pub struct AnimationStep {
    /// A reference to the index number of the [Sprite] this AnimationStep uses
    pub sprite: u16,
    /// Duration of the step (FPS is variable)
    pub duration: u16,
    /// Two values in one word: the X displacement for the sprite in the
    /// upper half and the Y displacement in the lower half, each a signed
    /// 16-bit number. Read them with [AnimationStep::pos_x] and
    /// [AnimationStep::pos_y], and set them with the `_mut` variants.
    pub unk0: u32,
    /// Scaling factor for the X axis
    pub scale_x: FloatBits,
    /// Scaling factor for the Y axis
    pub scale_y: FloatBits,
    /// Rotation in degrees
    pub rotation: FloatBits,
    /// Opacity for the sprite
    pub opacity: u8,
    pub unk1: [u8; 3],
}

impl View for AnimationStep {
    type V = AnimationStep;

    open spec fn view(&self) -> AnimationStep {
        *self
    }
}

impl SpritePart {
    /// The part that the bytes of `data` from `pos` on denote in `order`.
    pub open spec fn at(data: Seq<u8>, pos: int, order: ByteOrder) -> SpritePart {
        SpritePart {
            texture_pos: PosInTexture {
                x: u16_at(data, pos, order),
                y: u16_at(data, pos + 2, order),
                width: u16_at(data, pos + 4, order),
                height: u16_at(data, pos + 6, order),
            },
            unk: u32_at(data, pos + 8, order),
            pos_x: u16_at(data, pos + 12, order),
            pos_y: u16_at(data, pos + 14, order),
            scale_x: FloatBits { bits: u32_at(data, pos + 16, order) },
            scale_y: FloatBits { bits: u32_at(data, pos + 20, order) },
            rotation: FloatBits { bits: u32_at(data, pos + 24, order) },
            flip_x: bool_at(data, pos + 28),
            flip_y: bool_at(data, pos + 29),
            opacity: data[pos + 30],
        }
    }

    /// What a read of a part at `pos` of `data` gives: the part, where
    /// all its bytes are there.
    pub open spec fn decoded(data: Seq<u8>, pos: int, order: ByteOrder) -> Result<
        (SpritePart, int),
        Failure,
    > {
        if pos + 32 <= data.len() {
            Ok((Self::at(data, pos, order), pos + 32))
        } else {
            Err(Failure::Truncated)
        }
    }

    /// The bytes that are written for a part, field by field.
    pub open spec fn encoded(value: SpritePart, order: ByteOrder) -> Seq<u8> {
        u16_bytes(value.texture_pos.x, order)
            + u16_bytes(value.texture_pos.y, order)
            + u16_bytes(value.texture_pos.width, order)
            + u16_bytes(value.texture_pos.height, order)
            + u32_bytes(value.unk, order)
            + u16_bytes(value.pos_x, order)
            + u16_bytes(value.pos_y, order)
            + u32_bytes(value.scale_x.bits, order)
            + u32_bytes(value.scale_y.bits, order)
            + u32_bytes(value.rotation.bits, order)
            + bool_bytes(value.flip_x)
            + bool_bytes(value.flip_y)
            + seq![value.opacity]
            + seq![0u8]
    }

    /// The function that reads a part in `order`.
    pub open spec fn reader(order: ByteOrder) -> spec_fn(Seq<u8>, int) -> Result<
        (SpritePart, int),
        Failure,
    > {
        |data: Seq<u8>, pos: int| Self::decoded(data, pos, order)
    }

    /// The function that gives the bytes of a part in `order`.
    pub open spec fn writer(order: ByteOrder) -> spec_fn(SpritePart) -> Seq<u8> {
        |value: SpritePart| Self::encoded(value, order)
    }

    /// The bytes written for a part are read back as that part.
    pub proof fn lemma_decoded_encoded(
        value: SpritePart,
        order: ByteOrder,
        data: Seq<u8>,
        pos: int,
    )
        requires
            holds_at(data, pos, Self::encoded(value, order)),
        ensures
            Self::decoded(data, pos, order) == Ok::<(SpritePart, int), Failure>(
                (value, pos + 32),
            ),
            Self::encoded(value, order).len() == 32,
    {
        let seg0 = u16_bytes(value.texture_pos.x, order);
        let seg1 = u16_bytes(value.texture_pos.y, order);
        let seg2 = u16_bytes(value.texture_pos.width, order);
        let seg3 = u16_bytes(value.texture_pos.height, order);
        let seg4 = u32_bytes(value.unk, order);
        let seg5 = u16_bytes(value.pos_x, order);
        let seg6 = u16_bytes(value.pos_y, order);
        let seg7 = u32_bytes(value.scale_x.bits, order);
        let seg8 = u32_bytes(value.scale_y.bits, order);
        let seg9 = u32_bytes(value.rotation.bits, order);
        let seg10 = bool_bytes(value.flip_x);
        let seg11 = bool_bytes(value.flip_y);
        let seg12 = seq![value.opacity];
        let seg13 = seq![0u8];
        let upto0 = seg0;
        let upto1 = upto0 + seg1;
        let upto2 = upto1 + seg2;
        let upto3 = upto2 + seg3;
        let upto4 = upto3 + seg4;
        let upto5 = upto4 + seg5;
        let upto6 = upto5 + seg6;
        let upto7 = upto6 + seg7;
        let upto8 = upto7 + seg8;
        let upto9 = upto8 + seg9;
        let upto10 = upto9 + seg10;
        let upto11 = upto10 + seg11;
        let upto12 = upto11 + seg12;
        let upto13 = upto12 + seg13;
        assert(seg0.len() == 2);
        assert(seg1.len() == 2);
        assert(seg2.len() == 2);
        assert(seg3.len() == 2);
        assert(seg4.len() == 4);
        assert(seg5.len() == 2);
        assert(seg6.len() == 2);
        assert(seg7.len() == 4);
        assert(seg8.len() == 4);
        assert(seg9.len() == 4);
        assert(seg10.len() == 1);
        assert(seg11.len() == 1);
        assert(seg12.len() == 1);
        assert(seg13.len() == 1);
        lemma_holds_at_bounds(data, pos, upto13);
        lemma_holds_at_concat(data, pos, upto12, seg13);
        lemma_holds_at_concat(data, pos, upto11, seg12);
        lemma_holds_at_concat(data, pos, upto10, seg11);
        lemma_holds_at_concat(data, pos, upto9, seg10);
        lemma_holds_at_concat(data, pos, upto8, seg9);
        lemma_holds_at_concat(data, pos, upto7, seg8);
        lemma_holds_at_concat(data, pos, upto6, seg7);
        lemma_holds_at_concat(data, pos, upto5, seg6);
        lemma_holds_at_concat(data, pos, upto4, seg5);
        lemma_holds_at_concat(data, pos, upto3, seg4);
        lemma_holds_at_concat(data, pos, upto2, seg3);
        lemma_holds_at_concat(data, pos, upto1, seg2);
        lemma_holds_at_concat(data, pos, upto0, seg1);
        lemma_u16_at_bytes(value.texture_pos.x, order, data, pos);
        lemma_u16_at_bytes(value.texture_pos.y, order, data, pos + 2);
        lemma_u16_at_bytes(value.texture_pos.width, order, data, pos + 4);
        lemma_u16_at_bytes(value.texture_pos.height, order, data, pos + 6);
        lemma_u32_at_bytes(value.unk, order, data, pos + 8);
        lemma_u16_at_bytes(value.pos_x, order, data, pos + 12);
        lemma_u16_at_bytes(value.pos_y, order, data, pos + 14);
        lemma_u32_at_bytes(value.scale_x.bits, order, data, pos + 16);
        lemma_u32_at_bytes(value.scale_y.bits, order, data, pos + 20);
        lemma_u32_at_bytes(value.rotation.bits, order, data, pos + 24);
        lemma_bool_at_bytes(value.flip_x, data, pos + 28);
        lemma_bool_at_bytes(value.flip_y, data, pos + 29);
        lemma_u8_at_bytes(value.opacity, data, pos + 30);
    }
}

impl ByteStream for SpritePart {
    open spec fn parse(data: Seq<u8>, pos: int, order: ByteOrder) -> Result<
        (SpritePart, int),
        Failure,
    > {
        Self::decoded(data, pos, order)
    }

    open spec fn encoding(value: SpritePart, order: ByteOrder) -> Seq<u8> {
        Self::encoded(value, order)
    }

    open spec fn representable(value: SpritePart) -> bool {
        true
    }

    open spec fn canonical(value: SpritePart) -> SpritePart {
        value
    }

    proof fn lemma_parse_encoding(value: SpritePart, order: ByteOrder, data: Seq<u8>, pos: int) {
        Self::lemma_decoded_encoded(value, order, data, pos);
    }

    fn read_from(reader: &mut Reader<'_>, order: ByteOrder) -> (r: Result<Self, Error>) {
        let texture_pos_x = reader.read_u16(order)?;
        let texture_pos_y = reader.read_u16(order)?;
        let texture_pos_width = reader.read_u16(order)?;
        let texture_pos_height = reader.read_u16(order)?;
        let unk = reader.read_u32(order)?;
        let pos_x = reader.read_u16(order)?;
        let pos_y = reader.read_u16(order)?;
        let scale_x = FloatBits::read_from(reader, order)?;
        let scale_y = FloatBits::read_from(reader, order)?;
        let rotation = FloatBits::read_from(reader, order)?;
        let flip_x = reader.read_bool(order)?;
        let flip_y = reader.read_bool(order)?;
        let opacity = reader.read_u8(order)?;
        let _ = reader.read_u8(order)?;
        Ok(
            SpritePart {
                texture_pos: PosInTexture {
                    x: texture_pos_x,
                    y: texture_pos_y,
                    width: texture_pos_width,
                    height: texture_pos_height,
                },
                unk,
                pos_x,
                pos_y,
                scale_x,
                scale_y,
                rotation,
                flip_x,
                flip_y,
                opacity,
            },
        )
    }

    fn write_to(&self, out: &mut Vec<u8>, order: ByteOrder) -> (r: Result<(), Error>) {
        write_u16(self.texture_pos.x, out, order)?;
        let ghost written = u16_bytes(self.texture_pos.x, order);
        write_u16(self.texture_pos.y, out, order)?;
        proof {
            lemma_concat_assoc(old(out)@, written, u16_bytes(self.texture_pos.y, order));
        }
        let ghost written = written + u16_bytes(self.texture_pos.y, order);
        write_u16(self.texture_pos.width, out, order)?;
        proof {
            lemma_concat_assoc(old(out)@, written, u16_bytes(self.texture_pos.width, order));
        }
        let ghost written = written + u16_bytes(self.texture_pos.width, order);
        write_u16(self.texture_pos.height, out, order)?;
        proof {
            lemma_concat_assoc(old(out)@, written, u16_bytes(self.texture_pos.height, order));
        }
        let ghost written = written + u16_bytes(self.texture_pos.height, order);
        write_u32(self.unk, out, order)?;
        proof {
            lemma_concat_assoc(old(out)@, written, u32_bytes(self.unk, order));
        }
        let ghost written = written + u32_bytes(self.unk, order);
        write_u16(self.pos_x, out, order)?;
        proof {
            lemma_concat_assoc(old(out)@, written, u16_bytes(self.pos_x, order));
        }
        let ghost written = written + u16_bytes(self.pos_x, order);
        write_u16(self.pos_y, out, order)?;
        proof {
            lemma_concat_assoc(old(out)@, written, u16_bytes(self.pos_y, order));
        }
        let ghost written = written + u16_bytes(self.pos_y, order);
        self.scale_x.write_to(out, order)?;
        proof {
            lemma_concat_assoc(old(out)@, written, u32_bytes(self.scale_x.bits, order));
        }
        let ghost written = written + u32_bytes(self.scale_x.bits, order);
        self.scale_y.write_to(out, order)?;
        proof {
            lemma_concat_assoc(old(out)@, written, u32_bytes(self.scale_y.bits, order));
        }
        let ghost written = written + u32_bytes(self.scale_y.bits, order);
        self.rotation.write_to(out, order)?;
        proof {
            lemma_concat_assoc(old(out)@, written, u32_bytes(self.rotation.bits, order));
        }
        let ghost written = written + u32_bytes(self.rotation.bits, order);
        write_bool(self.flip_x, out, order)?;
        proof {
            lemma_concat_assoc(old(out)@, written, bool_bytes(self.flip_x));
        }
        let ghost written = written + bool_bytes(self.flip_x);
        write_bool(self.flip_y, out, order)?;
        proof {
            lemma_concat_assoc(old(out)@, written, bool_bytes(self.flip_y));
        }
        let ghost written = written + bool_bytes(self.flip_y);
        write_u8(self.opacity, out, order)?;
        proof {
            lemma_concat_assoc(old(out)@, written, seq![self.opacity]);
        }
        let ghost written = written + seq![self.opacity];
        write_u8(0, out, order)?;
        proof {
            lemma_concat_assoc(old(out)@, written, seq![0u8]);
        }
        let ghost written = written + seq![0u8];
        Ok(())
    }
}


impl AnimationStep {
    /// The step that the bytes of `data` from `pos` on denote in `order`.
    pub open spec fn at(data: Seq<u8>, pos: int, order: ByteOrder) -> AnimationStep {
        AnimationStep {
            sprite: u16_at(data, pos, order),
            duration: u16_at(data, pos + 2, order),
            unk0: u32_at(data, pos + 4, order),
            scale_x: FloatBits { bits: u32_at(data, pos + 8, order) },
            scale_y: FloatBits { bits: u32_at(data, pos + 12, order) },
            rotation: FloatBits { bits: u32_at(data, pos + 16, order) },
            opacity: data[pos + 20],
            unk1: bytes3_at(data, pos + 21),
        }
    }

    /// What a read of a step at `pos` of `data` gives: the step, where
    /// all its bytes are there.
    pub open spec fn decoded(data: Seq<u8>, pos: int, order: ByteOrder) -> Result<
        (AnimationStep, int),
        Failure,
    > {
        if pos + 24 <= data.len() {
            Ok((Self::at(data, pos, order), pos + 24))
        } else {
            Err(Failure::Truncated)
        }
    }

    /// The bytes that are written for a step, field by field.
    pub open spec fn encoded(value: AnimationStep, order: ByteOrder) -> Seq<u8> {
        u16_bytes(value.sprite, order)
            + u16_bytes(value.duration, order)
            + u32_bytes(value.unk0, order)
            + u32_bytes(value.scale_x.bits, order)
            + u32_bytes(value.scale_y.bits, order)
            + u32_bytes(value.rotation.bits, order)
            + seq![value.opacity]
            + value.unk1@
    }

    /// The function that reads a step in `order`.
    pub open spec fn reader(order: ByteOrder) -> spec_fn(Seq<u8>, int) -> Result<
        (AnimationStep, int),
        Failure,
    > {
        |data: Seq<u8>, pos: int| Self::decoded(data, pos, order)
    }

    /// The function that gives the bytes of a step in `order`.
    pub open spec fn writer(order: ByteOrder) -> spec_fn(AnimationStep) -> Seq<u8> {
        |value: AnimationStep| Self::encoded(value, order)
    }

    /// The bytes written for a step are read back as that step.
    pub proof fn lemma_decoded_encoded(
        value: AnimationStep,
        order: ByteOrder,
        data: Seq<u8>,
        pos: int,
    )
        requires
            holds_at(data, pos, Self::encoded(value, order)),
        ensures
            Self::decoded(data, pos, order) == Ok::<(AnimationStep, int), Failure>(
                (value, pos + 24),
            ),
            Self::encoded(value, order).len() == 24,
    {
        let seg0 = u16_bytes(value.sprite, order);
        let seg1 = u16_bytes(value.duration, order);
        let seg2 = u32_bytes(value.unk0, order);
        let seg3 = u32_bytes(value.scale_x.bits, order);
        let seg4 = u32_bytes(value.scale_y.bits, order);
        let seg5 = u32_bytes(value.rotation.bits, order);
        let seg6 = seq![value.opacity];
        let seg7 = value.unk1@;
        let upto0 = seg0;
        let upto1 = upto0 + seg1;
        let upto2 = upto1 + seg2;
        let upto3 = upto2 + seg3;
        let upto4 = upto3 + seg4;
        let upto5 = upto4 + seg5;
        let upto6 = upto5 + seg6;
        let upto7 = upto6 + seg7;
        assert(seg0.len() == 2);
        assert(seg1.len() == 2);
        assert(seg2.len() == 4);
        assert(seg3.len() == 4);
        assert(seg4.len() == 4);
        assert(seg5.len() == 4);
        assert(seg6.len() == 1);
        assert(seg7.len() == 3);
        lemma_holds_at_bounds(data, pos, upto7);
        lemma_holds_at_concat(data, pos, upto6, seg7);
        lemma_holds_at_concat(data, pos, upto5, seg6);
        lemma_holds_at_concat(data, pos, upto4, seg5);
        lemma_holds_at_concat(data, pos, upto3, seg4);
        lemma_holds_at_concat(data, pos, upto2, seg3);
        lemma_holds_at_concat(data, pos, upto1, seg2);
        lemma_holds_at_concat(data, pos, upto0, seg1);
        lemma_u16_at_bytes(value.sprite, order, data, pos);
        lemma_u16_at_bytes(value.duration, order, data, pos + 2);
        lemma_u32_at_bytes(value.unk0, order, data, pos + 4);
        lemma_u32_at_bytes(value.scale_x.bits, order, data, pos + 8);
        lemma_u32_at_bytes(value.scale_y.bits, order, data, pos + 12);
        lemma_u32_at_bytes(value.rotation.bits, order, data, pos + 16);
        lemma_u8_at_bytes(value.opacity, data, pos + 20);
        lemma_bytes3_at_bytes(value.unk1, data, pos + 21);
    }
}

impl ByteStream for AnimationStep {
    open spec fn parse(data: Seq<u8>, pos: int, order: ByteOrder) -> Result<
        (AnimationStep, int),
        Failure,
    > {
        Self::decoded(data, pos, order)
    }

    open spec fn encoding(value: AnimationStep, order: ByteOrder) -> Seq<u8> {
        Self::encoded(value, order)
    }

    open spec fn representable(value: AnimationStep) -> bool {
        true
    }

    open spec fn canonical(value: AnimationStep) -> AnimationStep {
        value
    }

    proof fn lemma_parse_encoding(value: AnimationStep, order: ByteOrder, data: Seq<u8>, pos: int) {
        Self::lemma_decoded_encoded(value, order, data, pos);
    }

    fn read_from(reader: &mut Reader<'_>, order: ByteOrder) -> (r: Result<Self, Error>) {
        let ghost data = reader.data@;
        let ghost pos = reader.pos as int;
        let sprite = reader.read_u16(order)?;
        let duration = reader.read_u16(order)?;
        let unk0 = reader.read_u32(order)?;
        let scale_x = FloatBits::read_from(reader, order)?;
        let scale_y = FloatBits::read_from(reader, order)?;
        let rotation = FloatBits::read_from(reader, order)?;
        let opacity = reader.read_u8(order)?;
        let unk1 = reader.read_array::<3>(order)?;
        assert(unk1 =~= bytes3_at(data, pos + 21));
        Ok(
            AnimationStep {
                sprite,
                duration,
                unk0,
                scale_x,
                scale_y,
                rotation,
                opacity,
                unk1,
            },
        )
    }

    fn write_to(&self, out: &mut Vec<u8>, order: ByteOrder) -> (r: Result<(), Error>) {
        write_u16(self.sprite, out, order)?;
        let ghost written = u16_bytes(self.sprite, order);
        write_u16(self.duration, out, order)?;
        proof {
            lemma_concat_assoc(old(out)@, written, u16_bytes(self.duration, order));
        }
        let ghost written = written + u16_bytes(self.duration, order);
        write_u32(self.unk0, out, order)?;
        proof {
            lemma_concat_assoc(old(out)@, written, u32_bytes(self.unk0, order));
        }
        let ghost written = written + u32_bytes(self.unk0, order);
        self.scale_x.write_to(out, order)?;
        proof {
            lemma_concat_assoc(old(out)@, written, u32_bytes(self.scale_x.bits, order));
        }
        let ghost written = written + u32_bytes(self.scale_x.bits, order);
        self.scale_y.write_to(out, order)?;
        proof {
            lemma_concat_assoc(old(out)@, written, u32_bytes(self.scale_y.bits, order));
        }
        let ghost written = written + u32_bytes(self.scale_y.bits, order);
        self.rotation.write_to(out, order)?;
        proof {
            lemma_concat_assoc(old(out)@, written, u32_bytes(self.rotation.bits, order));
        }
        let ghost written = written + u32_bytes(self.rotation.bits, order);
        write_u8(self.opacity, out, order)?;
        proof {
            lemma_concat_assoc(old(out)@, written, seq![self.opacity]);
        }
        let ghost written = written + seq![self.opacity];
        write_array(&self.unk1, out, order)?;
        proof {
            lemma_concat_assoc(old(out)@, written, self.unk1@);
        }
        let ghost written = written + self.unk1@;
        Ok(())
    }
}


/// One of the two numbers of a position word: X is held in the upper 16
/// bits and Y in the lower 16 bits, each in two's complement.
pub open spec fn pos_half(word: u32, y: bool) -> i16 {
    if y {
        (word & 0xffff) as u16 as i16
    } else {
        (word >> 16) as u16 as i16
    }
}

/// The position word that holds `x` and `y`.
pub open spec fn packed_pos(x: i16, y: i16) -> u32 {
    ((x as u16 as u32) << 16) | (y as u16 as u32)
}

/// One of the two numbers of a position word, found as a program finds it
/// that looks at the word in memory as two 16-bit numbers: on a host of the
/// byte order `host` the word lies in memory as its four bytes in that
/// order, X is the second of the two numbers on a little-endian host and the
/// first on a big-endian host, and Y is the other.
pub open spec fn pos_in_memory(word: u32, y: bool, host: ByteOrder) -> i16 {
    let second = (host == ByteOrder::BigEndian && y) || (host == ByteOrder::LittleEndian && !y);
    i16_at(
        u32_bytes(word, host),
        if second {
            2
        } else {
            0
        },
        host,
    )
}

/// The halves of a position word do not depend on the host: whatever its byte
/// order, the number found in memory is the half of the word.
pub proof fn lemma_pos_in_memory(word: u32, y: bool, host: ByteOrder)
    ensures
        pos_in_memory(word, y, host) == pos_half(word, y),
{
    let b3 = (word >> 24) as u8;
    let b2 = ((word >> 16) & 0xff) as u8;
    let b1 = ((word >> 8) & 0xff) as u8;
    let b0 = (word & 0xff) as u8;
    assert((((b3 as u16) << 8) | (b2 as u16)) == (word >> 16) as u16) by (bit_vector)
        requires
            b3 == (word >> 24) as u8,
            b2 == ((word >> 16) & 0xff) as u8,
    ;
    assert((((b1 as u16) << 8) | (b0 as u16)) == (word & 0xffff) as u16) by (bit_vector)
        requires
            b1 == ((word >> 8) & 0xff) as u8,
            b0 == (word & 0xff) as u8,
    ;
}

/// Packed two-int field: the two numbers that a position word was packed
/// from are the ones that are unpacked from it, whatever the byte order of
/// the host on which both are done.
pub proof fn lemma_packed_pos(x: i16, y: i16, host: ByteOrder)
    ensures
        pos_half(packed_pos(x, y), false) == x,
        pos_half(packed_pos(x, y), true) == y,
        pos_in_memory(packed_pos(x, y), false, host) == x,
        pos_in_memory(packed_pos(x, y), true, host) == y,
{
    let hi = x as u16;
    let lo = y as u16;
    let word = ((hi as u32) << 16) | (lo as u32);
    assert((word >> 16) as u16 == hi && (word & 0xffff) as u16 == lo) by (bit_vector)
        requires
            word == ((hi as u32) << 16) | (lo as u32),
    ;
    assert((x as u16) as i16 == x) by (bit_vector);
    assert((y as u16) as i16 == y) by (bit_vector);
    lemma_pos_in_memory(packed_pos(x, y), false, host);
    lemma_pos_in_memory(packed_pos(x, y), true, host);
}

impl AnimationStep {
    /// Reads one of the two numbers of a position word: Y if `y`, else X.
    pub fn get_pos(unk0: &u32, y: bool) -> (r: i16)
        ensures
            r == pos_half(*unk0, y),
    {
        let half = if y {
            #[verifier::truncate] ((*unk0 & 0xffff) as u16)
        } else {
            #[verifier::truncate] ((*unk0 >> 16) as u16)
        };
        #[verifier::truncate] (half as i16)
    }

    /// Sets one of the two numbers of a position word, Y if `y`, else X, and
    /// leaves the other as it is.
    pub fn set_pos(unk0: &mut u32, y: bool, value: i16)
        ensures
            pos_half(*final(unk0), y) == value,
            pos_half(*final(unk0), !y) == pos_half(*old(unk0), !y),
            *final(unk0) == if y {
                packed_pos(pos_half(*old(unk0), false), value)
            } else {
                packed_pos(value, pos_half(*old(unk0), true))
            },
    {
        let half = #[verifier::truncate] (value as u16);
        let word = *unk0;
        let new = if y {
            (word & 0xffff_0000) | (half as u32)
        } else {
            (word & 0x0000_ffff) | ((half as u32) << 16)
        };
        proof {
            let kept = if y {
                (word >> 16) as u16
            } else {
                (word & 0xffff) as u16
            };
            assert(y ==> new == (((word >> 16) as u16 as u32) << 16) | (half as u32))
                by (bit_vector)
                requires
                    y ==> new == (word & 0xffff_0000) | (half as u32),
            ;
            assert(!y ==> new == ((half as u32) << 16) | ((word & 0xffff) as u16 as u32))
                by (bit_vector)
                requires
                    !y ==> new == (word & 0x0000_ffff) | ((half as u32) << 16),
            ;
            assert((value as u16) as i16 == value) by (bit_vector);
            assert(((word >> 16) as u16 as i16) as u16 == (word >> 16) as u16) by (bit_vector);
            assert(((word & 0xffff) as u16 as i16) as u16 == (word & 0xffff) as u16)
                by (bit_vector);
            if y {
                lemma_packed_pos(pos_half(word, false), value, ByteOrder::BigEndian);
            } else {
                lemma_packed_pos(value, pos_half(word, true), ByteOrder::BigEndian);
            }
        }
        *unk0 = new;
    }

    /// Get the X position for this step's sprite
    pub fn pos_x(&self) -> (r: i16)
        ensures
            r == pos_half(self.unk0, false),
    {
        Self::get_pos(&self.unk0, false)
    }

    /// Get the Y position for this step's sprite
    pub fn pos_y(&self) -> (r: i16)
        ensures
            r == pos_half(self.unk0, true),
    {
        Self::get_pos(&self.unk0, true)
    }

    /// Set the X position for this step's sprite; the rest of the step stays
    /// as it is.
    pub fn pos_x_mut(&mut self, x: i16)
        ensures
            *final(self) == (AnimationStep {
                unk0: packed_pos(x, pos_half(old(self).unk0, true)),
                ..*old(self)
            }),
    {
        Self::set_pos(&mut self.unk0, false, x);
    }

    /// Set the Y position for this step's sprite; the rest of the step stays
    /// as it is.
    pub fn pos_y_mut(&mut self, y: i16)
        ensures
            *final(self) == (AnimationStep {
                unk0: packed_pos(pos_half(old(self).unk0, false), y),
                ..*old(self)
            }),
    {
        Self::set_pos(&mut self.unk0, true, y);
    }
}

impl Sprite {
    /// What a read of a sprite at `pos` of `data` gives: a count, an unknown
    /// word, and as many parts as the count says.
    #[verifier::opaque]
    pub open spec fn decoded(data: Seq<u8>, pos: int, order: ByteOrder) -> Result<
        (SpriteModel, int),
        Failure,
    > {
        if pos + 4 > data.len() {
            Err(Failure::Truncated)
        } else {
            match parse_seq(
                data,
                pos + 4,
                u16_at(data, pos, order) as nat,
                SpritePart::reader(order),
            ) {
                Err(failure) => Err(failure),
                Ok((parts, end)) => Ok(
                    (SpriteModel { unk: u16_at(data, pos + 2, order), parts }, end),
                ),
            }
        }
    }

    /// The bytes that are written for a sprite: the low 16 bits of the number
    /// of its parts, the unknown word, and the parts.
    #[verifier::opaque]
    pub open spec fn encoded(value: SpriteModel, order: ByteOrder) -> Seq<u8> {
        u16_bytes(value.parts.len() as u16, order) + u16_bytes(value.unk, order) + seq_encoding(
            value.parts,
            SpritePart::writer(order),
        )
    }

    /// Whether the number of parts fits the count.
    pub open spec fn fits(value: SpriteModel) -> bool {
        value.parts.len() <= u16::MAX
    }

    /// The function that reads a sprite in `order`.
    pub open spec fn reader(order: ByteOrder) -> spec_fn(Seq<u8>, int) -> Result<
        (SpriteModel, int),
        Failure,
    > {
        |data: Seq<u8>, pos: int| Self::decoded(data, pos, order)
    }

    /// The function that gives the bytes of a sprite in `order`.
    pub open spec fn writer(order: ByteOrder) -> spec_fn(SpriteModel) -> Seq<u8> {
        |value: SpriteModel| Self::encoded(value, order)
    }

    /// Where `data` holds the bytes of a list of parts, a read of as many
    /// parts there gives the list.
    pub proof fn lemma_parts_decoded(
        parts: Seq<SpritePart>,
        order: ByteOrder,
        data: Seq<u8>,
        pos: int,
    )
        requires
            holds_at(data, pos, seq_encoding(parts, SpritePart::writer(order))),
        ensures
            parse_seq(data, pos, parts.len(), SpritePart::reader(order)) == Ok::<
                (Seq<SpritePart>, int),
                Failure,
            >((parts, pos + seq_encoding(parts, SpritePart::writer(order)).len())),
    {
        lemma_list_encoding_seq::<SpritePart>(parts, order, SpritePart::writer(order));
        lemma_parse_list_encoding::<SpritePart>(parts, order, data, pos);
        lemma_parse_list_seq::<SpritePart>(
            data,
            pos,
            parts.len(),
            order,
            SpritePart::reader(order),
        );
        assert(list_canonical::<SpritePart>(parts) =~= parts);
    }

    /// The bytes written for a sprite that fits are read back as that sprite.
    pub proof fn lemma_decoded_encoded(
        value: SpriteModel,
        order: ByteOrder,
        data: Seq<u8>,
        pos: int,
    )
        requires
            Self::fits(value),
            holds_at(data, pos, Self::encoded(value, order)),
        ensures
            Self::decoded(data, pos, order) == Ok::<(SpriteModel, int), Failure>(
                (value, pos + Self::encoded(value, order).len()),
            ),
    {
        reveal(Sprite::decoded);
        reveal(Sprite::encoded);
        let count = u16_bytes(value.parts.len() as u16, order);
        let unk = u16_bytes(value.unk, order);
        let parts = seq_encoding(value.parts, SpritePart::writer(order));
        assert(count.len() == 2);
        assert(unk.len() == 2);
        lemma_holds_at_bounds(data, pos, count + unk + parts);
        lemma_holds_at_concat(data, pos, count + unk, parts);
        lemma_holds_at_concat(data, pos, count, unk);
        lemma_u16_at_bytes(value.parts.len() as u16, order, data, pos);
        lemma_u16_at_bytes(value.unk, order, data, pos + 2);
        Self::lemma_parts_decoded(value.parts, order, data, pos + 4);
    }
}

impl ByteStream for Sprite {
    open spec fn parse(data: Seq<u8>, pos: int, order: ByteOrder) -> Result<
        (SpriteModel, int),
        Failure,
    > {
        Self::decoded(data, pos, order)
    }

    open spec fn encoding(value: SpriteModel, order: ByteOrder) -> Seq<u8> {
        Self::encoded(value, order)
    }

    open spec fn representable(value: SpriteModel) -> bool {
        Self::fits(value)
    }

    open spec fn canonical(value: SpriteModel) -> SpriteModel {
        value
    }

    proof fn lemma_parse_encoding(value: SpriteModel, order: ByteOrder, data: Seq<u8>, pos: int) {
        Self::lemma_decoded_encoded(value, order, data, pos);
    }

    fn read_from(reader: &mut Reader<'_>, order: ByteOrder) -> (r: Result<Self, Error>) {
        proof {
            reveal(Sprite::decoded);
        }
        let parts_count = reader.read_u16(order)?;
        let unk = reader.read_u16(order)?;
        proof {
            lemma_parse_list_seq::<SpritePart>(
                reader.data@,
                reader.pos as int,
                parts_count as nat,
                order,
                SpritePart::reader(order),
            );
        }
        let parts = read_list::<SpritePart>(reader, parts_count as usize, order)?;
        Ok(Sprite { unk, parts })
    }

    fn write_to(&self, out: &mut Vec<u8>, order: ByteOrder) -> (r: Result<(), Error>) {
        proof {
            reveal(Sprite::encoded);
        }
        let count = #[verifier::truncate] (self.parts.len() as u16);
        write_u16(count, out, order)?;
        let ghost written = u16_bytes(count, order);
        write_u16(self.unk, out, order)?;
        proof {
            lemma_concat_assoc(old(out)@, written, u16_bytes(self.unk, order));
        }
        let ghost written = written + u16_bytes(self.unk, order);
        write_list(&self.parts, out, order)?;
        proof {
            let parts = seq_encoding(self@.parts, SpritePart::writer(order));
            lemma_list_encoding_seq::<SpritePart>(self@.parts, order, SpritePart::writer(order));
            lemma_concat_assoc(old(out)@, written, parts);
        }
        Ok(())
    }
}

impl Animation {
    /// What a read of an animation at `pos` of `data` gives: a count, an
    /// unknown word, and as many steps as the count says. The file holds no
    /// name.
    #[verifier::opaque]
    pub open spec fn decoded(data: Seq<u8>, pos: int, order: ByteOrder) -> Result<
        (AnimationModel, int),
        Failure,
    > {
        if pos + 4 > data.len() {
            Err(Failure::Truncated)
        } else {
            match parse_seq(
                data,
                pos + 4,
                u16_at(data, pos, order) as nat,
                AnimationStep::reader(order),
            ) {
                Err(failure) => Err(failure),
                Ok((steps, end)) => Ok(
                    (AnimationModel { name: None, unk: u16_at(data, pos + 2, order), steps }, end),
                ),
            }
        }
    }

    /// The bytes that are written for an animation: the low 16 bits of the
    /// number of its steps, the unknown word, and the steps. The name is not
    /// written.
    #[verifier::opaque]
    pub open spec fn encoded(value: AnimationModel, order: ByteOrder) -> Seq<u8> {
        u16_bytes(value.steps.len() as u16, order) + u16_bytes(value.unk, order) + seq_encoding(
            value.steps,
            AnimationStep::writer(order),
        )
    }

    /// Whether the number of steps fits the count.
    pub open spec fn fits(value: AnimationModel) -> bool {
        value.steps.len() <= u16::MAX
    }

    /// The animation as it is read back from its own bytes: without a name.
    pub open spec fn normal(value: AnimationModel) -> AnimationModel {
        AnimationModel { name: None, unk: value.unk, steps: value.steps }
    }

    /// The function that reads an animation in `order`.
    pub open spec fn reader(order: ByteOrder) -> spec_fn(Seq<u8>, int) -> Result<
        (AnimationModel, int),
        Failure,
    > {
        |data: Seq<u8>, pos: int| Self::decoded(data, pos, order)
    }

    /// The function that gives the bytes of an animation in `order`.
    pub open spec fn writer(order: ByteOrder) -> spec_fn(AnimationModel) -> Seq<u8> {
        |value: AnimationModel| Self::encoded(value, order)
    }

    /// Where `data` holds the bytes of a list of steps, a read of as many
    /// steps there gives the list.
    pub proof fn lemma_steps_decoded(
        steps: Seq<AnimationStep>,
        order: ByteOrder,
        data: Seq<u8>,
        pos: int,
    )
        requires
            holds_at(data, pos, seq_encoding(steps, AnimationStep::writer(order))),
        ensures
            parse_seq(data, pos, steps.len(), AnimationStep::reader(order)) == Ok::<
                (Seq<AnimationStep>, int),
                Failure,
            >((steps, pos + seq_encoding(steps, AnimationStep::writer(order)).len())),
    {
        lemma_list_encoding_seq::<AnimationStep>(steps, order, AnimationStep::writer(order));
        lemma_parse_list_encoding::<AnimationStep>(steps, order, data, pos);
        lemma_parse_list_seq::<AnimationStep>(
            data,
            pos,
            steps.len(),
            order,
            AnimationStep::reader(order),
        );
        assert(list_canonical::<AnimationStep>(steps) =~= steps);
    }

    /// The bytes written for an animation that fits are read back as that
    /// animation without its name, which is written as the same bytes.
    pub proof fn lemma_decoded_encoded(
        value: AnimationModel,
        order: ByteOrder,
        data: Seq<u8>,
        pos: int,
    )
        requires
            Self::fits(value),
            holds_at(data, pos, Self::encoded(value, order)),
        ensures
            Self::decoded(data, pos, order) == Ok::<(AnimationModel, int), Failure>(
                (Self::normal(value), pos + Self::encoded(value, order).len()),
            ),
            Self::encoded(Self::normal(value), order) == Self::encoded(value, order),
    {
        reveal(Animation::decoded);
        reveal(Animation::encoded);
        let count = u16_bytes(value.steps.len() as u16, order);
        let unk = u16_bytes(value.unk, order);
        let steps = seq_encoding(value.steps, AnimationStep::writer(order));
        assert(count.len() == 2);
        assert(unk.len() == 2);
        lemma_holds_at_bounds(data, pos, count + unk + steps);
        lemma_holds_at_concat(data, pos, count + unk, steps);
        lemma_holds_at_concat(data, pos, count, unk);
        lemma_u16_at_bytes(value.steps.len() as u16, order, data, pos);
        lemma_u16_at_bytes(value.unk, order, data, pos + 2);
        Self::lemma_steps_decoded(value.steps, order, data, pos + 4);
    }
}

impl ByteStream for Animation {
    open spec fn parse(data: Seq<u8>, pos: int, order: ByteOrder) -> Result<
        (AnimationModel, int),
        Failure,
    > {
        Self::decoded(data, pos, order)
    }

    open spec fn encoding(value: AnimationModel, order: ByteOrder) -> Seq<u8> {
        Self::encoded(value, order)
    }

    open spec fn representable(value: AnimationModel) -> bool {
        Self::fits(value)
    }

    open spec fn canonical(value: AnimationModel) -> AnimationModel {
        Self::normal(value)
    }

    proof fn lemma_parse_encoding(
        value: AnimationModel,
        order: ByteOrder,
        data: Seq<u8>,
        pos: int,
    ) {
        Self::lemma_decoded_encoded(value, order, data, pos);
    }

    fn read_from(reader: &mut Reader<'_>, order: ByteOrder) -> (r: Result<Self, Error>) {
        proof {
            reveal(Animation::decoded);
        }
        let step_count = reader.read_u16(order)?;
        let unk = reader.read_u16(order)?;
        proof {
            lemma_parse_list_seq::<AnimationStep>(
                reader.data@,
                reader.pos as int,
                step_count as nat,
                order,
                AnimationStep::reader(order),
            );
        }
        let steps = read_list::<AnimationStep>(reader, step_count as usize, order)?;
        Ok(Animation { name: None, unk, steps })
    }

    fn write_to(&self, out: &mut Vec<u8>, order: ByteOrder) -> (r: Result<(), Error>) {
        proof {
            reveal(Animation::encoded);
        }
        let count = #[verifier::truncate] (self.steps.len() as u16);
        write_u16(count, out, order)?;
        let ghost written = u16_bytes(count, order);
        write_u16(self.unk, out, order)?;
        proof {
            lemma_concat_assoc(old(out)@, written, u16_bytes(self.unk, order));
        }
        let ghost written = written + u16_bytes(self.unk, order);
        write_list(&self.steps, out, order)?;
        proof {
            let steps = seq_encoding(self@.steps, AnimationStep::writer(order));
            lemma_list_encoding_seq::<AnimationStep>(
                self@.steps,
                order,
                AnimationStep::writer(order),
            );
            lemma_concat_assoc(old(out)@, written, steps);
        }
        Ok(())
    }
}

impl BRCAD {
    /// The header that the 20 bytes of `data` from `pos` on denote, with the
    /// given sprites and animations. A timestamp that is the known one is
    /// read as `None`.
    pub open spec fn header_at(
        data: Seq<u8>,
        pos: int,
        mid: int,
        order: ByteOrder,
        sprites: Seq<SpriteModel>,
        animations: Seq<AnimationModel>,
    ) -> BrcadModel {
        BrcadModel {
            timestamp: if u32_at(data, pos, order) == BRCAD_TIMESTAMP {
                None
            } else {
                Some(u32_at(data, pos, order))
            },
            unk0: u32_at(data, pos + 4, order),
            spritesheet_num: u16_at(data, pos + 8, order),
            spritesheet_control: u16_at(data, pos + 10, order),
            texture_width: u16_at(data, pos + 12, order),
            texture_height: u16_at(data, pos + 14, order),
            unk1: u16_at(data, pos + 18, order),
            sprites,
            unk2: u16_at(data, mid + 2, order),
            animations,
        }
    }

    /// What a read of a document at `pos` of `data` gives: the header, which
    /// ends in the number of sprites and an unknown word, the sprites, the
    /// number of animations and an unknown word, and the animations.
    #[verifier::opaque]
    pub open spec fn decoded(data: Seq<u8>, pos: int, order: ByteOrder) -> Result<
        (BrcadModel, int),
        Failure,
    > {
        if pos + 20 > data.len() {
            Err(Failure::Truncated)
        } else {
            match parse_seq(
                data,
                pos + 20,
                u16_at(data, pos + 16, order) as nat,
                Sprite::reader(order),
            ) {
                Err(failure) => Err(failure),
                Ok((sprites, mid)) => if mid + 4 > data.len() {
                    Err(Failure::Truncated)
                } else {
                    match parse_seq(
                        data,
                        mid + 4,
                        u16_at(data, mid, order) as nat,
                        Animation::reader(order),
                    ) {
                        Err(failure) => Err(failure),
                        Ok((animations, end)) => Ok(
                            (Self::header_at(data, pos, mid, order, sprites, animations), end),
                        ),
                    }
                },
            }
        }
    }

    /// The timestamp that is written for a document: its own, or the known
    /// one where it has none.
    pub open spec fn written_timestamp(timestamp: Option<u32>) -> u32 {
        match timestamp {
            Some(timestamp) => timestamp,
            None => BRCAD_TIMESTAMP,
        }
    }

    /// The bytes that are written for a document: the header, the sprites
    /// and the animations, each list behind the low 16 bits of its length
    /// and an unknown word.
    #[verifier::opaque]
    pub open spec fn encoded(value: BrcadModel, order: ByteOrder) -> Seq<u8> {
        u32_bytes(Self::written_timestamp(value.timestamp), order) + u32_bytes(value.unk0, order)
            + u16_bytes(value.spritesheet_num, order) + u16_bytes(
            value.spritesheet_control,
            order,
        ) + u16_bytes(value.texture_width, order) + u16_bytes(value.texture_height, order)
            + u16_bytes(value.sprites.len() as u16, order) + u16_bytes(value.unk1, order)
            + seq_encoding(value.sprites, Sprite::writer(order)) + u16_bytes(
            value.animations.len() as u16,
            order,
        ) + u16_bytes(value.unk2, order) + seq_encoding(
            value.animations,
            Animation::writer(order),
        )
    }

    /// Whether the bytes can hold all of the document: each count fits its
    /// field.
    pub open spec fn fits(value: BrcadModel) -> bool {
        &&& value.sprites.len() <= u16::MAX
        &&& value.animations.len() <= u16::MAX
        &&& forall|i: int|
            0 <= i < value.sprites.len() ==> Sprite::fits(#[trigger] value.sprites[i])
        &&& forall|i: int|
            0 <= i < value.animations.len() ==> Animation::fits(#[trigger] value.animations[i])
    }

    /// The document as it is read back from its own bytes: with no timestamp
    /// where it had the known one, and with no names.
    pub open spec fn normal(value: BrcadModel) -> BrcadModel {
        BrcadModel {
            timestamp: if value.timestamp == Some(BRCAD_TIMESTAMP) {
                None
            } else {
                value.timestamp
            },
            unk0: value.unk0,
            spritesheet_num: value.spritesheet_num,
            spritesheet_control: value.spritesheet_control,
            texture_width: value.texture_width,
            texture_height: value.texture_height,
            unk1: value.unk1,
            sprites: value.sprites,
            unk2: value.unk2,
            animations: Seq::new(
                value.animations.len(),
                |i: int| Animation::normal(value.animations[i]),
            ),
        }
    }

    /// Where `data` holds the bytes of a document, it holds the bytes of each
    /// of its fields at the field's place.
    proof fn lemma_fields_held(value: BrcadModel, order: ByteOrder, data: Seq<u8>, pos: int)
        requires
            holds_at(data, pos, Self::encoded(value, order)),
        ensures
            holds_at(data, pos, u32_bytes(Self::written_timestamp(value.timestamp), order)),
            holds_at(data, pos + 4, u32_bytes(value.unk0, order)),
            holds_at(data, pos + 8, u16_bytes(value.spritesheet_num, order)),
            holds_at(data, pos + 10, u16_bytes(value.spritesheet_control, order)),
            holds_at(data, pos + 12, u16_bytes(value.texture_width, order)),
            holds_at(data, pos + 14, u16_bytes(value.texture_height, order)),
            holds_at(data, pos + 16, u16_bytes(value.sprites.len() as u16, order)),
            holds_at(data, pos + 18, u16_bytes(value.unk1, order)),
            holds_at(data, pos + 20, seq_encoding(value.sprites, Sprite::writer(order))),
            holds_at(
                data,
                pos + 20 + seq_encoding(value.sprites, Sprite::writer(order)).len(),
                u16_bytes(value.animations.len() as u16, order),
            ),
            holds_at(
                data,
                pos + 22 + seq_encoding(value.sprites, Sprite::writer(order)).len(),
                u16_bytes(value.unk2, order),
            ),
            holds_at(
                data,
                pos + 24 + seq_encoding(value.sprites, Sprite::writer(order)).len(),
                seq_encoding(value.animations, Animation::writer(order)),
            ),
            Self::encoded(value, order).len() == 24 + seq_encoding(
                value.sprites,
                Sprite::writer(order),
            ).len() + seq_encoding(value.animations, Animation::writer(order)).len(),
            pos + Self::encoded(value, order).len() <= data.len(),
    {
        reveal(BRCAD::encoded);
        let seg0 = u32_bytes(Self::written_timestamp(value.timestamp), order);
        let seg1 = u32_bytes(value.unk0, order);
        let seg2 = u16_bytes(value.spritesheet_num, order);
        let seg3 = u16_bytes(value.spritesheet_control, order);
        let seg4 = u16_bytes(value.texture_width, order);
        let seg5 = u16_bytes(value.texture_height, order);
        let seg6 = u16_bytes(value.sprites.len() as u16, order);
        let seg7 = u16_bytes(value.unk1, order);
        let seg8 = seq_encoding(value.sprites, Sprite::writer(order));
        let seg9 = u16_bytes(value.animations.len() as u16, order);
        let seg10 = u16_bytes(value.unk2, order);
        let seg11 = seq_encoding(value.animations, Animation::writer(order));
        let upto1 = seg0 + seg1;
        let upto2 = upto1 + seg2;
        let upto3 = upto2 + seg3;
        let upto4 = upto3 + seg4;
        let upto5 = upto4 + seg5;
        let upto6 = upto5 + seg6;
        let upto7 = upto6 + seg7;
        let upto8 = upto7 + seg8;
        let upto9 = upto8 + seg9;
        let upto10 = upto9 + seg10;
        let upto11 = upto10 + seg11;
        assert(seg0.len() == 4);
        assert(seg1.len() == 4);
        assert(seg2.len() == 2);
        assert(seg3.len() == 2);
        assert(seg4.len() == 2);
        assert(seg5.len() == 2);
        assert(seg6.len() == 2);
        assert(seg7.len() == 2);
        assert(seg9.len() == 2);
        assert(seg10.len() == 2);
        lemma_holds_at_bounds(data, pos, upto11);
        lemma_holds_at_concat(data, pos, upto10, seg11);
        lemma_holds_at_concat(data, pos, upto9, seg10);
        lemma_holds_at_concat(data, pos, upto8, seg9);
        lemma_holds_at_concat(data, pos, upto7, seg8);
        lemma_holds_at_concat(data, pos, upto6, seg7);
        lemma_holds_at_concat(data, pos, upto5, seg6);
        lemma_holds_at_concat(data, pos, upto4, seg5);
        lemma_holds_at_concat(data, pos, upto3, seg4);
        lemma_holds_at_concat(data, pos, upto2, seg3);
        lemma_holds_at_concat(data, pos, upto1, seg2);
        lemma_holds_at_concat(data, pos, seg0, seg1);
    }

    /// Where `data` holds the bytes of a list of sprites that fit, a read of
    /// as many sprites there gives the list.
    pub proof fn lemma_sprites_decoded(
        sprites: Seq<SpriteModel>,
        order: ByteOrder,
        data: Seq<u8>,
        pos: int,
    )
        requires
            forall|i: int| 0 <= i < sprites.len() ==> Sprite::fits(#[trigger] sprites[i]),
            holds_at(data, pos, seq_encoding(sprites, Sprite::writer(order))),
        ensures
            parse_seq(data, pos, sprites.len(), Sprite::reader(order)) == Ok::<
                (Seq<SpriteModel>, int),
                Failure,
            >((sprites, pos + seq_encoding(sprites, Sprite::writer(order)).len())),
    {
        lemma_list_encoding_seq::<Sprite>(sprites, order, Sprite::writer(order));
        lemma_parse_list_encoding::<Sprite>(sprites, order, data, pos);
        lemma_parse_list_seq::<Sprite>(data, pos, sprites.len(), order, Sprite::reader(order));
        assert(list_canonical::<Sprite>(sprites) =~= sprites);
    }

    /// The animations of a document as they are read back: without names.
    pub open spec fn normal_animations(animations: Seq<AnimationModel>) -> Seq<AnimationModel> {
        Seq::new(animations.len(), |i: int| Animation::normal(animations[i]))
    }

    /// Where `data` holds the bytes of a list of animations that fit, a read
    /// of as many animations there gives the list without the names.
    pub proof fn lemma_animations_decoded(
        animations: Seq<AnimationModel>,
        order: ByteOrder,
        data: Seq<u8>,
        pos: int,
    )
        requires
            forall|i: int|
                0 <= i < animations.len() ==> Animation::fits(#[trigger] animations[i]),
            holds_at(data, pos, seq_encoding(animations, Animation::writer(order))),
        ensures
            parse_seq(data, pos, animations.len(), Animation::reader(order)) == Ok::<
                (Seq<AnimationModel>, int),
                Failure,
            >(
                (
                    Self::normal_animations(animations),
                    pos + seq_encoding(animations, Animation::writer(order)).len(),
                ),
            ),
    {
        lemma_list_encoding_seq::<Animation>(animations, order, Animation::writer(order));
        lemma_parse_list_encoding::<Animation>(animations, order, data, pos);
        lemma_parse_list_seq::<Animation>(
            data,
            pos,
            animations.len(),
            order,
            Animation::reader(order),
        );
        assert(list_canonical::<Animation>(animations) =~= Self::normal_animations(animations));
    }

    /// The names of animations are not written.
    pub proof fn lemma_names_not_written(animations: Seq<AnimationModel>, order: ByteOrder)
        ensures
            seq_encoding(Self::normal_animations(animations), Animation::writer(order))
                == seq_encoding(animations, Animation::writer(order)),
        decreases animations.len(),
    {
        reveal(Animation::encoded);
        if animations.len() > 0 {
            let front = animations.drop_last();
            Self::lemma_names_not_written(front, order);
            assert(Self::normal_animations(animations).drop_last() =~= Self::normal_animations(
                front,
            ));
        }
    }

    /// The bytes that are written for a document start with its timestamp.
    pub proof fn lemma_timestamp_first(value: BrcadModel, order: ByteOrder)
        ensures
            u32_at(Self::encoded(value, order), 0, order) == Self::written_timestamp(
                value.timestamp,
            ),
            Self::encoded(value, order).len() >= 4,
    {
        let bytes = Self::encoded(value, order);
        lemma_holds_at_start(bytes);
        Self::lemma_fields_held(value, order, bytes, 0);
        lemma_u32_at_bytes(Self::written_timestamp(value.timestamp), order, bytes, 0);
    }

    /// The normal form of a document is written as the same bytes as the
    /// document, and fits where the document fits.
    pub proof fn lemma_normal_encoded(value: BrcadModel, order: ByteOrder)
        ensures
            Self::encoded(Self::normal(value), order) == Self::encoded(value, order),
            Self::fits(value) ==> Self::fits(Self::normal(value)),
    {
        reveal(BRCAD::encoded);
        Self::lemma_names_not_written(value.animations, order);
        assert(Self::written_timestamp(Self::normal(value).timestamp) == Self::written_timestamp(
            value.timestamp,
        ));
    }

    /// A read of a document gives what its fields are read as.
    proof fn lemma_decoded_from_fields(
        value: BrcadModel,
        order: ByteOrder,
        data: Seq<u8>,
        pos: int,
        mid: int,
        end: int,
    )
        requires
            end <= data.len(),
            u32_at(data, pos, order) == Self::written_timestamp(value.timestamp),
            u32_at(data, pos + 4, order) == value.unk0,
            u16_at(data, pos + 8, order) == value.spritesheet_num,
            u16_at(data, pos + 10, order) == value.spritesheet_control,
            u16_at(data, pos + 12, order) == value.texture_width,
            u16_at(data, pos + 14, order) == value.texture_height,
            u16_at(data, pos + 16, order) == value.sprites.len(),
            u16_at(data, pos + 18, order) == value.unk1,
            parse_seq(data, pos + 20, value.sprites.len(), Sprite::reader(order)) == Ok::<
                (Seq<SpriteModel>, int),
                Failure,
            >((value.sprites, mid)),
            pos + 20 <= mid,
            u16_at(data, mid, order) == value.animations.len(),
            u16_at(data, mid + 2, order) == value.unk2,
            parse_seq(data, mid + 4, value.animations.len(), Animation::reader(order)) == Ok::<
                (Seq<AnimationModel>, int),
                Failure,
            >((Self::normal_animations(value.animations), end)),
            mid + 4 <= end,
        ensures
            Self::decoded(data, pos, order) == Ok::<(BrcadModel, int), Failure>(
                (Self::normal(value), end),
            ),
    {
        reveal(BRCAD::decoded);
    }

    /// Where `data` holds the bytes written for a document that fits, a read
    /// there gives the normal form of the document and ends behind the bytes.
    pub proof fn lemma_decoded_encoded(
        value: BrcadModel,
        order: ByteOrder,
        data: Seq<u8>,
        pos: int,
    )
        requires
            Self::fits(value),
            holds_at(data, pos, Self::encoded(value, order)),
        ensures
            Self::decoded(data, pos, order) == Ok::<(BrcadModel, int), Failure>(
                (Self::normal(value), pos + Self::encoded(value, order).len()),
            ),
    {
        let mid = pos + 20 + seq_encoding(value.sprites, Sprite::writer(order)).len();
        let end = mid + 4 + seq_encoding(value.animations, Animation::writer(order)).len();
        Self::lemma_fields_held(value, order, data, pos);
        lemma_u32_at_bytes(Self::written_timestamp(value.timestamp), order, data, pos);
        lemma_u32_at_bytes(value.unk0, order, data, pos + 4);
        lemma_u16_at_bytes(value.spritesheet_num, order, data, pos + 8);
        lemma_u16_at_bytes(value.spritesheet_control, order, data, pos + 10);
        lemma_u16_at_bytes(value.texture_width, order, data, pos + 12);
        lemma_u16_at_bytes(value.texture_height, order, data, pos + 14);
        lemma_u16_at_bytes(value.sprites.len() as u16, order, data, pos + 16);
        lemma_u16_at_bytes(value.unk1, order, data, pos + 18);
        Self::lemma_sprites_decoded(value.sprites, order, data, pos + 20);
        lemma_u16_at_bytes(value.animations.len() as u16, order, data, mid);
        lemma_u16_at_bytes(value.unk2, order, data, mid + 2);
        Self::lemma_animations_decoded(value.animations, order, data, mid + 4);
        Self::lemma_decoded_from_fields(value, order, data, pos, mid, end);
    }

    /// Reads a document in `order` from where `reader` stands.
    fn read_from(reader: &mut Reader<'_>, order: ByteOrder) -> (r: Result<Self, Error>)
        ensures
            final(reader).data == old(reader).data,
            read_outcome(
                r,
                Self::decoded(old(reader).data@, old(reader).pos as int, order),
                final(reader).pos,
            ),
    {
        proof {
            reveal(BRCAD::decoded);
        }
        let timestamp = reader.read_u32(order)?;
        let unk0 = reader.read_u32(order)?;
        let spritesheet_num = reader.read_u16(order)?;
        let spritesheet_control = reader.read_u16(order)?;
        let texture_width = reader.read_u16(order)?;
        let texture_height = reader.read_u16(order)?;
        let sprite_count = reader.read_u16(order)?;
        let unk1 = reader.read_u16(order)?;
        proof {
            lemma_parse_list_seq::<Sprite>(
                reader.data@,
                reader.pos as int,
                sprite_count as nat,
                order,
                Sprite::reader(order),
            );
        }
        let sprites = read_list::<Sprite>(reader, sprite_count as usize, order)?;
        let animation_count = reader.read_u16(order)?;
        let unk2 = reader.read_u16(order)?;
        proof {
            lemma_parse_list_seq::<Animation>(
                reader.data@,
                reader.pos as int,
                animation_count as nat,
                order,
                Animation::reader(order),
            );
        }
        let animations = read_list::<Animation>(reader, animation_count as usize, order)?;
        let timestamp = if timestamp == BRCAD_TIMESTAMP {
            None
        } else {
            Some(timestamp)
        };
        Ok(
            BRCAD {
                timestamp,
                unk0,
                spritesheet_num,
                spritesheet_control,
                texture_width,
                texture_height,
                unk1,
                sprites,
                unk2,
                animations,
            },
        )
    }

    /// Appends the bytes of the document in `order` to `out`.
    fn write_to(&self, out: &mut Vec<u8>, order: ByteOrder) -> (r: Result<(), Error>)
        ensures
            r is Ok,
            final(out)@ == old(out)@ + Self::encoded(self@, order),
    {
        proof {
            reveal(BRCAD::encoded);
        }
        let timestamp = match self.timestamp {
            Some(timestamp) => timestamp,
            None => BRCAD_TIMESTAMP,
        };
        let sprite_count = #[verifier::truncate] (self.sprites.len() as u16);
        let animation_count = #[verifier::truncate] (self.animations.len() as u16);
        write_u32(timestamp, out, order)?;
        let ghost written = u32_bytes(timestamp, order);
        write_u32(self.unk0, out, order)?;
        proof {
            lemma_concat_assoc(old(out)@, written, u32_bytes(self.unk0, order));
        }
        let ghost written = written + u32_bytes(self.unk0, order);
        write_u16(self.spritesheet_num, out, order)?;
        proof {
            lemma_concat_assoc(old(out)@, written, u16_bytes(self.spritesheet_num, order));
        }
        let ghost written = written + u16_bytes(self.spritesheet_num, order);
        write_u16(self.spritesheet_control, out, order)?;
        proof {
            lemma_concat_assoc(old(out)@, written, u16_bytes(self.spritesheet_control, order));
        }
        let ghost written = written + u16_bytes(self.spritesheet_control, order);
        write_u16(self.texture_width, out, order)?;
        proof {
            lemma_concat_assoc(old(out)@, written, u16_bytes(self.texture_width, order));
        }
        let ghost written = written + u16_bytes(self.texture_width, order);
        write_u16(self.texture_height, out, order)?;
        proof {
            lemma_concat_assoc(old(out)@, written, u16_bytes(self.texture_height, order));
        }
        let ghost written = written + u16_bytes(self.texture_height, order);
        write_u16(sprite_count, out, order)?;
        proof {
            lemma_concat_assoc(old(out)@, written, u16_bytes(sprite_count, order));
        }
        let ghost written = written + u16_bytes(sprite_count, order);
        write_u16(self.unk1, out, order)?;
        proof {
            lemma_concat_assoc(old(out)@, written, u16_bytes(self.unk1, order));
        }
        let ghost written = written + u16_bytes(self.unk1, order);
        write_list(&self.sprites, out, order)?;
        let ghost sprites = seq_encoding(self@.sprites, Sprite::writer(order));
        proof {
            lemma_list_encoding_seq::<Sprite>(self@.sprites, order, Sprite::writer(order));
            lemma_concat_assoc(old(out)@, written, sprites);
        }
        let ghost written = written + sprites;
        write_u16(animation_count, out, order)?;
        proof {
            lemma_concat_assoc(old(out)@, written, u16_bytes(animation_count, order));
        }
        let ghost written = written + u16_bytes(animation_count, order);
        write_u16(self.unk2, out, order)?;
        proof {
            lemma_concat_assoc(old(out)@, written, u16_bytes(self.unk2, order));
        }
        let ghost written = written + u16_bytes(self.unk2, order);
        write_list(&self.animations, out, order)?;
        let ghost animations = seq_encoding(self@.animations, Animation::writer(order));
        proof {
            lemma_list_encoding_seq::<Animation>(self@.animations, order, Animation::writer(order));
            lemma_concat_assoc(old(out)@, written, animations);
        }
        Ok(())
    }
}

impl BXCAD for BRCAD {
    const BYTE_ORDER: ByteOrder = ByteOrder::BigEndian;

    const TIMESTAMP: u32 = BRCAD_TIMESTAMP;

    const BXCAD_TYPE: BXCADType = BXCADType::BRCAD;

    open spec fn parse(data: Seq<u8>, pos: int) -> Result<(BrcadModel, int), Failure> {
        Self::decoded(data, pos, ByteOrder::BigEndian)
    }

    open spec fn encoding(value: BrcadModel) -> Seq<u8> {
        Self::encoded(value, ByteOrder::BigEndian)
    }

    fn from_binary(f: &mut Reader<'_>) -> (r: Result<Self, Error>) {
        let start = f.pos;
        match Self::read_from(f, ByteOrder::BigEndian) {
            Ok(brcad) => Ok(brcad),
            Err(e) => {
                f.pos = start;
                Err(e)
            },
        }
    }

    fn to_binary(&self, f: &mut Vec<u8>) -> (r: Result<(), Error>) {
        self.write_to(f, ByteOrder::BigEndian)
    }
}

/// What the constants of the format are: the byte order, the timestamp and
/// the type of a BRCAD.
pub proof fn lemma_brcad_constants()
    ensures
        BRCAD::BYTE_ORDER == ByteOrder::BigEndian,
        BRCAD::TIMESTAMP == BRCAD_TIMESTAMP,
        BRCAD::BXCAD_TYPE == BXCADType::BRCAD,
{
}

/// A stream of bytes that was written for a document is read back and
/// written again as the same bytes, byte for byte, with the zero bytes that
/// end its parts.
pub proof fn lemma_brcad_round_trip(value: BrcadModel, bytes: Seq<u8>)
    requires
        BRCAD::fits(value),
        bytes == BRCAD::encoding(value),
    ensures
        BRCAD::parse(bytes, 0) matches Ok((read, end)) && BRCAD::encoding(read) == bytes && end
            == bytes.len(),
{
    lemma_holds_at_start(bytes);
    BRCAD::lemma_decoded_encoded(value, ByteOrder::BigEndian, bytes, 0);
    BRCAD::lemma_normal_encoded(value, ByteOrder::BigEndian);
}

} // verus!
