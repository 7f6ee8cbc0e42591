//! Indexization: a presentation of a document in which each sprite stands
//! under its index in a map, so that a reader of the text sees which sprite
//! an animation step refers to.
use vstd::prelude::*;
use std::collections::BTreeMap;
use crate::bxcad::bccad;
use crate::bxcad::brcad;
use crate::bxcad::BXCAD;
use crate::bytestream_addon::views;
use crate::error::Error;

verus! {

/// The map that holds each item of a sequence under its index. A key has 16
/// bits: an index that does not fit is cut to its low 16 bits, and of two
/// items that then share a key the later one stays.
pub open spec fn indexed<V>(items: Seq<V>) -> Map<u16, V>
    decreases items.len(),
{
    if items.len() == 0 {
        Map::empty()
    } else {
        indexed(items.drop_last()).insert((items.len() - 1) as u16, items.last())
    }
}

/// Whether `key` is the highest key of `map`.
pub open spec fn is_max_key<V>(map: Map<u16, V>, key: u16) -> bool {
    map.dom().contains(key) && forall|other: u16| map.dom().contains(other) ==> other <= key
}

/// The highest key of a map that is not empty.
pub open spec fn max_key<V>(map: Map<u16, V>) -> u16 {
    choose|key: u16| is_max_key(map, key)
}

/// The sequence from index 0 to the highest key of `map`, which holds at each
/// index what the map holds under it, and `filler` where the map holds
/// nothing.
pub open spec fn dense<V>(map: Map<u16, V>, filler: V) -> Seq<V> {
    Seq::new(
        max_key(map) as nat + 1,
        |i: int|
            if map.dom().contains(i as u16) {
                map[i as u16]
            } else {
                filler
            },
    )
}

/// The models of the values of a map.
pub open spec fn map_views<T: View>(map: Map<u16, T>) -> Map<u16, T::V> {
    Map::new(|key: u16| map.dom().contains(key), |key: u16| map[key]@)
}

/// A key that is the highest key of a map is its `max_key`.
pub proof fn lemma_max_key<V>(map: Map<u16, V>, key: u16)
    requires
        is_max_key(map, key),
    ensures
        max_key(map) == key,
{
    let chosen = max_key(map);
    assert(is_max_key(map, chosen));
}

/// A sequence of at most 65536 items is indexed without loss: the keys are
/// the indices, and each item stands under its own.
pub proof fn lemma_indexed<V>(items: Seq<V>)
    requires
        items.len() <= 65536,
    ensures
        forall|key: u16| #[trigger] indexed(items).dom().contains(key) <==> key < items.len(),
        forall|key: u16| key < items.len() ==> #[trigger] indexed(items)[key] == items[key as int],
    decreases items.len(),
{
    if items.len() > 0 {
        let front = items.drop_last();
        let top = (items.len() - 1) as u16;
        lemma_indexed(front);
        assert forall|key: u16| #[trigger]
            indexed(items).dom().contains(key) <==> key < items.len() by {
            if key != top {
                assert(indexed(items).dom().contains(key) == indexed(front).dom().contains(key));
            }
        }
        assert forall|key: u16| key < items.len() implies #[trigger] indexed(items)[key]
            == items[key as int] by {
            if key != top {
                assert(indexed(front).dom().contains(key));
                assert(indexed(front)[key] == front[key as int]);
            }
        }
    }
}

/// Indexization inverse on dense input: a sequence of at least one and at
/// most 65536 items is got back from its indexed form, with no filler.
pub proof fn lemma_dense_indexed<V>(items: Seq<V>, filler: V)
    requires
        0 < items.len() <= 65536,
    ensures
        dense(indexed(items), filler) == items,
{
    lemma_indexed(items);
    let top = (items.len() - 1) as u16;
    assert(indexed(items).dom().contains(top));
    lemma_max_key(indexed(items), top);
    assert(dense(indexed(items), filler) =~= items);
}

/// Trait for BXCAD types that allow "indexization", that is, conversion for their `Sprite` lists
/// from a Vec to some sort of Map (usually BTreeMap<uint, Sprite>)
pub trait Indexizable: BXCAD {
    /// The type that contains indexized data for this BXCAD
    type Indexized: View;

    /// What the indexized form of a document holds.
    spec fn indexized(value: Self::V) -> <Self::Indexized as View>::V;

    /// What the document of an indexized form holds; there is none where the
    /// form has no sprite.
    spec fn deindexized(value: <Self::Indexized as View>::V) -> Option<Self::V>;

    /// Convert a standard BXCAD to indexized
    fn to_indexized(self) -> (r: Self::Indexized)
        ensures
            r@ == Self::indexized(self@),
    ;

    /// Convert the indexized data to a standard BXCAD, which spans the
    /// indices from 0 to the highest key, with an empty sprite wherever the
    /// data has none. Data without any sprite has no highest key and is
    /// refused.
    fn from_indexized(og: Self::Indexized) -> (r: Result<Self, Error>)
        ensures
            match Self::deindexized(og@) {
                Some(value) => r matches Ok(bxcad) && bxcad@ == value,
                None => r matches Err(Error::EmptyIndexized),
            },
    ;
}

/// [Indexizable::Indexized] variant of [crate::BCCAD]
///
/// See that type for more information
#[derive(Clone, Debug, PartialEq, Eq)]
pub struct IndexizedBCCAD {
    pub timestamp: Option<u32>,
    pub texture_width: u16,
    pub texture_height: u16,
    pub sprites: BTreeMap<u16, bccad::Sprite>,
    pub animations: Vec<bccad::Animation>,
}

/// What an [`IndexizedBCCAD`] holds.
pub struct IndexizedBccadModel {
    pub timestamp: Option<u32>,
    pub texture_width: u16,
    pub texture_height: u16,
    pub sprites: Map<u16, Seq<bccad::SpritePart>>,
    pub animations: Seq<bccad::AnimationModel>,
}

impl View for IndexizedBCCAD {
    type V = IndexizedBccadModel;

    open spec fn view(&self) -> IndexizedBccadModel {
        IndexizedBccadModel {
            timestamp: self.timestamp,
            texture_width: self.texture_width,
            texture_height: self.texture_height,
            sprites: map_views(self.sprites@),
            animations: views(self.animations@),
        }
    }
}

/// Finds the highest key of a map that is not empty.
fn highest_key<S>(map: &BTreeMap<u16, S>) -> (r: u16)
    requires
        !map@.dom().is_empty(),
    ensures
        is_max_key(map@, r),
{
    let ghost some = choose|key: u16| map@.dom().contains(key);
    let mut key: u16 = u16::MAX;
    while !map.contains_key(&key)
        invariant
            map@.dom().contains(some),
            some <= key,
            forall|other: u16| map@.dom().contains(other) ==> other <= key,
        decreases key,
    {
        key = key - 1;
    }
    key
}

impl Indexizable for bccad::BCCAD {
    type Indexized = IndexizedBCCAD;

    open spec fn indexized(value: bccad::BccadModel) -> IndexizedBccadModel {
        IndexizedBccadModel {
            timestamp: value.timestamp,
            texture_width: value.texture_width,
            texture_height: value.texture_height,
            sprites: indexed(value.sprites),
            animations: value.animations,
        }
    }

    open spec fn deindexized(value: IndexizedBccadModel) -> Option<bccad::BccadModel> {
        if value.sprites.dom().is_empty() {
            None
        } else {
            Some(
                bccad::BccadModel {
                    timestamp: value.timestamp,
                    texture_width: value.texture_width,
                    texture_height: value.texture_height,
                    sprites: dense(value.sprites, Seq::empty()),
                    animations: value.animations,
                },
            )
        }
    }

    fn to_indexized(self) -> (r: IndexizedBCCAD) {
        let mut sprites: BTreeMap<u16, bccad::Sprite> = BTreeMap::new();
        let mut i: usize = 0;
        assert(views(self.sprites@).take(0) =~= Seq::empty());
        assert(map_views(sprites@) =~= indexed(views(self.sprites@).take(0)));
        while i < self.sprites.len()
            invariant
                i <= self.sprites.len(),
                map_views(sprites@) == indexed(views(self.sprites@).take(i as int)),
            decreases self.sprites.len() - i,
        {
            let ghost before = sprites@;
            let sprite = self.sprites[i].clone();
            sprites.insert(#[verifier::truncate] (i as u16), sprite);
            proof {
                let front = views(self.sprites@).take(i as int);
                let next = views(self.sprites@).take(i + 1);
                assert(next.drop_last() =~= front);
                assert(next.last() == self.sprites[i as int]@);
                assert(map_views(sprites@) =~= map_views(before).insert(i as u16, sprite@));
            }
            i = i + 1;
        }
        assert(views(self.sprites@).take(i as int) =~= views(self.sprites@));
        IndexizedBCCAD {
            timestamp: self.timestamp,
            texture_width: self.texture_width,
            texture_height: self.texture_height,
            sprites,
            animations: self.animations,
        }
    }

    fn from_indexized(og: IndexizedBCCAD) -> (r: Result<Self, Error>) {
        if og.sprites.is_empty() {
            assert(og@.sprites.dom() =~= Set::empty());
            return Err(Error::EmptyIndexized);
        }
        assert(og@.sprites.dom() =~= og.sprites@.dom());
        let top = highest_key(&og.sprites);
        proof {
            lemma_max_key(og@.sprites, top);
        }
        let mut sprites: Vec<bccad::Sprite> = Vec::new();
        let mut i: u16 = 0;
        let mut done = false;
        while !done
            invariant
                i <= top,
                sprites@.len() == if done { i + 1 } else { i as int },
                forall|k: int|
                    0 <= k < sprites@.len() ==> (#[trigger] sprites@[k])@ == if og.sprites@.dom(
                    ).contains(k as u16) {
                        og.sprites@[k as u16]@
                    } else {
                        Seq::empty()
                    },
                done ==> i == top,
            decreases top - i + if done { 0int } else { 1int },
        {
            let sprite = match og.sprites.get(&i) {
                Some(c) => c.clone(),
                None => bccad::Sprite { parts: Vec::new() },
            };
            assert(sprite@ == if og.sprites@.dom().contains(i) {
                og.sprites@[i]@
            } else {
                Seq::empty()
            }) by {
                assert(views(Seq::<bccad::SpritePart>::empty()) =~= Seq::empty());
            }
            sprites.push(sprite);
            if i == top {
                done = true;
            } else {
                i = i + 1;
            }
        }
        assert(views(sprites@) =~= dense(og@.sprites, Seq::empty()));
        Ok(
            bccad::BCCAD {
                timestamp: og.timestamp,
                texture_width: og.texture_width,
                texture_height: og.texture_height,
                sprites,
                animations: og.animations,
            },
        )
    }
}

/// [Indexizable::Indexized] variant of [crate::BRCAD]
///
/// See that type for more information
#[derive(Clone, Debug, PartialEq, Eq)]
pub struct IndexizedBRCAD {
    pub timestamp: Option<u32>,
    pub unk0: u32,
    pub spritesheet_num: u16,
    pub spritesheet_control: u16,
    pub texture_width: u16,
    pub texture_height: u16,
    pub unk1: u16,
    pub sprites: BTreeMap<u16, brcad::Sprite>,
    pub unk2: u16,
    pub animations: Vec<brcad::Animation>,
}

/// What an [`IndexizedBRCAD`] holds.
pub struct IndexizedBrcadModel {
    pub timestamp: Option<u32>,
    pub unk0: u32,
    pub spritesheet_num: u16,
    pub spritesheet_control: u16,
    pub texture_width: u16,
    pub texture_height: u16,
    pub unk1: u16,
    pub sprites: Map<u16, brcad::SpriteModel>,
    pub unk2: u16,
    pub animations: Seq<brcad::AnimationModel>,
}

impl View for IndexizedBRCAD {
    type V = IndexizedBrcadModel;

    open spec fn view(&self) -> IndexizedBrcadModel {
        IndexizedBrcadModel {
            timestamp: self.timestamp,
            unk0: self.unk0,
            spritesheet_num: self.spritesheet_num,
            spritesheet_control: self.spritesheet_control,
            texture_width: self.texture_width,
            texture_height: self.texture_height,
            unk1: self.unk1,
            sprites: map_views(self.sprites@),
            unk2: self.unk2,
            animations: views(self.animations@),
        }
    }
}

/// The sprite that fills an index of a BRCAD under which nothing stands: no
/// parts, and zero in its unknown word.
pub open spec fn empty_sprite() -> brcad::SpriteModel {
    brcad::SpriteModel { unk: 0, parts: Seq::empty() }
}

impl Indexizable for brcad::BRCAD {
    type Indexized = IndexizedBRCAD;

    open spec fn indexized(value: brcad::BrcadModel) -> IndexizedBrcadModel {
        IndexizedBrcadModel {
            timestamp: value.timestamp,
            unk0: value.unk0,
            spritesheet_num: value.spritesheet_num,
            spritesheet_control: value.spritesheet_control,
            texture_width: value.texture_width,
            texture_height: value.texture_height,
            unk1: value.unk1,
            sprites: indexed(value.sprites),
            unk2: value.unk2,
            animations: value.animations,
        }
    }

    open spec fn deindexized(value: IndexizedBrcadModel) -> Option<brcad::BrcadModel> {
        if value.sprites.dom().is_empty() {
            None
        } else {
            Some(
                brcad::BrcadModel {
                    timestamp: value.timestamp,
                    unk0: value.unk0,
                    spritesheet_num: value.spritesheet_num,
                    spritesheet_control: value.spritesheet_control,
                    texture_width: value.texture_width,
                    texture_height: value.texture_height,
                    unk1: value.unk1,
                    sprites: dense(value.sprites, empty_sprite()),
                    unk2: value.unk2,
                    animations: value.animations,
                },
            )
        }
    }

    fn to_indexized(self) -> (r: IndexizedBRCAD) {
        let mut sprites: BTreeMap<u16, brcad::Sprite> = BTreeMap::new();
        let mut i: usize = 0;
        assert(views(self.sprites@).take(0) =~= Seq::empty());
        assert(map_views(sprites@) =~= indexed(views(self.sprites@).take(0)));
        while i < self.sprites.len()
            invariant
                i <= self.sprites.len(),
                map_views(sprites@) == indexed(views(self.sprites@).take(i as int)),
            decreases self.sprites.len() - i,
        {
            let ghost before = sprites@;
            let sprite = self.sprites[i].clone();
            sprites.insert(#[verifier::truncate] (i as u16), sprite);
            proof {
                let front = views(self.sprites@).take(i as int);
                let next = views(self.sprites@).take(i + 1);
                assert(next.drop_last() =~= front);
                assert(next.last() == self.sprites[i as int]@);
                assert(map_views(sprites@) =~= map_views(before).insert(i as u16, sprite@));
            }
            i = i + 1;
        }
        assert(views(self.sprites@).take(i as int) =~= views(self.sprites@));
        IndexizedBRCAD {
            timestamp: self.timestamp,
            unk0: self.unk0,
            spritesheet_num: self.spritesheet_num,
            spritesheet_control: self.spritesheet_control,
            texture_width: self.texture_width,
            texture_height: self.texture_height,
            unk1: self.unk1,
            sprites,
            unk2: self.unk2,
            animations: self.animations,
        }
    }

    fn from_indexized(og: IndexizedBRCAD) -> (r: Result<Self, Error>) {
        if og.sprites.is_empty() {
            assert(og@.sprites.dom() =~= Set::empty());
            return Err(Error::EmptyIndexized);
        }
        assert(og@.sprites.dom() =~= og.sprites@.dom());
        let top = highest_key(&og.sprites);
        proof {
            lemma_max_key(og@.sprites, top);
        }
        let mut sprites: Vec<brcad::Sprite> = Vec::new();
        let mut i: u16 = 0;
        let mut done = false;
        while !done
            invariant
                i <= top,
                sprites@.len() == if done { i + 1 } else { i as int },
                forall|k: int|
                    0 <= k < sprites@.len() ==> (#[trigger] sprites@[k])@ == if og.sprites@.dom(
                    ).contains(k as u16) {
                        og.sprites@[k as u16]@
                    } else {
                        empty_sprite()
                    },
                done ==> i == top,
            decreases top - i + if done { 0int } else { 1int },
        {
            let sprite = match og.sprites.get(&i) {
                Some(c) => c.clone(),
                None => brcad::Sprite { unk: 0, parts: Vec::new() },
            };
            assert(sprite@ == if og.sprites@.dom().contains(i) {
                og.sprites@[i]@
            } else {
                empty_sprite()
            }) by {
                assert(views(Seq::<brcad::SpritePart>::empty()) =~= Seq::empty());
            }
            sprites.push(sprite);
            if i == top {
                done = true;
            } else {
                i = i + 1;
            }
        }
        assert(views(sprites@) =~= dense(og@.sprites, empty_sprite()));
        Ok(
            brcad::BRCAD {
                timestamp: og.timestamp,
                unk0: og.unk0,
                spritesheet_num: og.spritesheet_num,
                spritesheet_control: og.spritesheet_control,
                texture_width: og.texture_width,
                texture_height: og.texture_height,
                unk1: og.unk1,
                sprites,
                unk2: og.unk2,
                animations: og.animations,
            },
        )
    }
}

/// Indexization inverse on dense input, for BCCAD: a document with at least
/// one and at most 65536 sprites is got back from its indexized form, with no
/// sprite added.
pub proof fn lemma_bccad_indexization_inverse(value: bccad::BccadModel)
    requires
        0 < value.sprites.len() <= 65536,
    ensures
        bccad::BCCAD::deindexized(bccad::BCCAD::indexized(value)) == Some(value),
{
    lemma_indexed(value.sprites);
    assert(indexed(value.sprites).dom().contains(0));
    lemma_dense_indexed(value.sprites, Seq::empty());
}

/// Indexization inverse on dense input, for BRCAD: a document with at least
/// one and at most 65536 sprites is got back from its indexized form, with no
/// sprite added.
pub proof fn lemma_brcad_indexization_inverse(value: brcad::BrcadModel)
    requires
        0 < value.sprites.len() <= 65536,
    ensures
        brcad::BRCAD::deindexized(brcad::BRCAD::indexized(value)) == Some(value),
{
    lemma_indexed(value.sprites);
    assert(indexed(value.sprites).dom().contains(0));
    lemma_dense_indexed(value.sprites, empty_sprite());
}

} // verus!
