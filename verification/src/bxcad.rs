//! A model for the generic BXCAD format, as well as known implementations of
//! it.
use vstd::prelude::*;
use vstd::string::*;
use crate::bxcad::qol::Indexizable;
use crate::bytestream_addon::read_outcome;
use crate::bytestream_addon::u32_at;
use crate::bytestream_addon::ByteOrder;
use crate::bytestream_addon::Reader;
use crate::error::Error;
use crate::error::Failure;

/// Everything related to the BCCAD format used in Rhythm Heaven Megamix
pub mod bccad;
/// Everything related to the BRCAD format used in Rhythm Heaven Fever
pub mod brcad;
/// Names for the animations of a BRCAD
pub mod labels;
/// QoL features for the editable form
pub mod qol;
/// The packed fields of a BRCAD in the editable form
pub mod serde_impl;

verus! {

/// Oldest supported BXCAD version by the current ver.
pub const OLDEST_SUPPORTED_VERSION: &'static str = "2.0.0-pre1";

/// The version of this library, which a wrapper is stamped with.
pub const FLOUR_VERSION: &'static str = "2.1.0";

/// A trait that encapsulates the basics of the BCAD / BXCAD formats
pub trait BXCAD: Sized + View {
    /// Endianness of the file
    const BYTE_ORDER: ByteOrder;

    /// Last revision timestamp - used to identify different versions
    /// of the format
    const TIMESTAMP: u32;

    /// Variant of the BXCADType enum that applies to it
    const BXCAD_TYPE: BXCADType;

    /// What a read of a document at `pos` of `data` gives: the model of the
    /// document and the position behind it, or why there is no document.
    spec fn parse(data: Seq<u8>, pos: int) -> Result<(Self::V, int), Failure>;

    /// The bytes that are written for a document with this model.
    spec fn encoding(value: Self::V) -> Seq<u8>;

    /// Function that takes a buffer and interprets its contents as the
    /// given BXCAD format. Where the contents are no such document, the
    /// reader stays where it is.
    fn from_binary(f: &mut Reader<'_>) -> (r: Result<Self, Error>)
        ensures
            final(f).data == old(f).data,
            read_outcome(r, Self::parse(old(f).data@, old(f).pos as int), final(f).pos),
            r is Err ==> final(f).pos == old(f).pos,
    ;

    /// Function that creates the binary representation of the BXCAD file
    /// from its definition
    fn to_binary(&self, f: &mut Vec<u8>) -> (r: Result<(), Error>)
        ensures
            r is Ok,
            final(f)@ == old(f)@ + Self::encoding(self@),
    ;

    /// Checks whether a given buffer contains BXCAD data for the
    /// given format: whether the four bytes ahead are the format's timestamp.
    /// The reader stays where it is.
    fn is_format(f: &mut Reader<'_>) -> (r: Result<bool, Error>)
        ensures
            *final(f) == *old(f),
            match r {
                Ok(found) => old(f).has(4) && found == (u32_at(
                    old(f).data@,
                    old(f).pos as int,
                    Self::BYTE_ORDER,
                ) == Self::TIMESTAMP),
                Err(e) => !old(f).has(4) && e is IOError,
            },
    {
        let start = f.pos;
        let timestamp = f.read_u32(Self::BYTE_ORDER)?;
        f.pos = start;
        Ok(timestamp == Self::TIMESTAMP)
    }
}

/// An enum of all the different types of BXCAD supported by this library
#[derive(Clone, Copy, Debug, PartialEq, Eq, Structural)]
#[non_exhaustive]
pub enum BXCADType {
    /// BRCAD, used with Rhythm Heaven Fever. See [`brcad`]
    BRCAD,
    /// BCCAD, used with Rhythm Heaven Megamix. See [`bccad`]
    BCCAD,
}

/// The type of the document whose first four bytes stand at `pos` of `data`:
/// BCCAD where they are its timestamp in little-endian order, else BRCAD
/// where they are its timestamp in big-endian order, else none.
pub open spec fn identified(data: Seq<u8>, pos: int) -> Option<BXCADType> {
    if u32_at(data, pos, ByteOrder::LittleEndian) == bccad::BCCAD_TIMESTAMP {
        Some(BXCADType::BCCAD)
    } else if u32_at(data, pos, ByteOrder::BigEndian) == brcad::BRCAD_TIMESTAMP {
        Some(BXCADType::BRCAD)
    } else {
        None
    }
}

/// Returns the builtin BXCAD type associated with the given file, if any.
/// The reader stays where it is.
pub fn get_bxcad_type(f: &mut Reader<'_>) -> (r: Result<Option<BXCADType>, Error>)
    ensures
        *final(f) == *old(f),
        match r {
            Ok(found) => old(f).has(4) && found == identified(old(f).data@, old(f).pos as int),
            Err(e) => !old(f).has(4) && e is IOError,
        },
{
    proof {
        bccad::lemma_bccad_constants();
        brcad::lemma_brcad_constants();
    }
    if bccad::BCCAD::is_format(f)? {
        Ok(Some(BXCADType::BCCAD))
    } else if brcad::BRCAD::is_format(f)? {
        Ok(Some(BXCADType::BRCAD))
    } else {
        Ok(None)
    }
}

/// No four bytes are the timestamp of a BCCAD in little-endian order and
/// that of a BRCAD in big-endian order at once: a file that starts with the
/// one is never taken for the other.
pub proof fn lemma_formats_apart(data: Seq<u8>, pos: int)
    ensures
        u32_at(data, pos, ByteOrder::LittleEndian) == bccad::BCCAD_TIMESTAMP ==> identified(
            data,
            pos,
        ) == Some(BXCADType::BCCAD) && u32_at(data, pos, ByteOrder::BigEndian)
            != brcad::BRCAD_TIMESTAMP,
        u32_at(data, pos, ByteOrder::BigEndian) == brcad::BRCAD_TIMESTAMP ==> identified(data, pos)
            == Some(BXCADType::BRCAD),
{
    let b0 = data[pos];
    let b1 = data[pos + 1];
    let b2 = data[pos + 2];
    let b3 = data[pos + 3];
    assert(!((((b3 as u32) << 24) | ((b2 as u32) << 16) | ((b1 as u32) << 8) | (b0 as u32))
        == 20131007u32 && (((b0 as u32) << 24) | ((b1 as u32) << 16) | ((b2 as u32) << 8) | (
    b3 as u32)) == 20100312u32)) by (bit_vector);
}

/// The bytes that are written for a BCCAD with the known timestamp are
/// identified as a BCCAD.
pub proof fn lemma_bccad_identified(value: bccad::BccadModel, bytes: Seq<u8>)
    requires
        value.timestamp is None || value.timestamp == Some(bccad::BCCAD_TIMESTAMP),
        bytes == bccad::BCCAD::encoding(value),
    ensures
        identified(bytes, 0) == Some(BXCADType::BCCAD),
{
    bccad::BCCAD::lemma_timestamp_first(value, ByteOrder::LittleEndian);
    lemma_formats_apart(bytes, 0);
}

/// The bytes that are written for a BRCAD with the known timestamp are
/// identified as a BRCAD.
pub proof fn lemma_brcad_identified(value: brcad::BrcadModel, bytes: Seq<u8>)
    requires
        value.timestamp is None || value.timestamp == Some(brcad::BRCAD_TIMESTAMP),
        bytes == brcad::BRCAD::encoding(value),
    ensures
        identified(bytes, 0) == Some(BXCADType::BRCAD),
{
    brcad::BRCAD::lemma_timestamp_first(value, ByteOrder::BigEndian);
    lemma_formats_apart(bytes, 0);
}

/// Bounding box for a sprite part's texture in the texture sheet
#[derive(Clone, Copy, Debug, PartialEq, Eq, Structural)]
pub struct PosInTexture {
    pub x: u16,
    pub y: u16,
    pub width: u16,
    pub height: u16,
}

/// A wrapper that contains data about the BXCAD file, meant to be used
/// with serializing/deserializing
#[non_exhaustive]
pub struct BXCADWrapper<X> {
    /// Type of the BXCAD file
    pub bxcad_type: BXCADType,
    /// flour version that was used to create this file (SemVer)
    pub flour_version: String,
    /// Whether the data holds its sprites in a map, each under its index
    pub indexize: bool,
    /// Actual BXCAD data
    pub data: X,
}

/// What semver makes of a requirement and a version, both given as text:
/// whether the version satisfies the requirement, or nothing where one of the
/// two texts is not of semver's grammar.
pub uninterp spec fn semver_matches(requirement: Seq<char>, version: Seq<char>) -> Option<bool>;

/// Asks semver whether `version` satisfies `requirement`. The two texts are
/// parsed with `VersionReq::parse` and `Version::parse`, and the answer is
/// that of `VersionReq::matches`; it depends on the two texts alone and goes
/// by the name `semver_matches`. Where a text does not parse, the message of
/// semver's error is returned.
#[verifier::external_body]
fn version_matches(requirement: &str, version: &str) -> (r: Result<bool, String>)
    ensures
        match r {
            Ok(found) => semver_matches(requirement@, version@) == Some(found),
            Err(_) => semver_matches(requirement@, version@) is None,
        },
{
    let requirement = match semver::VersionReq::parse(requirement) {
        Ok(requirement) => requirement,
        Err(e) => return Err(e.to_string()),
    };
    let version = match semver::Version::parse(version) {
        Ok(version) => version,
        Err(e) => return Err(e.to_string()),
    };
    Ok(requirement.matches(&version))
}

/// The requirement that the version of a wrapper has to satisfy: not above
/// this library's version and not below the oldest supported one.
pub open spec fn requirement_text() -> Seq<char> {
    "<="@ + FLOUR_VERSION@ + ", >="@ + OLDEST_SUPPORTED_VERSION@
}

/// Writes the requirement that the version of a wrapper has to satisfy.
pub fn version_requirement() -> (r: String)
    ensures
        r@ == requirement_text(),
{
    let mut requirement = "<=".to_owned();
    requirement.append(FLOUR_VERSION);
    requirement.append(", >=");
    requirement.append(OLDEST_SUPPORTED_VERSION);
    requirement
}

/// What unwrapping gives for each outcome of the check of the version: the
/// data where the version is compatible, and else the error.
pub fn unwrap_checked<X>(outcome: Result<bool, String>, flour_version: String, data: X) -> (r:
    Result<X, Error>)
    ensures
        match outcome {
            Ok(true) => r == Ok::<X, Error>(data),
            Ok(false) => r matches Err(Error::IncompatibleVersion(version)) && version
                == flour_version,
            Err(message) => r matches Err(Error::SemverError(text)) && text == message,
        },
{
    match outcome {
        Ok(true) => Ok(data),
        Ok(false) => Err(Error::IncompatibleVersion(flour_version)),
        Err(message) => Err(Error::SemverError(message)),
    }
}

/// What unwrapping a wrapper with the given version gives, by what semver
/// makes of the version: the data where the version satisfies the
/// requirement, and else the error.
pub open spec fn unwrapped<X>(r: Result<X, Error>, flour_version: Seq<char>, data: X) -> bool {
    match semver_matches(requirement_text(), flour_version) {
        Some(true) => r == Ok::<X, Error>(data),
        Some(false) => r matches Err(Error::IncompatibleVersion(version)) && version@
            == flour_version,
        None => r is Err && r->Err_0 is SemverError,
    }
}

impl<X: BXCAD> BXCADWrapper<X> {
    /// Create a BXCADWrapper from the given BXCAD struct, stamped with the
    /// version of this library.
    pub fn from_bxcad(bxcad: X) -> (r: Self)
        ensures
            r.bxcad_type == X::BXCAD_TYPE,
            r.flour_version@ == FLOUR_VERSION@,
            !r.indexize,
            r.data == bxcad,
    {
        BXCADWrapper {
            bxcad_type: X::BXCAD_TYPE,
            flour_version: FLOUR_VERSION.to_owned(),
            indexize: false,
            data: bxcad,
        }
    }

    /// Return the wrapper's BXCAD data if compatible: if its version
    /// satisfies the requirement. A wrapper that says that its data is
    /// indexized holds no document to return as it is, and is refused.
    pub fn to_bxcad(self) -> (r: Result<X, Error>)
        ensures
            if self.indexize && semver_matches(requirement_text(), self.flour_version@) == Some(
                true,
            ) {
                r is Err && r->Err_0 is NonImplementedFeature
            } else {
                unwrapped(r, self.flour_version@, self.data)
            },
    {
        let requirement = version_requirement();
        let outcome = version_matches(requirement.as_str(), self.flour_version.as_str());
        let indexize = self.indexize;
        let data = unwrap_checked(outcome, self.flour_version, self.data)?;
        if indexize {
            Err(Error::NonImplementedFeature("indexize".to_owned()))
        } else {
            Ok(data)
        }
    }
}

impl<X: Indexizable> BXCADWrapper<X> {
    /// Create a BXCADWrapper from the indexized form of the given BXCAD
    /// struct, stamped with the version of this library.
    pub fn from_bxcad_indexize(bxcad: X) -> (r: BXCADWrapper<X::Indexized>)
        ensures
            r.bxcad_type == X::BXCAD_TYPE,
            r.flour_version@ == FLOUR_VERSION@,
            r.indexize,
            r.data@ == X::indexized(bxcad@),
    {
        let data = bxcad.to_indexized();
        BXCADWrapper {
            bxcad_type: X::BXCAD_TYPE,
            flour_version: FLOUR_VERSION.to_owned(),
            indexize: true,
            data,
        }
    }

    /// Return the document of a wrapper of indexized data if compatible: if
    /// the wrapper's version satisfies the requirement, and if the data
    /// holds a sprite.
    pub fn indexized_to_bxcad(wrapper: BXCADWrapper<X::Indexized>) -> (r: Result<X, Error>)
        ensures
            match semver_matches(requirement_text(), wrapper.flour_version@) {
                Some(true) => match X::deindexized(wrapper.data@) {
                    Some(value) => r matches Ok(bxcad) && bxcad@ == value,
                    None => r matches Err(Error::EmptyIndexized),
                },
                Some(false) => r matches Err(Error::IncompatibleVersion(version)) && version@
                    == wrapper.flour_version@,
                None => r is Err && r->Err_0 is SemverError,
            },
    {
        let requirement = version_requirement();
        let outcome = version_matches(requirement.as_str(), wrapper.flour_version.as_str());
        let data = unwrap_checked(outcome, wrapper.flour_version, wrapper.data)?;
        X::from_indexized(data)
    }
}

} // verus!
