//! Error handling
use vstd::prelude::*;

verus! {

#[verifier::external_type_specification]
#[verifier::external_body]
pub struct ExIoError(std::io::Error);

#[verifier::external_type_specification]
#[verifier::external_body]
pub struct ExFromUtf8Error(std::string::FromUtf8Error);

/// Why a read of a value from bytes cannot succeed.
pub enum Failure {
    /// The bytes end before the value does.
    Truncated,
    /// A string's bytes are not UTF-8.
    InvalidUtf8,
}

/// Error type for flour
#[derive(Debug)]
pub enum Error {
    /// Error passed from std::io: the bytes ended before a value did
    IOError(std::io::Error),
    /// Error passed from semver crate, as the text of its message
    SemverError(String),
    /// A string in the file is not UTF-8
    StringUtf8Error(std::string::FromUtf8Error),
    /// Labels were given for a file that is not a BRCAD
    LabelsOnNotBRCAD,
    /// The named feature is not implemented
    NonImplementedFeature(String),
    /// BRCAD labels file is invalid
    BadLabelsFile,
    /// BRCAD labels file is not Shift-JIS
    LabelsFileNotShiftJIS,
    /// Interpreting a BXCADWrapper from an incompatible version, which is
    /// held as text
    IncompatibleVersion(String),
    /// An indexized document holds no sprite, so it has no highest index
    EmptyIndexized,
    /// File is not a BXCAD
    NotBXCAD,
}

impl Error {
    /// Whether this error is the one that a read gives for `failure`.
    pub open spec fn reports(self, failure: Failure) -> bool {
        match failure {
            Failure::Truncated => self is IOError,
            Failure::InvalidUtf8 => self is StringUtf8Error,
        }
    }
}

/// Result type for flour
pub type Result<T> = std::result::Result<T, Error>;

} // verus!
